//! The editor-facing protocol: routing its methods and opening a connection.

use crate::text::text_equal;
use vstd::prelude::*;

verus! {

/// The error codes that editors are answered with.
#[derive(Clone, Copy, Debug, PartialEq, Eq, Structural)]
pub enum AcpErrorCode {
    InvalidParams,
    InvalidRequest,
    InternalError,
    MethodNotFound,
    ResourceNotFound,
    ServerError,
}

/// A refused request of an editor: the code, a fixed text, and what is
/// appended to it.
#[derive(Debug)]
pub struct AcpRejection {
    pub code: AcpErrorCode,
    pub text: &'static str,
    pub detail: Option<String>,
}

impl AcpRejection {
    /// The message an editor sees.
    pub open spec fn message_view(self) -> Seq<char> {
        match self.detail {
            Some(detail) => self.text@ + detail@,
            None => self.text@,
        }
    }

    /// The message an editor sees.
    pub fn message(&self) -> (r: String)
        ensures
            r@ == self.message_view(),
    {
        let mut message = self.text.to_owned();
        if let Some(detail) = &self.detail {
            message.append(detail.as_str());
        }
        message
    }
}

/// A rejection with a fixed message.
pub open spec fn acp_rejection(code: AcpErrorCode, text: &'static str) -> AcpRejection {
    AcpRejection { code, text, detail: None }
}

/// A rejection whose message ends in `detail`.
pub open spec fn acp_rejection_about(
    code: AcpErrorCode,
    text: &'static str,
    detail: String,
) -> AcpRejection {
    AcpRejection { code, text, detail: Some(detail) }
}

/// Builds a rejection with a fixed message.
pub fn acp_reject(code: AcpErrorCode, text: &'static str) -> (r: AcpRejection)
    ensures
        r == acp_rejection(code, text),
{
    AcpRejection { code, text, detail: None }
}

/// Builds a rejection whose message ends in `detail`.
pub fn acp_reject_about(code: AcpErrorCode, text: &'static str, detail: String) -> (r: AcpRejection)
    ensures
        r == acp_rejection_about(code, text, detail),
{
    AcpRejection { code, text, detail: Some(detail) }
}

/// Who handles a method.
#[derive(Clone, Copy, Debug, PartialEq, Eq, Structural)]
pub enum AcpRoute {
    Cancel,
    SessionInterrupt,
    Close,
    Delete,
    List,
    Load,
    New,
    Prompt,
    Resume,
    SetConfigOption,
    SetMode,
}

/// The method that goes this route.
pub open spec fn method_of(route: AcpRoute) -> Seq<char> {
    match route {
        AcpRoute::Cancel => "session/cancel"@,
        AcpRoute::SessionInterrupt => "session/interrupt"@,
        AcpRoute::Close => "session/close"@,
        AcpRoute::Delete => "session/delete"@,
        AcpRoute::List => "session/list"@,
        AcpRoute::Load => "session/load"@,
        AcpRoute::New => "session/new"@,
        AcpRoute::Prompt => "session/prompt"@,
        AcpRoute::Resume => "session/resume"@,
        AcpRoute::SetConfigOption => "session/set_config_option"@,
        AcpRoute::SetMode => "session/set_mode"@,
    }
}

/// The route that a method goes, if it is one of the protocol.
pub fn acp_route(method: &str) -> (r: Option<AcpRoute>)
    ensures
        match r {
            Some(route) => method@ == method_of(route),
            None => forall|route: AcpRoute| method@ != #[trigger] method_of(route),
        },
{
    if text_equal(method, "session/cancel") {
        Some(AcpRoute::Cancel)
    } else if text_equal(method, "session/interrupt") {
        Some(AcpRoute::SessionInterrupt)
    } else if text_equal(method, "session/close") {
        Some(AcpRoute::Close)
    } else if text_equal(method, "session/delete") {
        Some(AcpRoute::Delete)
    } else if text_equal(method, "session/list") {
        Some(AcpRoute::List)
    } else if text_equal(method, "session/load") {
        Some(AcpRoute::Load)
    } else if text_equal(method, "session/new") {
        Some(AcpRoute::New)
    } else if text_equal(method, "session/prompt") {
        Some(AcpRoute::Prompt)
    } else if text_equal(method, "session/resume") {
        Some(AcpRoute::Resume)
    } else if text_equal(method, "session/set_config_option") {
        Some(AcpRoute::SetConfigOption)
    } else if text_equal(method, "session/set_mode") {
        Some(AcpRoute::SetMode)
    } else {
        None
    }
}

/// No two routes share a method, so the method decides the route.
pub proof fn law_methods_decide_routes(a: AcpRoute, b: AcpRoute)
    requires
        method_of(a) == method_of(b),
    ensures
        a == b,
{
    reveal_strlit("session/cancel");
    reveal_strlit("session/interrupt");
    reveal_strlit("session/close");
    reveal_strlit("session/delete");
    reveal_strlit("session/list");
    reveal_strlit("session/load");
    reveal_strlit("session/new");
    reveal_strlit("session/prompt");
    reveal_strlit("session/resume");
    reveal_strlit("session/set_config_option");
    reveal_strlit("session/set_mode");
    let x = method_of(a);
    let y = method_of(b);
    assert(x[8] == y[8] && x[9] == y[9]);
    assert(x.len() == y.len());
}

/// Where a connection stands.
#[derive(Clone, Copy, Debug, PartialEq, Eq, Structural)]
pub enum ConnectionState {
    Connected,
    Initializing,
    Ready,
    Closed,
}

/// Why a connection that stands here cannot be initialized, if it cannot.
pub open spec fn initialize_refusal(state: Option<ConnectionState>) -> Option<&'static str> {
    match state {
        Some(ConnectionState::Connected) => None,
        Some(ConnectionState::Initializing) => Some("connection initialization is in progress"),
        Some(ConnectionState::Ready) => Some("connection is already initialized"),
        Some(ConnectionState::Closed) => Some("connection is closed"),
        None => Some("connection is not registered"),
    }
}

/// Begins to initialize a connection. Says why it cannot be done, or the state
/// in which the connection is from now on.
pub fn begin_initialize(state: Option<ConnectionState>) -> (r: Result<ConnectionState, AcpRejection>)
    ensures
        match (r, initialize_refusal(state)) {
            (Ok(after), None) => after is Initializing,
            (Err(why), Some(text)) => why == acp_rejection(AcpErrorCode::InvalidRequest, text),
            _ => false,
        },
{
    match state {
        Some(ConnectionState::Connected) => Ok(ConnectionState::Initializing),
        Some(ConnectionState::Initializing) => Err(
            acp_reject(AcpErrorCode::InvalidRequest, "connection initialization is in progress"),
        ),
        Some(ConnectionState::Ready) => Err(
            acp_reject(AcpErrorCode::InvalidRequest, "connection is already initialized"),
        ),
        Some(ConnectionState::Closed) => Err(
            acp_reject(AcpErrorCode::InvalidRequest, "connection is closed"),
        ),
        None => Err(acp_reject(AcpErrorCode::InvalidRequest, "connection is not registered")),
    }
}

/// The protocol that a connection speaks.
#[derive(Clone, Copy, Debug, PartialEq, Eq, Structural)]
pub enum ConnectionProtocol {
    Native,
    Acp,
}

/// What a client asks for when it initializes a connection.
#[derive(Clone, Copy, Debug)]
pub struct InitializeRequest {
    /// Whether the request asks for typed items.
    pub typed_items: bool,
    /// Whether the client's capabilities ask for typed items.
    pub typed_items_by_capability: bool,
    /// Whether the client asks for the native protocol.
    pub native: bool,
}

/// The protocol that a client asks for.
pub open spec fn protocol_of(request: InitializeRequest) -> ConnectionProtocol {
    if request.native {
        ConnectionProtocol::Native
    } else {
        ConnectionProtocol::Acp
    }
}

/// The protocol that a client asks for.
pub fn requested_protocol(request: InitializeRequest) -> (r: ConnectionProtocol)
    ensures
        r == protocol_of(request),
{
    if request.native {
        ConnectionProtocol::Native
    } else {
        ConnectionProtocol::Acp
    }
}

/// An initialized connection.
#[derive(Clone, Copy, Debug, PartialEq, Eq, Structural)]
pub struct ReadyConnection {
    pub protocol: ConnectionProtocol,
    pub authenticated: bool,
    pub typed_items: bool,
}

/// How initializing a connection ends.
#[derive(Clone, Copy, Debug, PartialEq, Eq, Structural)]
pub enum InitializeEnd {
    /// The protocol is not offered. The connection, where it is still there
    /// and still being initialized, can try again.
    NotEnabled,
    /// The connection went away meanwhile.
    NotRegistered,
    Ready(ReadyConnection),
}

/// How a connection that is found in `state` ends up, and in which state.
pub open spec fn initialized(
    state: Option<ConnectionState>,
    enabled: bool,
    request: InitializeRequest,
    login_required: bool,
) -> (InitializeEnd, Option<ConnectionState>) {
    if !enabled {
        (
            InitializeEnd::NotEnabled,
            if state == Some(ConnectionState::Initializing) {
                Some(ConnectionState::Connected)
            } else {
                state
            },
        )
    } else if state is None {
        (InitializeEnd::NotRegistered, None)
    } else {
        (
            InitializeEnd::Ready(
                ReadyConnection {
                    protocol: protocol_of(request),
                    authenticated: request.native || !login_required,
                    typed_items: request.typed_items || request.typed_items_by_capability,
                },
            ),
            Some(ConnectionState::Ready),
        )
    }
}

/// Finishes initializing a connection that is found in `state` now. A client
/// of the native protocol, or any client where none has to log in, counts as
/// authenticated. Gives the state in which the connection is left, too.
pub fn finish_initialize(
    state: Option<ConnectionState>,
    enabled: bool,
    request: InitializeRequest,
    login_required: bool,
) -> (r: (InitializeEnd, Option<ConnectionState>))
    ensures
        r == initialized(state, enabled, request, login_required),
{
    if !enabled {
        let after = match state {
            Some(ConnectionState::Initializing) => Some(ConnectionState::Connected),
            state => state,
        };
        return (InitializeEnd::NotEnabled, after);
    }
    match state {
        None => (InitializeEnd::NotRegistered, None),
        Some(_) => (
            InitializeEnd::Ready(
                ReadyConnection {
                    protocol: requested_protocol(request),
                    authenticated: request.native || !login_required,
                    typed_items: request.typed_items || request.typed_items_by_capability,
                },
            ),
            Some(ConnectionState::Ready),
        ),
    }
}

/// What is said where a protocol is not offered.
pub fn not_enabled_message(surface: &str, enabled: &str) -> (r: String)
    ensures
        r@ == "protocol surface "@ + surface@ + " is not enabled; enabled protocols: "@ + enabled@,
{
    let mut message = "protocol surface ".to_owned();
    message.append(surface);
    message.append(" is not enabled; enabled protocols: ");
    message.append(enabled);
    message
}

/// What a client learns of the server beyond the protocol.
#[derive(Debug)]
pub struct ServerMeta {
    pub platform_family: String,
    pub platform_os: String,
    pub server_home: Option<String>,
    /// Whether typed items and the native protocol are confirmed; nothing
    /// where neither is.
    pub extension: Option<(bool, bool)>,
}

/// What a client learns of the server.
pub open spec fn meta_told(
    platform_family: String,
    platform_os: String,
    server_home: String,
    login_required: bool,
    ready: ReadyConnection,
) -> ServerMeta {
    ServerMeta {
        platform_family,
        platform_os,
        server_home: if login_required {
            None
        } else {
            Some(server_home)
        },
        extension: if ready.typed_items || ready.protocol is Native {
            Some((ready.typed_items, ready.protocol is Native))
        } else {
            None
        },
    }
}

/// What a client learns of the server. Where clients have to log in, they do
/// not learn where its files are.
pub fn server_meta(
    platform_family: String,
    platform_os: String,
    server_home: String,
    login_required: bool,
    ready: ReadyConnection,
) -> (r: ServerMeta)
    ensures
        r == meta_told(platform_family, platform_os, server_home, login_required, ready),
{
    let native = match ready.protocol {
        ConnectionProtocol::Native => true,
        ConnectionProtocol::Acp => false,
    };
    let server_home = if login_required {
        None
    } else {
        Some(server_home)
    };
    let extension = if ready.typed_items || native {
        Some((ready.typed_items, native))
    } else {
        None
    };
    ServerMeta { platform_family, platform_os, server_home, extension }
}

/// A connection is initialized once: as soon as it is ready, every further
/// attempt is refused.
pub proof fn law_connections_are_initialized_once(state: Option<ConnectionState>)
    ensures
        initialize_refusal(Some(ConnectionState::Ready)) is Some,
        initialize_refusal(state) is None ==> state == Some(ConnectionState::Connected),
{
}

/// A connection is initialized where it is connected and not yet more; whatever
/// else it is, it is told why not.
pub proof fn law_only_new_connections_are_initialized(state: Option<ConnectionState>)
    ensures
        initialize_refusal(state) is None <==> state == Some(ConnectionState::Connected),
        initialize_refusal(None) matches Some(text) && text@ == "connection is not registered"@,
        initialize_refusal(Some(ConnectionState::Closed)) matches Some(text) && text@
            == "connection is closed"@,
        initialize_refusal(Some(ConnectionState::Ready)) matches Some(text) && text@
            == "connection is already initialized"@,
        initialize_refusal(Some(ConnectionState::Initializing)) matches Some(text) && text@
            == "connection initialization is in progress"@,
{
}

/// A client that asks for the native protocol gets it, and any other the
/// editors' one.
pub proof fn law_clients_get_the_protocol_they_ask_for(request: InitializeRequest)
    ensures
        request.native ==> protocol_of(request) is Native,
        !request.native ==> protocol_of(request) is Acp,
{
}

/// How initializing ends: a protocol that is not enabled leaves the connection
/// to try again, a connection that is gone stays gone, and any other is ready.
/// Clients of the native protocol are authenticated, and others where none has to
/// log in; items are typed where the client says so in either way.
pub proof fn law_initialized_connections_are_ready(
    state: Option<ConnectionState>,
    enabled: bool,
    request: InitializeRequest,
    login_required: bool,
    r: (InitializeEnd, Option<ConnectionState>),
)
    requires
        r == initialized(state, enabled, request, login_required),
    ensures
        !enabled ==> r.0 is NotEnabled,
        !enabled && state == Some(ConnectionState::Initializing) ==> r.1 == Some(
            ConnectionState::Connected,
        ),
        !enabled && state != Some(ConnectionState::Initializing) ==> r.1 == state,
        enabled && state is None ==> r.0 is NotRegistered && r.1 is None,
        enabled && state is Some ==> r.1 == Some(ConnectionState::Ready) && (
        r.0 matches InitializeEnd::Ready(ready) && {
            &&& request.native ==> ready.protocol is Native && ready.authenticated
            &&& !request.native ==> ready.protocol is Acp && (ready.authenticated
                <==> !login_required)
            &&& ready.typed_items <==> request.typed_items || request.typed_items_by_capability
        }),
{
}

/// Where clients have to log in, they do not learn where the server's files
/// are; what goes beyond the editors' protocol is told to those that use it.
pub proof fn law_clients_learn_of_the_server(
    family: String,
    os: String,
    home: String,
    login_required: bool,
    ready: ReadyConnection,
    r: ServerMeta,
)
    requires
        r == meta_told(family, os, home, login_required, ready),
    ensures
        r.platform_family == family && r.platform_os == os,
        login_required ==> r.server_home is None,
        !login_required ==> r.server_home == Some(home),
        r.extension is Some <==> ready.typed_items || ready.protocol is Native,
        r.extension matches Some((typed, native)) ==> typed == ready.typed_items && (native
            <==> ready.protocol is Native),
{
}

/// What an editor sees of a refusal is its text and what it quotes.
pub proof fn law_editors_see_what_is_refused(
    code: AcpErrorCode,
    text: &'static str,
    detail: String,
)
    ensures
        acp_rejection(code, text).code == code && acp_rejection(code, text).message_view() == text@,
        acp_rejection_about(code, text, detail).code == code && acp_rejection_about(
            code,
            text,
            detail,
        ).message_view() == text@ + detail@,
{
}

} // verus!
