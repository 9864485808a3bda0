//! Sessions as an editor sees them: listing, opening, closing and deleting.

use crate::acp::{
    acp_reject, acp_reject_about, acp_rejection, acp_rejection_about, AcpErrorCode, AcpRejection,
};
use crate::config_options::{
    acp_config_options_for_session, are_options, ConfigOption, OfferFacts,
};
use crate::json::{is_with_default, list_value, value_tree, with_default_field, JsonTree};
use crate::pages::page_bounds;
use crate::paths::{parts, PathModel};
use crate::protocol::SessionId;
use crate::session_metadata::PermissionPreset;
use crate::workspace_restore::same_path;
use vstd::prelude::*;

verus! {

/// How many sessions an editor gets at a time.
pub const ACP_SESSION_LIST_PAGE_SIZE: usize = 50;

/// Requests of older clients leave the list of tool servers out where it is
/// empty; it is put in.
pub fn normalize_missing_mcp_servers(params: serde_json::Value) -> (r: serde_json::Value)
    ensures
        is_with_default(
            value_tree(params),
            "mcpServers"@,
            JsonTree::List(Seq::empty()),
            value_tree(r),
        ),
{
    let none: Vec<serde_json::Value> = Vec::new();
    let empty = list_value(none);
    assert(value_tree(empty)->List_0 =~= Seq::empty());
    with_default_field(params, "mcpServers", empty)
}

/// A session that can be listed.
#[derive(Debug)]
pub struct ListedSession {
    pub id: SessionId,
    pub cwd: PathModel,
}

/// Whether a session is to be listed: all are, or those of one directory.
pub open spec fn is_wanted(session: ListedSession, cwd: Option<PathModel>) -> bool {
    match cwd {
        Some(cwd) => parts(session.cwd.components@) == parts(cwd.components@),
        None => true,
    }
}

/// Which sessions are to be listed, by their places.
pub open spec fn wanted_places(sessions: Seq<ListedSession>, cwd: Option<PathModel>) -> Seq<usize>
    decreases sessions.len(),
{
    if sessions.len() == 0 {
        Seq::empty()
    } else {
        let before = wanted_places(sessions.drop_last(), cwd);
        if is_wanted(sessions.last(), cwd) {
            before.push((sessions.len() - 1) as usize)
        } else {
            before
        }
    }
}

/// The first session to be listed whose directory is not absolute.
pub open spec fn first_misplaced(sessions: Seq<ListedSession>, cwd: Option<PathModel>) -> Option<
    SessionId,
>
    decreases sessions.len(),
{
    if sessions.len() == 0 {
        None
    } else {
        match first_misplaced(sessions.drop_last(), cwd) {
            Some(id) => Some(id),
            None => if is_wanted(sessions.last(), cwd) && !sessions.last().cwd.absolute {
                Some(sessions.last().id)
            } else {
                None
            },
        }
    }
}

/// Why sessions cannot be listed.
#[derive(Debug)]
pub enum ListRefusal {
    Plain(AcpRejection),
    /// The directory of this session is not absolute.
    Misplaced(SessionId),
}

/// What a list request leads to: the places of the sessions of the page, and
/// where the next one begins.
pub open spec fn list_outcome(
    cwd: Option<PathModel>,
    cursor: Option<Result<usize, String>>,
    sessions: Seq<ListedSession>,
) -> Result<(Seq<usize>, Option<usize>), ListRefusal> {
    let places = wanted_places(sessions, cwd);
    if cwd is Some && !cwd->0.absolute {
        Err(
            ListRefusal::Plain(
                acp_rejection(
                    AcpErrorCode::InvalidParams,
                    "session/list cwd must be an absolute path",
                ),
            ),
        )
    } else {
        match cursor {
            Some(Err(error)) => Err(
                ListRefusal::Plain(acp_rejection_about(AcpErrorCode::InvalidParams, "", error)),
            ),
            _ => {
                let start = match cursor {
                    Some(Ok(start)) => start,
                    _ => 0,
                };
                let end = start + ACP_SESSION_LIST_PAGE_SIZE;
                match first_misplaced(sessions, cwd) {
                    Some(id) => Err(ListRefusal::Misplaced(id)),
                    None => if start > places.len() {
                        Err(
                            ListRefusal::Plain(
                                acp_rejection(
                                    AcpErrorCode::InvalidParams,
                                    "session/list cursor is out of range",
                                ),
                            ),
                        )
                    } else if end < places.len() {
                        Ok((places.subrange(start as int, end), Some(end as usize)))
                    } else {
                        Ok((places.skip(start as int), None))
                    },
                }
            },
        }
    }
}

fn wants(session: &ListedSession, cwd: &Option<PathModel>) -> (r: bool)
    ensures
        r == is_wanted(*session, *cwd),
{
    match cwd {
        Some(cwd) => same_path(&session.cwd.components, &cwd.components),
        None => true,
    }
}

proof fn lemma_misplaced_stays(sessions: Seq<ListedSession>, cwd: Option<PathModel>, i: int)
    requires
        0 <= i <= sessions.len(),
        first_misplaced(sessions.take(i), cwd) is Some,
    ensures
        first_misplaced(sessions, cwd) == first_misplaced(sessions.take(i), cwd),
    decreases sessions.len() - i,
{
    if i < sessions.len() {
        assert(sessions.take(i + 1).drop_last() =~= sessions.take(i));
        lemma_misplaced_stays(sessions, cwd, i + 1);
    } else {
        assert(sessions.take(i) =~= sessions);
    }
}

fn find_places(sessions: &Vec<ListedSession>, cwd: &Option<PathModel>) -> (r: Result<
    Vec<usize>,
    SessionId,
>)
    ensures
        match r {
            Ok(places) => {
                &&& places@ == wanted_places(sessions@, *cwd)
                &&& first_misplaced(sessions@, *cwd) is None
            },
            Err(id) => first_misplaced(sessions@, *cwd) == Some(id),
        },
{
    let mut places: Vec<usize> = Vec::new();
    let mut i: usize = 0;
    assert(sessions@.take(0) =~= Seq::empty());
    while i < sessions.len()
        invariant
            i <= sessions@.len(),
            places@ == wanted_places(sessions@.take(i as int), *cwd),
            first_misplaced(sessions@.take(i as int), *cwd) is None,
        decreases sessions@.len() - i,
    {
        let session = &sessions[i];
        assert(sessions@.take(i + 1).drop_last() =~= sessions@.take(i as int));
        assert(sessions@.take(i + 1).last() == *session);
        if wants(session, cwd) {
            if !session.cwd.absolute {
                proof {
                    lemma_misplaced_stays(sessions@, *cwd, i + 1);
                }
                return Err(session.id);
            }
            places.push(i);
        }
        i = i + 1;
    }
    assert(sessions@.take(sessions@.len() as int) =~= sessions@);
    Ok(places)
}

fn places_between(places: &Vec<usize>, from: usize, to: usize) -> (r: Vec<usize>)
    requires
        from <= to <= places@.len(),
    ensures
        r@ == places@.subrange(from as int, to as int),
{
    let mut page: Vec<usize> = Vec::new();
    let mut i: usize = from;
    while i < to
        invariant
            from <= i <= to <= places@.len(),
            page@ == places@.subrange(from as int, i as int),
        decreases to - i,
    {
        page.push(places[i]);
        i = i + 1;
        assert(page@ =~= places@.subrange(from as int, i as int));
    }
    page
}

/// Answers a request for a page of the sessions, of all or of one directory.
/// The cursor comes decoded, or with why it could not be.
pub fn handle_acp_session_list(
    cwd: &Option<PathModel>,
    cursor: Option<Result<usize, String>>,
    sessions: &Vec<ListedSession>,
) -> (r: Result<(Vec<usize>, Option<usize>), ListRefusal>)
    ensures
        match (r, list_outcome(*cwd, cursor, sessions@)) {
            (Ok((page, next)), Ok((places, following))) => page@ == places && next == following,
            (Err(why), Err(refusal)) => why == refusal,
            _ => false,
        },
{
    if let Some(cwd) = cwd {
        if !cwd.absolute {
            return Err(
                ListRefusal::Plain(
                    acp_reject(
                        AcpErrorCode::InvalidParams,
                        "session/list cwd must be an absolute path",
                    ),
                ),
            );
        }
    }
    let start: usize = match cursor {
        Some(Ok(start)) => start,
        Some(Err(error)) => {
            return Err(
                ListRefusal::Plain(acp_reject_about(AcpErrorCode::InvalidParams, "", error)),
            );
        },
        None => 0,
    };
    let places = match find_places(sessions, cwd) {
        Ok(places) => places,
        Err(id) => {
            return Err(ListRefusal::Misplaced(id));
        },
    };
    if start > places.len() {
        return Err(
            ListRefusal::Plain(
                acp_reject(AcpErrorCode::InvalidParams, "session/list cursor is out of range"),
            ),
        );
    }
    let (from, to, next) = page_bounds(places.len(), start, ACP_SESSION_LIST_PAGE_SIZE);
    let page = places_between(&places, from, to);
    assert(places@.skip(start as int) =~= places@.subrange(start as int, places@.len() as int));
    Ok((page, next))
}

/// How an editor opens a session.
#[derive(Clone, Copy, Debug, PartialEq, Eq, Structural)]
pub enum OpenKind {
    New,
    Load,
    Resume,
}

/// What opening a session waits for. The session goes with it once it is open.
#[derive(Clone, Copy, Debug, PartialEq, Eq, Structural)]
pub enum OpenPhase {
    Roots,
    Directory,
    Tools,
    Opened,
    Directories(SessionId),
    Found(SessionId),
    Subscribed(SessionId),
    HistorySent(SessionId),
    Options(SessionId),
    Finished,
}

/// What the host observed while a session is opened.
#[derive(Debug)]
pub enum OpenEvent {
    /// What is wrong, if anything is.
    Checked(Option<String>),
    DirectoryChecked(Option<AcpRejection>),
    /// The session that was opened; the host answers with the refusal where it
    /// could not be.
    Opened(Option<SessionId>),
    Found(bool),
    /// What the session can choose from and its permissions, or what is wrong.
    Options(Result<(OfferFacts, PermissionPreset), String>),
    Done,
}

/// What the host has to do to open a session.
#[derive(Debug)]
pub enum OpenAction {
    /// Find out whether the directories that the editor names can be used.
    CheckRoots,
    /// Find out whether the directory of the session can be used.
    CheckDirectory,
    /// Start the tool servers that the editor names.
    BuildTools,
    /// Start the session, or restore it.
    Open,
    /// Give the session the further directories that the editor names.
    ApplyDirectories(SessionId),
    /// Find the session.
    FindSession(SessionId),
    /// Send the editor what happens in the session.
    Subscribe(SessionId),
    /// Send the editor what has happened in the session so far.
    SendHistory(SessionId),
    /// Read the options of the session.
    ReadOptions(SessionId),
    /// Answer with the session and its options.
    Answer { session: SessionId, options: Vec<ConfigOption> },
    /// Answer as starting or restoring the session was refused.
    PassOn,
    /// Refuse to open the session.
    Reject(AcpRejection),
    /// Nothing: the event does not belong to the phase.
    Ignore,
}

/// The step that refuses to open a session.
pub open spec fn open_refused(why: AcpRejection) -> (OpenPhase, OpenAction) {
    (OpenPhase::Finished, OpenAction::Reject(why))
}

/// Whether `step` is the next one of opening a session. The editor is answered
/// with the session and the options that it has.
pub open spec fn is_open_step(
    kind: OpenKind,
    phase: OpenPhase,
    event: OpenEvent,
    step: (OpenPhase, OpenAction),
) -> bool {
    match (phase, event) {
        (OpenPhase::Options(opened), OpenEvent::Options(Ok((facts, preset)))) => {
            &&& step.0 is Finished
            &&& step.1 matches OpenAction::Answer { session, options } && session == opened
                && are_options(
                facts.providers@,
                facts.wire_api@,
                facts.model@,
                facts.efforts,
                preset,
                options@,
            )
        },
        _ => step == open_step(kind, phase, event),
    }
}

/// The next step of opening a session, but for the one that answers with its
/// options.
pub open spec fn open_step(kind: OpenKind, phase: OpenPhase, event: OpenEvent) -> (
    OpenPhase,
    OpenAction,
) {
    match (phase, event) {
        (OpenPhase::Roots, OpenEvent::Checked(fault)) => match fault {
            Some(error) => open_refused(
                acp_rejection_about(AcpErrorCode::InvalidParams, "", error),
            ),
            None => if kind is New {
                (OpenPhase::Tools, OpenAction::BuildTools)
            } else {
                (OpenPhase::Directory, OpenAction::CheckDirectory)
            },
        },
        (OpenPhase::Directory, OpenEvent::DirectoryChecked(fault)) => match fault {
            Some(why) => open_refused(why),
            None => (OpenPhase::Tools, OpenAction::BuildTools),
        },
        (OpenPhase::Tools, OpenEvent::Checked(fault)) => match fault {
            Some(error) => open_refused(
                acp_rejection_about(AcpErrorCode::InvalidParams, "", error),
            ),
            None => (OpenPhase::Opened, OpenAction::Open),
        },
        (OpenPhase::Opened, OpenEvent::Opened(opened)) => match opened {
            None => (OpenPhase::Finished, OpenAction::PassOn),
            Some(session) => if kind is New {
                (OpenPhase::Found(session), OpenAction::FindSession(session))
            } else {
                (OpenPhase::Directories(session), OpenAction::ApplyDirectories(session))
            },
        },
        (OpenPhase::Directories(session), OpenEvent::Checked(fault)) => match fault {
            Some(error) => open_refused(acp_rejection_about(AcpErrorCode::ServerError, "", error)),
            None => (OpenPhase::Subscribed(session), OpenAction::Subscribe(session)),
        },
        (OpenPhase::Found(session), OpenEvent::Found(found)) => if found {
            (OpenPhase::Subscribed(session), OpenAction::Subscribe(session))
        } else {
            open_refused(
                acp_rejection(AcpErrorCode::ServerError, "new session actor unavailable"),
            )
        },
        (OpenPhase::Subscribed(session), OpenEvent::Done) => if kind is Load {
            (OpenPhase::HistorySent(session), OpenAction::SendHistory(session))
        } else {
            (OpenPhase::Options(session), OpenAction::ReadOptions(session))
        },
        (OpenPhase::HistorySent(session), OpenEvent::Done) => (
            OpenPhase::Options(session),
            OpenAction::ReadOptions(session),
        ),
        (OpenPhase::Options(_), OpenEvent::Options(Err(error))) => open_refused(
            acp_rejection_about(AcpErrorCode::ServerError, "", error),
        ),
        _ => (phase, OpenAction::Ignore),
    }
}

fn refuse_open(why: AcpRejection) -> (r: (OpenPhase, OpenAction))
    ensures
        r == open_refused(why),
{
    (OpenPhase::Finished, OpenAction::Reject(why))
}

/// Takes opening a session one step further. It begins with the check of the
/// directories that were named.
pub fn advance_open(kind: OpenKind, phase: OpenPhase, event: OpenEvent) -> (r: (
    OpenPhase,
    OpenAction,
))
    ensures
        is_open_step(kind, phase, event, r),
{
    let (is_new, is_load) = match kind {
        OpenKind::New => (true, false),
        OpenKind::Load => (false, true),
        OpenKind::Resume => (false, false),
    };
    match (phase, event) {
        (OpenPhase::Roots, OpenEvent::Checked(fault)) => match fault {
            Some(error) => refuse_open(acp_reject_about(AcpErrorCode::InvalidParams, "", error)),
            None => {
                if is_new {
                    (OpenPhase::Tools, OpenAction::BuildTools)
                } else {
                    (OpenPhase::Directory, OpenAction::CheckDirectory)
                }
            },
        },
        (OpenPhase::Directory, OpenEvent::DirectoryChecked(fault)) => match fault {
            Some(why) => refuse_open(why),
            None => (OpenPhase::Tools, OpenAction::BuildTools),
        },
        (OpenPhase::Tools, OpenEvent::Checked(fault)) => match fault {
            Some(error) => refuse_open(acp_reject_about(AcpErrorCode::InvalidParams, "", error)),
            None => (OpenPhase::Opened, OpenAction::Open),
        },
        (OpenPhase::Opened, OpenEvent::Opened(opened)) => match opened {
            None => (OpenPhase::Finished, OpenAction::PassOn),
            Some(session) => {
                if is_new {
                    (OpenPhase::Found(session), OpenAction::FindSession(session))
                } else {
                    (OpenPhase::Directories(session), OpenAction::ApplyDirectories(session))
                }
            },
        },
        (OpenPhase::Directories(session), OpenEvent::Checked(fault)) => match fault {
            Some(error) => refuse_open(acp_reject_about(AcpErrorCode::ServerError, "", error)),
            None => (OpenPhase::Subscribed(session), OpenAction::Subscribe(session)),
        },
        (OpenPhase::Found(session), OpenEvent::Found(found)) => {
            if found {
                (OpenPhase::Subscribed(session), OpenAction::Subscribe(session))
            } else {
                refuse_open(
                    acp_reject(AcpErrorCode::ServerError, "new session actor unavailable"),
                )
            }
        },
        (OpenPhase::Subscribed(session), OpenEvent::Done) => {
            if is_load {
                (OpenPhase::HistorySent(session), OpenAction::SendHistory(session))
            } else {
                (OpenPhase::Options(session), OpenAction::ReadOptions(session))
            }
        },
        (OpenPhase::HistorySent(session), OpenEvent::Done) => (
            OpenPhase::Options(session),
            OpenAction::ReadOptions(session),
        ),
        (OpenPhase::Options(session), OpenEvent::Options(read)) => match read {
            Err(error) => refuse_open(acp_reject_about(AcpErrorCode::ServerError, "", error)),
            Ok((facts, preset)) => {
                let options = acp_config_options_for_session(
                    &facts.providers,
                    facts.wire_api.as_str(),
                    facts.model,
                    &facts.efforts,
                    preset,
                );
                (OpenPhase::Finished, OpenAction::Answer { session, options })
            },
        },
        (phase, _) => (phase, OpenAction::Ignore),
    }
}

/// Whether a session can be closed; an unknown one cannot.
pub fn handle_acp_session_close(known: bool) -> (r: Option<AcpRejection>)
    ensures
        r == if known {
            None
        } else {
            Some(acp_rejection(AcpErrorCode::ResourceNotFound, "session does not exist"))
        },
{
    if known {
        None
    } else {
        Some(acp_reject(AcpErrorCode::ResourceNotFound, "session does not exist"))
    }
}

/// The answer to a request to switch the mode: that is done by an option.
pub fn handle_acp_session_set_mode() -> (r: AcpRejection)
    ensures
        r == acp_rejection(AcpErrorCode::MethodNotFound, "session/set_mode is not supported"),
{
    acp_reject(AcpErrorCode::MethodNotFound, "session/set_mode is not supported")
}

/// A session that is loaded: whether it belongs to an agent, and which session
/// started it.
#[derive(Clone, Copy, Debug)]
pub struct SessionNode {
    pub id: SessionId,
    pub agent: bool,
    pub parent: Option<SessionId>,
}

/// Whether the session `child` was started by `parent` for an agent. Copies
/// that a user made are sessions of their own.
pub open spec fn is_agent_child(
    nodes: Seq<SessionNode>,
    child: SessionId,
    parent: SessionId,
) -> bool {
    exists|i: int|
        0 <= i < nodes.len() && (#[trigger] nodes[i]).id == child && nodes[i].agent
            && nodes[i].parent == Some(parent)
}

/// Whether `session` stems from `root` in `steps` steps.
pub open spec fn stems_in(
    nodes: Seq<SessionNode>,
    root: SessionId,
    session: SessionId,
    steps: nat,
) -> bool
    decreases steps,
{
    if steps == 0 {
        session == root
    } else {
        exists|parent: SessionId| #[trigger]
            is_agent_child(nodes, session, parent) && stems_in(
                nodes,
                root,
                parent,
                (steps - 1) as nat,
            )
    }
}

/// Whether `session` is `root`, or an agent's session that stems from it.
pub open spec fn stems_from(nodes: Seq<SessionNode>, root: SessionId, session: SessionId) -> bool {
    exists|steps: nat| #[trigger] stems_in(nodes, root, session, steps)
}

/// Whether no session is listed twice.
pub open spec fn nodes_distinct(nodes: Seq<SessionNode>) -> bool {
    forall|i: int, j: int|
        0 <= i < j < nodes.len() ==> (#[trigger] nodes[i]).id != (#[trigger] nodes[j]).id
}

/// Whether `order` lists the sessions that go with `root`: itself first, each
/// session once, the children of an earlier session before those of a later
/// one, and the children of one session by their identifiers. `parents` says
/// where the parent of each stands.
pub open spec fn is_delete_order(
    nodes: Seq<SessionNode>,
    root: SessionId,
    order: Seq<SessionId>,
    parents: Seq<int>,
) -> bool {
    &&& order.len() == parents.len()
    &&& order.len() > 0
    &&& order[0] == root
    &&& forall|i: int, j: int|
        0 <= i < j < order.len() ==> #[trigger] order[i] != #[trigger] order[j]
    &&& forall|j: int|
        0 < j < order.len() ==> 0 <= #[trigger] parents[j] < j && is_agent_child(
            nodes,
            order[j],
            order[parents[j]],
        )
    &&& forall|i: int, j: int|
        0 < i < j < order.len() ==> #[trigger] parents[i] < #[trigger] parents[j] || (parents[i]
            == parents[j] && order[i].raw < order[j].raw)
}

/// Whether `edges` are the agents' sessions with their parents, by identifier.
spec fn are_edges(nodes: Seq<SessionNode>, edges: Seq<(SessionId, SessionId)>) -> bool {
    &&& forall|i: int|
        0 <= i < edges.len() ==> is_agent_child(nodes, (#[trigger] edges[i]).0, edges[i].1)
    &&& forall|child: SessionId, parent: SessionId| #[trigger]
        is_agent_child(nodes, child, parent) ==> exists|i: int|
            0 <= i < edges.len() && #[trigger] edges[i] == (child, parent)
    &&& forall|i: int, j: int|
        0 <= i < j < edges.len() ==> (#[trigger] edges[i]).0.raw < (#[trigger] edges[j]).0.raw
}

fn insert_edge(edges: &mut Vec<(SessionId, SessionId)>, edge: (SessionId, SessionId))
    requires
        forall|i: int, j: int|
            0 <= i < j < old(edges)@.len() ==> (#[trigger] old(edges)@[i]).0.raw < (
            #[trigger] old(edges)@[j]).0.raw,
        forall|i: int| 0 <= i < old(edges)@.len() ==> (#[trigger] old(edges)@[i]).0 != edge.0,
    ensures
        forall|i: int, j: int|
            0 <= i < j < final(edges)@.len() ==> (#[trigger] final(edges)@[i]).0.raw < (
            #[trigger] final(edges)@[j]).0.raw,
        exists|k: int|
            0 <= k <= old(edges)@.len() && final(edges)@ == #[trigger] old(edges)@.insert(k, edge),
{
    let ghost before = edges@;
    let mut k: usize = 0;
    while k < edges.len() && edges[k].0.raw < edge.0.raw
        invariant
            edges@ == before,
            k <= edges@.len(),
            forall|i: int| 0 <= i < k ==> (#[trigger] before[i]).0.raw < edge.0.raw,
        decreases edges@.len() - k,
    {
        k = k + 1;
    }
    edges.insert(k, edge);
    proof {
        let after = edges@;
        assert(after == before.insert(k as int, edge));
        assert forall|i: int, j: int| 0 <= i < j < after.len() implies (#[trigger] after[i]).0.raw
            < (#[trigger] after[j]).0.raw by {
            if j < k {
                assert(after[i] == before[i] && after[j] == before[j]);
            } else if j == k {
                assert(after[i] == before[i]);
            } else {
                assert(after[j] == before[j - 1]);
                if i < k {
                    assert(after[i] == before[i]);
                    assert(before[i].0.raw < before[j - 1].0.raw);
                } else if i == k {
                    assert(before[k as int].0 != edge.0);
                    assert(before[k as int].0.raw > edge.0.raw);
                    if j - 1 > k {
                        assert(before[k as int].0.raw < before[j - 1].0.raw);
                    }
                } else {
                    assert(after[i] == before[i - 1]);
                    assert(before[i - 1].0.raw < before[j - 1].0.raw);
                }
            }
        }
    }
}

fn collect_edges(nodes: &Vec<SessionNode>) -> (r: Vec<(SessionId, SessionId)>)
    requires
        nodes_distinct(nodes@),
    ensures
        are_edges(nodes@, r@),
{
    let mut edges: Vec<(SessionId, SessionId)> = Vec::new();
    let mut i: usize = 0;
    while i < nodes.len()
        invariant
            i <= nodes@.len(),
            nodes_distinct(nodes@),
            are_edges(nodes@.take(i as int), edges@),
        decreases nodes@.len() - i,
    {
        let node = nodes[i];
        let ghost before = edges@;
        let ghost seen = nodes@.take(i as int);
        let ghost more = nodes@.take(i + 1);
        proof {
            assert(more =~= seen.push(node));
            assert forall|k: int| 0 <= k < before.len() implies (#[trigger] before[k]).0
                != node.id by {
                assert(is_agent_child(seen, before[k].0, before[k].1));
                let m = choose|m: int|
                    0 <= m < seen.len() && (#[trigger] seen[m]).id == before[k].0 && seen[m].agent
                        && seen[m].parent == Some(before[k].1);
                assert(nodes@[m].id != nodes@[i as int].id);
            }
            assert forall|child: SessionId, parent: SessionId| #[trigger]
                is_agent_child(seen, child, parent) implies is_agent_child(more, child, parent) by {
                let m = choose|m: int|
                    0 <= m < seen.len() && (#[trigger] seen[m]).id == child && seen[m].agent
                        && seen[m].parent == Some(parent);
                assert(more[m] == seen[m]);
            }
            assert forall|child: SessionId, parent: SessionId| #[trigger]
                is_agent_child(more, child, parent) implies is_agent_child(seen, child, parent) || (
            child == node.id && node.agent && node.parent == Some(parent)) by {
                let m = choose|m: int|
                    0 <= m < more.len() && (#[trigger] more[m]).id == child && more[m].agent
                        && more[m].parent == Some(parent);
                if m < seen.len() {
                    assert(seen[m] == more[m]);
                }
            }
        }
        if node.agent {
            if let Some(parent) = node.parent {
                insert_edge(&mut edges, (node.id, parent));
                proof {
                    let edge = (node.id, parent);
                    let k = choose|k: int|
                        0 <= k <= before.len() && edges@ == #[trigger] before.insert(k, edge);
                    assert(more[seen.len() as int] == node);
                    assert(is_agent_child(more, node.id, parent));
                    assert(edges@[k] == edge);
                    assert forall|m: int| 0 <= m < edges@.len() implies is_agent_child(
                        more,
                        (#[trigger] edges@[m]).0,
                        edges@[m].1,
                    ) by {
                        if m < k {
                            assert(edges@[m] == before[m]);
                        } else if m > k {
                            assert(edges@[m] == before[m - 1]);
                        }
                    }
                    assert forall|child: SessionId, up: SessionId| #[trigger]
                        is_agent_child(more, child, up) implies exists|m: int|
                        0 <= m < edges@.len() && #[trigger] edges@[m] == (child, up) by {
                        if is_agent_child(seen, child, up) {
                            let m = choose|m: int|
                                0 <= m < before.len() && #[trigger] before[m] == (child, up);
                            if m < k {
                                assert(edges@[m] == before[m]);
                            } else {
                                assert(edges@[m + 1] == before[m]);
                            }
                        } else {
                            assert(edges@[k] == (child, up));
                        }
                    }
                }
            }
        }
        i = i + 1;
    }
    assert(nodes@.take(nodes@.len() as int) =~= nodes@);
    edges
}

fn holds_session(list: &Vec<SessionId>, session: SessionId) -> (r: bool)
    ensures
        r == list@.contains(session),
{
    let mut i: usize = 0;
    while i < list.len()
        invariant
            i <= list@.len(),
            forall|j: int| 0 <= j < i ==> #[trigger] list@[j] != session,
        decreases list@.len() - i,
    {
        if list[i] == session {
            return true;
        }
        i = i + 1;
    }
    false
}

proof fn lemma_child_stems(
    nodes: Seq<SessionNode>,
    root: SessionId,
    child: SessionId,
    parent: SessionId,
)
    requires
        stems_from(nodes, root, parent),
        is_agent_child(nodes, child, parent),
    ensures
        stems_from(nodes, root, child),
{
    let steps = choose|steps: nat| #[trigger] stems_in(nodes, root, parent, steps);
    assert(stems_in(nodes, root, child, steps + 1));
}

proof fn lemma_closed_list_has_all(
    nodes: Seq<SessionNode>,
    root: SessionId,
    order: Seq<SessionId>,
    session: SessionId,
    steps: nat,
)
    requires
        order.contains(root),
        forall|child: SessionId, parent: SessionId| #[trigger]
            is_agent_child(nodes, child, parent) && order.contains(parent) ==> order.contains(
                child,
            ),
        stems_in(nodes, root, session, steps),
    ensures
        order.contains(session),
    decreases steps,
{
    if steps > 0 {
        let parent = choose|parent: SessionId| #[trigger]
            is_agent_child(nodes, session, parent) && stems_in(
                nodes,
                root,
                parent,
                (steps - 1) as nat,
            );
        lemma_closed_list_has_all(nodes, root, order, parent, (steps - 1) as nat);
    }
}

/// The sessions that are deleted along with `root`: the sessions of agents
/// that stem from it.
pub fn collect_session_delete_tree(root: SessionId, nodes: &Vec<SessionNode>) -> (r: Vec<SessionId>)
    requires
        nodes_distinct(nodes@),
    ensures
        exists|parents: Seq<int>| is_delete_order(nodes@, root, r@, parents),
        forall|session: SessionId| #[trigger]
            r@.contains(session) == stems_from(nodes@, root, session),
{
    let edges = collect_edges(nodes);
    let mut order: Vec<SessionId> = Vec::new();
    order.push(root);
    let ghost mut parents: Seq<int> = seq![0int];
    let mut index: usize = 0;
    proof {
        assert(stems_in(nodes@, root, root, 0));
        assert(order@[0] == root);
    }
    while index < order.len()
        invariant
            are_edges(nodes@, edges@),
            index <= order@.len(),
            order@.len() <= edges@.len() + 1,
            is_delete_order(nodes@, root, order@, parents),
            forall|j: int| 0 < j < order@.len() ==> #[trigger] parents[j] < index,
            forall|j: int| 0 <= j < order@.len() ==> stems_from(nodes@, root, #[trigger] order@[j]),
            forall|e: int, j: int|
                0 <= e < edges@.len() && 0 <= j < index && (#[trigger] edges@[e]).1
                    == #[trigger] order@[j] ==> order@.contains(edges@[e].0),
        decreases edges@.len() + 1 - index,
    {
        let parent = order[index];
        let mut i: usize = 0;
        while i < edges.len()
            invariant
                are_edges(nodes@, edges@),
                i <= edges@.len(),
                index < order@.len(),
                parent == order@[index as int],
                is_delete_order(nodes@, root, order@, parents),
                forall|j: int| 0 < j < order@.len() ==> #[trigger] parents[j] <= index,
                forall|j: int|
                    0 < j < order@.len() && #[trigger] parents[j] == index ==> exists|e: int|
                        0 <= e < i && #[trigger] edges@[e] == (order@[j], parent),
                forall|j: int|
                    0 <= j < order@.len() ==> stems_from(nodes@, root, #[trigger] order@[j]),
                forall|e: int, j: int|
                    0 <= e < edges@.len() && 0 <= j < index && (#[trigger] edges@[e]).1
                        == #[trigger] order@[j] ==> order@.contains(edges@[e].0),
                forall|e: int|
                    0 <= e < i && (#[trigger] edges@[e]).1 == parent ==> order@.contains(
                        edges@[e].0,
                    ),
            decreases edges@.len() - i,
        {
            let (child, up) = edges[i];
            let ghost before = order@;
            if up == parent && !holds_session(&order, child) {
                order.push(child);
                proof {
                    let old_parents = parents;
                    parents = parents.push(index as int);
                    let after = order@;
                    let last = before.len() as int;
                    assert(edges@[i as int] == (child, parent));
                    assert(is_agent_child(nodes@, child, parent));
                    lemma_child_stems(nodes@, root, child, parent);
                    assert(after[last] == child);
                    assert forall|a: int, b: int| 0 <= a < b < after.len() implies #[trigger] after[a]
                        != #[trigger] after[b] by {
                        if b == last {
                            assert(before[a] == after[a]);
                        }
                    }
                    assert forall|a: int, b: int| 0 < a < b < after.len() implies #[trigger] parents[a]
                        < #[trigger] parents[b] || (parents[a] == parents[b] && after[a].raw
                        < after[b].raw) by {
                        if b == last {
                            assert(parents[a] == old_parents[a]);
                            if old_parents[a] == index {
                                let e = choose|e: int|
                                    0 <= e < i && #[trigger] edges@[e] == (before[a], parent);
                                assert(edges@[e].0.raw < edges@[i as int].0.raw);
                            }
                        } else {
                            assert(parents[a] == old_parents[a] && parents[b] == old_parents[b]);
                            assert(after[a] == before[a] && after[b] == before[b]);
                        }
                    }
                    assert forall|j: int| 0 < j < after.len() implies 0 <= #[trigger] parents[j] < j
                        && is_agent_child(nodes@, after[j], after[parents[j]]) by {
                        if j < last {
                            assert(parents[j] == old_parents[j]);
                            assert(after[j] == before[j]);
                            assert(after[parents[j]] == before[parents[j]]);
                        } else {
                            assert(after[index as int] == before[index as int]);
                        }
                    }
                    assert forall|j: int| 0 < j < after.len() && #[trigger] parents[j] == index implies exists|
                        e: int,
                    |
                        0 <= e < i + 1 && #[trigger] edges@[e] == (after[j], parent) by {
                        if j < last {
                            assert(parents[j] == old_parents[j]);
                            let e = choose|e: int|
                                0 <= e < i && #[trigger] edges@[e] == (before[j], parent);
                            assert(edges@[e] == (after[j], parent));
                        } else {
                            assert(edges@[i as int] == (after[j], parent));
                        }
                    }
                }
            }
            proof {
                assert forall|s: SessionId| before.contains(s) implies order@.contains(s) by {
                    let m = choose|m: int| 0 <= m < before.len() && before[m] == s;
                    assert(order@[m] == s);
                }
                if up == parent {
                    assert(order@.contains(child)) by {
                        if !before.contains(child) {
                            assert(order@[before.len() as int] == child);
                        }
                    }
                }
                assert forall|e: int, j: int|
                    0 <= e < edges@.len() && 0 <= j < index && (#[trigger] edges@[e]).1
                        == #[trigger] order@[j] implies order@.contains(edges@[e].0) by {
                    assert(order@[j] == before[j]);
                }
            }
            i = i + 1;
        }
        proof {
            lemma_order_is_short(nodes@, edges@, root, order@, parents);
            assert forall|e: int, j: int|
                0 <= e < edges@.len() && 0 <= j < index + 1 && (#[trigger] edges@[e]).1
                    == #[trigger] order@[j] implies order@.contains(edges@[e].0) by {
                if j == index {
                    assert(order@[j] == parent);
                }
            }
        }
        index = index + 1;
    }
    proof {
        assert forall|session: SessionId| #[trigger]
            order@.contains(session) == stems_from(nodes@, root, session) by {
            if order@.contains(session) {
                let m = choose|m: int| 0 <= m < order@.len() && order@[m] == session;
                assert(stems_from(nodes@, root, order@[m]));
            }
            if stems_from(nodes@, root, session) {
                let steps = choose|steps: nat| #[trigger] stems_in(nodes@, root, session, steps);
                assert(order@[0] == root);
                assert forall|child: SessionId, parent: SessionId| #[trigger]
                    is_agent_child(nodes@, child, parent) && order@.contains(
                        parent,
                    ) implies order@.contains(child) by {
                    let e = choose|e: int|
                        0 <= e < edges@.len() && #[trigger] edges@[e] == (child, parent);
                    let j = choose|j: int| 0 <= j < order@.len() && order@[j] == parent;
                    assert(edges@[e].1 == order@[j]);
                }
                lemma_closed_list_has_all(nodes@, root, order@, session, steps);
            }
        }
    }
    order
}

proof fn lemma_order_is_short(
    nodes: Seq<SessionNode>,
    edges: Seq<(SessionId, SessionId)>,
    root: SessionId,
    order: Seq<SessionId>,
    parents: Seq<int>,
)
    requires
        are_edges(nodes, edges),
        is_delete_order(nodes, root, order, parents),
    ensures
        order.len() <= edges.len() + 1,
{
    let rest = order.skip(1);
    let children = edges.map_values(|edge: (SessionId, SessionId)| edge.0);
    assert(rest.no_duplicates()) by {
        assert forall|i: int, j: int| 0 <= i < rest.len() && 0 <= j < rest.len() && i
            != j implies rest[i] != rest[j] by {
            assert(rest[i] == order[i + 1] && rest[j] == order[j + 1]);
        }
    }
    assert(rest.to_set().subset_of(children.to_set())) by {
        assert forall|s: SessionId| rest.to_set().contains(s) implies children.to_set().contains(
            s,
        ) by {
            let i = choose|i: int| 0 <= i < rest.len() && rest[i] == s;
            assert(rest[i] == order[i + 1]);
            let p = parents[i + 1];
            assert(is_agent_child(nodes, order[i + 1], order[p]));
            let e = choose|e: int|
                0 <= e < edges.len() && #[trigger] edges[e] == (order[i + 1], order[p]);
            assert(children[e] == s);
        }
    }
    rest.unique_seq_to_set();
    children.lemma_cardinality_of_set();
    vstd::set_lib::lemma_len_subset(rest.to_set(), children.to_set());
}

/// What deleting one session waits for. `removed` says whether it was loaded,
/// `persisted` whether the index had it.
#[derive(Clone, Copy, Debug, PartialEq, Eq, Structural)]
pub enum DeletePhase {
    Removed,
    Cleared { removed: bool },
    Inspected { removed: bool },
    RolloutDeleted { removed: bool, persisted: bool },
    TurnsCleared,
    SteersCleared,
    MetadataDeleted,
    Finished,
}

/// What the host observed while a session is deleted.
#[derive(Debug)]
pub enum DeleteEvent {
    Removed(bool),
    Done,
    Inspected(Result<bool, String>),
    RolloutDeleted(Result<bool, String>),
    Written(Option<String>),
}

/// What the host has to do to delete a session.
#[derive(Debug)]
pub enum DeleteAction {
    /// Forget what the runtime holds of the session.
    ClearRuntime,
    /// Find out what is stored of the session.
    Inspect,
    /// Delete the rollout of the session.
    DeleteRollout,
    /// Delete the turns of the session that wait.
    ClearTurns,
    /// Delete the messages of the session that wait for a turn.
    ClearSteers,
    /// Delete the session from the index.
    DeleteMetadata,
    /// Whether there was anything to delete.
    Deleted(bool),
    /// The message is the text followed by the error.
    Fail(&'static str, String),
    /// Nothing: the event does not belong to the phase.
    Ignore,
}

/// The next step of deleting a session.
pub open spec fn delete_step(
    phase: DeletePhase,
    event: DeleteEvent,
) -> (DeletePhase, DeleteAction) {
    match (phase, event) {
        (DeletePhase::Removed, DeleteEvent::Removed(removed)) => (
            DeletePhase::Cleared { removed },
            DeleteAction::ClearRuntime,
        ),
        (DeletePhase::Cleared { removed }, DeleteEvent::Done) => (
            DeletePhase::Inspected { removed },
            DeleteAction::Inspect,
        ),
        (DeletePhase::Inspected { removed }, DeleteEvent::Inspected(inspected)) => match inspected {
            Ok(persisted) => (
                DeletePhase::RolloutDeleted { removed, persisted },
                DeleteAction::DeleteRollout,
            ),
            Err(error) => (
                DeletePhase::Finished,
                DeleteAction::Fail("failed to inspect session before delete: ", error),
            ),
        },
        (
            DeletePhase::RolloutDeleted { removed, persisted },
            DeleteEvent::RolloutDeleted(deleted),
        ) => match deleted {
            Ok(written) => if persisted {
                (DeletePhase::TurnsCleared, DeleteAction::ClearTurns)
            } else {
                (DeletePhase::Finished, DeleteAction::Deleted(removed || written))
            },
            Err(error) => (
                DeletePhase::Finished,
                DeleteAction::Fail("failed to delete session rollout: ", error),
            ),
        },
        (DeletePhase::TurnsCleared, DeleteEvent::Written(failure)) => match failure {
            Some(error) => (
                DeletePhase::Finished,
                DeleteAction::Fail("failed to clear pending turn queue: ", error),
            ),
            None => (DeletePhase::SteersCleared, DeleteAction::ClearSteers),
        },
        (DeletePhase::SteersCleared, DeleteEvent::Written(failure)) => match failure {
            Some(error) => (
                DeletePhase::Finished,
                DeleteAction::Fail("failed to clear pending steer queue: ", error),
            ),
            None => (DeletePhase::MetadataDeleted, DeleteAction::DeleteMetadata),
        },
        (DeletePhase::MetadataDeleted, DeleteEvent::Written(failure)) => match failure {
            Some(error) => (
                DeletePhase::Finished,
                DeleteAction::Fail("failed to delete session metadata: ", error),
            ),
            None => (DeletePhase::Finished, DeleteAction::Deleted(true)),
        },
        _ => (phase, DeleteAction::Ignore),
    }
}

/// Takes deleting a session one step further.
pub fn advance_delete(phase: DeletePhase, event: DeleteEvent) -> (r: (DeletePhase, DeleteAction))
    ensures
        r == delete_step(phase, event),
{
    match (phase, event) {
        (DeletePhase::Removed, DeleteEvent::Removed(removed)) => (
            DeletePhase::Cleared { removed },
            DeleteAction::ClearRuntime,
        ),
        (DeletePhase::Cleared { removed }, DeleteEvent::Done) => (
            DeletePhase::Inspected { removed },
            DeleteAction::Inspect,
        ),
        (DeletePhase::Inspected { removed }, DeleteEvent::Inspected(inspected)) => match inspected {
            Ok(persisted) => (
                DeletePhase::RolloutDeleted { removed, persisted },
                DeleteAction::DeleteRollout,
            ),
            Err(error) => (
                DeletePhase::Finished,
                DeleteAction::Fail("failed to inspect session before delete: ", error),
            ),
        },
        (
            DeletePhase::RolloutDeleted { removed, persisted },
            DeleteEvent::RolloutDeleted(deleted),
        ) => match deleted {
            Ok(written) => {
                if persisted {
                    (DeletePhase::TurnsCleared, DeleteAction::ClearTurns)
                } else {
                    (DeletePhase::Finished, DeleteAction::Deleted(removed || written))
                }
            },
            Err(error) => (
                DeletePhase::Finished,
                DeleteAction::Fail("failed to delete session rollout: ", error),
            ),
        },
        (DeletePhase::TurnsCleared, DeleteEvent::Written(failure)) => match failure {
            Some(error) => (
                DeletePhase::Finished,
                DeleteAction::Fail("failed to clear pending turn queue: ", error),
            ),
            None => (DeletePhase::SteersCleared, DeleteAction::ClearSteers),
        },
        (DeletePhase::SteersCleared, DeleteEvent::Written(failure)) => match failure {
            Some(error) => (
                DeletePhase::Finished,
                DeleteAction::Fail("failed to clear pending steer queue: ", error),
            ),
            None => (DeletePhase::MetadataDeleted, DeleteAction::DeleteMetadata),
        },
        (DeletePhase::MetadataDeleted, DeleteEvent::Written(failure)) => match failure {
            Some(error) => (
                DeletePhase::Finished,
                DeleteAction::Fail("failed to delete session metadata: ", error),
            ),
            None => (DeletePhase::Finished, DeleteAction::Deleted(true)),
        },
        (phase, _) => (phase, DeleteAction::Ignore),
    }
}

/// Copies that a user made of a session stay when it is deleted: only agents'
/// sessions go with it.
pub proof fn law_user_copies_stay(nodes: Seq<SessionNode>, root: SessionId, copy: SessionId)
    requires
        copy != root,
        forall|i: int|
            0 <= i < nodes.len() && (#[trigger] nodes[i]).id == copy ==> !nodes[i].agent,
    ensures
        !stems_from(nodes, root, copy),
{
    if stems_from(nodes, root, copy) {
        let steps = choose|steps: nat| #[trigger] stems_in(nodes, root, copy, steps);
        assert(steps > 0);
        let parent = choose|parent: SessionId| #[trigger]
            is_agent_child(nodes, copy, parent) && stems_in(
                nodes,
                root,
                parent,
                (steps - 1) as nat,
            );
        assert(is_agent_child(nodes, copy, parent));
    }
}

/// What deleting a session with its agents' sessions waits for.
#[derive(Debug)]
pub enum TreePhase {
    Interrupted(usize),
    /// The session that is being deleted, and those that are gone.
    Deleted(usize, Vec<SessionId>),
    Announced,
    Finished,
}

/// What the host observed while sessions are deleted.
#[derive(Debug)]
pub enum TreeEvent {
    Done,
    /// Whether there was anything to delete, or why deleting failed.
    Deleted(Result<bool, (&'static str, String)>),
}

/// What the host has to do to delete sessions.
#[derive(Debug)]
pub enum TreeAction {
    /// Interrupt the turn of a session and wait for its end.
    Interrupt(SessionId),
    /// Delete the session.
    Delete(SessionId),
    /// Tell the clients that the sessions are gone.
    Announce(Vec<SessionId>),
    /// Answer that the sessions are gone.
    Answer,
    /// Answer that deleting failed.
    Fail(String),
    /// Nothing: the event does not belong to the phase.
    Ignore,
}

/// The first step of deleting sessions.
pub open spec fn tree_start(order: Seq<SessionId>) -> (TreePhase, TreeAction) {
    if order.len() == 0 {
        (TreePhase::Finished, TreeAction::Answer)
    } else {
        (TreePhase::Interrupted(0), TreeAction::Interrupt(order[0]))
    }
}

/// The sessions that are gone after the one at `i`.
pub open spec fn gone_after(
    order: Seq<SessionId>,
    i: usize,
    gone: Seq<SessionId>,
    deleted: bool,
) -> Seq<SessionId> {
    if deleted {
        gone.push(order[i as int])
    } else {
        gone
    }
}

/// Whether `step` is the next one of deleting the sessions of `order`: all are
/// interrupted before the first is deleted, and those that are gone are
/// announced together.
pub open spec fn is_tree_step(
    order: Seq<SessionId>,
    phase: TreePhase,
    event: TreeEvent,
    step: (TreePhase, TreeAction),
) -> bool {
    match (phase, event) {
        (TreePhase::Interrupted(i), TreeEvent::Done) if i < order.len() => if i + 1 < order.len() {
            step == (
                TreePhase::Interrupted((i + 1) as usize),
                TreeAction::Interrupt(order[i + 1]),
            )
        } else {
            &&& step.0 matches TreePhase::Deleted(0, gone) && gone@.len() == 0
            &&& step.1 == TreeAction::Delete(order[0])
        },
        (TreePhase::Deleted(i, gone), TreeEvent::Deleted(deleted)) if i < order.len() => match deleted {
            Err((text, error)) => {
                &&& step.0 == TreePhase::Finished
                &&& step.1 matches TreeAction::Fail(message) && message@
                    == "failed to delete session: "@ + text@ + error@
            },
            Ok(deleted) => {
                let all = gone_after(order, i, gone@, deleted);
                if i + 1 < order.len() {
                    &&& step.0 matches TreePhase::Deleted(next, gone) && next == i + 1 && gone@
                        == all
                    &&& step.1 == TreeAction::Delete(order[i + 1])
                } else if all.len() > 0 {
                    &&& step.0 == TreePhase::Announced
                    &&& step.1 matches TreeAction::Announce(gone) && gone@ == all
                } else {
                    step == (TreePhase::Finished, TreeAction::Answer)
                }
            },
        },
        (TreePhase::Announced, TreeEvent::Done) => step == (
            TreePhase::Finished,
            TreeAction::Answer,
        ),
        _ => step == (phase, TreeAction::Ignore),
    }
}

/// Begins to delete sessions.
pub fn begin_delete_tree(order: &Vec<SessionId>) -> (r: (TreePhase, TreeAction))
    ensures
        r == tree_start(order@),
{
    if order.len() == 0 {
        (TreePhase::Finished, TreeAction::Answer)
    } else {
        (TreePhase::Interrupted(0), TreeAction::Interrupt(order[0]))
    }
}

/// Takes deleting sessions one step further.
pub fn advance_delete_tree(order: &Vec<SessionId>, phase: TreePhase, event: TreeEvent) -> (r: (
    TreePhase,
    TreeAction,
))
    ensures
        is_tree_step(order@, phase, event, r),
{
    match (phase, event) {
        (TreePhase::Interrupted(i), TreeEvent::Done) => {
            if i >= order.len() {
                (TreePhase::Interrupted(i), TreeAction::Ignore)
            } else if i + 1 < order.len() {
                (TreePhase::Interrupted(i + 1), TreeAction::Interrupt(order[i + 1]))
            } else {
                (TreePhase::Deleted(0, Vec::new()), TreeAction::Delete(order[0]))
            }
        },
        (TreePhase::Deleted(i, gone), TreeEvent::Deleted(deleted)) => {
            if i >= order.len() {
                return (TreePhase::Deleted(i, gone), TreeAction::Ignore);
            }
            match deleted {
                Err((text, error)) => {
                    let mut message = "failed to delete session: ".to_owned();
                    message.append(text);
                    message.append(error.as_str());
                    (TreePhase::Finished, TreeAction::Fail(message))
                },
                Ok(deleted) => {
                    let mut gone = gone;
                    if deleted {
                        gone.push(order[i]);
                    }
                    if i + 1 < order.len() {
                        (TreePhase::Deleted(i + 1, gone), TreeAction::Delete(order[i + 1]))
                    } else if gone.len() > 0 {
                        (TreePhase::Announced, TreeAction::Announce(gone))
                    } else {
                        (TreePhase::Finished, TreeAction::Answer)
                    }
                },
            }
        },
        (TreePhase::Announced, TreeEvent::Done) => (TreePhase::Finished, TreeAction::Answer),
        (phase, _) => (phase, TreeAction::Ignore),
    }
}

/// Whether `steps` are the steps of deleting the sessions of `order` on these
/// events.
pub open spec fn is_tree_run(
    order: Seq<SessionId>,
    events: Seq<TreeEvent>,
    steps: Seq<(TreePhase, TreeAction)>,
) -> bool {
    &&& steps.len() == events.len() + 1
    &&& steps[0] == tree_start(order)
    &&& forall|k: int|
        0 <= k < events.len() ==> is_tree_step(
            order,
            (#[trigger] steps[k]).0,
            events[k],
            steps[k + 1],
        )
}

/// Whether one of the steps up to `k` interrupts the session.
pub open spec fn interrupted_by(
    steps: Seq<(TreePhase, TreeAction)>,
    k: int,
    session: SessionId,
) -> bool {
    exists|j: int|
        0 <= j <= k && j < steps.len() && (#[trigger] steps[j]).1 == TreeAction::Interrupt(session)
}

proof fn lemma_interrupted_stays(
    steps: Seq<(TreePhase, TreeAction)>,
    k: int,
    session: SessionId,
)
    requires
        interrupted_by(steps, k, session),
    ensures
        interrupted_by(steps, k + 1, session),
{
    let j = choose|j: int|
        0 <= j <= k && j < steps.len() && (#[trigger] steps[j]).1 == TreeAction::Interrupt(session);
    assert(steps[j].1 == TreeAction::Interrupt(session));
}

proof fn lemma_interrupted_so_far(
    order: Seq<SessionId>,
    events: Seq<TreeEvent>,
    steps: Seq<(TreePhase, TreeAction)>,
    k: int,
)
    requires
        is_tree_run(order, events, steps),
        0 <= k < steps.len(),
    ensures
        match steps[k].0 {
            TreePhase::Interrupted(i) => i < order.len() && forall|m: int|
                0 <= m <= i ==> interrupted_by(steps, k, #[trigger] order[m]),
            TreePhase::Deleted(_, _) => forall|m: int|
                0 <= m < order.len() ==> interrupted_by(steps, k, #[trigger] order[m]),
            _ => true,
        },
    decreases k,
{
    if k == 0 {
        if order.len() > 0 {
            assert(steps[0].1 == TreeAction::Interrupt(order[0]));
        }
    } else {
        lemma_interrupted_so_far(order, events, steps, k - 1);
        assert(is_tree_step(order, steps[k - 1].0, events[k - 1], steps[k - 1 + 1]));
        match steps[k - 1].0 {
            TreePhase::Interrupted(i) => {
                assert forall|m: int| 0 <= m <= i implies interrupted_by(
                    steps,
                    k,
                    #[trigger] order[m],
                ) by {
                    lemma_interrupted_stays(steps, k - 1, order[m]);
                }
                if steps[k].1 is Interrupt {
                    assert(steps[k].1 == TreeAction::Interrupt(order[i + 1]));
                    assert(interrupted_by(steps, k, order[i + 1]));
                }
            },
            TreePhase::Deleted(_, _) => {
                assert forall|m: int| 0 <= m < order.len() implies interrupted_by(
                    steps,
                    k,
                    #[trigger] order[m],
                ) by {
                    lemma_interrupted_stays(steps, k - 1, order[m]);
                }
            },
            _ => {},
        }
    }
}

/// No session is deleted before the turns of all of them are interrupted.
pub proof fn law_turns_end_before_anything_is_deleted(
    order: Seq<SessionId>,
    events: Seq<TreeEvent>,
    steps: Seq<(TreePhase, TreeAction)>,
    k: int,
    m: int,
)
    requires
        is_tree_run(order, events, steps),
        0 <= k < steps.len(),
        steps[k].1 is Delete,
        0 <= m < order.len(),
    ensures
        interrupted_by(steps, k, order[m]),
{
    lemma_interrupted_so_far(order, events, steps, k);
    if k > 0 {
        lemma_interrupted_so_far(order, events, steps, k - 1);
        assert(is_tree_step(order, steps[k - 1].0, events[k - 1], steps[k - 1 + 1]));
    }
}

/// An editor is shown the sessions of the directory that it names, and all of
/// them where it names none, in order.
pub proof fn law_editors_are_shown_the_sessions_of_a_directory(
    sessions: Seq<ListedSession>,
    session: ListedSession,
    cwd: PathModel,
)
    requires
        sessions.len() < usize::MAX,
    ensures
        wanted_places(sessions.push(session), None) == wanted_places(sessions, None).push(
            sessions.len() as usize,
        ),
        parts(session.cwd.components@) == parts(cwd.components@) ==> wanted_places(
            sessions.push(session),
            Some(cwd),
        ) == wanted_places(sessions, Some(cwd)).push(sessions.len() as usize),
        parts(session.cwd.components@) != parts(cwd.components@) ==> wanted_places(
            sessions.push(session),
            Some(cwd),
        ) == wanted_places(sessions, Some(cwd)),
        wanted_places(Seq::empty(), Some(cwd)) == Seq::<usize>::empty(),
        wanted_places(Seq::empty(), None) == Seq::<usize>::empty(),
{
    assert(sessions.push(session).drop_last() =~= sessions);
}

/// A page holds fifty sessions from where its cursor stands, and leads on where
/// there are more; a cursor behind the end, and one that cannot be read, are
/// refused, and so is a directory that is not named in full.
pub proof fn law_editors_page_through_sessions(
    cwd: Option<PathModel>,
    start: usize,
    sessions: Seq<ListedSession>,
    error: String,
)
    requires
        cwd is Some ==> cwd->0.absolute,
        first_misplaced(sessions, cwd) is None,
        start <= usize::MAX - 50,
    ensures
        ({
            let places = wanted_places(sessions, cwd);
            let r = list_outcome(cwd, Some(Ok(start)), sessions);
            &&& start > places.len() ==> (r matches Err(ListRefusal::Plain(why)) && why.code
                is InvalidParams)
            &&& start + 50 < places.len() ==> (r matches Ok((page, next)) && page
                == places.subrange(start as int, start + 50) && next == Some((start + 50) as usize))
            &&& start <= places.len() <= start + 50 ==> (r matches Ok((page, next)) && page
                == places.skip(start as int) && next is None)
            &&& list_outcome(cwd, None, sessions) == list_outcome(cwd, Some(Ok(0usize)), sessions)
            &&& list_outcome(cwd, Some(Err(error)), sessions) matches Err(ListRefusal::Plain(why))
                && why.code is InvalidParams && why.detail == Some(error)
        }),
{
}

/// A directory must be named in full, by the editor and by every session that
/// is shown.
pub proof fn law_directories_are_named_in_full(
    cwd: PathModel,
    cursor: Option<Result<usize, String>>,
    sessions: Seq<ListedSession>,
    session: ListedSession,
)
    ensures
        !cwd.absolute ==> (list_outcome(Some(cwd), cursor, sessions) matches Err(
            ListRefusal::Plain(why),
        ) && why.code is InvalidParams),
        first_misplaced(Seq::empty(), None) is None,
        first_misplaced(sessions, None) is Some ==> first_misplaced(sessions.push(session), None)
            == first_misplaced(sessions, None),
        first_misplaced(sessions, None) is None && !session.cwd.absolute ==> first_misplaced(
            sessions.push(session),
            None,
        ) == Some(session.id),
        first_misplaced(sessions, None) is None && session.cwd.absolute ==> first_misplaced(
            sessions.push(session),
            None,
        ) is None,
        first_misplaced(sessions, None) is Some && cursor is None ==> list_outcome(
            None,
            cursor,
            sessions,
        ) == Err::<(Seq<usize>, Option<usize>), ListRefusal>(
            ListRefusal::Misplaced(first_misplaced(sessions, None)->0),
        ),
{
    assert(sessions.push(session).drop_last() =~= sessions);
}

/// A new session is opened without a look at its directory, and found; another
/// one is opened in its directory, with the directories of the editor. Each is
/// subscribed to, a loaded one sends its history, and the editor is answered
/// with the options.
pub proof fn law_sessions_are_opened_as_asked(
    kind: OpenKind,
    session: SessionId,
    facts: OfferFacts,
    preset: PermissionPreset,
    last: (OpenPhase, OpenAction),
)
    requires
        is_open_step(
            kind,
            OpenPhase::Options(session),
            OpenEvent::Options(Ok((facts, preset))),
            last,
        ),
    ensures
        ({
            let a = open_step(kind, OpenPhase::Roots, OpenEvent::Checked(None));
            let b = if kind is New {
                a
            } else {
                open_step(kind, a.0, OpenEvent::DirectoryChecked(None))
            };
            let c = open_step(kind, b.0, OpenEvent::Checked(None));
            let d = open_step(kind, c.0, OpenEvent::Opened(Some(session)));
            let e = if kind is New {
                open_step(kind, d.0, OpenEvent::Found(true))
            } else {
                open_step(kind, d.0, OpenEvent::Checked(None))
            };
            let f = open_step(kind, e.0, OpenEvent::Done);
            let g = if kind is Load {
                open_step(kind, f.0, OpenEvent::Done)
            } else {
                f
            };
            &&& !(kind is New) ==> a.1 is CheckDirectory
            &&& b.1 is BuildTools
            &&& c.1 is Open
            &&& kind is New ==> d.1 == OpenAction::FindSession(session)
            &&& !(kind is New) ==> d.1 == OpenAction::ApplyDirectories(session)
            &&& e.1 == OpenAction::Subscribe(session)
            &&& kind is Load ==> f.1 == OpenAction::SendHistory(session)
            &&& g == (OpenPhase::Options(session), OpenAction::ReadOptions(session))
            &&& last.1 matches OpenAction::Answer { session: answered, options } && answered
                == session
        }),
{
}

/// A session that cannot be opened is answered with the reason.
pub proof fn law_unopened_sessions_say_why(
    kind: OpenKind,
    session: SessionId,
    why: AcpRejection,
    error: String,
)
    ensures
        open_step(kind, OpenPhase::Roots, OpenEvent::Checked(Some(error))).1 matches
            OpenAction::Reject(told) && told.code is InvalidParams && told.detail == Some(error),
        open_step(kind, OpenPhase::Directory, OpenEvent::DirectoryChecked(Some(why))).1
            == OpenAction::Reject(why),
        open_step(kind, OpenPhase::Tools, OpenEvent::Checked(Some(error))).1 matches
            OpenAction::Reject(told) && told.code is InvalidParams && told.detail == Some(error),
        open_step(kind, OpenPhase::Opened, OpenEvent::Opened(None)).1 is PassOn,
        open_step(kind, OpenPhase::Directories(session), OpenEvent::Checked(Some(error))).1 matches
            OpenAction::Reject(told) && told.code is ServerError && told.detail == Some(error),
        open_step(kind, OpenPhase::Found(session), OpenEvent::Found(false)).1 matches
            OpenAction::Reject(told) && told.code is ServerError,
        open_step(kind, OpenPhase::Options(session), OpenEvent::Options(Err(error))).1 matches
            OpenAction::Reject(told) && told.code is ServerError && told.detail == Some(error),
{
}

/// A session is deleted with everything of it: what runs of it is cleared, its
/// record goes, and where it is indexed what waits for it and its metadata go
/// too. It is told whether there was anything to delete.
pub proof fn law_sessions_are_deleted_whole(removed: bool, persisted: bool, written: bool, error: String)
    ensures
        ({
            let a = delete_step(DeletePhase::Removed, DeleteEvent::Removed(removed));
            let b = delete_step(a.0, DeleteEvent::Done);
            let c = delete_step(b.0, DeleteEvent::Inspected(Ok(persisted)));
            let d = delete_step(c.0, DeleteEvent::RolloutDeleted(Ok(written)));
            let e = delete_step(d.0, DeleteEvent::Written(None));
            let f = delete_step(e.0, DeleteEvent::Written(None));
            let g = delete_step(f.0, DeleteEvent::Written(None));
            &&& a.1 is ClearRuntime
            &&& b.1 is Inspect
            &&& c.1 is DeleteRollout
            &&& !persisted ==> d.1 == DeleteAction::Deleted(removed || written)
            &&& persisted ==> d.1 is ClearTurns && e.1 is ClearSteers && f.1 is DeleteMetadata
                && g.1 == DeleteAction::Deleted(true)
            &&& delete_step(b.0, DeleteEvent::Inspected(Err(error))).1 matches DeleteAction::Fail(
                _,
                told,
            ) && told == error
            &&& delete_step(c.0, DeleteEvent::RolloutDeleted(Err(error))).1 matches
                DeleteAction::Fail(_, told) && told == error
            &&& persisted ==> (delete_step(d.0, DeleteEvent::Written(Some(error))).1 matches
                DeleteAction::Fail(_, told) && told == error)
            &&& persisted ==> (delete_step(e.0, DeleteEvent::Written(Some(error))).1 matches
                DeleteAction::Fail(_, told) && told == error)
            &&& persisted ==> (delete_step(f.0, DeleteEvent::Written(Some(error))).1 matches
                DeleteAction::Fail(_, told) && told == error)
        }),
{
}

/// The sessions of the agents of a session are deleted with it, and those of
/// their agents.
pub proof fn law_agents_go_with_their_session(
    nodes: Seq<SessionNode>,
    root: SessionId,
    parent: SessionId,
    i: int,
)
    requires
        0 <= i < nodes.len(),
        nodes[i].agent,
        nodes[i].parent == Some(parent),
        stems_from(nodes, root, parent),
    ensures
        stems_from(nodes, root, nodes[i].id),
        stems_from(nodes, root, root),
{
    let steps = choose|steps: nat| #[trigger] stems_in(nodes, root, parent, steps);
    assert(is_agent_child(nodes, nodes[i].id, parent));
    assert(stems_in(nodes, root, nodes[i].id, (steps + 1) as nat));
    assert(stems_in(nodes, root, root, 0));
}

/// The sessions of a tree are each interrupted and then each deleted, in order,
/// and those that were there are announced; one that cannot be deleted stops the
/// rest.
pub proof fn law_trees_are_deleted_in_order(
    order: Seq<SessionId>,
    i: usize,
    gone: Vec<SessionId>,
    deleted: bool,
    text: &'static str,
    error: String,
    step: (TreePhase, TreeAction),
    failed: (TreePhase, TreeAction),
)
    requires
        i < order.len(),
        is_tree_step(
            order,
            TreePhase::Deleted(i, gone),
            TreeEvent::Deleted(Ok(deleted)),
            step,
        ),
        is_tree_step(
            order,
            TreePhase::Deleted(i, gone),
            TreeEvent::Deleted(Err((text, error))),
            failed,
        ),
    ensures
        tree_start(order) == (TreePhase::Interrupted(0), TreeAction::Interrupt(order[0])),
        ({
            let all = if deleted {
                gone@.push(order[i as int])
            } else {
                gone@
            };
            &&& i + 1 < order.len() ==> step.1 == TreeAction::Delete(order[i + 1]) && (
            step.0 matches TreePhase::Deleted(next, so_far) && next == i + 1 && so_far@ == all)
            &&& i + 1 == order.len() && all.len() > 0 ==> (step.1 matches TreeAction::Announce(told)
                && told@ == all)
            &&& i + 1 == order.len() && all.len() == 0 ==> step.1 is Answer
        }),
        failed.0 is Finished && failed.1 is Fail,
{
}

} // verus!
