//! Identifiers, error codes and rejections shared by every request handler.

use vstd::prelude::*;

verus! {

/// Identifies one session.
#[derive(Clone, Copy, Debug, PartialEq, Eq, Structural, Hash)]
pub struct SessionId {
    pub raw: u128,
}

/// Identifies one turn of a session.
#[derive(Clone, Copy, Debug, PartialEq, Eq, Structural, Hash)]
pub struct TurnId {
    pub raw: u128,
}

/// Identifies one item of a session's history.
#[derive(Clone, Copy, Debug, PartialEq, Eq, Structural, Hash)]
pub struct ItemId {
    pub raw: u128,
}

/// The error codes of the native protocol that the handlers answer with.
#[derive(Clone, Copy, Debug, PartialEq, Eq, Structural, Hash)]
pub enum ErrorCode {
    ActiveTurnEditRejected,
    ActiveTurnNotSteerable,
    CursorExpired,
    EmptyInput,
    ExpectedTargetMessageMismatch,
    ExpectedTurnMismatch,
    ForkTurnNotFound,
    ForkTurnNotStable,
    GoalNotFound,
    InternalError,
    InvalidContentParts,
    InvalidMentions,
    InvalidParams,
    NotInitialized,
    OlderMessageRequiresFork,
    PermissionDenied,
    PolicyDenied,
    QueueItemNotFound,
    RestorePlanExpired,
    RestorePlanNotFound,
    SessionNotFound,
    TurnAlreadyRunning,
    TurnNotFound,
    WorkspaceRestoreFailedToStart,
    WorkspaceVersionConflict,
}

/// A refused request: the code, a fixed text, what is appended to that text
/// when the refusal quotes something of the request or of a failure, and what
/// follows the quotation.
#[derive(Debug)]
pub struct Rejection {
    pub code: ErrorCode,
    pub text: &'static str,
    pub detail: Option<String>,
    pub tail: Option<&'static str>,
}

impl Rejection {
    /// The message a client sees: the fixed text, the detail and the tail.
    pub open spec fn message_view(self) -> Seq<char> {
        let text = match self.detail {
            Some(detail) => self.text@ + detail@,
            None => self.text@,
        };
        match self.tail {
            Some(tail) => text + tail@,
            None => text,
        }
    }

    /// The message a client sees.
    pub fn message(&self) -> (r: String)
        ensures
            r@ == self.message_view(),
    {
        let mut message = self.text.to_owned();
        if let Some(detail) = &self.detail {
            message.append(detail.as_str());
        }
        if let Some(tail) = self.tail {
            message.append(tail);
        }
        message
    }
}

/// A rejection with a fixed message.
pub open spec fn rejection(code: ErrorCode, text: &'static str) -> Rejection {
    Rejection { code, text, detail: None, tail: None }
}

/// A rejection whose message ends in `detail`.
pub open spec fn rejection_about(
    code: ErrorCode,
    text: &'static str,
    detail: String,
) -> Rejection {
    Rejection { code, text, detail: Some(detail), tail: None }
}

/// Builds a rejection with a fixed message.
pub fn reject(code: ErrorCode, text: &'static str) -> (r: Rejection)
    ensures
        r == rejection(code, text),
{
    Rejection { code, text, detail: None, tail: None }
}

/// Builds a rejection whose message ends in `detail`.
pub fn reject_about(code: ErrorCode, text: &'static str, detail: String) -> (r: Rejection)
    ensures
        r == rejection_about(code, text, detail),
{
    Rejection { code, text, detail: Some(detail), tail: None }
}

/// A rejection whose message quotes `detail` between two fixed texts.
pub open spec fn rejection_quoting(
    code: ErrorCode,
    text: &'static str,
    detail: String,
    tail: &'static str,
) -> Rejection {
    Rejection { code, text, detail: Some(detail), tail: Some(tail) }
}

/// Builds a rejection whose message quotes `detail` between two fixed texts.
pub fn reject_quoting(
    code: ErrorCode,
    text: &'static str,
    detail: String,
    tail: &'static str,
) -> (r: Rejection)
    ensures
        r == rejection_quoting(code, text, detail, tail),
{
    Rejection { code, text, detail: Some(detail), tail: Some(tail) }
}

/// The answer to a request about a session that is not there.
pub open spec fn session_missing() -> Rejection {
    rejection(ErrorCode::SessionNotFound, "session does not exist")
}

/// Builds the answer to a request about a session that is not there.
pub fn reject_session_missing() -> (r: Rejection)
    ensures
        r == session_missing(),
{
    reject(ErrorCode::SessionNotFound, "session does not exist")
}

/// What a client sees of a refusal is its text, then what it quotes, then what
/// follows.
pub proof fn law_refusals_are_read_from_left_to_right(why: Rejection)
    ensures
        why.detail is None && why.tail is None ==> why.message_view() == why.text@,
        why.detail is Some && why.tail is None ==> why.message_view() == why.text@
            + why.detail->0@,
        why.detail is Some && why.tail is Some ==> why.message_view() == why.text@ + why.detail->0@
            + why.tail->0@,
        why.detail is None && why.tail is Some ==> why.message_view() == why.text@ + why.tail->0@,
{
}

/// A refusal has the code, the text and the quotation that it is made with.
pub proof fn law_refusals_are_what_they_are_made_of(
    code: ErrorCode,
    text: &'static str,
    detail: String,
    tail: &'static str,
)
    ensures
        rejection(code, text).code == code && rejection(code, text).message_view() == text@,
        rejection_about(code, text, detail).code == code && rejection_about(
            code,
            text,
            detail,
        ).message_view() == text@ + detail@,
        rejection_quoting(code, text, detail, tail).code == code && rejection_quoting(
            code,
            text,
            detail,
            tail,
        ).message_view() == text@ + detail@ + tail@,
        session_missing().code is SessionNotFound,
{
}

} // verus!
