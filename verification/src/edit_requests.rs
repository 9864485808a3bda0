//! A client's request to edit a message: what comes before the edit, and the
//! answer.

use crate::inputs::{PartRefusal, UserInput};
use crate::message_edit::{
    check_revision, edited_message, is_edit_step, item_revision, revision_check, revision_of,
    tells_of_edit, EditAction, EditEvent, EditIds, EditMode, EditPhase, EditRecord, EditRequest,
    EditedMessage, HistoryItem, RestorePolicy,
};
use crate::protocol::{reject_about, ErrorCode, ItemId, Rejection};
use vstd::prelude::*;

verus! {

/// A client's request to edit a message. A revision of zero stands for any.
#[derive(Debug)]
pub struct EditCall {
    pub item: ItemId,
    pub expected_revision: u32,
    pub mode: EditMode,
    pub restore: RestorePolicy,
    /// The new content, as the client sent it.
    pub content: Vec<UserInput>,
    /// The key under which the client knows the edit.
    pub key: String,
}

/// The new content with its images stored, and as it is shown.
#[derive(Debug)]
pub struct EditedParts {
    pub input: Vec<UserInput>,
    pub display: String,
}

impl EditCall {
    /// The edit that is asked for.
    pub open spec fn edit(self, parts: EditedParts) -> EditRequest {
        EditRequest {
            target: Some(self.item),
            expected_target: None,
            mode: self.mode,
            restore: Some(self.restore),
            content: parts.input,
            display: parts.display,
            client: Some(self.key),
        }
    }

    fn request(&self, parts: EditedParts) -> (r: EditRequest)
        ensures
            r == self.edit(parts),
    {
        EditRequest {
            target: Some(self.item),
            expected_target: None,
            mode: self.mode,
            restore: Some(self.restore),
            content: parts.input,
            display: parts.display,
            client: Some(self.key.clone()),
        }
    }
}

/// What a request waits for.
#[derive(Clone, Copy, Debug, PartialEq, Eq, Structural)]
pub enum EditCallPhase {
    Revision,
    Content,
    Edited,
    Finished,
}

/// What the host observed during a request.
#[derive(Debug)]
pub enum EditCallEvent {
    /// The canonical history, if it can be read.
    History(Option<Vec<HistoryItem>>),
    /// The content with its images stored, or the part that refuses it.
    Content(Result<EditedParts, PartRefusal>),
    /// What the edit wrote, unless it was refused.
    Edited(Option<EditIds>),
}

/// What the host has to do for a request.
#[derive(Debug)]
pub enum EditCallAction {
    /// Read the history of the session.
    ReadHistory,
    /// Store the images of the new content and render it.
    ReadContent,
    /// Run the edit.
    Edit(EditRequest),
    /// Answer with the message.
    Answer(EditedMessage),
    /// Answer as the edit was answered.
    PassOn,
    /// Refuse the edit.
    Reject(Rejection),
    /// Nothing: the event does not belong to the phase.
    Ignore,
}

/// The first step of a request: the revision is looked up where one is named.
pub open spec fn edit_call_start(call: EditCall) -> (EditCallPhase, EditCallAction) {
    if call.expected_revision > 0 {
        (EditCallPhase::Revision, EditCallAction::ReadHistory)
    } else {
        (EditCallPhase::Content, EditCallAction::ReadContent)
    }
}

/// The revision of the message, as far as the history can be read.
pub open spec fn revision_found(history: Option<Vec<HistoryItem>>, item: ItemId) -> Option<u32> {
    match history {
        Some(items) => revision_of(items@, item),
        None => None,
    }
}

/// Whether `why` tells of a part that cannot be taken.
pub open spec fn tells_of_part(why: Rejection, refusal: PartRefusal) -> bool {
    &&& why.code == ErrorCode::InvalidParams
    &&& why.message_view() == "invalid canonical session/message/edit content: "@
        + refusal.queue_message_view()
}

/// Whether `step` is the next one of a request.
pub open spec fn is_edit_call_step(
    call: EditCall,
    phase: EditCallPhase,
    event: EditCallEvent,
    step: (EditCallPhase, EditCallAction),
) -> bool {
    match (phase, event) {
        (EditCallPhase::Revision, EditCallEvent::History(history)) => step == match revision_check(
            call.expected_revision,
            revision_found(history, call.item),
        ) {
            Some(why) => (EditCallPhase::Finished, EditCallAction::Reject(why)),
            None => (EditCallPhase::Content, EditCallAction::ReadContent),
        },
        (EditCallPhase::Content, EditCallEvent::Content(Err(refusal))) => {
            &&& step.0 == EditCallPhase::Finished
            &&& step.1 matches EditCallAction::Reject(why) && tells_of_part(why, refusal)
        },
        (EditCallPhase::Content, EditCallEvent::Content(Ok(parts))) => step == (
            EditCallPhase::Edited,
            EditCallAction::Edit(call.edit(parts)),
        ),
        (EditCallPhase::Edited, EditCallEvent::Edited(edited)) => {
            &&& step.0 == EditCallPhase::Finished
            &&& match edited {
                Some(ids) => step.1 matches EditCallAction::Answer(message) && tells_of_edit(
                    call.mode,
                    call.content@,
                    call.expected_revision,
                    ids,
                    message,
                ),
                None => step.1 is PassOn,
            }
        },
        _ => step == (phase, EditCallAction::Ignore),
    }
}

/// Begins a request.
pub fn begin_edit_call(call: &EditCall) -> (r: (EditCallPhase, EditCallAction))
    ensures
        r == edit_call_start(*call),
{
    if call.expected_revision > 0 {
        (EditCallPhase::Revision, EditCallAction::ReadHistory)
    } else {
        (EditCallPhase::Content, EditCallAction::ReadContent)
    }
}

/// Takes a request one step further.
pub fn advance_edit_call(call: &EditCall, phase: EditCallPhase, event: EditCallEvent) -> (r: (
    EditCallPhase,
    EditCallAction,
))
    ensures
        is_edit_call_step(*call, phase, event, r),
{
    match (phase, event) {
        (EditCallPhase::Revision, EditCallEvent::History(history)) => {
            let found = match &history {
                Some(items) => item_revision(items, call.item),
                None => None,
            };
            match check_revision(call.expected_revision, found) {
                Some(why) => (EditCallPhase::Finished, EditCallAction::Reject(why)),
                None => (EditCallPhase::Content, EditCallAction::ReadContent),
            }
        },
        (EditCallPhase::Content, EditCallEvent::Content(content)) => match content {
            Err(refusal) => (
                EditCallPhase::Finished,
                EditCallAction::Reject(
                    reject_about(
                        ErrorCode::InvalidParams,
                        "invalid canonical session/message/edit content: ",
                        refusal.queue_message(),
                    ),
                ),
            ),
            Ok(parts) => (EditCallPhase::Edited, EditCallAction::Edit(call.request(parts))),
        },
        (EditCallPhase::Edited, EditCallEvent::Edited(edited)) => match edited {
            Some(ids) => (
                EditCallPhase::Finished,
                EditCallAction::Answer(
                    edited_message(call.mode, &call.content, call.expected_revision, &ids),
                ),
            ),
            None => (EditCallPhase::Finished, EditCallAction::PassOn),
        },
        (phase, _) => (phase, EditCallAction::Ignore),
    }
}

/// A message that has another revision than the client expects is not edited,
/// and one that has the expected revision is.
pub proof fn law_stale_messages_are_not_edited(
    call: EditCall,
    history: Option<Vec<HistoryItem>>,
    step: (EditCallPhase, EditCallAction),
)
    requires
        call.expected_revision > 0,
        is_edit_call_step(
            call,
            edit_call_start(call).0,
            EditCallEvent::History(history),
            step,
        ),
    ensures
        step.1 is ReadContent <==> revision_found(history, call.item) == Some(
            call.expected_revision,
        ),
        step.1 is ReadContent || step.1 is Reject,
{
}

/// What a client sends is what its message then contains: the edit is asked for
/// with the content, its replacement is stored with it and its turn is run with
/// it, and the client is answered with what it sent.
pub proof fn law_edits_put_the_content_in_place(
    call: EditCall,
    parts: EditedParts,
    asked: (EditCallPhase, EditCallAction),
    phase: EditPhase,
    event: EditEvent,
    step: (EditPhase, EditAction),
    ids: EditIds,
    answered: (EditCallPhase, EditCallAction),
)
    requires
        is_edit_call_step(
            call,
            EditCallPhase::Content,
            EditCallEvent::Content(Ok(parts)),
            asked,
        ),
        is_edit_step(asked.1->Edit_0, phase, event, step),
        is_edit_call_step(call, asked.0, EditCallEvent::Edited(Some(ids)), answered),
    ensures
        asked.1 is Edit,
        asked.1->Edit_0.content@ == parts.input@,
        step.1 matches EditAction::Append(EditRecord::MessageEdit { text, .. }) ==> text
            == parts.display,
        step.1 matches EditAction::Append(EditRecord::ReplacementItem { message, .. }) ==> {
            &&& message.input@ == parts.input@
            &&& message.text == parts.display
        },
        step.1 matches EditAction::SpawnTurn { work: turn, .. } ==> {
            &&& turn.input@ == parts.input@
            &&& turn.display == parts.display
        },
        step.1 matches EditAction::Announce(notice) ==> {
            notice.message() matches Some(message) ==> message.input@ == parts.input@
                && message.text == parts.display
        },
        answered.1 matches EditCallAction::Answer(message) && message.content@ == call.content@,
{
}

/// A call is carried out as it was sent: on the message that it names, in its
/// mode, with its way of restoring files, with the content that was read and
/// under its key.
pub proof fn law_calls_ask_for_the_edit_they_name(
    call: EditCall,
    parts: EditedParts,
    step: (EditCallPhase, EditCallAction),
)
    requires
        is_edit_call_step(call, EditCallPhase::Content, EditCallEvent::Content(Ok(parts)), step),
    ensures
        step.1 matches EditCallAction::Edit(request) && {
            &&& request.target == Some(call.item)
            &&& request.expected_target is None
            &&& request.mode == call.mode
            &&& request.restore == Some(call.restore)
            &&& request.content == parts.input
            &&& request.display == parts.display
            &&& request.client == Some(call.key)
        },
{
}

/// A call that expects a revision has the history read first, and one that
/// expects none goes straight to the content. What is read decides: the
/// expected revision lets the call go on, another one is a conflict, and a
/// message that is not there cannot be edited.
pub proof fn law_calls_are_held_to_their_revision(
    call: EditCall,
    history: Option<Vec<HistoryItem>>,
    step: (EditCallPhase, EditCallAction),
)
    requires
        is_edit_call_step(call, EditCallPhase::Revision, EditCallEvent::History(history), step),
    ensures
        call.expected_revision == 0 ==> edit_call_start(call).1 is ReadContent,
        call.expected_revision > 0 ==> edit_call_start(call).1 is ReadHistory,
        call.expected_revision > 0 && history is None ==> (step.1 matches EditCallAction::Reject(
            why,
        ) && why.code is InvalidContentParts),
        call.expected_revision > 0 && history is Some ==> match revision_of(
            history->0@,
            call.item,
        ) {
            None => step.1 matches EditCallAction::Reject(why) && why.code is InvalidContentParts,
            Some(found) => if found == call.expected_revision {
                step.1 is ReadContent
            } else {
                step.1 matches EditCallAction::Reject(why) && why.code is WorkspaceVersionConflict
            },
        },
{
}

/// An edit that was made is answered with the new message, one that was refused
/// with the refusal, and content that cannot be read is the client's fault.
pub proof fn law_calls_are_answered(
    call: EditCall,
    ids: EditIds,
    refusal: PartRefusal,
    made: (EditCallPhase, EditCallAction),
    refused: (EditCallPhase, EditCallAction),
    unread: (EditCallPhase, EditCallAction),
)
    requires
        is_edit_call_step(call, EditCallPhase::Edited, EditCallEvent::Edited(Some(ids)), made),
        is_edit_call_step(call, EditCallPhase::Edited, EditCallEvent::Edited(None), refused),
        is_edit_call_step(
            call,
            EditCallPhase::Content,
            EditCallEvent::Content(Err(refusal)),
            unread,
        ),
    ensures
        made.1 matches EditCallAction::Answer(message) && {
            &&& message.item == ids.replacement_item
            &&& message.turn == ids.replacement_turn
            &&& message.revision == call.expected_revision + 1
            &&& message.content@ == call.content@
        },
        refused.1 is PassOn,
        unread.1 matches EditCallAction::Reject(why) && why.code is InvalidParams,
{
}

} // verus!
