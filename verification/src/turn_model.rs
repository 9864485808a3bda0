//! The model and the effort that a turn runs with.

use crate::text::copy_text;
use vstd::prelude::*;

verus! {

/// What a request or a session says of the model: a binding, the name of a
/// model, and an effort.
#[derive(Debug)]
pub struct ModelChoice {
    pub binding: Option<String>,
    pub model: Option<String>,
    pub effort: Option<String>,
}

/// The model and the effort that a turn is resolved with, as far as they are
/// chosen.
#[derive(Debug, PartialEq, Eq)]
pub struct TurnSelection {
    pub model: Option<String>,
    pub effort: Option<String>,
}

/// The first of two choices that is made.
pub open spec fn first_named(first: Option<String>, second: Option<String>) -> Option<String> {
    if first is Some {
        first
    } else {
        second
    }
}

/// What a choice selects: a binding goes before the name of a model.
pub open spec fn selection_of(choice: ModelChoice) -> Option<String> {
    first_named(choice.binding, choice.model)
}

/// What a turn is resolved with: what the request chooses, else what the
/// session has.
pub open spec fn turn_selection(asked: ModelChoice, session: ModelChoice) -> TurnSelection {
    TurnSelection {
        model: first_named(selection_of(asked), selection_of(session)),
        effort: first_named(asked.effort, session.effort),
    }
}

/// What a turn is resolved with that a session runs by itself.
pub open spec fn own_selection(session: ModelChoice) -> TurnSelection {
    TurnSelection { model: selection_of(session), effort: session.effort }
}

fn choose_first(first: &Option<String>, second: &Option<String>) -> (r: Option<String>)
    ensures
        r == first_named(*first, *second),
{
    if first.is_some() {
        copy_text(first)
    } else {
        copy_text(second)
    }
}

/// The model of a session: its binding goes before the name of its model.
pub fn session_model_selection(session: &ModelChoice) -> (r: Option<String>)
    ensures
        r == selection_of(*session),
{
    choose_first(&session.binding, &session.model)
}

/// The model of a turn: what the request chooses, else what the session has.
pub fn requested_model_selection(asked: &ModelChoice, session: &ModelChoice) -> (r: Option<String>)
    ensures
        r == first_named(selection_of(*asked), selection_of(*session)),
{
    let asked = session_model_selection(asked);
    if asked.is_some() {
        asked
    } else {
        session_model_selection(session)
    }
}

/// What a turn is resolved with that a client asks for.
pub fn select_for_turn(asked: &ModelChoice, session: &ModelChoice) -> (r: TurnSelection)
    ensures
        r == turn_selection(*asked, *session),
{
    TurnSelection {
        model: requested_model_selection(asked, session),
        effort: choose_first(&asked.effort, &session.effort),
    }
}

/// What a turn is resolved with that a session runs by itself.
pub fn select_for_session(session: &ModelChoice) -> (r: TurnSelection)
    ensures
        r == own_selection(*session),
{
    TurnSelection { model: session_model_selection(session), effort: copy_text(&session.effort) }
}

/// The model that a selection was resolved to, as the turn is recorded with it.
#[derive(Debug, PartialEq, Eq)]
pub struct TurnModel {
    pub binding: Option<String>,
    pub model: String,
    pub effort: Option<String>,
}

impl TurnModel {
    /// A copy of the model.
    pub fn copy(&self) -> (r: TurnModel)
        ensures
            r == *self,
    {
        TurnModel {
            binding: copy_text(&self.binding),
            model: self.model.clone(),
            effort: copy_text(&self.effort),
        }
    }

    /// The provider that is shown with the model.
    pub fn provider(&self) -> (r: String)
        ensures
            r@ == match self.binding {
                Some(binding) => binding@,
                None => "unknown"@,
            },
    {
        match &self.binding {
            Some(binding) => binding.clone(),
            None => "unknown".to_owned(),
        }
    }
}

/// A request that chooses nothing leaves the choice to the session.
pub proof fn law_silent_requests_run_as_the_session(asked: ModelChoice, session: ModelChoice)
    requires
        asked.binding is None,
        asked.model is None,
        asked.effort is None,
    ensures
        turn_selection(asked, session) == own_selection(session),
{
}

/// What a request names is what its turn is resolved with: its binding; where
/// it names none, its model; and only where it names neither, what the session
/// has, of which the binding comes first too. The effort is the request's, else
/// the session's.
pub proof fn law_requests_choose_before_sessions(
    asked: ModelChoice,
    session: ModelChoice,
    r: TurnSelection,
)
    requires
        r == turn_selection(asked, session),
    ensures
        asked.binding is Some ==> r.model == asked.binding,
        asked.binding is None && asked.model is Some ==> r.model == asked.model,
        asked.binding is None && asked.model is None && session.binding is Some ==> r.model
            == session.binding,
        asked.binding is None && asked.model is None && session.binding is None ==> r.model
            == session.model,
        asked.effort is Some ==> r.effort == asked.effort,
        asked.effort is None ==> r.effort == session.effort,
{
}

/// A session that runs a turn by itself runs it with its binding, and where it
/// has none with its model, at its own effort.
pub proof fn law_sessions_run_with_what_they_have(session: ModelChoice, r: TurnSelection)
    requires
        r == own_selection(session),
    ensures
        session.binding is Some ==> r.model == session.binding,
        session.binding is None ==> r.model == session.model,
        r.effort == session.effort,
{
}

} // verus!
