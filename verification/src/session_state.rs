//! A loaded session, as far as edits and compactions change it.

use crate::compaction::{SessionCounters, TurnStatus};
use crate::message_edit::SessionItem;
use crate::protocol::TurnId;
use crate::sessions::SessionStatus;
use crate::turn_cut::{CompactionSnapshot, ContextOccupancy};
use vstd::prelude::*;

verus! {

/// A turn that runs.
#[derive(Clone, Copy, Debug, PartialEq, Eq, Structural)]
pub struct ActiveTurn {
    pub turn: TurnId,
    pub sequence: u64,
}

/// A turn that is over.
#[derive(Clone, Copy, Debug, PartialEq, Eq, Structural)]
pub struct EndedTurn {
    pub turn: TurnId,
    pub status: TurnStatus,
}

/// A loaded session.
#[derive(Debug)]
pub struct SessionState {
    pub items: Vec<SessionItem>,
    pub turn_count: usize,
    pub active: Option<ActiveTurn>,
    pub latest: Option<EndedTurn>,
    pub compaction: Option<CompactionSnapshot>,
    pub status: SessionStatus,
    /// How full the context of the session is.
    pub occupancy: Option<ContextOccupancy>,
    pub counters: SessionCounters,
    pub updated_at: i64,
    pub last_activity_at: i64,
}

} // verus!
