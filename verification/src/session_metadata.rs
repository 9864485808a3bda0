//! Changing the title, the settings and the model of a session.
//!
//! A change is persisted first; the live session, the running turn and the
//! session index follow what was persisted.

use crate::protocol::{
    reject, reject_about, reject_quoting, reject_session_missing, rejection, rejection_about,
    rejection_quoting, session_missing, ErrorCode, Rejection,
};
use crate::text::{
    copy_text, decimal, decimal_text, ends_with, opt_view, starts_with, text_equal, trim, trimmed,
};
use vstd::prelude::*;

verus! {

/// How much a session may do without asking.
#[derive(Clone, Copy, Debug, PartialEq, Eq, Structural)]
pub enum PermissionPreset {
    Default,
    AutoReview,
    FullAccess,
}

/// What a session works towards.
#[derive(Clone, Copy, Debug, PartialEq, Eq, Structural)]
pub enum CollaborationMode {
    Build,
    Plan,
}

/// The profile in force for a stored preset: new sessions review
/// automatically.
pub open spec fn permission_profile(preset: Option<PermissionPreset>) -> PermissionPreset {
    match preset {
        Some(preset) => preset,
        None => PermissionPreset::AutoReview,
    }
}

/// The profile in force for a stored preset.
pub fn native_permission_profile(preset: Option<PermissionPreset>) -> (r: PermissionPreset)
    ensures
        r == permission_profile(preset),
{
    match preset {
        Some(PermissionPreset::Default) => PermissionPreset::Default,
        Some(PermissionPreset::FullAccess) => PermissionPreset::FullAccess,
        Some(PermissionPreset::AutoReview) | None => PermissionPreset::AutoReview,
    }
}

/// What a request says of the title.
#[derive(Debug)]
pub enum TitlePatch {
    Missing,
    Null,
    Value(String),
}

/// The settings that a request wants changed.
#[derive(Debug)]
pub struct SettingsPatch {
    pub permission: Option<PermissionPreset>,
    pub sandbox: Option<String>,
    pub effort: Option<String>,
    pub mode: Option<String>,
    pub window: Option<u64>,
}

/// The model that a request wants.
#[derive(Debug)]
pub struct ModelPatch {
    pub provider: String,
    pub model: String,
    pub variant: Option<String>,
}

/// A request to change a session's metadata.
#[derive(Debug)]
pub struct MetadataPatch {
    pub expected_version: u64,
    pub settings: Option<SettingsPatch>,
    pub model: Option<ModelPatch>,
    pub binding: Option<String>,
}

/// What the session index knows of a session.
#[derive(Debug)]
pub struct IndexRow {
    pub ephemeral: bool,
    /// The parent of a subagent session, in text form.
    pub subagent_parent: Option<String>,
    pub model: Option<String>,
    pub binding: Option<String>,
    pub effort: Option<String>,
    pub preset: Option<PermissionPreset>,
    pub mode: CollaborationMode,
    /// Whether the indexed rollout file is there.
    pub rollout_exists: bool,
}

/// The settings that a session has.
#[derive(Debug)]
pub struct Settings {
    pub sandbox: Option<String>,
    pub effort: Option<String>,
    pub mode: Option<String>,
    pub window: Option<u64>,
}

/// What the rollout says of a session.
#[derive(Debug)]
pub struct Snapshot {
    pub version: u64,
    pub model: String,
    pub settings: Settings,
}

/// Why a session could not be loaded.
#[derive(Debug)]
pub enum LoadFailure {
    NotFound,
    RolloutMissing,
    /// A subagent session, with its parent in text form.
    Subagent(String),
    RestoreFailed(String),
}

/// What a change of metadata starts from.
#[derive(Debug)]
pub struct MetadataBase {
    pub live: bool,
    pub durable: bool,
    pub version: u64,
    pub model: String,
    pub settings: Settings,
    /// What is known of the session beside its rollout.
    pub row: Option<IndexRow>,
    /// Whether `row` is the index's, and not the live session's summary.
    pub indexed: bool,
}

/// What a change of metadata waits for before settings are compared.
#[derive(Debug)]
pub enum MetadataPhase {
    Parent(String),
    Renamed(String),
    RecordKnown(String),
    TitleWritten(String),
    TitleShown,
    Live,
    Index(bool),
    Rollout(bool, Option<IndexRow>),
    Summary,
    History(bool, Option<IndexRow>),
    /// A session without a rollout: its settings as the index has them.
    IndexSettings(bool, bool, Option<IndexRow>),
    Ready(MetadataBase),
    Finished,
}

/// What the host observed.
#[derive(Debug)]
pub enum MetadataEvent {
    ParentLoaded(Option<LoadFailure>),
    Renamed(bool),
    RecordFound(bool),
    Written(Option<String>),
    Done,
    LiveFound(bool),
    IndexRead(Result<Option<IndexRow>, String>),
    RolloutFound(Result<bool, String>),
    SummaryRead(Option<IndexRow>),
    HistoryRead(Result<Option<Snapshot>, String>),
    /// The settings that the index row stands for.
    SettingsBuilt(Settings),
}

/// What the host has to do next.
#[derive(Debug)]
pub enum MetadataAction {
    /// Load the session, which must not be that of an agent.
    LoadParent,
    /// Stop naming the session automatically, take the state gate, rename.
    Rename(String),
    /// Find what is recorded of the session.
    FindRecord,
    /// Append the title to the rollout.
    AppendTitle(String),
    /// Tell the clients of the title.
    ShowTitle(String),
    /// Find out whether the session is loaded.
    FindLive,
    /// Read what the index says of the session.
    ReadIndex,
    /// Find the rollout of the session.
    FindRollout,
    /// Read what the loaded session shows of itself.
    ReadSummary,
    /// Read the rollout of the session.
    ReadHistory,
    /// Read the settings of a session without a rollout.
    BuildSettings,
    /// The session is read: the change is planned with what the phase holds.
    CompareSettings,
    /// Refuse the change.
    Reject(Rejection),
    /// Nothing: the event does not belong to the phase.
    Ignore,
}

/// The first step, which the title patch decides.
pub open spec fn title_step(title: TitlePatch, begun: (MetadataPhase, MetadataAction)) -> bool {
    match title {
        TitlePatch::Missing => begun == (MetadataPhase::Live, MetadataAction::FindLive),
        TitlePatch::Null => begun == refused(
            rejection(
                ErrorCode::InvalidParams,
                "clearing the session title is not supported (titles cannot be empty)",
            ),
        ),
        TitlePatch::Value(title) => if trimmed(title@).len() == 0 {
            begun == refused(
                rejection(ErrorCode::InvalidParams, "session title cannot be empty"),
            )
        } else {
            &&& begun.0 matches MetadataPhase::Parent(name) && name@ == trimmed(title@)
            &&& begun.1 == MetadataAction::LoadParent
        },
    }
}

/// The step after a refusal.
pub open spec fn refused(why: Rejection) -> (MetadataPhase, MetadataAction) {
    (MetadataPhase::Finished, MetadataAction::Reject(why))
}

fn refuse(why: Rejection) -> (r: (MetadataPhase, MetadataAction))
    ensures
        r == refused(why),
{
    (MetadataPhase::Finished, MetadataAction::Reject(why))
}

/// Starts a change of metadata with what it says of the title.
pub fn begin_metadata_update(title: &TitlePatch) -> (r: (MetadataPhase, MetadataAction))
    ensures
        title_step(*title, r),
{
    match title {
        TitlePatch::Missing => (MetadataPhase::Live, MetadataAction::FindLive),
        TitlePatch::Null => refuse(
            reject(
                ErrorCode::InvalidParams,
                "clearing the session title is not supported (titles cannot be empty)",
            ),
        ),
        TitlePatch::Value(title) => {
            let name = trim(title.as_str());
            if name.as_str().is_empty() {
                refuse(reject(ErrorCode::InvalidParams, "session title cannot be empty"))
            } else {
                (MetadataPhase::Parent(name), MetadataAction::LoadParent)
            }
        },
    }
}

/// The answer where the parent session cannot be loaded for a rename.
pub open spec fn rename_refusal(failure: LoadFailure) -> Rejection {
    match failure {
        LoadFailure::NotFound | LoadFailure::RolloutMissing => session_missing(),
        LoadFailure::Subagent(parent) => rejection_quoting(
            ErrorCode::InvalidParams,
            "subagent sessions cannot be renamed directly; rename the parent session ",
            parent,
            " instead",
        ),
        LoadFailure::RestoreFailed(message) => rejection_about(
            ErrorCode::InternalError,
            "failed to load session for metadata update: ",
            message,
        ),
    }
}

fn refuse_rename(failure: LoadFailure) -> (r: Rejection)
    ensures
        r == rename_refusal(failure),
{
    match failure {
        LoadFailure::NotFound | LoadFailure::RolloutMissing => reject_session_missing(),
        LoadFailure::Subagent(parent) => reject_quoting(
            ErrorCode::InvalidParams,
            "subagent sessions cannot be renamed directly; rename the parent session ",
            parent,
            " instead",
        ),
        LoadFailure::RestoreFailed(message) => reject_about(
            ErrorCode::InternalError,
            "failed to load session for metadata update: ",
            message,
        ),
    }
}

/// Whether `why` says that the version has moved on.
pub open spec fn is_version_drift(why: Rejection, expected: u64, current: u64) -> bool {
    &&& why.code == ErrorCode::WorkspaceVersionConflict
    &&& why.message_view() == "session version drift: expected "@ + decimal(expected as nat)
        + ", current "@ + decimal(current as nat)
}

fn refuse_version(expected: u64, current: u64) -> (r: Rejection)
    ensures
        is_version_drift(r, expected, current),
{
    let mut detail = decimal_text(expected);
    detail.append(", current ");
    detail.append(decimal_text(current).as_str());
    let why = reject_about(
        ErrorCode::WorkspaceVersionConflict,
        "session version drift: expected ",
        detail,
    );
    assert(why.message_view() =~= "session version drift: expected "@ + decimal(expected as nat)
        + ", current "@ + decimal(current as nat));
    why
}

/// The answer to a change of a subagent session.
pub open spec fn subagent_refusal(parent: String) -> Rejection {
    rejection_quoting(
        ErrorCode::InvalidParams,
        "subagent sessions cannot be updated directly; update the parent session ",
        parent,
        " instead",
    )
}

/// What the index row and the search for a rollout decide.
pub open spec fn located_step(live: bool, row: Option<IndexRow>, durable: bool) -> (
    MetadataPhase,
    MetadataAction,
) {
    if row is Some && row->0.subagent_parent is Some {
        refused(subagent_refusal(row->0.subagent_parent->0))
    } else if !durable && row is Some && row->0.ephemeral && !live {
        refused(rejection(ErrorCode::SessionNotFound, "ephemeral session is not live"))
    } else if durable {
        (MetadataPhase::History(live, row), MetadataAction::ReadHistory)
    } else if row is Some {
        (MetadataPhase::IndexSettings(live, true, row), MetadataAction::BuildSettings)
    } else if live {
        (MetadataPhase::Summary, MetadataAction::ReadSummary)
    } else {
        refused(session_missing())
    }
}

fn locate(live: bool, row: Option<IndexRow>, durable: bool) -> (r: (MetadataPhase, MetadataAction))
    ensures
        r == located_step(live, row, durable),
{
    match row {
        Some(found) => {
            match found.subagent_parent {
                Some(parent) => {
                    return refuse(
                        reject_quoting(
                            ErrorCode::InvalidParams,
                            "subagent sessions cannot be updated directly; update the parent session ",
                            parent,
                            " instead",
                        ),
                    );
                },
                None => {},
            }
            if !durable && found.ephemeral && !live {
                return refuse(
                    reject(ErrorCode::SessionNotFound, "ephemeral session is not live"),
                );
            }
            if durable {
                (MetadataPhase::History(live, Some(found)), MetadataAction::ReadHistory)
            } else {
                (MetadataPhase::IndexSettings(live, true, Some(found)), MetadataAction::BuildSettings)
            }
        },
        None => {
            if durable {
                (MetadataPhase::History(live, None), MetadataAction::ReadHistory)
            } else if live {
                (MetadataPhase::Summary, MetadataAction::ReadSummary)
            } else {
                refuse(reject_session_missing())
            }
        },
    }
}

/// Whether a session's version is not the one that the client expects. Zero
/// expects none in particular.
pub open spec fn version_conflict(expected: u64, durable: bool, current: u64) -> bool {
    if durable {
        expected != 0 && expected != current
    } else {
        expected > 1
    }
}

/// The next phase of a change of metadata, and what the host has to do to
/// leave it. `step` is the pair.
pub open spec fn metadata_step(
    expected_version: u64,
    phase: MetadataPhase,
    event: MetadataEvent,
    step: (MetadataPhase, MetadataAction),
) -> bool {
    match (phase, event) {
        (MetadataPhase::Parent(title), MetadataEvent::ParentLoaded(failure)) => step
            == match failure {
            Some(failure) => refused(rename_refusal(failure)),
            None => (MetadataPhase::Renamed(title), MetadataAction::Rename(title)),
        },
        (MetadataPhase::Renamed(title), MetadataEvent::Renamed(renamed)) => step == if renamed {
            (MetadataPhase::RecordKnown(title), MetadataAction::FindRecord)
        } else {
            refused(session_missing())
        },
        (MetadataPhase::RecordKnown(title), MetadataEvent::RecordFound(found)) => step
            == if found {
            (MetadataPhase::TitleWritten(title), MetadataAction::AppendTitle(title))
        } else {
            (MetadataPhase::TitleShown, MetadataAction::ShowTitle(title))
        },
        (MetadataPhase::TitleWritten(title), MetadataEvent::Written(failure)) => step
            == match failure {
            Some(error) => refused(
                rejection_about(
                    ErrorCode::InternalError,
                    "failed to persist session title update: ",
                    error,
                ),
            ),
            None => (MetadataPhase::TitleShown, MetadataAction::ShowTitle(title)),
        },
        (MetadataPhase::TitleShown, MetadataEvent::Done) => step == (
            MetadataPhase::Live,
            MetadataAction::FindLive,
        ),
        (MetadataPhase::Live, MetadataEvent::LiveFound(live)) => step == (
            MetadataPhase::Index(live),
            MetadataAction::ReadIndex,
        ),
        (MetadataPhase::Index(live), MetadataEvent::IndexRead(read)) => step == match read {
            Err(error) => refused(
                rejection_about(
                    ErrorCode::InternalError,
                    "failed to read session index: ",
                    error,
                ),
            ),
            Ok(row) => if row is Some && row->0.rollout_exists {
                located_step(live, row, true)
            } else {
                (MetadataPhase::Rollout(live, row), MetadataAction::FindRollout)
            },
        },
        (MetadataPhase::Rollout(live, row), MetadataEvent::RolloutFound(found)) => step
            == match found {
            Err(error) => refused(
                rejection_about(
                    ErrorCode::InternalError,
                    "failed to locate session rollout: ",
                    error,
                ),
            ),
            Ok(durable) => located_step(live, row, durable),
        },
        (MetadataPhase::Summary, MetadataEvent::SummaryRead(row)) => step == (
            MetadataPhase::IndexSettings(true, false, row),
            MetadataAction::BuildSettings,
        ),
        (MetadataPhase::History(live, row), MetadataEvent::HistoryRead(read)) => match read {
            Err(error) => step == refused(
                rejection_about(
                    ErrorCode::InternalError,
                    "failed to read session history: ",
                    error,
                ),
            ),
            Ok(None) => step == refused(
                rejection(ErrorCode::SessionNotFound, "session history has no metadata"),
            ),
            Ok(Some(session)) => if version_conflict(expected_version, true, session.version) {
                &&& step.0 == MetadataPhase::Finished
                &&& step.1 matches MetadataAction::Reject(why) && is_version_drift(
                    why,
                    expected_version,
                    session.version,
                )
            } else {
                step == (
                    MetadataPhase::Ready(
                        MetadataBase {
                            live,
                            durable: true,
                            version: session.version,
                            model: session.model,
                            settings: session.settings,
                            indexed: row is Some,
                            row,
                        },
                    ),
                    MetadataAction::CompareSettings,
                )
            },
        },
        (MetadataPhase::IndexSettings(live, indexed, None), MetadataEvent::SettingsBuilt(_)) => step
            == refused(
            rejection(
                ErrorCode::SessionNotFound,
                "session is not durable and has no index metadata",
            ),
        ),
        (MetadataPhase::IndexSettings(live, indexed, Some(row)), MetadataEvent::SettingsBuilt(settings)) =>
        if version_conflict(expected_version, false, 1) {
            &&& step.0 == MetadataPhase::Finished
            &&& step.1 matches MetadataAction::Reject(why) && is_version_drift(
                why,
                expected_version,
                1,
            )
        } else {
            &&& step.0 matches MetadataPhase::Ready(base) && {
                &&& base.live == live
                &&& !base.durable
                &&& base.version == 1
                &&& base.model@ == match row.model {
                    Some(model) => model@,
                    None => Seq::empty(),
                }
                &&& base.settings == settings
                &&& base.row == Some(row)
                &&& base.indexed == indexed
            }
            &&& step.1 == MetadataAction::CompareSettings
        },
        _ => step == (phase, MetadataAction::Ignore),
    }
}

/// Takes a change of metadata one step further.
pub fn advance_metadata_update(
    expected_version: u64,
    phase: MetadataPhase,
    event: MetadataEvent,
) -> (r: (MetadataPhase, MetadataAction))
    ensures
        metadata_step(expected_version, phase, event, r),
{
    match (phase, event) {
        (MetadataPhase::Parent(title), MetadataEvent::ParentLoaded(failure)) => match failure {
            Some(failure) => refuse(refuse_rename(failure)),
            None => {
                let named = title.clone();
                (MetadataPhase::Renamed(title), MetadataAction::Rename(named))
            },
        },
        (MetadataPhase::Renamed(title), MetadataEvent::Renamed(renamed)) => {
            if renamed {
                (MetadataPhase::RecordKnown(title), MetadataAction::FindRecord)
            } else {
                refuse(reject_session_missing())
            }
        },
        (MetadataPhase::RecordKnown(title), MetadataEvent::RecordFound(found)) => {
            if found {
                let named = title.clone();
                (MetadataPhase::TitleWritten(title), MetadataAction::AppendTitle(named))
            } else {
                (MetadataPhase::TitleShown, MetadataAction::ShowTitle(title))
            }
        },
        (MetadataPhase::TitleWritten(title), MetadataEvent::Written(failure)) => match failure {
            Some(error) => refuse(
                reject_about(
                    ErrorCode::InternalError,
                    "failed to persist session title update: ",
                    error,
                ),
            ),
            None => (MetadataPhase::TitleShown, MetadataAction::ShowTitle(title)),
        },
        (MetadataPhase::TitleShown, MetadataEvent::Done) => (
            MetadataPhase::Live,
            MetadataAction::FindLive,
        ),
        (MetadataPhase::Live, MetadataEvent::LiveFound(live)) => (
            MetadataPhase::Index(live),
            MetadataAction::ReadIndex,
        ),
        (MetadataPhase::Index(live), MetadataEvent::IndexRead(read)) => match read {
            Err(error) => refuse(
                reject_about(
                    ErrorCode::InternalError,
                    "failed to read session index: ",
                    error,
                ),
            ),
            Ok(row) => {
                let indexed = match &row {
                    Some(found) => found.rollout_exists,
                    None => false,
                };
                if indexed {
                    locate(live, row, true)
                } else {
                    (MetadataPhase::Rollout(live, row), MetadataAction::FindRollout)
                }
            },
        },
        (MetadataPhase::Rollout(live, row), MetadataEvent::RolloutFound(found)) => match found {
            Err(error) => refuse(
                reject_about(
                    ErrorCode::InternalError,
                    "failed to locate session rollout: ",
                    error,
                ),
            ),
            Ok(durable) => locate(live, row, durable),
        },
        (MetadataPhase::Summary, MetadataEvent::SummaryRead(row)) => (
            MetadataPhase::IndexSettings(true, false, row),
            MetadataAction::BuildSettings,
        ),
        (MetadataPhase::History(live, row), MetadataEvent::HistoryRead(read)) => match read {
            Err(error) => refuse(
                reject_about(
                    ErrorCode::InternalError,
                    "failed to read session history: ",
                    error,
                ),
            ),
            Ok(None) => refuse(
                reject(ErrorCode::SessionNotFound, "session history has no metadata"),
            ),
            Ok(Some(session)) => {
                if expected_version != 0 && expected_version != session.version {
                    refuse(refuse_version(expected_version, session.version))
                } else {
                    (
                        MetadataPhase::Ready(
                            MetadataBase {
                                live,
                                durable: true,
                                version: session.version,
                                model: session.model,
                                settings: session.settings,
                                indexed: row.is_some(),
                                row,
                            },
                        ),
                        MetadataAction::CompareSettings,
                    )
                }
            },
        },
        (MetadataPhase::IndexSettings(live, indexed, row), MetadataEvent::SettingsBuilt(settings)) => match row {
            None => refuse(
                reject(
                    ErrorCode::SessionNotFound,
                    "session is not durable and has no index metadata",
                ),
            ),
            Some(row) => {
                if expected_version > 1 {
                    refuse(refuse_version(expected_version, 1))
                } else {
                    let model = match &row.model {
                        Some(model) => model.clone(),
                        None => String::new(),
                    };
                    (
                        MetadataPhase::Ready(
                            MetadataBase {
                                live,
                                durable: false,
                                version: 1,
                                model,
                                settings,
                                row: Some(row),
                                indexed,
                            },
                        ),
                        MetadataAction::CompareSettings,
                    )
                }
            },
        },
        (phase, _) => (phase, MetadataAction::Ignore),
    }
}

fn same_text(a: &Option<String>, b: &Option<String>) -> (r: bool)
    ensures
        r == (opt_view(*a) == opt_view(*b)),
{
    match (a, b) {
        (Some(a), Some(b)) => text_equal(a.as_str(), b.as_str()),
        (None, None) => true,
        _ => false,
    }
}

/// What only the host can say of a settings patch.
#[derive(Debug)]
pub struct PatchFacts {
    /// The preset of the live session, where there is one.
    pub live_preset: Option<PermissionPreset>,
    /// The full name of the sandbox profile that the patch names.
    pub sandbox: Result<String, String>,
    /// The mode that the patch names.
    pub mode: Option<CollaborationMode>,
    /// The context window of the session's model, where it is known.
    pub window: Option<u64>,
}

/// One setting that is written to the rollout.
#[derive(Debug)]
pub enum SettingsChange {
    Permission(PermissionPreset),
    Sandbox(String),
    Effort(String),
    Mode(CollaborationMode),
    Model(String),
    Binding(Option<String>),
}

/// The settings that change, each with its new value, and what the rollout
/// records of them.
#[derive(Debug)]
pub struct SettingsPlan {
    pub permission: Option<PermissionPreset>,
    pub sandbox: Option<String>,
    pub effort: Option<String>,
    pub mode: Option<CollaborationMode>,
    pub window: Option<u64>,
    pub model: Option<String>,
    pub binding: Option<Option<String>>,
    pub changes: Vec<SettingsChange>,
}

/// The permission profile that the session has before the change.
pub open spec fn profile_before(base: MetadataBase, facts: PatchFacts) -> PermissionPreset {
    if base.live {
        permission_profile(facts.live_preset)
    } else {
        permission_profile(
            match base.row {
                Some(row) => row.preset,
                None => None,
            },
        )
    }
}

/// Whether the patch names a sandbox profile other than the current one.
pub open spec fn sandbox_changes(patch: MetadataPatch, base: MetadataBase) -> bool {
    patch.settings matches Some(settings) && settings.sandbox is Some && opt_view(settings.sandbox)
        != opt_view(base.settings.sandbox)
}

/// Whether the patch names a mode other than the current one.
pub open spec fn mode_changes(patch: MetadataPatch, base: MetadataBase) -> bool {
    patch.settings matches Some(settings) && settings.mode is Some && opt_view(settings.mode)
        != opt_view(base.settings.mode)
}

/// The new permission preset, if it changes.
pub open spec fn new_permission(
    patch: MetadataPatch,
    base: MetadataBase,
    facts: PatchFacts,
) -> Option<PermissionPreset> {
    match patch.settings {
        Some(settings) => if settings.permission is Some && settings.permission->0
            != profile_before(base, facts) {
            settings.permission
        } else {
            None
        },
        None => None,
    }
}

/// The new reasoning effort, if it changes.
pub open spec fn new_effort(patch: MetadataPatch, base: MetadataBase) -> Option<Seq<char>> {
    match patch.settings {
        Some(settings) => if settings.effort is Some && opt_view(settings.effort) != opt_view(
            base.settings.effort,
        ) {
            opt_view(settings.effort)
        } else {
            None
        },
        None => None,
    }
}

/// The new context window, if the patch names another one: that of the model,
/// not the one that the patch asks for.
pub open spec fn new_window(
    patch: MetadataPatch,
    base: MetadataBase,
    facts: PatchFacts,
) -> Option<u64> {
    match patch.settings {
        Some(settings) => if settings.window is Some && settings.window != base.settings.window {
            facts.window
        } else {
            None
        },
        None => None,
    }
}

/// The model selection that a provider, a model and a variant stand for:
/// `provider/model/variant`, with no part repeated that is already there.
pub open spec fn model_selection(model: ModelPatch) -> Seq<char> {
    let provider = trimmed(model.provider@);
    let base = if provider.len() == 0 || (provider + "/"@).is_prefix_of(model.model@) {
        model.model@
    } else {
        provider + "/"@ + model.model@
    };
    match model.variant {
        Some(variant) => if ("/"@ + variant@).is_suffix_of(base) {
            base
        } else {
            base + "/"@ + variant@
        },
        None => base,
    }
}

/// Builds the model selection of a patch.
pub fn select_model(model: &ModelPatch) -> (r: String)
    ensures
        r@ == model_selection(*model),
{
    let provider = trim(model.provider.as_str());
    let mut prefix = provider.clone();
    prefix.append("/");
    let mut selection = if provider.as_str().is_empty() || starts_with(
        model.model.as_str(),
        prefix.as_str(),
    ) {
        model.model.clone()
    } else {
        prefix.concat(model.model.as_str())
    };
    if let Some(variant) = &model.variant {
        let mut suffix = "/".to_owned();
        suffix.append(variant.as_str());
        if !ends_with(selection.as_str(), suffix.as_str()) {
            let ghost base = selection@;
            selection.append(suffix.as_str());
            assert(selection@ =~= base + "/"@ + variant@);
        }
    }
    selection
}

/// The new model selection, if it changes.
pub open spec fn new_model(patch: MetadataPatch, base: MetadataBase) -> Option<Seq<char>> {
    match patch.model {
        Some(model) => if model_selection(model) != base.model@ {
            Some(model_selection(model))
        } else {
            None
        },
        None => None,
    }
}

/// What the rollout records of a plan: every setting that changes, once.
pub open spec fn recorded_changes(plan: SettingsPlan) -> Seq<SettingsChange> {
    let permission = match plan.permission {
        Some(preset) => seq![SettingsChange::Permission(preset)],
        None => seq![],
    };
    let sandbox = match plan.sandbox {
        Some(name) => seq![SettingsChange::Sandbox(name)],
        None => seq![],
    };
    let effort = match plan.effort {
        Some(effort) => seq![SettingsChange::Effort(effort)],
        None => seq![],
    };
    let mode = match plan.mode {
        Some(mode) => seq![SettingsChange::Mode(mode)],
        None => seq![],
    };
    let model = match plan.model {
        Some(model) => seq![SettingsChange::Model(model)],
        None => seq![],
    };
    let binding = match plan.binding {
        Some(binding) => seq![SettingsChange::Binding(binding)],
        None => seq![],
    };
    permission + sandbox + effort + mode + model + binding
}

/// Whether `plan` is what the patch comes to.
pub open spec fn is_settings_plan(
    patch: MetadataPatch,
    base: MetadataBase,
    facts: PatchFacts,
    plan: SettingsPlan,
) -> bool {
    &&& plan.permission == new_permission(patch, base, facts)
    &&& opt_view(plan.sandbox) == if sandbox_changes(patch, base) {
        match facts.sandbox {
            Ok(name) => Some(name@),
            Err(_) => None,
        }
    } else {
        None
    }
    &&& opt_view(plan.effort) == new_effort(patch, base)
    &&& plan.mode == if mode_changes(patch, base) {
        facts.mode
    } else {
        None
    }
    &&& plan.window == new_window(patch, base, facts)
    &&& opt_view(plan.model) == new_model(patch, base)
    &&& plan.binding == if plan.model is Some {
        Some(patch.binding)
    } else if patch.binding is Some {
        Some(patch.binding)
    } else {
        None
    }
    &&& plan.changes@ == if base.durable {
        recorded_changes(plan)
    } else {
        Seq::empty()
    }
}

/// The name that the patch gives the sandbox profile.
pub open spec fn sandbox_named(patch: MetadataPatch) -> Seq<char> {
    patch.settings->0.sandbox->0@
}

/// The answer to a sandbox profile that does not exist.
pub open spec fn is_sandbox_refusal(patch: MetadataPatch, error: String, why: Rejection) -> bool {
    &&& why.code == ErrorCode::InvalidParams
    &&& why.message_view() == "invalid sandbox profile '"@ + sandbox_named(patch) + "': "@ + error@
}

/// The answer to a mode that does not exist.
pub open spec fn is_mode_refusal(patch: MetadataPatch, why: Rejection) -> bool {
    &&& why.code == ErrorCode::InvalidParams
    &&& why.message_view() == "invalid collaboration mode '"@ + patch.settings->0.mode->0@ + "'"@
}

fn changed_text(new: &Option<String>, current: &Option<String>) -> (r: Option<String>)
    ensures
        r == (if new is Some && opt_view(*new) != opt_view(*current) {
            *new
        } else {
            None
        }),
{
    match new {
        Some(text) => {
            if same_text(new, current) {
                None
            } else {
                Some(text.clone())
            }
        },
        None => None,
    }
}

/// Whether a patch is answered with its plan, or with what is not understood of
/// it.
pub open spec fn settles(
    patch: MetadataPatch,
    base: MetadataBase,
    facts: PatchFacts,
    r: Result<SettingsPlan, Rejection>,
) -> bool {
    match r {
        Ok(plan) => {
            &&& is_settings_plan(patch, base, facts, plan)
            &&& !(sandbox_changes(patch, base) && facts.sandbox is Err)
            &&& !(mode_changes(patch, base) && facts.mode is None)
        },
        Err(why) => if sandbox_changes(patch, base) && facts.sandbox is Err {
            is_sandbox_refusal(patch, facts.sandbox->Err_0, why)
        } else {
            &&& mode_changes(patch, base) && facts.mode is None
            &&& is_mode_refusal(patch, why)
        },
    }
}

/// Compares a patch with what the session has: the settings that change, or
/// why the patch is refused. A sandbox profile that does not exist is refused
/// before a mode that does not.
pub fn plan_settings(patch: &MetadataPatch, base: &MetadataBase, facts: &PatchFacts) -> (r: Result<
    SettingsPlan,
    Rejection,
>)
    ensures
        settles(*patch, *base, *facts, r),
{
    let mut plan = SettingsPlan {
        permission: None,
        sandbox: None,
        effort: None,
        mode: None,
        window: None,
        model: None,
        binding: None,
        changes: Vec::new(),
    };
    let profile = if base.live {
        native_permission_profile(facts.live_preset)
    } else {
        native_permission_profile(
            match &base.row {
                Some(row) => row.preset,
                None => None,
            },
        )
    };
    if let Some(settings) = &patch.settings {
        if let Some(wanted) = settings.permission {
            if wanted != profile {
                plan.permission = Some(wanted);
            }
        }
        if let Some(name) = changed_text(&settings.sandbox, &base.settings.sandbox) {
            match &facts.sandbox {
                Ok(full) => {
                    plan.sandbox = Some(full.clone());
                },
                Err(error) => {
                    let mut detail = name.clone();
                    detail.append("': ");
                    detail.append(error.as_str());
                    let why = reject_about(
                        ErrorCode::InvalidParams,
                        "invalid sandbox profile '",
                        detail,
                    );
                    assert(why.message_view() =~= "invalid sandbox profile '"@ + sandbox_named(
                        *patch,
                    ) + "': "@ + error@);
                    return Err(why);
                },
            }
        }
        plan.effort = changed_text(&settings.effort, &base.settings.effort);
        if let Some(name) = changed_text(&settings.mode, &base.settings.mode) {
            match facts.mode {
                Some(mode) => {
                    plan.mode = Some(mode);
                },
                None => {
                    return Err(
                        reject_quoting(
                            ErrorCode::InvalidParams,
                            "invalid collaboration mode '",
                            name,
                            "'",
                        ),
                    );
                },
            }
        }
        if let Some(wanted) = settings.window {
            let same = match base.settings.window {
                Some(current) => current == wanted,
                None => false,
            };
            if !same {
                plan.window = facts.window;
            }
        }
    }
    if let Some(model) = &patch.model {
        let selection = select_model(model);
        if !text_equal(selection.as_str(), base.model.as_str()) {
            plan.model = Some(selection);
        }
    }
    if plan.model.is_some() || patch.binding.is_some() {
        plan.binding = Some(copy_text(&patch.binding));
    }
    if base.durable {
        plan.changes = record_changes(&plan);
    }
    Ok(plan)
}

fn record_changes(plan: &SettingsPlan) -> (r: Vec<SettingsChange>)
    ensures
        r@ == recorded_changes(*plan),
{
    let mut changes: Vec<SettingsChange> = Vec::new();
    if let Some(preset) = plan.permission {
        changes.push(SettingsChange::Permission(preset));
    }
    if let Some(name) = &plan.sandbox {
        changes.push(SettingsChange::Sandbox(name.clone()));
    }
    if let Some(effort) = &plan.effort {
        changes.push(SettingsChange::Effort(effort.clone()));
    }
    if let Some(mode) = plan.mode {
        changes.push(SettingsChange::Mode(mode));
    }
    if let Some(model) = &plan.model {
        changes.push(SettingsChange::Model(model.clone()));
    }
    if let Some(binding) = &plan.binding {
        changes.push(SettingsChange::Binding(copy_text(binding)));
    }
    assert(changes@ =~= recorded_changes(*plan));
    changes
}

/// A patch that names nothing new changes nothing and writes nothing.
pub proof fn law_settled_patch_changes_nothing(
    patch: MetadataPatch,
    base: MetadataBase,
    facts: PatchFacts,
    plan: SettingsPlan,
)
    requires
        is_settings_plan(patch, base, facts, plan),
        new_permission(patch, base, facts) is None,
        !sandbox_changes(patch, base),
        new_effort(patch, base) is None,
        !mode_changes(patch, base),
        new_model(patch, base) is None,
        patch.binding is None,
    ensures
        plan.changes@.len() == 0,
        plan.binding is None,
{
}

/// Selecting another model without naming a binding drops the old binding:
/// the two are one selection.
pub proof fn law_new_model_drops_the_old_binding(
    patch: MetadataPatch,
    base: MetadataBase,
    facts: PatchFacts,
    plan: SettingsPlan,
)
    requires
        is_settings_plan(patch, base, facts, plan),
        new_model(patch, base) is Some,
        patch.binding is None,
    ensures
        plan.binding == Some(None::<String>),
        base.durable ==> plan.changes@.contains(SettingsChange::Binding(None)),
{
    if base.durable {
        let changes = recorded_changes(plan);
        assert(changes.last() == SettingsChange::Binding(None));
        assert(changes.contains(changes.last()));
    }
}

/// A session without a rollout has nothing recorded of it.
pub proof fn law_ephemeral_sessions_record_nothing(
    patch: MetadataPatch,
    base: MetadataBase,
    facts: PatchFacts,
    plan: SettingsPlan,
)
    requires
        is_settings_plan(patch, base, facts, plan),
        !base.durable,
    ensures
        plan.changes@.len() == 0,
{
}

/// The one notice that tells the live session of a new model, effort or mode.
/// It carries every field, since the session overwrites what is absent.
#[derive(Debug)]
pub struct MetadataNotice {
    pub model: String,
    pub binding: Option<String>,
    pub effort: Option<String>,
    pub mode: Option<CollaborationMode>,
}

/// Whether the live session has to be told of a new model, effort or mode.
pub open spec fn notice_due(plan: SettingsPlan, base: MetadataBase) -> bool {
    base.live && (plan.model is Some || plan.effort is Some || plan.mode is Some
        || plan.binding is Some)
}

/// What the index knows of the session.
pub open spec fn indexed_row(base: MetadataBase) -> Option<IndexRow> {
    if base.indexed {
        base.row
    } else {
        None
    }
}

/// The notice: new values where there are any, the index's current ones
/// elsewhere, and the session's own model where the index has none.
pub open spec fn notice_of(plan: SettingsPlan, base: MetadataBase) -> MetadataNotice {
    let row = indexed_row(base);
    MetadataNotice {
        model: match (plan.model, row) {
            (Some(model), _) => model,
            (None, Some(row)) => match row.model {
                Some(model) => model,
                None => base.model,
            },
            (None, None) => base.model,
        },
        binding: match (plan.binding, row) {
            (Some(binding), _) => binding,
            (None, Some(row)) => row.binding,
            (None, None) => None,
        },
        effort: match (plan.effort, row) {
            (Some(effort), _) => Some(effort),
            (None, Some(row)) => row.effort,
            (None, None) => None,
        },
        mode: plan.mode,
    }
}

/// The notice for the live session, if one is due.
pub fn metadata_notice(plan: &SettingsPlan, base: &MetadataBase) -> (r: Option<MetadataNotice>)
    ensures
        r == if notice_due(*plan, *base) {
            Some(notice_of(*plan, *base))
        } else {
            None
        },
{
    if !base.live || !(plan.model.is_some() || plan.effort.is_some() || plan.mode.is_some()
        || plan.binding.is_some()) {
        return None;
    }
    let row: Option<&IndexRow> = if base.indexed {
        base.row.as_ref()
    } else {
        None
    };
    let model = match &plan.model {
        Some(model) => model.clone(),
        None => match row {
            Some(row) => match &row.model {
                Some(model) => model.clone(),
                None => base.model.clone(),
            },
            None => base.model.clone(),
        },
    };
    let binding = match &plan.binding {
        Some(binding) => copy_text(binding),
        None => match row {
            Some(row) => copy_text(&row.binding),
            None => None,
        },
    };
    let effort = match &plan.effort {
        Some(effort) => Some(effort.clone()),
        None => match row {
            Some(row) => copy_text(&row.effort),
            None => None,
        },
    };
    Some(MetadataNotice { model, binding, effort, mode: plan.mode })
}

/// What a live session is told of a change.
#[derive(Debug)]
pub struct LiveNotice {
    pub permission: Option<PermissionPreset>,
    pub sandbox: Option<String>,
    /// The context window that counts from now on.
    pub window: Option<u64>,
    pub metadata: Option<MetadataNotice>,
}

/// What a live session is told of a change: every setting that changes.
pub open spec fn live_notice(plan: SettingsPlan, base: MetadataBase) -> LiveNotice {
    LiveNotice {
        permission: plan.permission,
        sandbox: plan.sandbox,
        window: plan.window,
        metadata: if notice_due(plan, base) {
            Some(notice_of(plan, base))
        } else {
            None
        },
    }
}

/// What the answer says of a change, beside the session.
#[derive(Clone, Copy, Debug, PartialEq, Eq, Structural)]
pub struct MetadataAnswer {
    pub applied_to_active_turn: bool,
    /// The context window that is shown in the place of the session's.
    pub window: Option<u64>,
}

/// What the answer says of a change: whether a running turn took it, and the
/// context window that was applied.
pub open spec fn answer_of(plan: SettingsPlan, reached: bool) -> MetadataAnswer {
    MetadataAnswer { applied_to_active_turn: reached, window: plan.window }
}

/// Makes what the answer says of a change.
pub fn metadata_answer(plan: &SettingsPlan, reached: bool) -> (r: MetadataAnswer)
    ensures
        r == answer_of(*plan, reached),
{
    MetadataAnswer { applied_to_active_turn: reached, window: plan.window }
}

/// What a running turn was resolved for.
#[derive(Debug)]
pub struct TurnConfig {
    pub model: Option<String>,
    pub effort: Option<String>,
}

/// The settings that a running turn reads at its next decision.
#[derive(Debug)]
pub struct LiveTurn {
    pub permission: PermissionPreset,
    pub sandbox: Option<String>,
    /// Whether approvals given so far still count.
    pub approvals_kept: bool,
    pub config: Option<TurnConfig>,
    pub compact_limit: Option<u64>,
    pub generation: u64,
}

/// Whether a plan holds anything that a running turn reads.
pub open spec fn reaches_running_turn(plan: SettingsPlan) -> bool {
    plan.permission is Some || plan.sandbox is Some || plan.effort is Some || plan.model is Some
        || plan.window is Some
}

/// Whether a plan replaces what a running turn was resolved for.
pub open spec fn replaces_turn_config(plan: SettingsPlan) -> bool {
    plan.effort is Some || plan.model is Some || plan.window is Some
}

/// The configuration of a running turn after the change.
pub open spec fn config_after(
    before: Option<TurnConfig>,
    plan: SettingsPlan,
    session_model: Option<String>,
) -> Option<TurnConfig> {
    match (plan.model, plan.effort) {
        (Some(model), effort) => Some(
            TurnConfig {
                model: Some(model),
                effort: match (effort, before) {
                    (Some(effort), _) => Some(effort),
                    (None, Some(config)) => config.effort,
                    (None, None) => None,
                },
            },
        ),
        (None, Some(effort)) => Some(
            TurnConfig {
                model: match before {
                    Some(config) => config.model,
                    None => session_model,
                },
                effort: Some(effort),
            },
        ),
        (None, None) => before,
    }
}

/// A running turn after the change. A new permission preset brings its own
/// sandbox profile, unless the change names one, and voids earlier approvals.
pub open spec fn turn_after(
    before: LiveTurn,
    plan: SettingsPlan,
    implied_sandbox: String,
    session_model: Option<String>,
) -> LiveTurn {
    LiveTurn {
        permission: match plan.permission {
            Some(preset) => preset,
            None => before.permission,
        },
        sandbox: match (plan.sandbox, plan.permission) {
            (Some(name), _) => Some(name),
            (None, Some(_)) => Some(implied_sandbox),
            (None, None) => before.sandbox,
        },
        approvals_kept: before.approvals_kept && plan.permission is None,
        config: config_after(before.config, plan, session_model),
        compact_limit: match plan.window {
            Some(limit) => Some(limit),
            None => before.compact_limit,
        },
        generation: if replaces_turn_config(plan) && before.generation < u64::MAX {
            (before.generation + 1) as u64
        } else {
            before.generation
        },
    }
}

/// Hands the change to a running turn.
pub fn overlay_turn(
    turn: LiveTurn,
    plan: &SettingsPlan,
    implied_sandbox: String,
    session_model: Option<String>,
) -> (r: LiveTurn)
    ensures
        r == turn_after(turn, *plan, implied_sandbox, session_model),
{
    let approvals_kept = turn.approvals_kept && plan.permission.is_none();
    let permission = match plan.permission {
        Some(preset) => preset,
        None => turn.permission,
    };
    let sandbox = match &plan.sandbox {
        Some(name) => Some(name.clone()),
        None => {
            if plan.permission.is_some() {
                Some(implied_sandbox)
            } else {
                turn.sandbox
            }
        },
    };
    let config = match &plan.model {
        Some(model) => {
            let effort = match &plan.effort {
                Some(effort) => Some(effort.clone()),
                None => match turn.config {
                    Some(config) => config.effort,
                    None => None,
                },
            };
            Some(TurnConfig { model: Some(model.clone()), effort })
        },
        None => match &plan.effort {
            Some(effort) => {
                let model = match turn.config {
                    Some(config) => config.model,
                    None => session_model,
                };
                Some(TurnConfig { model, effort: Some(effort.clone()) })
            },
            None => turn.config,
        },
    };
    let compact_limit = match plan.window {
        Some(limit) => Some(limit),
        None => turn.compact_limit,
    };
    let generation = if plan.effort.is_some() || plan.model.is_some() || plan.window.is_some() {
        turn.generation.saturating_add(1)
    } else {
        turn.generation
    };
    LiveTurn { permission, sandbox, approvals_kept, config, compact_limit, generation }
}

/// Whether a change shows in the session index.
pub open spec fn touches_index(plan: SettingsPlan) -> bool {
    plan.permission is Some || plan.model is Some || plan.binding is Some || plan.effort is Some
        || plan.mode is Some
}

/// The index row after the change.
pub open spec fn row_after(row: IndexRow, plan: SettingsPlan) -> IndexRow {
    IndexRow {
        preset: if plan.permission is Some { plan.permission } else { row.preset },
        model: if plan.model is Some { plan.model } else { row.model },
        binding: match plan.binding {
            Some(binding) => binding,
            None => row.binding,
        },
        effort: if plan.effort is Some { plan.effort } else { row.effort },
        mode: match plan.mode {
            Some(mode) => mode,
            None => row.mode,
        },
        ..row
    }
}

/// The index row to store, if the change shows in it.
pub fn refreshed_row(row: IndexRow, plan: &SettingsPlan) -> (r: Option<IndexRow>)
    ensures
        r == (if touches_index(*plan) {
            Some(row_after(row, *plan))
        } else {
            None
        }),
{
    if !(plan.permission.is_some() || plan.model.is_some() || plan.binding.is_some()
        || plan.effort.is_some() || plan.mode.is_some()) {
        return None;
    }
    let mut row = row;
    if plan.permission.is_some() {
        row.preset = plan.permission;
    }
    if let Some(model) = &plan.model {
        row.model = Some(model.clone());
    }
    if let Some(binding) = &plan.binding {
        row.binding = copy_text(binding);
    }
    if let Some(effort) = &plan.effort {
        row.effort = Some(effort.clone());
    }
    if let Some(mode) = plan.mode {
        row.mode = mode;
    }
    Some(row)
}

/// What applying a plan waits for.
#[derive(Clone, Copy, Debug, PartialEq, Eq, Structural)]
pub enum ApplyPhase {
    SettingsWritten,
    LiveNotified,
    TurnReached,
    /// Whether a running turn took the change.
    IndexRefreshed(bool),
    HistoryReread(bool),
    Finished,
}

/// What the host observed while applying a plan.
#[derive(Debug)]
pub enum ApplyEvent {
    Written(Option<String>),
    Done,
    /// Whether a turn is running that took the change.
    TurnReached(bool),
    /// Whether the rollout still has metadata.
    HistoryReread(Result<bool, String>),
}

/// What the host has to do to apply a plan.
#[derive(Debug)]
pub enum ApplyAction {
    /// Append the changes of the plan to the rollout.
    AppendSettings,
    /// Tell the loaded session and its clients.
    NotifyLive(LiveNotice),
    /// Apply the plan to the turn that is running, if one is.
    ReachRunningTurn,
    /// Store the row. That this fails makes no difference.
    RefreshIndex(IndexRow),
    /// Read the rollout again.
    RereadHistory,
    /// Answer with the session as the index has it.
    AnswerFromIndex(MetadataAnswer),
    /// Answer with the session as the rollout shows it.
    AnswerFromHistory(MetadataAnswer),
    /// Refuse the change.
    Reject(Rejection),
    /// Nothing: the event does not belong to the phase.
    Ignore,
}

/// The step that answers the request.
pub open spec fn answer_step(plan: SettingsPlan, base: MetadataBase, reached: bool) -> (
    ApplyPhase,
    ApplyAction,
) {
    if base.durable {
        (ApplyPhase::HistoryReread(reached), ApplyAction::RereadHistory)
    } else if base.row is Some {
        (ApplyPhase::Finished, ApplyAction::AnswerFromIndex(answer_of(plan, reached)))
    } else {
        (
            ApplyPhase::Finished,
            ApplyAction::Reject(
                rejection(
                    ErrorCode::SessionNotFound,
                    "session is not durable and has no index metadata",
                ),
            ),
        )
    }
}

/// The step after the running turn has been seen to.
pub open spec fn index_step(plan: SettingsPlan, base: MetadataBase, reached: bool) -> (
    ApplyPhase,
    ApplyAction,
) {
    if base.row is Some && touches_index(plan) {
        (
            ApplyPhase::IndexRefreshed(reached),
            ApplyAction::RefreshIndex(row_after(base.row->0, plan)),
        )
    } else {
        answer_step(plan, base, reached)
    }
}

/// The step after the live session has been told.
pub open spec fn turn_step(plan: SettingsPlan, base: MetadataBase) -> (ApplyPhase, ApplyAction) {
    if reaches_running_turn(plan) {
        (ApplyPhase::TurnReached, ApplyAction::ReachRunningTurn)
    } else {
        index_step(plan, base, false)
    }
}

/// Whether the live session has to be told of anything.
pub open spec fn concerns_live(plan: SettingsPlan, base: MetadataBase) -> bool {
    base.live && (plan.permission is Some || plan.sandbox is Some || plan.window is Some
        || notice_due(plan, base))
}

/// The step after the settings are durable.
pub open spec fn notify_step(plan: SettingsPlan, base: MetadataBase) -> (ApplyPhase, ApplyAction) {
    if concerns_live(plan, base) {
        (ApplyPhase::LiveNotified, ApplyAction::NotifyLive(live_notice(plan, base)))
    } else {
        turn_step(plan, base)
    }
}

/// The first step of applying a plan: nothing shows before it is durable.
pub open spec fn first_apply_step(plan: SettingsPlan, base: MetadataBase) -> (
    ApplyPhase,
    ApplyAction,
) {
    if plan.changes@.len() > 0 {
        (ApplyPhase::SettingsWritten, ApplyAction::AppendSettings)
    } else {
        notify_step(plan, base)
    }
}

/// The next step of applying a plan.
pub open spec fn apply_step(
    plan: SettingsPlan,
    base: MetadataBase,
    phase: ApplyPhase,
    event: ApplyEvent,
) -> (ApplyPhase, ApplyAction) {
    match (phase, event) {
        (ApplyPhase::SettingsWritten, ApplyEvent::Written(failure)) => match failure {
            Some(error) => (
                ApplyPhase::Finished,
                ApplyAction::Reject(
                    rejection_about(
                        ErrorCode::InternalError,
                        "failed to persist session settings: ",
                        error,
                    ),
                ),
            ),
            None => notify_step(plan, base),
        },
        (ApplyPhase::LiveNotified, ApplyEvent::Done) => turn_step(plan, base),
        (ApplyPhase::TurnReached, ApplyEvent::TurnReached(reached)) => index_step(
            plan,
            base,
            reached,
        ),
        (ApplyPhase::IndexRefreshed(reached), ApplyEvent::Done) => answer_step(
            plan,
            base,
            reached,
        ),
        (ApplyPhase::HistoryReread(reached), ApplyEvent::HistoryReread(read)) => (
            ApplyPhase::Finished,
            match read {
                Err(error) => ApplyAction::Reject(
                    rejection_about(
                        ErrorCode::InternalError,
                        "failed to re-read session history: ",
                        error,
                    ),
                ),
                Ok(false) => ApplyAction::Reject(
                    rejection(ErrorCode::SessionNotFound, "session history has no metadata"),
                ),
                Ok(true) => ApplyAction::AnswerFromHistory(answer_of(plan, reached)),
            },
        ),
        _ => (phase, ApplyAction::Ignore),
    }
}

fn answer(plan: &SettingsPlan, base: &MetadataBase, reached: bool) -> (r: (ApplyPhase, ApplyAction))
    ensures
        r == answer_step(*plan, *base, reached),
{
    if base.durable {
        (ApplyPhase::HistoryReread(reached), ApplyAction::RereadHistory)
    } else if base.row.is_some() {
        (ApplyPhase::Finished, ApplyAction::AnswerFromIndex(metadata_answer(plan, reached)))
    } else {
        (
            ApplyPhase::Finished,
            ApplyAction::Reject(
                reject(
                    ErrorCode::SessionNotFound,
                    "session is not durable and has no index metadata",
                ),
            ),
        )
    }
}

fn copy_row(row: &IndexRow) -> (r: IndexRow)
    ensures
        r == *row,
{
    IndexRow {
        ephemeral: row.ephemeral,
        subagent_parent: copy_text(&row.subagent_parent),
        model: copy_text(&row.model),
        binding: copy_text(&row.binding),
        effort: copy_text(&row.effort),
        preset: row.preset,
        mode: row.mode,
        rollout_exists: row.rollout_exists,
    }
}

fn refresh_index(plan: &SettingsPlan, base: &MetadataBase, reached: bool) -> (r: (
    ApplyPhase,
    ApplyAction,
))
    ensures
        r == index_step(*plan, *base, reached),
{
    if let Some(row) = &base.row {
        if let Some(refreshed) = refreshed_row(copy_row(row), plan) {
            return (ApplyPhase::IndexRefreshed(reached), ApplyAction::RefreshIndex(refreshed));
        }
    }
    answer(plan, base, reached)
}

fn reach_turn(plan: &SettingsPlan, base: &MetadataBase) -> (r: (ApplyPhase, ApplyAction))
    ensures
        r == turn_step(*plan, *base),
{
    if plan.permission.is_some() || plan.sandbox.is_some() || plan.effort.is_some()
        || plan.model.is_some() || plan.window.is_some() {
        (ApplyPhase::TurnReached, ApplyAction::ReachRunningTurn)
    } else {
        refresh_index(plan, base, false)
    }
}

fn notify(plan: &SettingsPlan, base: &MetadataBase) -> (r: (ApplyPhase, ApplyAction))
    ensures
        r == notify_step(*plan, *base),
{
    let metadata = metadata_notice(plan, base);
    if base.live && (plan.permission.is_some() || plan.sandbox.is_some() || plan.window.is_some()
        || metadata.is_some()) {
        let notice = LiveNotice {
            permission: plan.permission,
            sandbox: copy_text(&plan.sandbox),
            window: plan.window,
            metadata,
        };
        (ApplyPhase::LiveNotified, ApplyAction::NotifyLive(notice))
    } else {
        reach_turn(plan, base)
    }
}

/// Starts applying a plan.
pub fn begin_apply(plan: &SettingsPlan, base: &MetadataBase) -> (r: (ApplyPhase, ApplyAction))
    ensures
        r == first_apply_step(*plan, *base),
{
    if plan.changes.len() > 0 {
        (ApplyPhase::SettingsWritten, ApplyAction::AppendSettings)
    } else {
        notify(plan, base)
    }
}

/// Takes the application of a plan one step further.
pub fn advance_apply(
    plan: &SettingsPlan,
    base: &MetadataBase,
    phase: ApplyPhase,
    event: ApplyEvent,
) -> (r: (ApplyPhase, ApplyAction))
    ensures
        r == apply_step(*plan, *base, phase, event),
{
    match (phase, event) {
        (ApplyPhase::SettingsWritten, ApplyEvent::Written(failure)) => match failure {
            Some(error) => (
                ApplyPhase::Finished,
                ApplyAction::Reject(
                    reject_about(
                        ErrorCode::InternalError,
                        "failed to persist session settings: ",
                        error,
                    ),
                ),
            ),
            None => notify(plan, base),
        },
        (ApplyPhase::LiveNotified, ApplyEvent::Done) => reach_turn(plan, base),
        (ApplyPhase::TurnReached, ApplyEvent::TurnReached(reached)) => refresh_index(
            plan,
            base,
            reached,
        ),
        (ApplyPhase::IndexRefreshed(reached), ApplyEvent::Done) => answer(plan, base, reached),
        (ApplyPhase::HistoryReread(reached), ApplyEvent::HistoryReread(read)) => (
            ApplyPhase::Finished,
            match read {
                Err(error) => ApplyAction::Reject(
                    reject_about(
                        ErrorCode::InternalError,
                        "failed to re-read session history: ",
                        error,
                    ),
                ),
                Ok(found) => {
                    if found {
                        ApplyAction::AnswerFromHistory(metadata_answer(plan, reached))
                    } else {
                        ApplyAction::Reject(
                            reject(ErrorCode::SessionNotFound, "session history has no metadata"),
                        )
                    }
                },
            },
        ),
        (phase, _) => (phase, ApplyAction::Ignore),
    }
}

/// Where settings are to be recorded, neither the live session nor a running
/// turn nor the index hears of the change before the record is written, and
/// none of them does if it is not.
pub proof fn law_settings_are_persisted_first(
    plan: SettingsPlan,
    base: MetadataBase,
    error: String,
)
    requires
        plan.changes@.len() > 0,
    ensures
        first_apply_step(plan, base) == (ApplyPhase::SettingsWritten, ApplyAction::AppendSettings),
        apply_step(plan, base, ApplyPhase::SettingsWritten, ApplyEvent::Written(Some(error))).0
            == ApplyPhase::Finished,
        apply_step(
            plan,
            base,
            ApplyPhase::SettingsWritten,
            ApplyEvent::Written(Some(error)),
        ).1 is Reject,
{
}

/// What the index stores after a change is what a second change starts from:
/// refreshing a row twice with one plan is refreshing it once.
pub proof fn law_refresh_is_idempotent(row: IndexRow, plan: SettingsPlan)
    ensures
        row_after(row_after(row, plan), plan) == row_after(row, plan),
{
}

/// What a plan holds anew is what the running turn then has: the effort, the
/// model, the permission, the sandbox and the limit. What the plan does not
/// name stays as it was, but for the sandbox that a new permission brings, the
/// approvals that it takes back, and the model of the session for a turn that
/// had no configuration of its own.
pub proof fn law_running_turns_take_the_new_settings(
    turn: LiveTurn,
    plan: SettingsPlan,
    implied_sandbox: String,
    session_model: Option<String>,
    r: LiveTurn,
)
    requires
        r == turn_after(turn, plan, implied_sandbox, session_model),
    ensures
        plan.effort is Some ==> (r.config matches Some(config) && config.effort == plan.effort),
        plan.model is Some ==> (r.config matches Some(config) && config.model == plan.model),
        plan.effort is None && plan.model is None ==> r.config == turn.config,
        plan.effort is None && plan.model is Some && turn.config is Some ==> r.config->0.effort
            == turn.config->0.effort,
        plan.effort is None && plan.model is Some && turn.config is None ==> r.config->0.effort
            is None,
        plan.effort is Some && plan.model is None && turn.config is Some ==> r.config->0.model
            == turn.config->0.model,
        plan.effort is Some && plan.model is None && turn.config is None ==> r.config->0.model
            == session_model,
        plan.permission is Some ==> r.permission == plan.permission->0 && !r.approvals_kept,
        plan.permission is None ==> r.permission == turn.permission && r.approvals_kept
            == turn.approvals_kept,
        plan.sandbox is Some ==> r.sandbox == plan.sandbox,
        plan.sandbox is None && plan.permission is Some ==> r.sandbox == Some(implied_sandbox),
        plan.sandbox is None && plan.permission is None ==> r.sandbox == turn.sandbox,
        plan.window is Some ==> r.compact_limit == plan.window,
        plan.window is None ==> r.compact_limit == turn.compact_limit,
        plan.effort is None && plan.model is None && plan.window is None ==> r.generation
            == turn.generation,
        (plan.effort is Some || plan.model is Some || plan.window is Some) && turn.generation
            < u64::MAX ==> r.generation == turn.generation + 1,
        r.generation >= turn.generation,
{
}

/// A plan holds what the patch asks for and the session does not have yet, and
/// nothing else.
pub proof fn law_plans_hold_what_is_new(
    patch: MetadataPatch,
    base: MetadataBase,
    facts: PatchFacts,
    plan: SettingsPlan,
)
    requires
        is_settings_plan(patch, base, facts, plan),
    ensures
        patch.settings is None ==> plan.permission is None && plan.sandbox is None && plan.effort
            is None && plan.mode is None && plan.window is None,
        patch.model is None ==> plan.model is None,
        patch.model is None ==> (plan.binding is Some <==> patch.binding is Some),
        patch.binding is Some ==> plan.binding == Some(patch.binding),
        patch.settings matches Some(asked) ==> {
            &&& asked.effort is None ==> plan.effort is None
            &&& asked.effort is Some && base.settings.effort is Some && asked.effort->0@
                == base.settings.effort->0@ ==> plan.effort is None
            &&& asked.effort is Some && (base.settings.effort is None || asked.effort->0@
                != base.settings.effort->0@) ==> plan.effort is Some && plan.effort->0@
                == asked.effort->0@
            &&& asked.window is None || asked.window == base.settings.window ==> plan.window is None
            &&& asked.window is Some && asked.window != base.settings.window ==> plan.window
                == facts.window
            &&& asked.mode is None ==> plan.mode is None
            &&& asked.mode is Some && (base.settings.mode is None || asked.mode->0@
                != base.settings.mode->0@) ==> plan.mode == facts.mode
            &&& asked.mode is Some && base.settings.mode is Some && asked.mode->0@
                == base.settings.mode->0@ ==> plan.mode is None
            &&& asked.sandbox is None ==> plan.sandbox is None
            &&& asked.sandbox is Some && base.settings.sandbox is Some && asked.sandbox->0@
                == base.settings.sandbox->0@ ==> plan.sandbox is None
            &&& asked.sandbox is Some && (base.settings.sandbox is None || asked.sandbox->0@
                != base.settings.sandbox->0@) && facts.sandbox is Ok ==> plan.sandbox is Some
                && plan.sandbox->0@ == facts.sandbox->Ok_0@
            &&& asked.permission is None ==> plan.permission is None
            &&& asked.permission is Some && base.live && facts.live_preset is Some ==> if asked.permission
                == facts.live_preset {
                plan.permission is None
            } else {
                plan.permission == asked.permission
            }
            &&& asked.permission is Some && !base.live && base.row is Some && base.row->0.preset
                is Some ==> if asked.permission == base.row->0.preset {
                plan.permission is None
            } else {
                plan.permission == asked.permission
            }
            &&& asked.permission is Some && ((base.live && facts.live_preset is None) || (!base.live
                && (base.row is None || base.row->0.preset is None))) ==> if asked.permission->0
                is AutoReview {
                plan.permission is None
            } else {
                plan.permission == asked.permission
            }
        },
{
}

/// The model that a plan holds is the one that the patch selects: the provider,
/// the model and the variant, joined by slashes; a part that the name of the
/// model holds already is not added again.
pub proof fn law_models_are_selected_by_their_parts(
    patch: MetadataPatch,
    base: MetadataBase,
    facts: PatchFacts,
    plan: SettingsPlan,
    model: ModelPatch,
)
    requires
        is_settings_plan(patch, base, facts, plan),
        patch.model == Some(model),
    ensures
        ({
            let provider = trimmed(model.provider@);
            let led = if provider.len() > 0 && !(provider + "/"@).is_prefix_of(model.model@) {
                provider + "/"@ + model.model@
            } else {
                model.model@
            };
            let named = if model.variant is Some && !("/"@ + model.variant->0@).is_suffix_of(led) {
                led + "/"@ + model.variant->0@
            } else {
                led
            };
            &&& named == base.model@ ==> plan.model is None
            &&& named != base.model@ ==> plan.model is Some && plan.model->0@ == named
            &&& plan.model is Some ==> plan.binding == Some(patch.binding)
        }),
{
}

/// Every setting that a plan holds anew is written down for a session that is
/// kept: as many changes as the plan has, each with the new value.
pub proof fn law_new_settings_are_written_down(
    patch: MetadataPatch,
    base: MetadataBase,
    facts: PatchFacts,
    plan: SettingsPlan,
)
    requires
        is_settings_plan(patch, base, facts, plan),
        base.durable,
    ensures
        plan.permission matches Some(preset) ==> plan.changes@.contains(
            SettingsChange::Permission(preset),
        ),
        plan.sandbox matches Some(name) ==> plan.changes@.contains(SettingsChange::Sandbox(name)),
        plan.effort matches Some(effort) ==> plan.changes@.contains(SettingsChange::Effort(effort)),
        plan.mode matches Some(mode) ==> plan.changes@.contains(SettingsChange::Mode(mode)),
        plan.model matches Some(model) ==> plan.changes@.contains(SettingsChange::Model(model)),
        plan.binding matches Some(binding) ==> plan.changes@.contains(
            SettingsChange::Binding(binding),
        ),
        forall|i: int|
            0 <= i < plan.changes@.len() ==> match #[trigger] plan.changes@[i] {
                SettingsChange::Permission(preset) => plan.permission == Some(preset),
                SettingsChange::Sandbox(name) => plan.sandbox == Some(name),
                SettingsChange::Effort(effort) => plan.effort == Some(effort),
                SettingsChange::Mode(mode) => plan.mode == Some(mode),
                SettingsChange::Model(model) => plan.model == Some(model),
                SettingsChange::Binding(binding) => plan.binding == Some(binding),
            },
{
    let permission: int = if plan.permission is Some { 1 } else { 0 };
    let sandbox: int = permission + if plan.sandbox is Some { 1int } else { 0int };
    let effort: int = sandbox + if plan.effort is Some { 1int } else { 0int };
    let mode: int = effort + if plan.mode is Some { 1int } else { 0int };
    let model: int = mode + if plan.model is Some { 1int } else { 0int };
    if plan.permission is Some {
        assert(plan.changes@[0] == SettingsChange::Permission(plan.permission->0));
    }
    if plan.sandbox is Some {
        assert(plan.changes@[permission] == SettingsChange::Sandbox(plan.sandbox->0));
    }
    if plan.effort is Some {
        assert(plan.changes@[sandbox] == SettingsChange::Effort(plan.effort->0));
    }
    if plan.mode is Some {
        assert(plan.changes@[effort] == SettingsChange::Mode(plan.mode->0));
    }
    if plan.model is Some {
        assert(plan.changes@[mode] == SettingsChange::Model(plan.model->0));
    }
    if plan.binding is Some {
        assert(plan.changes@[model] == SettingsChange::Binding(plan.binding->0));
    }
}

/// A live session is told of its model, binding, effort and mode as they are
/// from now on: the new ones, and where the plan has none those of the index.
pub proof fn law_live_sessions_hear_of_changes(
    plan: SettingsPlan,
    base: MetadataBase,
)
    requires
        base.live,
        plan.permission is Some || plan.sandbox is Some || plan.window is Some || plan.model is Some
            || plan.effort is Some || plan.mode is Some || plan.binding is Some,
    ensures
        notify_step(plan, base).1 matches ApplyAction::NotifyLive(told) && {
            &&& told.permission == plan.permission
            &&& told.sandbox == plan.sandbox
            &&& told.window == plan.window
            &&& told.metadata is Some <==> plan.model is Some || plan.effort is Some || plan.mode
                is Some || plan.binding is Some
            &&& told.metadata matches Some(now) ==> {
                &&& plan.model is Some ==> now.model == plan.model->0
                &&& plan.model is None && base.indexed && base.row is Some && base.row->0.model
                    is Some ==> now.model == base.row->0.model->0
                &&& plan.model is None && (!base.indexed || base.row is None || base.row->0.model
                    is None) ==> now.model == base.model
                &&& plan.binding is Some ==> now.binding == plan.binding->0
                &&& plan.binding is None && base.indexed && base.row is Some ==> now.binding
                    == base.row->0.binding
                &&& plan.effort is Some ==> now.effort == plan.effort
                &&& plan.effort is None && base.indexed && base.row is Some ==> now.effort
                    == base.row->0.effort
                &&& now.mode == plan.mode
            }
        },
{
}

/// The index has what was changed, and only that.
pub proof fn law_index_rows_follow_the_plan(row: IndexRow, plan: SettingsPlan, r: IndexRow)
    requires
        r == row_after(row, plan),
    ensures
        plan.permission is Some ==> r.preset == plan.permission,
        plan.permission is None ==> r.preset == row.preset,
        plan.model is Some ==> r.model == plan.model,
        plan.model is None ==> r.model == row.model,
        plan.binding is Some ==> r.binding == plan.binding->0,
        plan.binding is None ==> r.binding == row.binding,
        plan.effort is Some ==> r.effort == plan.effort,
        plan.effort is None ==> r.effort == row.effort,
        plan.mode is Some ==> r.mode == plan.mode->0,
        plan.mode is None ==> r.mode == row.mode,
        r.ephemeral == row.ephemeral,
        r.subagent_parent == row.subagent_parent,
        r.rollout_exists == row.rollout_exists,
{
}

/// A change of a live, kept session goes all the way: it is written down, the
/// session hears of it, the running turn takes it up, the index is refreshed,
/// the history is read again, and the client learns whether the running turn
/// has it.
pub proof fn law_changes_go_all_the_way(
    plan: SettingsPlan,
    base: MetadataBase,
    row: IndexRow,
    reached: bool,
    error: String,
)
    requires
        base.live,
        base.durable,
        base.row == Some(row),
        plan.changes@.len() > 0,
        plan.permission is Some || plan.model is Some || plan.effort is Some,
    ensures
        ({
            let a = first_apply_step(plan, base);
            let b = apply_step(plan, base, a.0, ApplyEvent::Written(None));
            let c = apply_step(plan, base, b.0, ApplyEvent::Done);
            let d = apply_step(plan, base, c.0, ApplyEvent::TurnReached(reached));
            let e = apply_step(plan, base, d.0, ApplyEvent::Done);
            let f = apply_step(plan, base, e.0, ApplyEvent::HistoryReread(Ok(true)));
            &&& a.1 is AppendSettings
            &&& b.1 is NotifyLive
            &&& c.1 is ReachRunningTurn
            &&& d.1 is RefreshIndex
            &&& e.1 is RereadHistory
            &&& f.1 matches ApplyAction::AnswerFromHistory(answer)
                && answer.applied_to_active_turn == reached && answer.window == plan.window
            &&& apply_step(plan, base, e.0, ApplyEvent::HistoryReread(Ok(false))).1 matches
                ApplyAction::Reject(why) && why.code is SessionNotFound
            &&& apply_step(plan, base, e.0, ApplyEvent::HistoryReread(Err(error))).1 matches
                ApplyAction::Reject(why) && why.code is InternalError && why.detail == Some(error)
            &&& apply_step(plan, base, a.0, ApplyEvent::Written(Some(error))).1 matches
                ApplyAction::Reject(why) && why.code is InternalError && why.detail == Some(error)
        }),
{
}

/// A change that reaches nothing else goes no further than it must: a plan that
/// holds nothing tells no one, and a session that is only in the index is
/// answered from there.
pub proof fn law_empty_plans_are_answered_at_once(plan: SettingsPlan, base: MetadataBase)
    requires
        plan.permission is None,
        plan.sandbox is None,
        plan.effort is None,
        plan.mode is None,
        plan.window is None,
        plan.model is None,
        plan.binding is None,
        plan.changes@.len() == 0,
    ensures
        base.durable ==> first_apply_step(plan, base).1 is RereadHistory,
        !base.durable && base.row is Some ==> (first_apply_step(plan, base).1 matches
            ApplyAction::AnswerFromIndex(answer) && !answer.applied_to_active_turn && answer.window
            is None),
        !base.durable && base.row is None ==> (first_apply_step(plan, base).1 matches
            ApplyAction::Reject(why) && why.code is SessionNotFound),
{
}

/// A running turn is reached by what it runs with, and not by a mode or a
/// binding alone; a session that is not live is told of nothing.
pub proof fn law_only_what_turns_run_with_reaches_them(plan: SettingsPlan, base: MetadataBase)
    ensures
        plan.permission is Some || plan.sandbox is Some || plan.effort is Some || plan.model is Some
            || plan.window is Some <==> turn_step(plan, base).1 is ReachRunningTurn,
        !base.live ==> notify_step(plan, base) == turn_step(plan, base),
{
}

/// A title is changed to what was sent, without the space around it: the
/// session gets it, it is written down where the session has a record, and it
/// is shown. An empty title, and the removal of one, are refused.
pub proof fn law_titles_are_changed_as_asked(
    title: TitlePatch,
    begun: (MetadataPhase, MetadataAction),
    expected: u64,
    s: (MetadataPhase, MetadataAction),
    t: (MetadataPhase, MetadataAction),
    u: (MetadataPhase, MetadataAction),
    v: (MetadataPhase, MetadataAction),
    w: (MetadataPhase, MetadataAction),
    recorded: bool,
)
    requires
        title_step(title, begun),
        metadata_step(expected, begun.0, MetadataEvent::ParentLoaded(None), s),
        metadata_step(expected, s.0, MetadataEvent::Renamed(true), t),
        metadata_step(expected, t.0, MetadataEvent::RecordFound(recorded), u),
        recorded ==> metadata_step(expected, u.0, MetadataEvent::Written(None), v),
        !recorded ==> v == u,
        metadata_step(expected, v.0, MetadataEvent::Done, w),
    ensures
        title is Missing ==> begun.1 is FindLive,
        title is Null ==> (begun.1 matches MetadataAction::Reject(why) && why.code
            is InvalidParams),
        title matches TitlePatch::Value(text) ==> {
            &&& trimmed(text@).len() == 0 ==> (begun.1 matches MetadataAction::Reject(why)
                && why.code is InvalidParams)
            &&& trimmed(text@).len() > 0 ==> {
                &&& begun.1 is LoadParent
                &&& s.1 matches MetadataAction::Rename(name) && name@ == trimmed(text@)
                &&& t.1 is FindRecord
                &&& recorded ==> (u.1 matches MetadataAction::AppendTitle(name) && name@ == trimmed(
                    text@,
                ))
                &&& v.1 matches MetadataAction::ShowTitle(name) && name@ == trimmed(text@)
                &&& w.1 is FindLive
            }
        },
{
}

/// A title that cannot be changed is answered with the reason.
pub proof fn law_failed_renames_are_answered(
    expected: u64,
    title: String,
    failure: LoadFailure,
    error: String,
    s: (MetadataPhase, MetadataAction),
    t: (MetadataPhase, MetadataAction),
    u: (MetadataPhase, MetadataAction),
)
    requires
        metadata_step(
            expected,
            MetadataPhase::Parent(title),
            MetadataEvent::ParentLoaded(Some(failure)),
            s,
        ),
        metadata_step(expected, MetadataPhase::Renamed(title), MetadataEvent::Renamed(false), t),
        metadata_step(
            expected,
            MetadataPhase::TitleWritten(title),
            MetadataEvent::Written(Some(error)),
            u,
        ),
    ensures
        s.1 matches MetadataAction::Reject(why) && match failure {
            LoadFailure::NotFound => why.code is SessionNotFound,
            LoadFailure::RolloutMissing => why.code is SessionNotFound,
            LoadFailure::Subagent(parent) => why.code is InvalidParams && why.detail == Some(parent),
            LoadFailure::RestoreFailed(message) => why.code is InternalError && why.detail == Some(
                message,
            ),
        },
        t.1 matches MetadataAction::Reject(why) && why.code is SessionNotFound,
        u.1 matches MetadataAction::Reject(why) && why.code is InternalError && why.detail == Some(
            error,
        ),
        s.0 is Finished && t.0 is Finished && u.0 is Finished,
{
}

/// Where the settings of a session are read from: from its history where it is
/// kept, else from the index, else from the live session; there is no other
/// place. A subagent is changed through its parent, and an ephemeral session
/// only while it lives.
pub proof fn law_settings_are_read_where_they_are(
    live: bool,
    row: Option<IndexRow>,
    durable: bool,
)
    ensures
        ({
            let step = located_step(live, row, durable);
            let child = row is Some && row->0.subagent_parent is Some;
            let gone = row is Some && row->0.ephemeral && !live && !durable;
            &&& child ==> (step.1 matches MetadataAction::Reject(why) && why.code is InvalidParams
                && why.detail == row->0.subagent_parent)
            &&& !child && gone ==> (step.1 matches MetadataAction::Reject(why) && why.code
                is SessionNotFound)
            &&& !child && durable ==> step.1 is ReadHistory
            &&& !child && !durable && !gone && row is Some ==> step.1 is BuildSettings
            &&& !child && !durable && row is None && live ==> step.1 is ReadSummary
            &&& !durable && row is None && !live ==> (step.1 matches MetadataAction::Reject(why)
                && why.code is SessionNotFound)
        }),
{
}

/// The record of a session is looked for where the index does not know of it,
/// and what cannot be read is answered.
pub proof fn law_records_are_looked_for(
    expected: u64,
    live: bool,
    row: Option<IndexRow>,
    error: String,
    a: (MetadataPhase, MetadataAction),
    b: (MetadataPhase, MetadataAction),
    c: (MetadataPhase, MetadataAction),
    d: (MetadataPhase, MetadataAction),
    e: (MetadataPhase, MetadataAction),
)
    requires
        row is Some ==> row->0.subagent_parent is None,
        metadata_step(expected, MetadataPhase::Live, MetadataEvent::LiveFound(live), a),
        metadata_step(expected, a.0, MetadataEvent::IndexRead(Ok(row)), b),
        metadata_step(expected, a.0, MetadataEvent::IndexRead(Err(error)), c),
        metadata_step(
            expected,
            MetadataPhase::Rollout(live, row),
            MetadataEvent::RolloutFound(Ok(true)),
            d,
        ),
        metadata_step(
            expected,
            MetadataPhase::Rollout(live, row),
            MetadataEvent::RolloutFound(Err(error)),
            e,
        ),
    ensures
        a.1 is ReadIndex,
        row is Some && row->0.rollout_exists ==> b.1 is ReadHistory,
        row is None || !row->0.rollout_exists ==> b.1 is FindRollout,
        c.1 matches MetadataAction::Reject(why) && why.code is InternalError && why.detail == Some(
            error,
        ),
        d.1 is ReadHistory,
        e.1 matches MetadataAction::Reject(why) && why.code is InternalError && why.detail == Some(
            error,
        ),
{
}

/// A patch is applied to the version that it was made for: one that expects
/// another is refused, and one that expects none is always taken. What it is
/// compared with is what was read.
pub proof fn law_patches_are_for_a_version(
    expected: u64,
    live: bool,
    row: Option<IndexRow>,
    session: Snapshot,
    kept: (MetadataPhase, MetadataAction),
)
    requires
        metadata_step(
            expected,
            MetadataPhase::History(live, row),
            MetadataEvent::HistoryRead(Ok(Some(session))),
            kept,
        ),
    ensures
        expected == 0 || expected == session.version ==> kept.1 is CompareSettings && (
        kept.0 matches MetadataPhase::Ready(base) && {
            &&& base.live == live
            &&& base.durable
            &&& base.version == session.version
            &&& base.model == session.model
            &&& base.settings == session.settings
            &&& base.row == row
            &&& base.indexed == (row is Some)
        }),
        expected != 0 && expected != session.version ==> (kept.1 matches MetadataAction::Reject(why)
            && why.code is WorkspaceVersionConflict) && kept.0 is Finished,
{
}

/// A session that is not kept is in its first version; its settings are those
/// of its row.
pub proof fn law_unkept_sessions_are_in_their_first_version(
    expected: u64,
    live: bool,
    indexed: bool,
    row: IndexRow,
    settings: Settings,
    step: (MetadataPhase, MetadataAction),
    none: (MetadataPhase, MetadataAction),
    summary: (MetadataPhase, MetadataAction),
)
    requires
        metadata_step(
            expected,
            MetadataPhase::IndexSettings(live, indexed, Some(row)),
            MetadataEvent::SettingsBuilt(settings),
            step,
        ),
        metadata_step(
            expected,
            MetadataPhase::IndexSettings(live, indexed, None),
            MetadataEvent::SettingsBuilt(settings),
            none,
        ),
        metadata_step(
            expected,
            MetadataPhase::Summary,
            MetadataEvent::SummaryRead(Some(row)),
            summary,
        ),
    ensures
        expected <= 1 ==> step.1 is CompareSettings && (step.0 matches MetadataPhase::Ready(base) && {
            &&& base.live == live && !base.durable && base.version == 1
            &&& base.settings == settings && base.row == Some(row) && base.indexed == indexed
            &&& row.model is Some ==> base.model@ == row.model->0@
            &&& row.model is None ==> base.model@.len() == 0
        }),
        expected > 1 ==> (step.1 matches MetadataAction::Reject(why) && why.code
            is WorkspaceVersionConflict),
        none.1 matches MetadataAction::Reject(why) && why.code is SessionNotFound,
        summary == (
            MetadataPhase::IndexSettings(true, false, Some(row)),
            MetadataAction::BuildSettings,
        ),
{
}

/// Without a preset of its own a session runs with the automatic one.
pub proof fn law_presets_default_to_auto_review(preset: PermissionPreset)
    ensures
        permission_profile(Some(preset)) == preset,
        permission_profile(None) is AutoReview,
{
}

/// A setting that is not understood is refused in the words of the client.
pub proof fn law_unknown_settings_are_refused(
    patch: MetadataPatch,
    sandbox: String,
    mode: String,
    error: String,
    a: Rejection,
    b: Rejection,
)
    requires
        patch.settings is Some,
        patch.settings->0.sandbox == Some(sandbox),
        patch.settings->0.mode == Some(mode),
        is_sandbox_refusal(patch, error, a),
        is_mode_refusal(patch, b),
    ensures
        a.code is InvalidParams,
        a.message_view() == "invalid sandbox profile '"@ + sandbox@ + "': "@ + error@,
        b.code is InvalidParams,
        b.message_view() == "invalid collaboration mode '"@ + mode@ + "'"@,
{
}

/// A patch is planned where everything new in it is understood; a sandbox that
/// is not, and then a mode that is not, refuse it.
pub proof fn law_understood_patches_are_planned(
    patch: MetadataPatch,
    base: MetadataBase,
    facts: PatchFacts,
    r: Result<SettingsPlan, Rejection>,
)
    requires
        settles(patch, base, facts, r),
    ensures
        facts.sandbox is Ok && facts.mode is Some ==> r is Ok,
        patch.settings is None ==> r is Ok,
        patch.settings matches Some(asked) ==> {
            let moves = asked.sandbox is Some && (base.settings.sandbox is None
                || asked.sandbox->0@ != base.settings.sandbox->0@);
            let turns = asked.mode is Some && (base.settings.mode is None || asked.mode->0@
                != base.settings.mode->0@);
            &&& r is Err <==> (moves && facts.sandbox is Err) || (turns && facts.mode is None)
            &&& r matches Err(why) ==> why.code is InvalidParams
            &&& moves && facts.sandbox is Err ==> r->Err_0.message_view()
                == "invalid sandbox profile '"@ + asked.sandbox->0@ + "': "@
                + facts.sandbox->Err_0@
        },
{
}

} // verus!
