use devo_server::protocol::ErrorCode;
use devo_server::session_metadata::{
    advance_apply, advance_metadata_update, begin_apply, begin_metadata_update,
    metadata_answer, metadata_notice,
    native_permission_profile, overlay_turn, plan_settings, refreshed_row, select_model,
    ApplyAction, ApplyEvent, CollaborationMode, IndexRow, LiveTurn, LoadFailure, MetadataAction,
    MetadataAnswer, MetadataBase, MetadataEvent, MetadataPatch, MetadataPhase, ModelPatch, PatchFacts,
    PermissionPreset, Settings, SettingsChange, SettingsPatch, Snapshot, TitlePatch, TurnConfig,
};

fn settings() -> Settings {
    Settings {
        sandbox: Some("workspace".to_string()),
        effort: Some("low".to_string()),
        mode: Some("build".to_string()),
        window: Some(1000),
    }
}

fn row() -> IndexRow {
    IndexRow {
        ephemeral: false,
        subagent_parent: None,
        model: Some("m1".to_string()),
        binding: Some("b1".to_string()),
        effort: Some("low".to_string()),
        preset: None,
        mode: CollaborationMode::Build,
        rollout_exists: true,
    }
}

fn base() -> MetadataBase {
    MetadataBase {
        live: true,
        durable: true,
        version: 3,
        model: "m1".to_string(),
        settings: settings(),
        row: Some(row()),
        indexed: true,
    }
}

fn facts() -> PatchFacts {
    PatchFacts {
        live_preset: None,
        sandbox: Ok("read-only".to_string()),
        mode: Some(CollaborationMode::Plan),
        window: Some(2000),
    }
}

fn patch(settings: Option<SettingsPatch>, model: Option<ModelPatch>) -> MetadataPatch {
    MetadataPatch { expected_version: 3, settings, model, binding: None }
}

fn all_settings() -> SettingsPatch {
    SettingsPatch {
        permission: Some(PermissionPreset::FullAccess),
        sandbox: Some("ro".to_string()),
        effort: Some("high".to_string()),
        mode: Some("plan".to_string()),
        window: Some(1),
    }
}

fn model(provider: &str, name: &str, variant: Option<&str>) -> ModelPatch {
    ModelPatch {
        provider: provider.to_string(),
        model: name.to_string(),
        variant: variant.map(str::to_owned),
    }
}

#[test]
fn models_are_named_by_provider_and_variant() {
    assert_eq!(select_model(&model("p", "m", Some("v"))), "p/m/v");
    assert_eq!(select_model(&model(" p ", "p/m", None)), "p/m");
    assert_eq!(select_model(&model("", "m", Some("v"))), "m/v");
    assert_eq!(select_model(&model("p", "m/v", Some("v"))), "p/m/v");
}

#[test]
fn changed_settings_are_recorded_once() {
    let plan =
        plan_settings(&patch(Some(all_settings()), Some(model("p", "m2", None))), &base(), &facts())
            .expect("plan");
    assert_eq!(plan.permission, Some(PermissionPreset::FullAccess));
    assert_eq!(plan.sandbox.as_deref(), Some("read-only"));
    assert_eq!(plan.effort.as_deref(), Some("high"));
    assert_eq!(plan.mode, Some(CollaborationMode::Plan));
    assert_eq!(plan.window, Some(2000));
    assert_eq!(plan.model.as_deref(), Some("p/m2"));
    assert_eq!(plan.binding, Some(None));
    assert!(matches!(
        plan.changes[..],
        [
            SettingsChange::Permission(PermissionPreset::FullAccess),
            SettingsChange::Sandbox(_),
            SettingsChange::Effort(_),
            SettingsChange::Mode(CollaborationMode::Plan),
            SettingsChange::Model(_),
            SettingsChange::Binding(None)
        ]
    ));
    let notice = metadata_notice(&plan, &base()).expect("notice");
    assert_eq!(notice.model, "p/m2");
    let refreshed = refreshed_row(row(), &plan).expect("row");
    assert_eq!(refreshed.model.as_deref(), Some("p/m2"));
    assert_eq!(refreshed.binding, None);
    assert_eq!(refreshed.mode, CollaborationMode::Plan);
}

#[test]
fn settled_settings_change_nothing() {
    let same = SettingsPatch {
        permission: Some(PermissionPreset::AutoReview),
        sandbox: Some("workspace".to_string()),
        effort: Some("low".to_string()),
        mode: Some("build".to_string()),
        window: Some(1000),
    };
    let plan =
        plan_settings(&patch(Some(same), Some(model("", "m1", None))), &base(), &facts()).unwrap();
    assert!(plan.changes.is_empty());
    assert!(plan.model.is_none() && plan.effort.is_none() && plan.window.is_none());
    assert!(metadata_notice(&plan, &base()).is_none());
    assert!(refreshed_row(row(), &plan).is_none());
    assert_eq!(native_permission_profile(None), PermissionPreset::AutoReview);
}

#[test]
fn unknown_settings_are_refused() {
    let bad = PatchFacts { sandbox: Err("unknown".to_string()), ..facts() };
    let why = plan_settings(&patch(Some(all_settings()), None), &base(), &bad).unwrap_err();
    assert_eq!(why.code, ErrorCode::InvalidParams);
    assert_eq!(why.message(), "invalid sandbox profile 'ro': unknown");
    let bad = PatchFacts { mode: None, ..facts() };
    let why = plan_settings(&patch(Some(all_settings()), None), &base(), &bad).unwrap_err();
    assert_eq!(why.message(), "invalid collaboration mode 'plan'");
}

#[test]
fn running_turns_follow_the_settings() {
    let plan =
        plan_settings(&patch(Some(all_settings()), Some(model("", "m2", None))), &base(), &facts())
            .unwrap();
    let before = LiveTurn {
        permission: PermissionPreset::Default,
        sandbox: None,
        approvals_kept: true,
        config: Some(TurnConfig { model: Some("m1".to_string()), effort: None }),
        compact_limit: None,
        generation: 4,
    };
    let turn = overlay_turn(before, &plan, "implied".to_string(), Some("m1".to_string()));
    assert_eq!(turn.permission, PermissionPreset::FullAccess);
    assert_eq!(turn.sandbox.as_deref(), Some("read-only"));
    assert_eq!(turn.config.as_ref().unwrap().model.as_deref(), Some("m2"));
    assert_eq!(turn.config.as_ref().unwrap().effort.as_deref(), Some("high"));
    assert_eq!(turn.compact_limit, Some(2000));
}

fn refusal(step: (MetadataPhase, MetadataAction)) -> (ErrorCode, String) {
    match step.1 {
        MetadataAction::Reject(why) => (why.code, why.message()),
        other => panic!("not refused: {other:?}"),
    }
}

#[test]
fn titles_are_never_empty() {
    assert_eq!(
        refusal(begin_metadata_update(&TitlePatch::Null)),
        (
            ErrorCode::InvalidParams,
            "clearing the session title is not supported (titles cannot be empty)".to_string()
        )
    );
    assert_eq!(
        refusal(begin_metadata_update(&TitlePatch::Value(" \n".to_string()))),
        (ErrorCode::InvalidParams, "session title cannot be empty".to_string())
    );
    let (phase, action) = begin_metadata_update(&TitlePatch::Value(" Fix it ".to_string()));
    assert!(matches!(action, MetadataAction::LoadParent));
    let MetadataPhase::Parent(title) = &phase else { panic!("not renamed") };
    assert_eq!(title, "Fix it");
    let (phase, action) =
        advance_metadata_update(1, phase, MetadataEvent::ParentLoaded(None));
    assert!(matches!(action, MetadataAction::Rename(title) if title == "Fix it"));
    let (phase, _) = advance_metadata_update(1, phase, MetadataEvent::Renamed(true));
    let (phase, action) = advance_metadata_update(1, phase, MetadataEvent::RecordFound(true));
    assert!(matches!(action, MetadataAction::AppendTitle(title) if title == "Fix it"));
    let (_, action) = advance_metadata_update(1, phase, MetadataEvent::Written(None));
    assert!(matches!(action, MetadataAction::ShowTitle(title) if title == "Fix it"));
    assert!(matches!(
        begin_metadata_update(&TitlePatch::Missing),
        (MetadataPhase::Live, MetadataAction::FindLive)
    ));
    let failure = LoadFailure::Subagent("p1".to_string());
    let why = refusal(advance_metadata_update(
        1,
        MetadataPhase::Parent("t".to_string()),
        MetadataEvent::ParentLoaded(Some(failure)),
    ));
    assert_eq!(why.0, ErrorCode::InvalidParams);
    assert!(why.1.starts_with(
        "subagent sessions cannot be renamed directly; rename the parent session p1"
    ));
}

#[test]
fn stale_versions_are_refused() {
    let snapshot = |version: u64| Snapshot {
        version,
        model: "m".to_string(),
        settings: settings(),
    };
    let step = |expected: u64| {
        advance_metadata_update(
            expected,
            MetadataPhase::History(true, Some(row())),
            MetadataEvent::HistoryRead(Ok(Some(snapshot(4)))),
        )
    };
    let why = refusal(step(3));
    assert_eq!(why.0, ErrorCode::WorkspaceVersionConflict);
    assert!(why.1.starts_with("session version drift: expected 3"));
    let (phase, action) = step(4);
    assert!(matches!(action, MetadataAction::CompareSettings));
    let MetadataPhase::Ready(base) = phase else { panic!("not ready") };
    assert!(base.durable && base.live);
    assert_eq!(base.version, 4);
    assert_eq!(
        refusal(advance_metadata_update(
            1,
            MetadataPhase::History(true, None),
            MetadataEvent::HistoryRead(Ok(None)),
        )),
        (ErrorCode::SessionNotFound, "session history has no metadata".to_string())
    );
    assert_eq!(
        refusal(advance_metadata_update(
            1,
            MetadataPhase::Index(false),
            MetadataEvent::IndexRead(Err("io".to_string())),
        )),
        (ErrorCode::InternalError, "failed to read session index: io".to_string())
    );
}

#[test]
fn settings_are_saved_before_they_are_told() {
    let plan =
        plan_settings(&patch(Some(all_settings()), None), &base(), &facts()).unwrap();
    let (mut phase, first) = begin_apply(&plan, &base());
    let mut seen = vec![first];
    for event in [
        ApplyEvent::Written(None),
        ApplyEvent::Done,
        ApplyEvent::TurnReached(true),
        ApplyEvent::Done,
        ApplyEvent::HistoryReread(Ok(true)),
    ] {
        let (next, action) = advance_apply(&plan, &base(), phase, event);
        phase = next;
        seen.push(action);
    }
    assert!(matches!(seen[0], ApplyAction::AppendSettings));
    let ApplyAction::NotifyLive(notice) = &seen[1] else { panic!("not told") };
    assert_eq!(notice.permission, Some(PermissionPreset::FullAccess));
    assert_eq!(notice.sandbox.as_deref(), Some("read-only"));
    assert_eq!(notice.window, Some(2000));
    assert_eq!(notice.metadata.as_ref().expect("told").mode, Some(CollaborationMode::Plan));
    assert!(matches!(seen[2], ApplyAction::ReachRunningTurn));
    assert!(matches!(
        &seen[3],
        ApplyAction::RefreshIndex(row) if row.mode == CollaborationMode::Plan
    ));
    assert!(matches!(seen[4], ApplyAction::RereadHistory));
    assert!(matches!(
        seen[5],
        ApplyAction::AnswerFromHistory(MetadataAnswer {
            applied_to_active_turn: true,
            window: Some(2000),
        })
    ));
    let (phase, _) = begin_apply(&plan, &base());
    let (_, action) = advance_apply(
        &plan,
        &base(),
        phase,
        ApplyEvent::Written(Some("full".to_string())),
    );
    let ApplyAction::Reject(why) = action else { panic!("not refused") };
    assert_eq!(why.message(), "failed to persist session settings: full");
}

#[test]
fn new_windows_are_told_and_answered() {
    let wider = SettingsPatch {
        permission: None,
        sandbox: None,
        effort: None,
        mode: None,
        window: Some(1),
    };
    let plan = plan_settings(&patch(Some(wider), None), &base(), &facts()).unwrap();
    assert!(plan.changes.is_empty());
    assert_eq!(plan.window, Some(2000));
    let (phase, action) = begin_apply(&plan, &base());
    let ApplyAction::NotifyLive(notice) = action else { panic!("not told") };
    assert_eq!(notice.window, Some(2000));
    assert!(notice.permission.is_none() && notice.sandbox.is_none());
    assert!(notice.metadata.is_none());
    let mut phase = phase;
    let mut last = ApplyAction::Ignore;
    for event in [ApplyEvent::Done, ApplyEvent::TurnReached(false), ApplyEvent::HistoryReread(Ok(true))] {
        (phase, last) = advance_apply(&plan, &base(), phase, event);
    }
    let told = MetadataAnswer { applied_to_active_turn: false, window: Some(2000) };
    assert!(matches!(last, ApplyAction::AnswerFromHistory(answer) if answer == told));
    assert_eq!(metadata_answer(&plan, false), told);
}
