use devo_server::acp::{
    acp_route, begin_initialize, finish_initialize, not_enabled_message, requested_protocol,
    server_meta, AcpErrorCode, AcpRoute, ConnectionProtocol, ConnectionState, InitializeEnd,
    InitializeRequest, ReadyConnection,
};
use devo_server::acp_session::{
    advance_delete, advance_delete_tree, advance_open, begin_delete_tree,
    collect_session_delete_tree, handle_acp_session_close, handle_acp_session_set_mode,
    normalize_missing_mcp_servers, DeleteAction, DeleteEvent, DeletePhase, OpenAction, OpenEvent,
    OpenKind, OpenPhase, SessionNode, TreeAction, TreeEvent, TreePhase,
};
use devo_server::config_options::{
    acp_config_options_for_session, acp_mode_config_option, acp_model_config_option,
    acp_reasoning_effort_config_option, advance_set_option, begin_set_option,
    canonical_model_selection, current_reasoning_effort_value, non_empty_str,
    permission_preset_from_value, permission_preset_value, select_options_contain_value,
    ConfigOption, EffortChoices, EffortOption, ModelEntry, ModelFacts, OfferFacts, OptionCategory,
    OptionGroup,
    ProviderEntry, RefreshedSession, SelectOption, SelectOptions, SetOptionAction, SetOptionEvent, SetOptionPhase,
    VariantEntry,
};
use devo_server::protocol::SessionId;
use devo_server::session_metadata::PermissionPreset;

#[test]
fn methods_go_their_routes() {
    assert_eq!(acp_route("session/new"), Some(AcpRoute::New));
    assert_eq!(acp_route("session/set_config_option"), Some(AcpRoute::SetConfigOption));
    assert_eq!(acp_route("session/New"), None);
    assert_eq!(acp_route(""), None);
}

#[test]
fn connections_are_initialized_once() {
    assert_eq!(
        begin_initialize(Some(ConnectionState::Connected)).unwrap(),
        ConnectionState::Initializing
    );
    let message = |state: Option<ConnectionState>| {
        let why = begin_initialize(state).unwrap_err();
        assert_eq!(why.code, AcpErrorCode::InvalidRequest);
        why.message()
    };
    assert_eq!(
        message(Some(ConnectionState::Initializing)),
        "connection initialization is in progress"
    );
    assert_eq!(message(Some(ConnectionState::Ready)), "connection is already initialized");
    assert_eq!(message(Some(ConnectionState::Closed)), "connection is closed");
    assert_eq!(message(None), "connection is not registered");
}

#[test]
fn initializing_ends_in_a_protocol() {
    let request = InitializeRequest {
        typed_items: false,
        typed_items_by_capability: true,
        native: false,
    };
    let initializing = Some(ConnectionState::Initializing);
    let (end, state) = finish_initialize(initializing, true, request, true);
    let ready = ReadyConnection {
        protocol: ConnectionProtocol::Acp,
        authenticated: false,
        typed_items: true,
    };
    assert_eq!(end, InitializeEnd::Ready(ready));
    assert_eq!(state, Some(ConnectionState::Ready));
    assert_eq!(
        finish_initialize(initializing, false, request, true),
        (InitializeEnd::NotEnabled, Some(ConnectionState::Connected))
    );
    assert_eq!(
        finish_initialize(None, true, request, true),
        (InitializeEnd::NotRegistered, None)
    );
    let native = InitializeRequest { native: true, ..request };
    assert_eq!(requested_protocol(native), ConnectionProtocol::Native);
    assert_eq!(
        not_enabled_message("native", "acp"),
        "protocol surface native is not enabled; enabled protocols: acp"
    );
    let meta = server_meta("unix".to_string(), "linux".to_string(), "/h".to_string(), true, ready);
    assert_eq!(meta.server_home, None);
    assert_eq!(meta.extension, Some((true, false)));
}

fn variant(id: &str, label: Option<&str>, disabled: bool) -> VariantEntry {
    VariantEntry { id: id.to_string(), label: label.map(str::to_owned), disabled }
}

fn model(id: &str, name: Option<&str>, variants: Vec<VariantEntry>) -> ModelEntry {
    ModelEntry {
        id: id.to_string(),
        name: name.map(str::to_owned),
        catalog_name: None,
        enabled: None,
        wire_api: None,
        variants,
    }
}

fn provider(id: &str, models: Vec<ModelEntry>) -> ProviderEntry {
    ProviderEntry { id: id.to_string(), name: None, enabled: None, wire_api: None, models }
}

fn values(option: &ConfigOption) -> Vec<&str> {
    match &option.options {
        SelectOptions::Ungrouped(options) => {
            options.iter().map(|option| option.value.as_str()).collect()
        }
        SelectOptions::Grouped(_) => panic!("grouped"),
    }
}

fn providers() -> Vec<ProviderEntry> {
    vec![
        provider(
            "p",
            vec![
                model(
                    "m",
                    Some("Model M"),
                    vec![
                        variant("very-fast_one", None, false),
                        variant("x", Some("X!"), false),
                        variant("off", None, true),
                    ],
                ),
                model("m", None, vec![]),
                ModelEntry { enabled: Some(false), ..model("n", None, vec![]) },
            ],
        ),
        ProviderEntry { enabled: Some(false), ..provider("q", vec![model("m", None, vec![])]) },
    ]
}

#[test]
fn models_are_offered_once() {
    let option = acp_model_config_option(&providers(), "responses", "p/m/x".to_string());
    assert_eq!(option.id, "model");
    assert_eq!(option.category, OptionCategory::Model);
    assert_eq!(values(&option), vec!["p/m", "p/m/very-fast_one", "p/m/x"]);
    let SelectOptions::Ungrouped(list) = &option.options else { panic!("grouped") };
    assert_eq!(list[0].name, "Model M");
    assert_eq!(list[0].description.as_deref(), Some("p: m via responses"));
    assert_eq!(list[1].name, "Model M (very fast one)");
    assert_eq!(list[2].name, "Model M (X!)");
    assert_eq!(list[2].description.as_deref(), Some("p: x variant for m"));
    let option = acp_model_config_option(&providers(), "responses", "other".to_string());
    assert_eq!(values(&option)[0], "other");
    assert_eq!(values(&option).len(), 4);
    assert_eq!(
        canonical_model_selection(&Some("p".to_string()), "m", "slug", &Some("x".to_string())),
        "p/m/x"
    );
    assert_eq!(canonical_model_selection(&None, "m", "slug", &None), "slug");
    assert_eq!(non_empty_str(" \t"), None);
    assert_eq!(non_empty_str(" a "), Some(" a "));
}

fn efforts(normalized: Option<&str>, fallback: Option<&str>) -> EffortChoices {
    let effort = |value: &str| EffortOption {
        value: value.to_string(),
        label: value.to_uppercase(),
        description: format!("{value} effort"),
    };
    EffortChoices {
        offered: vec![effort("low"), effort("high")],
        normalized: normalized.map(str::to_owned),
        fallback: fallback.map(str::to_owned),
    }
}

#[test]
fn efforts_are_those_that_are_offered() {
    let current = |choices: EffortChoices| current_reasoning_effort_value(&choices);
    assert_eq!(current(efforts(Some("high"), None)).as_deref(), Some("high"));
    assert_eq!(current(efforts(Some("odd"), Some("high"))).as_deref(), Some("high"));
    assert_eq!(current(efforts(Some("odd"), Some("odd"))).as_deref(), Some("low"));
    let none = EffortChoices { offered: vec![], ..efforts(Some("high"), None) };
    assert!(acp_reasoning_effort_config_option(&none).is_none());
    let option = acp_reasoning_effort_config_option(&efforts(None, None)).expect("option");
    assert_eq!(option.id, "thought_level");
    assert_eq!(option.current_value, "low");
    assert_eq!(values(&option), vec!["low", "high"]);
}

#[test]
fn presets_have_values() {
    for preset in
        [PermissionPreset::Default, PermissionPreset::AutoReview, PermissionPreset::FullAccess]
    {
        let value = permission_preset_value(preset);
        assert_eq!(permission_preset_from_value(value), Some(preset));
        let option = acp_mode_config_option(preset);
        assert_eq!(option.current_value, value);
        assert!(select_options_contain_value(&option.options, value));
    }
    assert_eq!(permission_preset_from_value("root"), None);
    assert_eq!(permission_preset_value(PermissionPreset::AutoReview), "auto-review");
    let all = acp_config_options_for_session(
        &providers(),
        "responses",
        "p/m".to_string(),
        &efforts(None, None),
        PermissionPreset::Default,
    );
    let mut ids: Vec<&str> = all.iter().map(|option| option.id).collect();
    ids.sort();
    assert_eq!(ids, vec!["mode", "model", "thought_level"]);
}

#[test]
fn groups_are_searched_too() {
    let option = |value: &str| SelectOption {
        value: value.to_string(),
        name: value.to_string(),
        description: None,
    };
    let grouped = SelectOptions::Grouped(vec![
        OptionGroup { options: vec![] },
        OptionGroup { options: vec![option("a"), option("b")] },
    ]);
    assert!(select_options_contain_value(&grouped, "b"));
    assert!(!select_options_contain_value(&grouped, "c"));
    assert!(!select_options_contain_value(&SelectOptions::Ungrouped(vec![option("a")]), "A"));
}

fn set_option(id: &str, value: Option<&str>, events: Vec<SetOptionEvent>) -> Vec<String> {
    let (mut phase, first) = begin_set_option(id.to_string(), value.map(str::to_owned));
    let show = |action: SetOptionAction| match action {
        SetOptionAction::Reject(why) => format!("{:?}: {}", why.code(), why.message()),
        SetOptionAction::Answer(options) => {
            let shown = acp_config_options_for_session(
                &providers(),
                "responses",
                "p/m".to_string(),
                &efforts(None, None),
                PermissionPreset::AutoReview,
            );
            assert_eq!(format!("{options:?}"), format!("{shown:?}"));
            assert_eq!(options.len(), 3);
            "Answer".to_string()
        }
        other => format!("{other:?}"),
    };
    let mut seen = vec![show(first)];
    for event in events {
        let (next, action) = advance_set_option(phase, event);
        phase = next;
        seen.push(show(action));
    }
    seen
}

fn facts(effort: bool) -> OfferFacts {
    let mut efforts = efforts(None, None);
    if !effort {
        efforts.offered.clear();
    }
    OfferFacts {
        providers: providers(),
        wire_api: "responses".to_string(),
        model: "p/m".to_string(),
        efforts,
    }
}

fn offered(effort: bool) -> SetOptionEvent {
    SetOptionEvent::Offered(Some(facts(effort)))
}

fn refreshed(durable: bool) -> SetOptionEvent {
    SetOptionEvent::Refreshed(Some(RefreshedSession {
        durable,
        facts: facts(true),
        preset: PermissionPreset::AutoReview,
    }))
}

#[test]
fn only_offered_values_are_set() {
    let until = |id: &str, value: &str, effort: bool| {
        set_option(
            id,
            Some(value),
            vec![SetOptionEvent::SessionFound(true), SetOptionEvent::Done, offered(effort)],
        )
        .pop()
        .expect("an action")
    };
    assert_eq!(until("model", "p/m/x", true), "ResolveModel(\"p/m/x\")");
    assert_eq!(
        until("model", "p/z", true),
        "InvalidParams: invalid value 'p/z' for session config option 'model'"
    );
    assert_eq!(until("thought_level", "high", true), "ResolveEffort(\"high\")");
    assert_eq!(
        until("thought_level", "odd", true),
        "InvalidParams: invalid value 'odd' for session config option 'thought_level'"
    );
    assert_eq!(
        until("thought_level", "high", false),
        "InvalidParams: unknown session config option 'thought_level'"
    );
    assert_eq!(until("mode", "auto-review", true), "ApplyPreset(AutoReview)");
    assert_eq!(until("sandbox_profile", "x", true), "ApplySandbox(\"x\")");
    assert_eq!(
        until("colour", "x", true),
        "InvalidParams: unknown session config option 'colour'"
    );
    assert_eq!(
        set_option("model", None, vec![]),
        ["InvalidParams: boolean session config options are not supported"]
    );
    let (_, action) = advance_set_option(
        SetOptionPhase::SandboxApplied { id: "sandbox_profile".to_string(), value: "x".to_string() },
        SetOptionEvent::SandboxApplied(Some(Err("no such profile".to_string()))),
    );
    let SetOptionAction::Reject(why) = action else { panic!("not refused") };
    assert_eq!(
        why.message(),
        "invalid value 'x' for session config option 'sandbox_profile': no such profile"
    );
}

#[test]
fn chosen_models_are_recorded() {
    let seen = set_option(
        "model",
        Some("p/m/x"),
        vec![
            SetOptionEvent::SessionFound(true),
            SetOptionEvent::Done,
            offered(true),
            SetOptionEvent::ModelResolved(efforts(Some("odd"), None)),
            SetOptionEvent::Updated(Some(true)),
            refreshed(true),
            SetOptionEvent::Written(None),
            SetOptionEvent::Written(Some("ignored".to_string())),
        ],
    );
    assert_eq!(
        seen[4..],
        [
            "UpdateSettings { model: \"p/m/x\", effort: Some(\"low\") }",
            "Refresh",
            "AppendMeta",
            "UpsertIndex",
            "Answer"
        ]
    );
}

#[test]
fn sessions_without_a_rollout_are_answered_at_once() {
    let seen = set_option(
        "model",
        Some("p/m/x"),
        vec![
            SetOptionEvent::SessionFound(true),
            SetOptionEvent::Done,
            offered(true),
            SetOptionEvent::ModelResolved(efforts(None, None)),
            SetOptionEvent::Updated(Some(false)),
            refreshed(false),
        ],
    );
    assert_eq!(seen[5..], ["Refresh", "Answer"]);
}

#[test]
fn chosen_efforts_name_the_model_in_full() {
    let seen = set_option(
        "thought_level",
        Some("high"),
        vec![
            SetOptionEvent::SessionFound(true),
            SetOptionEvent::Done,
            offered(true),
            SetOptionEvent::EffortResolved(ModelFacts {
                provider: Some("p".to_string()),
                request_model: "m".to_string(),
                slug: "slug".to_string(),
                variant: None,
            }),
        ],
    );
    assert_eq!(
        seen.last().unwrap(),
        "UpdateSettings { model: \"p/m\", effort: Some(\"high\") }"
    );
}

#[test]
fn missing_tools_are_an_empty_list() {
    let read = |text: &str| serde_json::from_str::<serde_json::Value>(text).expect("json");
    assert_eq!(
        normalize_missing_mcp_servers(read(r#"{"cwd":"/a"}"#)),
        read(r#"{"cwd":"/a","mcpServers":[]}"#)
    );
    let given = r#"{"mcpServers":[{"name":"x"}],"n":1}"#;
    assert_eq!(normalize_missing_mcp_servers(read(given)), read(given));
    assert_eq!(normalize_missing_mcp_servers(read(r#"{"mcpServers":null}"#)), read(r#"{"mcpServers":null}"#));
    assert_eq!(normalize_missing_mcp_servers(read("[1]")), read("[1]"));
}

fn open(kind: OpenKind, events: Vec<OpenEvent>) -> Vec<String> {
    let mut phase = OpenPhase::Roots;
    let mut seen = Vec::new();
    for event in events {
        let (next, action) = advance_open(kind, phase, event);
        phase = next;
        seen.push(match action {
            OpenAction::Reject(why) => why.message(),
            OpenAction::Answer { session: answered, options } => {
                assert_eq!((answered, options.len()), (SessionId { raw: 3 }, 3));
                "Answer".to_string()
            }
            other => format!("{other:?}"),
        });
    }
    seen
}

#[test]
fn sessions_are_opened_step_by_step() {
    assert_eq!(
        open(
            OpenKind::Load,
            vec![
                OpenEvent::Checked(None),
                OpenEvent::DirectoryChecked(None),
                OpenEvent::Checked(None),
                OpenEvent::Opened(Some(SessionId { raw: 3 })),
                OpenEvent::Checked(None),
                OpenEvent::Done,
                OpenEvent::Done,
                OpenEvent::Options(Ok((facts(true), PermissionPreset::Default))),
            ]
        ),
        [
            "CheckDirectory",
            "BuildTools",
            "Open",
            "ApplyDirectories(SessionId { raw: 3 })",
            "Subscribe(SessionId { raw: 3 })",
            "SendHistory(SessionId { raw: 3 })",
            "ReadOptions(SessionId { raw: 3 })",
            "Answer"
        ]
    );
    assert_eq!(
        open(
            OpenKind::New,
            vec![
                OpenEvent::Checked(None),
                OpenEvent::Checked(None),
                OpenEvent::Opened(Some(SessionId { raw: 3 })),
                OpenEvent::Found(false),
            ]
        ),
        [
            "BuildTools",
            "Open",
            "FindSession(SessionId { raw: 3 })",
            "new session actor unavailable"
        ]
    );
    assert_eq!(
        open(OpenKind::Resume, vec![OpenEvent::Checked(Some("bad root".to_string()))]),
        ["bad root"]
    );
    let why = handle_acp_session_close(false).expect("refused");
    assert_eq!(why.code, AcpErrorCode::ResourceNotFound);
    assert!(handle_acp_session_close(true).is_none());
    let why = handle_acp_session_set_mode();
    assert_eq!(why.code, AcpErrorCode::MethodNotFound);
    assert_eq!(why.message(), "session/set_mode is not supported");
}

fn node(id: u128, agent: bool, parent: Option<u128>) -> SessionNode {
    SessionNode { id: SessionId { raw: id }, agent, parent: parent.map(|raw| SessionId { raw }) }
}

#[test]
fn agents_go_with_their_session() {
    let nodes = vec![
        node(9, true, Some(1)),
        node(1, false, None),
        node(4, true, Some(9)),
        node(3, true, Some(1)),
        node(5, false, Some(1)),
        node(6, true, Some(5)),
        node(2, true, Some(3)),
    ];
    let order: Vec<u128> = collect_session_delete_tree(SessionId { raw: 1 }, &nodes)
        .iter()
        .map(|id| id.raw)
        .collect();
    assert_eq!(order, vec![1, 3, 9, 2, 4]);
    assert_eq!(
        collect_session_delete_tree(SessionId { raw: 77 }, &nodes),
        vec![SessionId { raw: 77 }]
    );
}

fn delete(events: Vec<DeleteEvent>) -> DeleteAction {
    let mut phase = DeletePhase::Removed;
    let mut last = DeleteAction::Ignore;
    for event in events {
        let (next, action) = advance_delete(phase, event);
        phase = next;
        last = action;
    }
    last
}

#[test]
fn deleted_sessions_leave_nothing() {
    let start = |persisted: bool, written: bool, rest: Vec<DeleteEvent>| {
        let mut events = vec![
            DeleteEvent::Removed(false),
            DeleteEvent::Done,
            DeleteEvent::Inspected(Ok(persisted)),
            DeleteEvent::RolloutDeleted(Ok(written)),
        ];
        events.extend(rest);
        delete(events)
    };
    assert!(matches!(start(false, false, vec![]), DeleteAction::Deleted(false)));
    assert!(matches!(start(false, true, vec![]), DeleteAction::Deleted(true)));
    let done = || DeleteEvent::Written(None);
    assert!(matches!(
        start(true, false, vec![done(), done(), done()]),
        DeleteAction::Deleted(true)
    ));
    let failed = || DeleteEvent::Written(Some("io".to_string()));
    assert!(matches!(
        start(true, false, vec![failed()]),
        DeleteAction::Fail("failed to clear pending turn queue: ", error) if error == "io"
    ));
    assert!(matches!(
        start(true, false, vec![done(), failed()]),
        DeleteAction::Fail("failed to clear pending steer queue: ", _)
    ));
    assert!(matches!(
        start(true, false, vec![done(), done(), failed()]),
        DeleteAction::Fail("failed to delete session metadata: ", _)
    ));
    assert!(matches!(
        delete(vec![
            DeleteEvent::Removed(true),
            DeleteEvent::Done,
            DeleteEvent::Inspected(Err("io".to_string()))
        ]),
        DeleteAction::Fail("failed to inspect session before delete: ", _)
    ));
}

fn delete_tree(results: Vec<Result<bool, (&'static str, String)>>) -> Vec<String> {
    let order: Vec<SessionId> = [1u128, 3, 9].iter().map(|raw| SessionId { raw: *raw }).collect();
    let (mut phase, mut action) = begin_delete_tree(&order);
    let mut results = results.into_iter();
    let mut seen = Vec::new();
    loop {
        let event = match action {
            TreeAction::Interrupt(id) => {
                seen.push(format!("interrupt {}", id.raw));
                TreeEvent::Done
            }
            TreeAction::Delete(id) => {
                seen.push(format!("delete {}", id.raw));
                TreeEvent::Deleted(results.next().expect("a result"))
            }
            TreeAction::Announce(gone) => {
                let gone: Vec<u128> = gone.iter().map(|id| id.raw).collect();
                seen.push(format!("announce {gone:?}"));
                TreeEvent::Done
            }
            TreeAction::Fail(message) => {
                seen.push(message);
                return seen;
            }
            TreeAction::Answer => return seen,
            TreeAction::Ignore => panic!("unexpected event"),
        };
        (phase, action) = advance_delete_tree(&order, phase, event);
    }
}

#[test]
fn turns_end_before_anything_is_deleted() {
    assert_eq!(
        delete_tree(vec![Ok(true), Ok(false), Ok(true)]),
        [
            "interrupt 1",
            "interrupt 3",
            "interrupt 9",
            "delete 1",
            "delete 3",
            "delete 9",
            "announce [1, 9]"
        ]
    );
    assert_eq!(delete_tree(vec![Ok(false), Ok(false), Ok(false)]).len(), 6);
    assert_eq!(
        delete_tree(vec![
            Ok(true),
            Err(("failed to delete session rollout: ", "io".to_string()))
        ])[4..],
        ["delete 3", "failed to delete session: failed to delete session rollout: io"]
    );
    let (phase, action) = begin_delete_tree(&vec![]);
    assert!(matches!((phase, action), (TreePhase::Finished, TreeAction::Answer)));
}
