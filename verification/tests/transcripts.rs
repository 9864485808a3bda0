use devo_server::paths::{
    canonicalize_best_effort, ensure_path_under_allowed_roots, normalize_components,
    normalize_lexically, resolve_candidate_path, resolve_import_path, Component, PathModel,
    PathOnDisk,
};
use devo_server::protocol::{ErrorCode, Rejection};
use devo_server::transcript::{
    advance_export, advance_import, append_import_jsonl, export_destination, export_file_name,
    export_rollout_as_html, extract_session_meta_id, html_escape, is_session_meta_line,
    is_workspace_artifact_line, rewrite_import_line_session_id, ExportAction, ExportEvent,
    ExportFormat, ExportPhase, ImportAction, ImportError, ImportEvent, ImportPhase,
};

fn components(path: &str) -> Vec<Component> {
    std::path::Path::new(path)
        .components()
        .map(|part| match part {
            std::path::Component::Prefix(prefix) => {
                Component::Prefix(prefix.as_os_str().to_string_lossy().into_owned())
            }
            std::path::Component::RootDir => Component::RootDir,
            std::path::Component::CurDir => Component::CurDir,
            std::path::Component::ParentDir => Component::ParentDir,
            std::path::Component::Normal(name) => {
                Component::Normal(name.to_string_lossy().into_owned())
            }
        })
        .collect()
}

fn model(path: &str) -> PathModel {
    PathModel { absolute: path.starts_with('/'), components: components(path) }
}

fn shown(path: &[Component]) -> std::path::PathBuf {
    let mut out = std::path::PathBuf::new();
    for part in path {
        match part {
            Component::Prefix(name) | Component::Normal(name) => out.push(name),
            Component::RootDir => out.push("/"),
            Component::CurDir => out.push("."),
            Component::ParentDir => out.push(".."),
        }
    }
    out
}

#[test]
fn resolve_import_path_joins_relative_against_cwd() {
    let cwd = components("/tmp/project");
    assert_eq!(
        shown(&resolve_import_path(&model("out.jsonl"), &cwd)),
        std::path::PathBuf::from("/tmp/project/out.jsonl")
    );
}

#[test]
fn resolve_import_path_keeps_absolute_unix() {
    let cwd = components("/tmp/project");
    assert_eq!(
        shown(&resolve_import_path(&model("/exports/a.jsonl"), &cwd)),
        std::path::PathBuf::from("/exports/a.jsonl")
    );
}

fn drive(letter: &str, names: &[&str]) -> Vec<Component> {
    let mut path = vec![Component::Prefix(letter.to_string()), Component::RootDir];
    path.extend(names.iter().map(|name| Component::Normal(name.to_string())));
    path
}

#[test]
fn resolve_import_path_keeps_absolute_windows() {
    let cwd = drive("C:", &["tmp", "project"]);
    let path = PathModel { absolute: true, components: drive("D:", &["exports", "a.jsonl"]) };
    let resolved = resolve_import_path(&path, &cwd);
    let expected = drive("D:", &["exports", "a.jsonl"]);
    assert_eq!(resolved.len(), expected.len());
    assert!(resolved.iter().zip(&expected).all(|(a, b)| a.same(b)));
}

#[test]
fn is_session_meta_line_detects_typed_json() {
    assert!(is_session_meta_line(r#"{"type":"sessionMeta","id":"x"}"#));
    assert!(is_session_meta_line(r#"{"kind":"sessionMeta","v":2}"#));
    assert!(is_session_meta_line(r#"{"payload":{"type":"SessionMeta"},"id":"x"}"#));
    assert!(!is_session_meta_line(r#"{"type":"userMessage","text":"hi"}"#));
    assert!(!is_session_meta_line(r#"{"kind":"item","v":2}"#));
}

#[test]
fn append_import_jsonl_skips_source_meta_and_keeps_dest_meta() {
    let source = concat_lines(&[
        r#"{"kind":"sessionMeta","v":2,"session":{"id":"ses_old"}}"#,
        r#"{"kind":"item","v":2,"sessionId":"ses_old","id":"item_1"}"#,
        r#"{"kind":"turn","v":2,"turn":{"id":"turn_1","sessionId":"ses_old"}}"#,
        r#"{"kind":"workspaceCheckpoint","v":2,"record":{"session_id":"ses_old"}}"#,
    ]);
    let mut lines: Vec<String> =
        vec![r#"{"kind":"sessionMeta","v":2,"session":{"id":"ses_new"}}"#.to_string()];

    let imported = append_import_jsonl(&source, "ses_new");
    assert!(imported.failure.is_none());
    lines.extend(imported.lines);

    assert_eq!(lines.len(), 3);
    let turn: serde_json::Value = serde_json::from_str(&lines[2]).expect("turn json");
    assert_eq!(turn.pointer("/turn/sessionId").and_then(|v| v.as_str()), Some("ses_new"));
    let entry: serde_json::Value = serde_json::from_str(&lines[1]).expect("item json");
    assert_eq!(entry.pointer("/sessionId").and_then(|v| v.as_str()), Some("ses_new"));
    assert_eq!(entry.pointer("/id").and_then(|v| v.as_str()), Some("item_1"));
    assert_eq!(entry.pointer("/v").and_then(|v| v.as_i64()), Some(2));
}

fn concat_lines(lines: &[&str]) -> String {
    lines.iter().map(|line| format!("{line}\n")).collect()
}

#[test]
fn broken_lines_are_judged_by_their_text() {
    assert!(is_session_meta_line(r#"{"type":"sessionMeta","#));
    assert!(is_session_meta_line(r#"{"kind": "sessionMeta""#));
    assert!(is_session_meta_line(r#"oops "SessionMeta""#));
    assert!(!is_session_meta_line("oops"));
    assert!(!is_session_meta_line(r#"{"type":3,"kind":"sessionMeta"}"#));
    assert!(!is_workspace_artifact_line(r#"{"kind":"workspaceChange""#));
    assert!(is_workspace_artifact_line(r#"{"type":"WorkspaceRestoreStarted"}"#));
    assert!(!is_workspace_artifact_line(r#"{"kind":"x","type":"WorkspaceChange"}"#));
}

#[test]
fn sessions_are_named_by_their_first_line() {
    assert_eq!(
        extract_session_meta_id(r#"{"kind":"sessionMeta","session":{"id":"a"},"id":"b"}"#),
        Some("a".to_string())
    );
    assert_eq!(
        extract_session_meta_id(r#"{"kind":"sessionMeta","id":"b"}"#),
        Some("b".to_string())
    );
    assert_eq!(extract_session_meta_id(r#"{"kind":"sessionMeta","session":{"id":1},"id":"b"}"#), None);
    assert_eq!(extract_session_meta_id(r#"{"kind":"item","id":"b"}"#), None);
}

#[test]
fn imported_lines_name_the_new_session() {
    let source = Some("old".to_string());
    let line = rewrite_import_line_session_id(
        r#" {"session_id": 5, "path": ["x/old/y", "oldold"], "deep": {"old": "old"}}"#,
        &source,
        "new",
    )
    .expect("line");
    assert_eq!(
        serde_json::from_str::<serde_json::Value>(&line).unwrap(),
        serde_json::from_str::<serde_json::Value>(
            r#"{"session_id":"new","path":["x/new/y","newnew"],"deep":{"old":"new"}}"#
        )
        .unwrap()
    );
    let line = rewrite_import_line_session_id(r#"{"a":"old"}"#, &None, "new").expect("line");
    assert_eq!(line, r#"{"a":"old"}"#);
    let line = rewrite_import_line_session_id(r#"{"a":"old"}"#, &Some(String::new()), "new")
        .expect("line");
    assert_eq!(line, r#"{"a":"old"}"#);
    let line = rewrite_import_line_session_id(r#"["old"]"#, &source, "new").expect("line");
    assert_eq!(line, r#"["new"]"#);
}

#[test]
fn imports_stop_at_the_first_broken_line() {
    let source = concat_lines(&["  ", r#"{"a":1}"#, "oops", r#"{"b":1}"#]);
    let imported = append_import_jsonl(&source, "new");
    assert_eq!(imported.lines, vec![r#"{"a":1}"#.to_string()]);
    let failure = imported.failure.expect("failure");
    assert!(matches!(failure, ImportError::NotJson(_)));
    assert_eq!(failure.message(), "import jsonl line is not valid JSON: oops");
}

#[test]
fn pages_show_every_line_escaped() {
    assert_eq!(html_escape("a < b && c > d"), "a &lt; b &amp;&amp; c &gt; d");
    assert_eq!(html_escape("&lt;"), "&amp;lt;");
    assert_eq!(
        export_rollout_as_html("{\"a\":\"<b>\"}\r\n \n\nlast", "s1"),
        "<!DOCTYPE html><html><head><meta charset=\"utf-8\"><title>Session s1</title></head>\
         <body><h1>Session s1</h1>\n<pre>{\"a\":\"&lt;b&gt;\"}</pre>\n<pre>last</pre>\n</body></html>"
    );
    assert_eq!(
        export_rollout_as_html("", "s1"),
        "<!DOCTYPE html><html><head><meta charset=\"utf-8\"><title>Session s1</title></head>\
         <body><h1>Session s1</h1>\n</body></html>"
    );
}

#[test]
fn exports_have_a_place() {
    let exports = components("/home/exports");
    let name = export_file_name("s1", "20250102T030405Z", ExportFormat::Html);
    assert_eq!(name, "s1-20250102T030405Z.html");
    assert_eq!(export_file_name("s1", "t", ExportFormat::Jsonl), "s1-t.jsonl");
    let cwd = Some(components("/work"));
    let to = |named: Option<&str>, cwd: &Option<Vec<Component>>| {
        shown(&export_destination(&named.map(model), cwd, &exports, "n.html".to_string()))
    };
    assert_eq!(to(None, &cwd), std::path::PathBuf::from("/home/exports/n.html"));
    assert_eq!(to(Some("a.html"), &cwd), std::path::PathBuf::from("/work/a.html"));
    assert_eq!(to(Some("a.html"), &None), std::path::PathBuf::from("a.html"));
    assert_eq!(to(Some("/x/a.html"), &cwd), std::path::PathBuf::from("/x/a.html"));
}

fn on_disk(path: &str, canonical: Option<&str>, parent: Option<&str>) -> PathOnDisk {
    PathOnDisk {
        components: components(path),
        canonical: canonical.map(components),
        parent_canonical: parent.map(components),
    }
}

#[test]
fn paths_stay_under_their_roots() {
    let best = |path: PathOnDisk| shown(&canonicalize_best_effort(&path));
    assert_eq!(best(on_disk("/l/f", Some("/r/f"), None)), std::path::PathBuf::from("/r/f"));
    assert_eq!(best(on_disk("/l/f", None, Some("/r"))), std::path::PathBuf::from("/r/f"));
    assert_eq!(best(on_disk("/l/./x/../f", None, None)), std::path::PathBuf::from("/l/f"));
    assert_eq!(best(on_disk("/l/..", None, Some("/r"))), std::path::PathBuf::from("/"));

    let roots = vec![on_disk("/home", None, None), on_disk("/w", Some("/work"), None)];
    let check = |path: &str| {
        ensure_path_under_allowed_roots(&on_disk(path, None, None), &roots, path)
    };
    assert_eq!(check("/home/a"), Ok(()));
    assert_eq!(check("/work/a"), Ok(()));
    assert_eq!(check("/homestead/a"), Err("path escapes allowed roots: /homestead/a".to_string()));
    assert_eq!(check("/home/../etc"), Err("path escapes allowed roots: /home/../etc".to_string()));
    assert_eq!(
        ensure_path_under_allowed_roots(
            &on_disk("/home/link", Some("/etc/passwd"), None),
            &roots,
            "/home/link"
        ),
        Err("path escapes allowed roots: /home/link".to_string())
    );
}

#[test]
fn paths_are_made_plain() {
    assert_eq!(shown(&normalize_lexically(&components("a/../../b"))), std::path::PathBuf::from("b"));
    assert_eq!(shown(&normalize_lexically(&components("/../b"))), std::path::PathBuf::from("/b"));
    assert_eq!(
        shown(&normalize_components(&components("/a/./b/../c"))),
        std::path::PathBuf::from("/a/c")
    );
    let root = components("/w");
    assert_eq!(
        shown(&resolve_candidate_path(&root, &model("a/b")).unwrap()),
        std::path::PathBuf::from("/w/a/b")
    );
    assert!(resolve_candidate_path(&root, &model("../a")).is_none());
    assert!(resolve_candidate_path(&root, &model("/x")).is_none());
}

fn message(why: Rejection) -> (ErrorCode, String) {
    (why.code, why.message())
}

#[test]
fn exports_go_step_by_step() {
    let done = || ExportEvent::Done(None);
    let mut phase = ExportPhase::Rollout;
    let mut actions = Vec::new();
    for event in [
        ExportEvent::RolloutFound(true, "s1".to_string()),
        done(),
        done(),
        done(),
        done(),
    ] {
        let (next, action) = advance_export(ExportFormat::Html, phase, event);
        phase = next;
        actions.push(action);
    }
    assert_eq!(phase, ExportPhase::Finished);
    assert!(matches!(
        actions[..],
        [
            ExportAction::MakeDirectory,
            ExportAction::CheckRoots,
            ExportAction::MakeParent,
            ExportAction::WriteHtml,
            ExportAction::Answer
        ]
    ));
    let fail = |phase: ExportPhase| {
        let event = ExportEvent::Done(Some("disk full".to_string()));
        let (next, action) = advance_export(ExportFormat::Jsonl, phase, event);
        assert_eq!(next, ExportPhase::Finished);
        let ExportAction::Reject(why) = action else { panic!("not refused") };
        message(why)
    };
    assert_eq!(
        fail(ExportPhase::DirectoryMade),
        (ErrorCode::InternalError, "failed to create export dir: disk full".to_string())
    );
    assert_eq!(
        fail(ExportPhase::RootsChecked),
        (ErrorCode::PermissionDenied, "disk full".to_string())
    );
    assert_eq!(
        fail(ExportPhase::ParentMade),
        (ErrorCode::InternalError, "failed to create export parent: disk full".to_string())
    );
    assert_eq!(
        fail(ExportPhase::Exported),
        (ErrorCode::InternalError, "failed to export session: disk full".to_string())
    );
    let (_, action) = advance_export(
        ExportFormat::Jsonl,
        ExportPhase::Rollout,
        ExportEvent::RolloutFound(false, "s1".to_string()),
    );
    let ExportAction::Reject(why) = action else { panic!("not refused") };
    assert_eq!(
        message(why),
        (ErrorCode::SessionNotFound, "session rollout not found: s1".to_string())
    );
    let (phase, action) = advance_export(ExportFormat::Jsonl, ExportPhase::Finished, done());
    assert_eq!(phase, ExportPhase::Finished);
    assert!(matches!(action, ExportAction::Ignore));
}

#[test]
fn imports_go_step_by_step() {
    let mut phase = ImportPhase::HomeChecked;
    let mut actions = Vec::new();
    for event in [
        ImportEvent::Checked(Some("path escapes allowed roots: /w/a".to_string())),
        ImportEvent::Checked(None),
        ImportEvent::FileFound(true, "/w/a".to_string()),
        ImportEvent::SessionMade(None),
        ImportEvent::DestinationFound(true),
        ImportEvent::Done(None),
        ImportEvent::Done(None),
        ImportEvent::Done(Some("index is broken".to_string())),
    ] {
        let (next, action) = advance_import(phase, event);
        phase = next;
        actions.push(action);
    }
    assert!(matches!(
        actions[..],
        [
            ImportAction::CheckDirectory,
            ImportAction::FindFile,
            ImportAction::MakeSession,
            ImportAction::FindDestination,
            ImportAction::Evict,
            ImportAction::Append,
            ImportAction::Index,
            ImportAction::Answer
        ]
    ));
    let (_, action) = advance_import(
        ImportPhase::DirectoryChecked("first".to_string()),
        ImportEvent::Checked(Some("second".to_string())),
    );
    let ImportAction::Reject(why) = action else { panic!("not refused") };
    assert_eq!(message(why), (ErrorCode::PermissionDenied, "first".to_string()));
    let (_, action) = advance_import(
        ImportPhase::FileFound,
        ImportEvent::FileFound(false, "/w/a".to_string()),
    );
    let ImportAction::Reject(why) = action else { panic!("not refused") };
    assert_eq!(
        message(why),
        (ErrorCode::InvalidParams, "import path is not a file: /w/a".to_string())
    );
    let (_, action) =
        advance_import(ImportPhase::SessionMade, ImportEvent::SessionMade(Some("{}".to_string())));
    let ImportAction::Reject(why) = action else { panic!("not refused") };
    assert_eq!(
        message(why),
        (ErrorCode::InternalError, "session/import failed to create session: {}".to_string())
    );
    let (_, action) =
        advance_import(ImportPhase::Destination, ImportEvent::DestinationFound(false));
    let ImportAction::Reject(why) = action else { panic!("not refused") };
    assert_eq!(
        message(why),
        (ErrorCode::InternalError, "imported session has no rollout path".to_string())
    );
    let (_, action) =
        advance_import(ImportPhase::Appended, ImportEvent::Done(Some("broken".to_string())));
    let ImportAction::Reject(why) = action else { panic!("not refused") };
    assert_eq!(
        message(why),
        (ErrorCode::InternalError, "failed to append import jsonl: broken".to_string())
    );
}
