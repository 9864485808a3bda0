use devo_server::paths::{Component, PathModel};
use devo_server::protocol::TurnId;
use devo_server::rollback::FileOutcome;
use devo_server::workspace_restore::{
    advance_restore, candidate_files, discover_restore_candidates, pre_content_from_reverse_patch,
    restore_succeeded, start_restore, string_field, CandidateState, ChangeItem, FileChange,
    FileChangeKind, FileRead, FileStatus, ItemChanges, RestoreAction, RestoreCandidate,
    RestoreEvent, RestorePhase, RestoreStart, RestoreTask,
};
use std::collections::HashMap;

const ROOT: &str = "/workspace";

type Disk = HashMap<String, String>;

fn model(path: &str) -> PathModel {
    let components = std::path::Path::new(path)
        .components()
        .map(|part| match part {
            std::path::Component::Prefix(prefix) => {
                Component::Prefix(prefix.as_os_str().to_string_lossy().into_owned())
            }
            std::path::Component::RootDir => Component::RootDir,
            std::path::Component::CurDir => Component::CurDir,
            std::path::Component::ParentDir => Component::ParentDir,
            std::path::Component::Normal(name) => {
                Component::Normal(name.to_string_lossy().into_owned())
            }
        })
        .collect();
    PathModel { absolute: path.starts_with('/'), components }
}

fn shown(path: &[Component]) -> String {
    let mut out = std::path::PathBuf::new();
    for part in path {
        match part {
            Component::Prefix(name) | Component::Normal(name) => out.push(name),
            Component::RootDir => out.push("/"),
            Component::CurDir => out.push("."),
            Component::ParentDir => out.push(".."),
        }
    }
    out.to_string_lossy().into_owned()
}

fn read_file(disk: &Disk, path: &str) -> RestoreEvent {
    RestoreEvent::Read(match disk.get(path) {
        Some(content) => FileRead::Content(content.clone()),
        None => FileRead::NotFound,
    })
}

fn restore_one(disk: &mut Disk, candidate: RestoreCandidate) -> FileStatus {
    let source = match &candidate.state {
        CandidateState::Moved { source, .. } => model(source),
        _ => model(""),
    };
    let start = start_restore(
        &model(ROOT).components,
        &model(&candidate.file),
        &source,
        candidate.state,
    );
    let RestoreStart::Task { target, source, task } = start else {
        return FileStatus::Unsupported;
    };
    let target = shown(&target);
    let source = source.map(|path| shown(&path)).unwrap_or_default();
    let mut phase = RestorePhase::TargetRead;
    let mut action = RestoreAction::ReadTarget;
    loop {
        let event = match action {
            RestoreAction::ReadTarget => read_file(disk, &target),
            RestoreAction::ReadSource => read_file(disk, &source),
            RestoreAction::WriteTarget(text) => {
                disk.insert(target.clone(), text);
                RestoreEvent::Written(true)
            }
            RestoreAction::WriteSource(text) => {
                disk.insert(source.clone(), text);
                RestoreEvent::Written(true)
            }
            RestoreAction::RemoveTarget => {
                disk.remove(&target);
                RestoreEvent::Removed(true)
            }
            RestoreAction::Done(status) => return status,
            RestoreAction::Ignore => panic!("unexpected event"),
        };
        (phase, action) = advance_restore(&task, phase, event);
    }
}

fn restore(disk: &mut Disk, candidates: Vec<RestoreCandidate>) -> Vec<(String, FileStatus)> {
    candidates
        .into_iter()
        .map(|candidate| {
            let file = candidate.file.clone();
            (file, restore_one(disk, candidate))
        })
        .collect()
}

fn on_disk(files: &[(&str, &str)]) -> Disk {
    files
        .iter()
        .map(|(path, content)| (format!("{ROOT}/{path}"), content.to_string()))
        .collect()
}

fn candidate(file: &str, state: CandidateState) -> RestoreCandidate {
    RestoreCandidate { file: file.to_string(), state }
}

fn tool_output(turn: TurnId, output: &str) -> ChangeItem {
    ChangeItem {
        turn,
        changes: ItemChanges::ToolOutput {
            output: serde_json::from_str(output).expect("json"),
            is_error: false,
        },
    }
}

#[test]
fn safe_restore_skips_diverged_added_file() {
    let mut disk = on_disk(&[("generated.txt", "user changed\n")]);
    let candidates = vec![candidate(
        "generated.txt",
        CandidateState::Added { post: "generated\n".to_string() },
    )];

    let outcomes = restore(&mut disk, candidates);

    assert_eq!(outcomes, vec![("generated.txt".to_string(), FileStatus::Skipped)]);
    assert_eq!(disk, on_disk(&[("generated.txt", "user changed\n")]));
}

#[test]
fn safe_restore_removes_unchanged_added_file() {
    let mut disk = on_disk(&[("generated.txt", "generated\n")]);
    let candidates = vec![candidate(
        "generated.txt",
        CandidateState::Added { post: "generated\n".to_string() },
    )];

    let outcomes = restore(&mut disk, candidates);

    assert_eq!(outcomes, vec![("generated.txt".to_string(), FileStatus::Restored)]);
    assert!(disk.is_empty());
}

#[test]
fn safe_restore_restores_unchanged_modified_file() {
    let mut disk = on_disk(&[("edited.txt", "before\n")]);
    let candidates = vec![candidate(
        "edited.txt",
        CandidateState::Modified { pre: "old\n".to_string(), post: "before\n".to_string() },
    )];

    let outcomes = restore(&mut disk, candidates);

    assert_eq!(outcomes, vec![("edited.txt".to_string(), FileStatus::Restored)]);
    assert_eq!(disk, on_disk(&[("edited.txt", "old\n")]));
}

#[test]
fn discovers_structured_file_change_candidates() {
    let turn = TurnId { raw: 1 };
    let item = tool_output(
        turn,
        r#"{"files":[{"path":"generated.txt","kind":"add","content":"generated\n"}]}"#,
    );

    let candidates = discover_restore_candidates(&vec![item], turn);

    assert_eq!(candidates.len(), 1);
    assert_eq!(candidates[0].file, "generated.txt");
    assert!(matches!(
        &candidates[0].state,
        CandidateState::Added { post } if post == "generated\n"
    ));
}

#[test]
fn discovers_and_restores_modified_file_from_reverse_diff() {
    let mut disk = on_disk(&[("edited.txt", "start\nnew\nend\n")]);
    let turn = TurnId { raw: 1 };
    let item = tool_output(
        turn,
        r#"{"files":[{
            "path": "edited.txt",
            "kind": "update",
            "content": "start\nnew\nend\n",
            "diff": "diff --git a/edited.txt b/edited.txt\n--- a/edited.txt\n+++ b/edited.txt\n@@ -1,3 +1,3 @@\n start\n-old\n+new\n end\n"
        }]}"#,
    );

    let candidates = discover_restore_candidates(&vec![item], turn);
    let outcomes = restore(&mut disk, candidates);

    assert_eq!(outcomes, vec![("edited.txt".to_string(), FileStatus::Restored)]);
    assert_eq!(disk, on_disk(&[("edited.txt", "start\nold\nend\n")]));
}

#[test]
fn discovers_and_restores_moved_file_from_reverse_diff() {
    let mut disk = on_disk(&[("moved/to.txt", "after\n")]);
    let turn = TurnId { raw: 1 };
    let item = tool_output(
        turn,
        r#"{"files":[{
            "path": "moved/to.txt",
            "filePath": "/workspace/from.txt",
            "kind": "move",
            "content": "after\n",
            "diff": "diff --git a/moved/to.txt b/moved/to.txt\n--- a/moved/to.txt\n+++ b/moved/to.txt\n@@ -1,1 +1,1 @@\n-before\n+after\n",
            "movePath": "/workspace/moved/to.txt"
        }]}"#,
    );

    let candidates = discover_restore_candidates(&vec![item], turn);
    let outcomes = restore(&mut disk, candidates);

    assert_eq!(outcomes, vec![("moved/to.txt".to_string(), FileStatus::Restored)]);
    assert_eq!(disk, on_disk(&[("from.txt", "before\n")]));
}

#[test]
fn safe_restore_skips_diverged_moved_file() {
    let mut disk = on_disk(&[("moved/to.txt", "user changed\n")]);
    let candidates = vec![candidate(
        "moved/to.txt",
        CandidateState::Moved {
            source: "/workspace/from.txt".to_string(),
            pre: "before\n".to_string(),
            post: "after\n".to_string(),
        },
    )];

    let outcomes = restore(&mut disk, candidates);

    assert_eq!(outcomes, vec![("moved/to.txt".to_string(), FileStatus::Skipped)]);
    assert_eq!(disk, on_disk(&[("moved/to.txt", "user changed\n")]));
}

#[test]
fn deleted_files_come_back_unless_replaced() {
    let deleted =
        || candidate("gone.txt", CandidateState::Deleted { pre: "was here".to_string() });
    let mut disk = Disk::new();
    assert_eq!(restore_one(&mut disk, deleted()), FileStatus::Restored);
    assert_eq!(disk, on_disk(&[("gone.txt", "was here")]));
    let mut disk = on_disk(&[("gone.txt", "new work")]);
    assert_eq!(restore_one(&mut disk, deleted()), FileStatus::Skipped);
    assert_eq!(disk, on_disk(&[("gone.txt", "new work")]));
}

#[test]
fn moves_keep_what_is_at_the_old_place() {
    let moved = || {
        candidate(
            "b",
            CandidateState::Moved {
                source: "a".to_string(),
                pre: "1".to_string(),
                post: "2".to_string(),
            },
        )
    };
    for (before, status, after) in [
        (vec![("b", "2"), ("a", "1")], FileStatus::Restored, vec![("a", "1")]),
        (vec![("b", "2"), ("a", "x")], FileStatus::Skipped, vec![("b", "2"), ("a", "x")]),
        (vec![("a", "1")], FileStatus::Restored, vec![("a", "1")]),
        (vec![("a", "x")], FileStatus::Skipped, vec![("a", "x")]),
        (vec![], FileStatus::Skipped, vec![]),
    ] {
        let mut disk = on_disk(&before);
        assert_eq!(restore_one(&mut disk, moved()), status);
        assert_eq!(disk, on_disk(&after));
    }
    let mut disk = on_disk(&[("b", "2")]);
    let in_place = candidate(
        "b",
        CandidateState::Moved {
            source: "x/../b".to_string(),
            pre: "1".to_string(),
            post: "2".to_string(),
        },
    );
    assert_eq!(restore_one(&mut disk, in_place), FileStatus::Restored);
    assert_eq!(disk, on_disk(&[("b", "1")]));
}

#[test]
fn files_outside_are_not_touched() {
    let mut disk = Disk::new();
    let outside = |file: &str, source: &str| {
        candidate(
            file,
            CandidateState::Moved {
                source: source.to_string(),
                pre: "1".to_string(),
                post: "2".to_string(),
            },
        )
    };
    assert_eq!(restore_one(&mut disk, outside("../b", "a")), FileStatus::Unsupported);
    assert_eq!(restore_one(&mut disk, outside("b", "/etc/a")), FileStatus::Unsupported);
    assert_eq!(
        restore_one(&mut disk, candidate("b", CandidateState::Unsupported)),
        FileStatus::Unsupported
    );
}

#[test]
fn unreadable_files_are_left_alone() {
    let task = RestoreTask::Rewrite { pre: "1".to_string(), post: "2".to_string() };
    let read = |read: FileRead| {
        advance_restore(&task, RestorePhase::TargetRead, RestoreEvent::Read(read)).1
    };
    assert_eq!(read(FileRead::InvalidData), RestoreAction::Done(FileStatus::Skipped));
    assert_eq!(read(FileRead::NotFound), RestoreAction::Done(FileStatus::Skipped));
    assert_eq!(read(FileRead::Failed), RestoreAction::Done(FileStatus::Failed));
    assert_eq!(read(FileRead::Content("2".to_string())), RestoreAction::WriteTarget("1".to_string()));
    assert_eq!(
        advance_restore(&task, RestorePhase::TargetWritten, RestoreEvent::Written(false)).1,
        RestoreAction::Done(FileStatus::Failed)
    );
    let task = RestoreTask::Remove { post: "2".to_string() };
    assert_eq!(
        advance_restore(&task, RestorePhase::TargetRead, RestoreEvent::Read(FileRead::NotFound)).1,
        RestoreAction::Done(FileStatus::Restored)
    );
    assert_eq!(
        advance_restore(&task, RestorePhase::TargetRemoved, RestoreEvent::Removed(false)).1,
        RestoreAction::Done(FileStatus::Failed)
    );
    assert_eq!(
        advance_restore(&task, RestorePhase::Finished, RestoreEvent::Removed(true)),
        (RestorePhase::Finished, RestoreAction::Ignore)
    );
}

fn found(output: &str) -> Vec<RestoreCandidate> {
    let turn = TurnId { raw: 1 };
    discover_restore_candidates(&vec![tool_output(turn, output)], turn)
}

#[test]
fn outputs_are_read_by_kind() {
    let list = found(
        r#"{"diff": "@@ -1 +1 @@\n-a\n+b\n", "files": [
            {"filePath": "1", "type": "remove", "old_content": "x"},
            {"relativePath": "2", "content": "b\n"},
            {"path": "3", "kind": "move", "oldPath": "4", "previousContent": "p", "content": "q"},
            {"path": "5", "kind": "move", "content": "b\n"},
            {"path": "6", "kind": "chmod"},
            {"path": "7", "kind": "add"},
            {"path": "8", "content": "no match"},
            {"kind": "add", "content": "nameless"},
            "not an object"
        ]}"#,
    );
    let files: Vec<&str> = list.iter().map(|candidate| candidate.file.as_str()).collect();
    assert_eq!(files, vec!["1", "2", "3", "5", "6", "7", "8"]);
    assert!(matches!(&list[0].state, CandidateState::Deleted { pre } if pre == "x"));
    assert!(matches!(
        &list[1].state,
        CandidateState::Modified { pre, post } if pre == "a\n" && post == "b\n"
    ));
    assert!(matches!(
        &list[2].state,
        CandidateState::Moved { source, pre, post } if source == "4" && pre == "p" && post == "q"
    ));
    for candidate in &list[3..] {
        assert!(matches!(candidate.state, CandidateState::Unsupported));
    }
    assert!(found(r#"{"files": {}}"#).is_empty());
    assert!(found("[]").is_empty());
}

#[test]
fn only_changes_of_the_turn_count() {
    let turn = TurnId { raw: 1 };
    let add = || r#"{"files":[{"path":"a","kind":"add","content":"x"}]}"#;
    let failed = ChangeItem {
        turn,
        changes: ItemChanges::ToolOutput {
            output: serde_json::from_str(add()).expect("json"),
            is_error: true,
        },
    };
    let change = |path: &str, change: FileChangeKind| FileChange { path: path.to_string(), change };
    let files = ChangeItem {
        turn,
        changes: ItemChanges::Files(vec![
            change("c", FileChangeKind::Add { content: "1".to_string() }),
            change("d", FileChangeKind::Delete { content: "2".to_string() }),
            change("e", FileChangeKind::Update { diff: "3".to_string(), moved_from: None }),
            change(
                "c",
                FileChangeKind::Update { diff: "4".to_string(), moved_from: Some("f".to_string()) },
            ),
        ]),
    };
    let items = vec![
        tool_output(TurnId { raw: 2 }, add()),
        failed,
        ChangeItem { turn, changes: ItemChanges::NoFiles },
        files,
    ];
    let list = discover_restore_candidates(&items, turn);
    assert_eq!(list.len(), 4);
    assert!(matches!(&list[0].state, CandidateState::Added { post } if post == "1"));
    assert!(matches!(&list[1].state, CandidateState::Deleted { pre } if pre == "2"));
    assert!(matches!(&list[2].state, CandidateState::Unsupported));
    assert!(matches!(
        &list[3].state,
        CandidateState::Moved { source, pre, post } if source == "f" && pre.is_empty() && post == "4"
    ));
    assert_eq!(candidate_files(&list), vec!["c", "d", "e"]);
}

#[test]
fn patches_are_undone() {
    let diff = "--- a/x\n+++ b/x\n@@ -1,2 +1,2 @@\n same\n-old\n+new\n";
    assert_eq!(
        pre_content_from_reverse_patch("same\nnew\n", diff),
        Some("same\nold\n".to_string())
    );
    assert_eq!(pre_content_from_reverse_patch("other\n", diff), None);
    assert_eq!(pre_content_from_reverse_patch("same\nnew\n", "@@ nonsense"), None);
    let number = "123456789012345678901234567890";
    let diff = format!(
        "--- a/x\n+++ b/x\n@@ -1,2 +1,2 @@ id {number}\n {number}\n-old\n+new\n"
    );
    assert_eq!(
        pre_content_from_reverse_patch(&format!("{number}\nnew\n"), &diff),
        Some(format!("{number}\nold\n"))
    );
    let diff = format!("--- a/x\n+++ b/x\n@@ -{number} +1 @@\n-old\n+new\n");
    assert_eq!(pre_content_from_reverse_patch("new\n", &diff), None);
}

#[test]
fn fields_are_found_under_the_first_name() {
    let object: serde_json::Value =
        serde_json::from_str(r#"{"a":1,"b":"x","c":"y"}"#).expect("json");
    assert_eq!(string_field(&object, &["a", "c", "b"]), Some("y".to_string()));
    assert_eq!(string_field(&object, &["a", "d"]), None);
    assert_eq!(string_field(&object, &[]), None);
}

#[test]
fn restores_succeed_unless_a_file_failed() {
    let went = |statuses: &[FileStatus]| {
        let outcomes = statuses
            .iter()
            .map(|status| FileOutcome { file: "a".to_string(), status: *status })
            .collect();
        restore_succeeded(&outcomes)
    };
    assert!(went(&[]));
    assert!(went(&[FileStatus::Restored, FileStatus::Skipped]));
    assert!(!went(&[FileStatus::Restored, FileStatus::Failed]));
    assert!(!went(&[FileStatus::Unsupported]));
}
