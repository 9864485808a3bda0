use devo_server::pages::{
    history_unreadable, list_items, list_turns, page_bounds, paginate, ItemEntry, Page, PageParams, TurnEntry,
};
use devo_server::paths::{Component, PathModel};
use devo_server::protocol::{ErrorCode, SessionId, TurnId};
use devo_server::session_list::{
    handle_native_session_list, list_session_summaries, normalize_session_list_cwd,
    session_list_cwd_matches, Directory, ListRequest, LiveRow, SummaryRow,
};
use devo_server::acp_session::{handle_acp_session_list, ListRefusal, ListedSession};

fn params(cursor: Option<&str>, limit: Option<u32>) -> PageParams {
    PageParams { cursor: cursor.map(str::to_owned), limit }
}

#[test]
fn paginate_walks_all_pages_without_gaps_or_duplicates() {
    let items: Vec<u64> = (1..=5).collect();
    let first = paginate(&items, &params(None, Some(2))).expect("page 1");
    assert_eq!(first.data, vec![1, 2]);
    assert_eq!(first.next_cursor.as_deref(), Some("2"));
    let second = paginate(&items, &params(Some("2"), Some(2))).expect("page 2");
    assert_eq!(second.data, vec![3, 4]);
    assert_eq!(second.next_cursor.as_deref(), Some("4"));
    let third = paginate(&items, &params(Some("4"), Some(2))).expect("page 3");
    assert_eq!(third, Page { data: vec![5], next_cursor: None });
}

#[test]
fn paginate_defaults_and_clamps_the_limit() {
    let items: Vec<u64> = (1..=250).collect();
    let defaulted = paginate(&items, &params(None, None)).expect("default");
    assert_eq!(defaulted.data.len(), 50);
    let clamped = paginate(&items, &params(None, Some(1000))).expect("clamp");
    assert_eq!(clamped.data.len(), 200);
    assert_eq!(clamped.next_cursor.as_deref(), Some("200"));
    let zero = paginate(&items, &params(None, Some(0))).expect("zero");
    assert_eq!(zero.data.len(), 1);
}

#[test]
fn paginate_rejects_malformed_cursor() {
    let error = paginate(&vec![1u64], &params(Some("not-a-cursor"), None)).expect_err("must fail");
    assert_eq!(error, "malformed cursor");
}

#[test]
fn paginate_empty_input_has_no_cursor() {
    let page = paginate(&Vec::<u64>::new(), &params(None, None)).expect("empty");
    assert_eq!(page, Page { data: Vec::new(), next_cursor: None });
}

#[test]
fn cursors_are_read_as_numbers() {
    let items: Vec<u64> = vec![1, 2, 3];
    assert_eq!(paginate(&items, &params(Some("+1"), None)).unwrap().data, vec![2, 3]);
    assert_eq!(paginate(&items, &params(Some("002"), None)).unwrap().data, vec![3]);
    assert!(paginate(&items, &params(Some(""), None)).is_err());
    assert!(paginate(&items, &params(Some("-1"), None)).is_err());
    assert!(paginate(&items, &params(Some("18446744073709551616"), None)).is_err());
    assert!(paginate(&items, &params(Some("18446744073709551615"), None)).unwrap().data.is_empty());
}

#[test]
fn histories_are_listed_by_their_numbers() {
    let turns: Vec<TurnEntry> =
        (1..4).map(|n| TurnEntry { sequence: n, index: n as usize - 1 }).collect();
    let page = list_turns(&turns, &params(Some("1"), Some(1))).unwrap();
    assert_eq!(page.data, vec![TurnEntry { sequence: 2, index: 1 }]);
    assert_eq!(page.next_cursor.as_deref(), Some("2"));
    let why = list_turns(&turns, &params(Some("x"), None)).unwrap_err();
    assert_eq!(why.code, ErrorCode::InvalidParams);
    assert_eq!(why.message(), "malformed cursor");

    let of = |seq: u64, turn: u128| ItemEntry {
        seq,
        turn: TurnId { raw: turn },
        index: seq as usize - 1,
    };
    let items = vec![of(1, 1), of(2, 2), of(3, 1)];
    let all = list_items(items.clone(), None, &params(None, None)).unwrap();
    assert_eq!(all.data.len(), 3);
    let some = list_items(items, Some(TurnId { raw: 1 }), &params(None, None)).unwrap();
    assert_eq!(some.data, vec![of(1, 1), of(3, 1)]);
}

#[test]
fn bounds_stay_within_the_list() {
    assert_eq!(page_bounds(10, 0, 4), (0, 4, Some(4)));
    assert_eq!(page_bounds(10, 8, 4), (8, 10, None));
    assert_eq!(page_bounds(10, 6, 4), (6, 10, None));
    assert_eq!(page_bounds(10, 11, 4), (10, 10, None));
    assert_eq!(page_bounds(10, 3, usize::MAX), (3, 10, None));
    assert_eq!(page_bounds(10, 3, 0), (3, 3, Some(3)));
}

fn components(path: &str) -> Vec<Component> {
    std::path::Path::new(path)
        .components()
        .map(|part| match part {
            std::path::Component::Prefix(prefix) => {
                Component::Prefix(prefix.as_os_str().to_string_lossy().into_owned())
            }
            std::path::Component::RootDir => Component::RootDir,
            std::path::Component::CurDir => Component::CurDir,
            std::path::Component::ParentDir => Component::ParentDir,
            std::path::Component::Normal(name) => {
                Component::Normal(name.to_string_lossy().into_owned())
            }
        })
        .collect()
}

fn directory(path: &str) -> Directory {
    Directory { path: components(path), shown: path.to_string() }
}

#[test]
fn directories_match_across_platforms() {
    assert_eq!(normalize_session_list_cwd("C:\\Work\\Repo\\"), "c:/work/repo");
    assert!(session_list_cwd_matches(&vec![], &directory("/a")));
    assert!(session_list_cwd_matches(&vec![directory("/a//b")], &directory("/a/b")));
    assert!(session_list_cwd_matches(
        &vec![directory("/x"), directory("C:/work/repo/")],
        &directory("c:\\Work\\Repo")
    ));
    assert!(!session_list_cwd_matches(&vec![directory("/a")], &directory("/b")));
}

fn row(id: u128, active: i64, updated: i64, title: Option<&str>) -> SummaryRow {
    SummaryRow {
        id: SessionId { raw: id },
        cwd: directory("/work"),
        title: title.map(str::to_owned),
        last_activity_at: active,
        updated_at: updated,
        readable: true,
    }
}

fn live(row: SummaryRow, ephemeral: bool, agent: bool) -> LiveRow {
    LiveRow { row, ephemeral, agent }
}

#[test]
fn the_most_recent_sessions_come_first() {
    let rows = list_session_summaries(
        vec![row(1, 10, 0, None), row(2, 30, 1, None), row(3, 30, 2, None)],
        vec![
            live(row(1, 40, 0, None), false, false),
            live(row(4, 99, 0, None), true, false),
            live(row(5, 99, 0, None), false, true),
            live(row(6, 20, 0, None), false, false),
        ],
    );
    let ids: Vec<u128> = rows.iter().map(|row| row.id.raw).collect();
    assert_eq!(ids, vec![1, 3, 2, 6]);
    assert_eq!(rows[0].last_activity_at, 40);
}

fn request(cursor: Option<&str>, limit: Option<u32>, search: Option<&str>) -> ListRequest {
    ListRequest {
        cursor: cursor.map(str::to_owned),
        limit,
        cwds: vec![],
        search: search.map(str::to_owned),
    }
}

#[test]
fn sessions_are_listed_page_by_page() {
    let rows: Vec<SummaryRow> = (0..60).map(|n| row(n, 0, 0, None)).collect();
    let (first, next) = handle_native_session_list(request(None, None, None), &rows).unwrap();
    assert_eq!(first.len(), 50);
    assert_eq!(next.as_deref(), Some("50"));
    let (second, next) =
        handle_native_session_list(request(next.as_deref(), None, None), &rows).unwrap();
    assert_eq!(second, (50..60).collect::<Vec<usize>>());
    assert_eq!(next, None);
    let (beyond, next) =
        handle_native_session_list(request(Some("99"), Some(5), None), &rows).unwrap();
    assert!(beyond.is_empty());
    assert_eq!(next, None);
    let why = handle_native_session_list(request(Some("1x"), None, None), &rows).unwrap_err();
    assert_eq!(why.message(), "invalid canonical session/list cursor: 1x");
}

#[test]
fn unreadable_sessions_are_skipped() {
    let rows: Vec<SummaryRow> = (0..6)
        .map(|n| SummaryRow { readable: n % 2 == 0, ..row(n, 0, 0, None) })
        .collect();
    let (page, next) =
        handle_native_session_list(request(None, Some(2), None), &rows).unwrap();
    assert_eq!(page, vec![0, 2]);
    assert_eq!(next.as_deref(), Some("2"));
    let (page, next) =
        handle_native_session_list(request(Some("2"), Some(2), None), &rows).unwrap();
    assert_eq!(page, vec![4]);
    assert_eq!(next, None);
}

#[test]
fn sessions_are_searched_by_title_in_any_case() {
    let rows = vec![
        row(1, 0, 0, Some("Fix LOGIN page")),
        row(2, 0, 0, None),
        row(3, 0, 0, Some("login")),
        row(4, 0, 0, Some("Stra\u{df}e \u{c4}")),
    ];
    let (found, _) =
        handle_native_session_list(request(None, None, Some("Login")), &rows).unwrap();
    assert_eq!(found, vec![0, 2]);
    let (found, _) =
        handle_native_session_list(request(None, None, Some("\u{e4}")), &rows).unwrap();
    assert_eq!(found, vec![3]);
    let (found, _) = handle_native_session_list(request(None, None, Some("")), &rows).unwrap();
    assert_eq!(found.len(), 4);
}

fn listed(id: u128, path: &str) -> ListedSession {
    ListedSession {
        id: SessionId { raw: id },
        cwd: PathModel { absolute: path.starts_with('/'), components: components(path) },
    }
}

fn model(path: &str) -> PathModel {
    PathModel { absolute: path.starts_with('/'), components: components(path) }
}

#[test]
fn editors_list_sessions_of_one_directory() {
    let sessions = vec![listed(1, "/a"), listed(2, "/b"), listed(3, "/a/")];
    let (page, next) =
        handle_acp_session_list(&Some(model("/a")), None, &sessions).unwrap();
    assert_eq!(page, vec![0, 2]);
    assert_eq!(next, None);
    let (page, _) = handle_acp_session_list(&None, Some(Ok(1)), &sessions).unwrap();
    assert_eq!(page, vec![1, 2]);
    let many: Vec<ListedSession> = (0..51).map(|n| listed(n, "/a")).collect();
    let (page, next) = handle_acp_session_list(&None, None, &many).unwrap();
    assert_eq!(page.len(), 50);
    assert_eq!(next, Some(50));
}

#[test]
fn editors_are_refused_bad_lists() {
    let sessions = vec![listed(1, "/a"), listed(2, "b")];
    let message = |refusal: ListRefusal| match refusal {
        ListRefusal::Plain(why) => why.message(),
        ListRefusal::Misplaced(id) => format!("misplaced {}", id.raw),
    };
    assert_eq!(
        message(handle_acp_session_list(&Some(model("a")), None, &sessions).unwrap_err()),
        "session/list cwd must be an absolute path"
    );
    assert_eq!(
        message(
            handle_acp_session_list(&None, Some(Err("bad cursor".into())), &sessions).unwrap_err()
        ),
        "bad cursor"
    );
    assert_eq!(
        message(handle_acp_session_list(&None, None, &sessions).unwrap_err()),
        "misplaced 2"
    );
    assert_eq!(
        message(
            handle_acp_session_list(&Some(model("/a")), Some(Ok(2)), &sessions).unwrap_err()
        ),
        "session/list cursor is out of range"
    );
    assert!(handle_acp_session_list(&Some(model("/a")), Some(Ok(1)), &sessions)
        .unwrap()
        .0
        .is_empty());
}

#[test]
fn unreadable_histories_are_refused() {
    let why = history_unreadable("io".to_string());
    assert_eq!(why.code, ErrorCode::InternalError);
    assert_eq!(why.message(), "failed to read session history: io");
}

#[test]
fn pages_cover_the_list() {
    let items: Vec<u64> = (1..=23).collect();
    for limit in [1u32, 2, 5, 22, 23, 50] {
        let mut seen = Vec::new();
        let mut cursor: Option<String> = None;
        loop {
            let page = paginate(&items, &params(cursor.as_deref(), Some(limit))).expect("page");
            seen.extend(page.data);
            match page.next_cursor {
                Some(next) => cursor = Some(next),
                None => break,
            }
        }
        assert_eq!(seen, items);
    }
}
