//! Putting back the files that a superseded turn changed.
//!
//! A file is put back only where it still holds what the turn left in it:
//! what somebody else wrote since then is never overwritten.

use crate::json::{
    field_text, is_object, text_field, tree_field, value_field, value_items, value_tree, JsonTree,
};
use crate::paths::{
    candidate_parts, lies_under, normal_parts, parts, resolve_candidate_path, Component, PathModel,
    PathPart,
};
use crate::protocol::TurnId;
use crate::rollback::FileOutcome;
use crate::text::{chars_of, lines_of, opt_view, starts_with, text_equal, text_lines, texts};
use vstd::prelude::*;

verus! {

/// What a turn did to a file, as far as it can be undone.
#[derive(Debug)]
pub enum CandidateState {
    Added { post: String },
    Deleted { pre: String },
    Modified { pre: String, post: String },
    Moved { source: String, pre: String, post: String },
    Unsupported,
}

/// A file that a turn changed.
#[derive(Debug)]
pub struct RestoreCandidate {
    pub file: String,
    pub state: CandidateState,
}

/// What is known of a change.
pub enum StateView {
    Added(Seq<char>),
    Deleted(Seq<char>),
    Modified(Seq<char>, Seq<char>),
    Moved(Seq<char>, Seq<char>, Seq<char>),
    Unsupported,
}

/// A changed file and what is known of the change.
pub struct CandidateView {
    pub file: Seq<char>,
    pub state: StateView,
}

impl View for RestoreCandidate {
    type V = CandidateView;

    open spec fn view(&self) -> CandidateView {
        CandidateView {
            file: self.file@,
            state: match self.state {
                CandidateState::Added { post } => StateView::Added(post@),
                CandidateState::Deleted { pre } => StateView::Deleted(pre@),
                CandidateState::Modified { pre, post } => StateView::Modified(pre@, post@),
                CandidateState::Moved { source, pre, post } => StateView::Moved(
                    source@,
                    pre@,
                    post@,
                ),
                CandidateState::Unsupported => StateView::Unsupported,
            },
        }
    }
}

/// What is known of each candidate of a list.
pub open spec fn candidates_view(list: Seq<RestoreCandidate>) -> Seq<CandidateView> {
    list.map_values(|candidate: RestoreCandidate| candidate@)
}

/// What `diffy` makes of undoing `diff` on the text `post`: nothing where the
/// diff cannot be read or does not fit.
pub uninterp spec fn reverse_applied(post: Seq<char>, diff: Seq<char>) -> Option<Seq<char>>;

/// Whether every number in `s`, up to the first `@`, is at most `limit`;
/// `so_far` is the number that ends where `s` begins.
pub open spec fn numbers_fit(s: Seq<char>, so_far: nat, limit: nat) -> bool
    decreases s.len(),
{
    if s.len() == 0 || s[0] == '@' {
        true
    } else if '0' <= s[0] <= '9' {
        let value = (so_far * 10 + (s[0] as nat - '0' as nat)) as nat;
        value <= limit && numbers_fit(s.drop_first(), value, limit)
    } else {
        numbers_fit(s.drop_first(), 0, limit)
    }
}

/// Whether the line numbers in the ranges of a diff's hunk headers leave room
/// to count the lines of a hunk from them. What stands behind the ranges does
/// not count.
pub open spec fn hunk_numbers_fit(diff: Seq<char>) -> bool {
    let lines = text_lines(diff);
    forall|i: int|
        0 <= i < lines.len() && "@@ "@.is_prefix_of(#[trigger] lines[i]) ==> diff.len()
            <= usize::MAX && numbers_fit(lines[i].skip(3), 0, (usize::MAX - diff.len()) as nat)
}

/// `diffy::Patch::from_str`, `diffy::Patch::reverse` and `diffy::apply`, one
/// after the other: the text from which `diff` leads to `post`. It depends on
/// the two texts alone. Line numbers from which the lines of a hunk cannot be
/// counted are left out: adding the two overflows.
#[verifier::external_body]
fn undo_patch(post: &str, diff: &str) -> (r: Option<String>)
    requires
        hunk_numbers_fit(diff@),
    ensures
        match r {
            Some(pre) => reverse_applied(post@, diff@) == Some(pre@),
            None => reverse_applied(post@, diff@) is None,
        },
{
    let patch = diffy::Patch::from_str(diff).ok()?;
    diffy::apply(post, &patch.reverse()).ok()
}

fn check_numbers(line: &Vec<char>, limit: usize) -> (r: bool)
    requires
        line@.len() >= 3,
    ensures
        r == numbers_fit(line@.skip(3), 0, limit as nat),
{
    let mut value: usize = 0;
    let mut i: usize = 3;
    while i < line.len()
        invariant
            3 <= i <= line@.len(),
            numbers_fit(line@.skip(3), 0, limit as nat) == numbers_fit(
                line@.skip(i as int),
                value as nat,
                limit as nat,
            ),
        decreases line@.len() - i,
    {
        let c = line[i];
        assert(line@.skip(i as int).drop_first() =~= line@.skip(i + 1));
        assert(line@.skip(i as int)[0] == c);
        if c == '@' {
            return true;
        }
        if '0' <= c && c <= '9' {
            let digit: usize = (c as u8 - 48) as usize;
            let next = match value.checked_mul(10) {
                Some(tens) => tens.checked_add(digit),
                None => None,
            };
            match next {
                Some(n) => {
                    if n > limit {
                        return false;
                    }
                    value = n;
                },
                None => {
                    return false;
                },
            }
        } else {
            value = 0;
        }
        i = i + 1;
    }
    true
}

fn check_hunk_numbers(diff: &str) -> (r: bool)
    ensures
        r == hunk_numbers_fit(diff@),
{
    let length = diff.unicode_len();
    let limit: usize = usize::MAX - length;
    let lines = lines_of(diff);
    let ghost all = text_lines(diff@);
    let mut i: usize = 0;
    while i < lines.len()
        invariant
            i <= lines@.len(),
            all == text_lines(diff@),
            all == texts(lines@),
            diff@.len() <= usize::MAX,
            limit == usize::MAX - diff@.len(),
            forall|j: int|
                0 <= j < i && "@@ "@.is_prefix_of(#[trigger] all[j]) ==> numbers_fit(
                    all[j].skip(3),
                    0,
                    limit as nat,
                ),
        decreases lines@.len() - i,
    {
        assert(all[i as int] == lines@[i as int]@);
        if starts_with(lines[i].as_str(), "@@ ") {
            let line = chars_of(lines[i].as_str());
            proof {
                reveal_strlit("@@ ");
            }
            if !check_numbers(&line, limit) {
                return false;
            }
        }
        i = i + 1;
    }
    true
}

/// What a file held before a change that left `post` in it and is described
/// by `diff`.
pub open spec fn content_before(post: Seq<char>, diff: Seq<char>) -> Option<Seq<char>> {
    if hunk_numbers_fit(diff) {
        reverse_applied(post, diff)
    } else {
        None
    }
}

/// Works out what a file held before a change.
pub fn pre_content_from_reverse_patch(post: &str, diff: &str) -> (r: Option<String>)
    ensures
        match r {
            Some(pre) => content_before(post@, diff@) == Some(pre@),
            None => content_before(post@, diff@) is None,
        },
{
    if check_hunk_numbers(diff) {
        undo_patch(post, diff)
    } else {
        None
    }
}

/// The characters of every name of a list.
pub open spec fn names_view(names: Seq<&str>) -> Seq<Seq<char>> {
    names.map_values(|name: &str| name@)
}

/// The text of the first of the named fields that holds one.
pub open spec fn first_text(tree: JsonTree, names: Seq<Seq<char>>) -> Option<Seq<char>>
    decreases names.len(),
{
    if names.len() == 0 {
        None
    } else {
        match text_field(tree, names[0]) {
            Some(text) => Some(text),
            None => first_text(tree, names.drop_first()),
        }
    }
}

/// Reads the text of the first of the named fields that holds one.
pub fn string_field(object: &serde_json::Value, names: &[&str]) -> (r: Option<String>)
    ensures
        match r {
            Some(text) => first_text(value_tree(*object), names_view(names@)) == Some(text@),
            None => first_text(value_tree(*object), names_view(names@)) is None,
        },
{
    let ghost tree = value_tree(*object);
    let mut i: usize = 0;
    assert(names_view(names@).skip(0) =~= names_view(names@));
    while i < names.len()
        invariant
            i <= names@.len(),
            tree == value_tree(*object),
            first_text(tree, names_view(names@)) == first_text(
                tree,
                names_view(names@).skip(i as int),
            ),
        decreases names@.len() - i,
    {
        assert(names_view(names@).skip(i as int).drop_first() =~= names_view(names@).skip(i + 1));
        assert(names_view(names@).skip(i as int)[0] == names@[i as int]@);
        if let Some(text) = field_text(object, names[i]) {
            return Some(text);
        }
        i = i + 1;
    }
    None
}

/// The fields that may hold a file's path.
pub open spec fn path_names() -> Seq<Seq<char>> {
    seq!["path"@, "filePath"@, "relativePath"@]
}

/// The fields that may say what happened to a file.
pub open spec fn kind_names() -> Seq<Seq<char>> {
    seq!["kind"@, "type"@]
}

/// The fields that may hold the content of an added file.
pub open spec fn added_names() -> Seq<Seq<char>> {
    seq!["content"@, "postContent"@, "post_content"@]
}

/// The fields that may hold the content of a deleted file.
pub open spec fn deleted_names() -> Seq<Seq<char>> {
    seq!["content"@, "preContent"@, "pre_content"@, "oldContent"@, "old_content"@]
}

/// The fields that may hold the diff of a file.
pub open spec fn diff_names() -> Seq<Seq<char>> {
    seq!["diff"@, "patch"@]
}

/// The fields that may hold what a file held before.
pub open spec fn pre_names() -> Seq<Seq<char>> {
    seq![
        "preContent"@,
        "pre_content"@,
        "oldContent"@,
        "old_content"@,
        "previousContent"@,
        "previous_content"@,
    ]
}

/// The fields that may hold what a file holds now.
pub open spec fn post_names() -> Seq<Seq<char>> {
    seq!["postContent"@, "post_content"@, "newContent"@, "new_content"@, "content"@]
}

/// The fields that may hold where a moved file is now.
pub open spec fn target_names() -> Seq<Seq<char>> {
    seq![
        "path"@,
        "relativePath"@,
        "relative_path"@,
        "targetPath"@,
        "target_path"@,
        "newPath"@,
        "new_path"@,
    ]
}

/// The fields that hold where a moved file is now, if no other does.
pub open spec fn move_names() -> Seq<Seq<char>> {
    seq!["movePath"@, "move_path"@]
}

/// The fields that may hold where a moved file was before.
pub open spec fn source_names() -> Seq<Seq<char>> {
    seq![
        "sourcePath"@,
        "source_path"@,
        "oldPath"@,
        "old_path"@,
        "fromPath"@,
        "from_path"@,
        "filePath"@,
    ]
}

/// The first of two texts that is there.
pub open spec fn first_of(a: Option<Seq<char>>, b: Option<Seq<char>>) -> Option<Seq<char>> {
    if a is Some {
        a
    } else {
        b
    }
}

/// What a file held before: as the entry says, or worked out from what it
/// holds now and the diff. A diff for the whole output stands in for one of
/// the entry's own.
pub open spec fn pre_content(file: JsonTree, output_diff: Option<Seq<char>>) -> Option<Seq<char>> {
    let worked_out = match (
        first_text(file, post_names()),
        first_of(first_text(file, diff_names()), output_diff),
    ) {
        (Some(post), Some(diff)) => content_before(post, diff),
        _ => None,
    };
    first_of(first_text(file, pre_names()), worked_out)
}

/// What an entry of a tool's output says of a file; nothing where it names
/// none.
pub open spec fn candidate_of(file: JsonTree, output_diff: Option<Seq<char>>) -> Option<
    CandidateView,
> {
    if !(file is Object) || first_text(file, path_names()) is None {
        None
    } else {
        let path = first_text(file, path_names())->0;
        let kind = match first_text(file, kind_names()) {
            Some(kind) => kind,
            None => "update"@,
        };
        let pre = pre_content(file, output_diff);
        let post = first_text(file, post_names());
        Some(
            if kind == "add"@ {
                CandidateView {
                    file: path,
                    state: match first_text(file, added_names()) {
                        Some(content) => StateView::Added(content),
                        None => StateView::Unsupported,
                    },
                }
            } else if kind == "delete"@ || kind == "remove"@ || kind == "unlink"@ {
                CandidateView {
                    file: path,
                    state: match first_text(file, deleted_names()) {
                        Some(content) => StateView::Deleted(content),
                        None => StateView::Unsupported,
                    },
                }
            } else if kind == "update"@ {
                CandidateView {
                    file: path,
                    state: match (pre, post) {
                        (Some(pre), Some(post)) => StateView::Modified(pre, post),
                        _ => StateView::Unsupported,
                    },
                }
            } else if kind == "move"@ {
                CandidateView {
                    file: match first_of(
                        first_text(file, target_names()),
                        first_text(file, move_names()),
                    ) {
                        Some(target) => target,
                        None => path,
                    },
                    state: match (first_text(file, source_names()), pre, post) {
                        (Some(source), Some(pre), Some(post)) => StateView::Moved(
                            source,
                            pre,
                            post,
                        ),
                        _ => StateView::Unsupported,
                    },
                }
            } else {
                CandidateView { file: path, state: StateView::Unsupported }
            },
        )
    }
}

/// What the entries of a tool's output say, in order.
pub open spec fn candidates_of(files: Seq<JsonTree>, output_diff: Option<Seq<char>>) -> Seq<
    CandidateView,
>
    decreases files.len(),
{
    if files.len() == 0 {
        Seq::empty()
    } else {
        let before = candidates_of(files.drop_last(), output_diff);
        match candidate_of(files.last(), output_diff) {
            Some(candidate) => before.push(candidate),
            None => before,
        }
    }
}

/// The changes that a tool's output tells of.
pub open spec fn output_candidates(output: JsonTree) -> Seq<CandidateView> {
    match tree_field(output, "files"@) {
        Some(JsonTree::List(files)) => candidates_of(files, text_field(output, "diff"@)),
        _ => Seq::empty(),
    }
}

fn read_pre_content(
    file: &serde_json::Value,
    post: &Option<String>,
    output_diff: &Option<String>,
) -> (r: Option<String>)
    requires
        opt_view(*post) == first_text(value_tree(*file), post_names()),
    ensures
        opt_view(r) == pre_content(value_tree(*file), opt_view(*output_diff)),
{
    proof {
        assert(names_view(seq!["diff", "patch"]) =~= diff_names());
        assert(names_view(
            seq![
                "preContent",
                "pre_content",
                "oldContent",
                "old_content",
                "previousContent",
                "previous_content",
            ],
        ) =~= pre_names());
    }
    let given = string_field(
        file,
        &[
            "preContent",
            "pre_content",
            "oldContent",
            "old_content",
            "previousContent",
            "previous_content",
        ],
    );
    if given.is_some() {
        return given;
    }
    let diff = match string_field(file, &["diff", "patch"]) {
        Some(diff) => Some(diff),
        None => match output_diff {
            Some(diff) => Some(diff.clone()),
            None => None,
        },
    };
    match (post, diff) {
        (Some(post), Some(diff)) => pre_content_from_reverse_patch(post.as_str(), diff.as_str()),
        _ => None,
    }
}

fn read_candidate(file: &serde_json::Value, output_diff: &Option<String>) -> (r: Option<
    RestoreCandidate,
>)
    ensures
        match r {
            Some(candidate) => candidate_of(value_tree(*file), opt_view(*output_diff)) == Some(
                candidate@,
            ),
            None => candidate_of(value_tree(*file), opt_view(*output_diff)) is None,
        },
{
    proof {
        assert(names_view(seq!["path", "filePath", "relativePath"]) =~= path_names());
        assert(names_view(seq!["kind", "type"]) =~= kind_names());
        assert(names_view(seq!["content", "postContent", "post_content"]) =~= added_names());
        assert(names_view(
            seq!["content", "preContent", "pre_content", "oldContent", "old_content"],
        ) =~= deleted_names());
        assert(names_view(
            seq!["postContent", "post_content", "newContent", "new_content", "content"],
        ) =~= post_names());
        assert(names_view(
            seq![
                "path",
                "relativePath",
                "relative_path",
                "targetPath",
                "target_path",
                "newPath",
                "new_path",
            ],
        ) =~= target_names());
        assert(names_view(seq!["movePath", "move_path"]) =~= move_names());
        assert(names_view(
            seq![
                "sourcePath",
                "source_path",
                "oldPath",
                "old_path",
                "fromPath",
                "from_path",
                "filePath",
            ],
        ) =~= source_names());
    }
    if !is_object(file) {
        return None;
    }
    let path = match string_field(file, &["path", "filePath", "relativePath"]) {
        Some(path) => path,
        None => {
            return None;
        },
    };
    let kind = match string_field(file, &["kind", "type"]) {
        Some(kind) => kind,
        None => "update".to_owned(),
    };
    let kind = kind.as_str();
    if text_equal(kind, "add") {
        let state = match string_field(file, &["content", "postContent", "post_content"]) {
            Some(post) => CandidateState::Added { post },
            None => CandidateState::Unsupported,
        };
        return Some(RestoreCandidate { file: path, state });
    }
    if text_equal(kind, "delete") || text_equal(kind, "remove") || text_equal(kind, "unlink") {
        let state = match string_field(
            file,
            &["content", "preContent", "pre_content", "oldContent", "old_content"],
        ) {
            Some(pre) => CandidateState::Deleted { pre },
            None => CandidateState::Unsupported,
        };
        return Some(RestoreCandidate { file: path, state });
    }
    let update = text_equal(kind, "update");
    if !update && !text_equal(kind, "move") {
        return Some(RestoreCandidate { file: path, state: CandidateState::Unsupported });
    }
    let post = string_field(
        file,
        &["postContent", "post_content", "newContent", "new_content", "content"],
    );
    let pre = read_pre_content(file, &post, output_diff);
    if update {
        let state = match (pre, post) {
            (Some(pre), Some(post)) => CandidateState::Modified { pre, post },
            _ => CandidateState::Unsupported,
        };
        return Some(RestoreCandidate { file: path, state });
    }
    let target = match string_field(
        file,
        &[
            "path",
            "relativePath",
            "relative_path",
            "targetPath",
            "target_path",
            "newPath",
            "new_path",
        ],
    ) {
        Some(target) => target,
        None => match string_field(file, &["movePath", "move_path"]) {
            Some(target) => target,
            None => path,
        },
    };
    let source = string_field(
        file,
        &[
            "sourcePath",
            "source_path",
            "oldPath",
            "old_path",
            "fromPath",
            "from_path",
            "filePath",
        ],
    );
    let state = match (source, pre, post) {
        (Some(source), Some(pre), Some(post)) => CandidateState::Moved { source, pre, post },
        _ => CandidateState::Unsupported,
    };
    Some(RestoreCandidate { file: target, state })
}

/// Adds the changes that a tool's output tells of.
pub fn collect_candidates_from_tool_output(
    output: &serde_json::Value,
    candidates: &mut Vec<RestoreCandidate>,
)
    ensures
        candidates_view(final(candidates)@) == candidates_view(old(candidates)@)
            + output_candidates(value_tree(*output)),
{
    let ghost start = candidates_view(candidates@);
    assert(start + Seq::<CandidateView>::empty() =~= start);
    let files = match value_field(output, "files") {
        Some(field) => match value_items(field) {
            Some(files) => files,
            None => {
                return;
            },
        },
        None => {
            return;
        },
    };
    let output_diff = field_text(output, "diff");
    let ghost trees = files@.map_values(|item: serde_json::Value| value_tree(item));
    let mut i: usize = 0;
    assert(trees.take(0) =~= Seq::empty());
    while i < files.len()
        invariant
            i <= files@.len(),
            trees == files@.map_values(|item: serde_json::Value| value_tree(item)),
            candidates_view(candidates@) == start + candidates_of(
                trees.take(i as int),
                opt_view(output_diff),
            ),
        decreases files@.len() - i,
    {
        let ghost before = candidates@;
        assert(trees.take(i + 1).drop_last() =~= trees.take(i as int));
        assert(trees.take(i + 1).last() == value_tree(files@[i as int]));
        if let Some(candidate) = read_candidate(&files[i], &output_diff) {
            candidates.push(candidate);
            assert(candidates_view(candidates@) =~= candidates_view(before).push(candidate@));
            assert(candidates_view(candidates@) =~= start + candidates_of(
                trees.take(i + 1),
                opt_view(output_diff),
            ));
        }
        i = i + 1;
    }
    assert(trees.take(trees.len() as int) =~= trees);
}

/// A change of one file that an item of a turn records.
#[derive(Debug)]
pub enum FileChangeKind {
    Add { content: String },
    Delete { content: String },
    Update { diff: String, moved_from: Option<String> },
}

/// One file of a recorded change.
#[derive(Debug)]
pub struct FileChange {
    pub path: String,
    pub change: FileChangeKind,
}

/// What an item of a turn says of files.
#[derive(Debug)]
pub enum ItemChanges {
    Files(Vec<FileChange>),
    ToolOutput { output: serde_json::Value, is_error: bool },
    NoFiles,
}

/// An item of a turn, as far as it changes files.
#[derive(Debug)]
pub struct ChangeItem {
    pub turn: TurnId,
    pub changes: ItemChanges,
}

/// What a recorded change says of a file: an update without a move cannot be
/// undone from the record alone.
pub open spec fn recorded_candidate(change: FileChange) -> CandidateView {
    CandidateView {
        file: change.path@,
        state: match change.change {
            FileChangeKind::Add { content } => StateView::Added(content@),
            FileChangeKind::Delete { content } => StateView::Deleted(content@),
            FileChangeKind::Update { diff, moved_from } => match moved_from {
                Some(source) => StateView::Moved(source@, Seq::empty(), diff@),
                None => StateView::Unsupported,
            },
        },
    }
}

/// The changes that an item tells of.
pub open spec fn item_candidates(item: ChangeItem) -> Seq<CandidateView> {
    match item.changes {
        ItemChanges::Files(changes) => changes@.map_values(
            |change: FileChange| recorded_candidate(change),
        ),
        ItemChanges::ToolOutput { output, is_error } => if is_error {
            Seq::empty()
        } else {
            output_candidates(value_tree(output))
        },
        ItemChanges::NoFiles => Seq::empty(),
    }
}

/// The changes that the items of `turn` tell of, in order.
pub open spec fn turn_candidates(items: Seq<ChangeItem>, turn: TurnId) -> Seq<CandidateView>
    decreases items.len(),
{
    if items.len() == 0 {
        Seq::empty()
    } else {
        let before = turn_candidates(items.drop_last(), turn);
        if items.last().turn == turn {
            before + item_candidates(items.last())
        } else {
            before
        }
    }
}

fn record_candidate(change: &FileChange) -> (r: RestoreCandidate)
    ensures
        r@ == recorded_candidate(*change),
{
    let state = match &change.change {
        FileChangeKind::Add { content } => CandidateState::Added { post: content.clone() },
        FileChangeKind::Delete { content } => CandidateState::Deleted { pre: content.clone() },
        FileChangeKind::Update { diff, moved_from } => match moved_from {
            Some(source) => CandidateState::Moved {
                source: source.clone(),
                pre: String::new(),
                post: diff.clone(),
            },
            None => CandidateState::Unsupported,
        },
    };
    RestoreCandidate { file: change.path.clone(), state }
}

fn collect_recorded(changes: &Vec<FileChange>, candidates: &mut Vec<RestoreCandidate>)
    ensures
        candidates_view(final(candidates)@) == candidates_view(old(candidates)@)
            + changes@.map_values(|change: FileChange| recorded_candidate(change)),
{
    let ghost start = candidates_view(candidates@);
    let ghost all = changes@.map_values(|change: FileChange| recorded_candidate(change));
    let mut i: usize = 0;
    assert(start + all.take(0) =~= start);
    while i < changes.len()
        invariant
            i <= changes@.len(),
            all == changes@.map_values(|change: FileChange| recorded_candidate(change)),
            candidates_view(candidates@) == start + all.take(i as int),
        decreases changes@.len() - i,
    {
        let ghost before = candidates@;
        let candidate = record_candidate(&changes[i]);
        candidates.push(candidate);
        i = i + 1;
        assert(candidates_view(candidates@) =~= candidates_view(before).push(candidate@));
        assert(candidates_view(candidates@) =~= start + all.take(i as int));
    }
    assert(all.take(all.len() as int) =~= all);
}

/// Lists the changes that the items of `turn` tell of.
pub fn discover_restore_candidates(items: &Vec<ChangeItem>, turn: TurnId) -> (r: Vec<
    RestoreCandidate,
>)
    ensures
        candidates_view(r@) == turn_candidates(items@, turn),
{
    let mut candidates: Vec<RestoreCandidate> = Vec::new();
    let mut i: usize = 0;
    assert(items@.take(0) =~= Seq::empty());
    assert(candidates_view(candidates@) =~= Seq::empty());
    while i < items.len()
        invariant
            i <= items@.len(),
            candidates_view(candidates@) == turn_candidates(items@.take(i as int), turn),
        decreases items@.len() - i,
    {
        let ghost before = candidates_view(candidates@);
        assert(items@.take(i + 1).drop_last() =~= items@.take(i as int));
        assert(before + Seq::<CandidateView>::empty() =~= before);
        if items[i].turn == turn {
            match &items[i].changes {
                ItemChanges::Files(changes) => {
                    collect_recorded(changes, &mut candidates);
                },
                ItemChanges::ToolOutput { output, is_error } => {
                    if !*is_error {
                        collect_candidates_from_tool_output(output, &mut candidates);
                    }
                },
                ItemChanges::NoFiles => {},
            }
        }
        i = i + 1;
    }
    assert(items@.take(items@.len() as int) =~= items@);
    candidates
}

/// The files of a list of candidates, each once, in the order of their first
/// mention.
pub open spec fn files_in_order(candidates: Seq<CandidateView>) -> Seq<Seq<char>>
    decreases candidates.len(),
{
    if candidates.len() == 0 {
        Seq::empty()
    } else {
        let before = files_in_order(candidates.drop_last());
        let file = candidates.last().file;
        if before.contains(file) {
            before
        } else {
            before.push(file)
        }
    }
}

fn lists_text(list: &Vec<String>, text: &str) -> (r: bool)
    ensures
        r == texts(list@).contains(text@),
{
    let mut i: usize = 0;
    while i < list.len()
        invariant
            i <= list@.len(),
            forall|j: int| 0 <= j < i ==> (#[trigger] list@[j])@ != text@,
        decreases list@.len() - i,
    {
        if text_equal(list[i].as_str(), text) {
            assert(texts(list@)[i as int] == text@);
            return true;
        }
        i = i + 1;
    }
    assert forall|j: int| 0 <= j < texts(list@).len() implies texts(list@)[j] != text@ by {
        assert(list@[j]@ != text@);
    }
    false
}

/// Lists the files of the candidates, each once.
pub fn candidate_files(candidates: &Vec<RestoreCandidate>) -> (r: Vec<String>)
    ensures
        texts(r@) == files_in_order(candidates_view(candidates@)),
{
    let ghost all = candidates_view(candidates@);
    let mut files: Vec<String> = Vec::new();
    let mut i: usize = 0;
    assert(all.take(0) =~= Seq::empty());
    assert(texts(files@) =~= Seq::empty());
    while i < candidates.len()
        invariant
            i <= candidates@.len(),
            all == candidates_view(candidates@),
            texts(files@) == files_in_order(all.take(i as int)),
        decreases candidates@.len() - i,
    {
        let ghost before = files@;
        assert(all.take(i + 1).drop_last() =~= all.take(i as int));
        assert(all.take(i + 1).last() == candidates@[i as int]@);
        if !lists_text(&files, candidates[i].file.as_str()) {
            files.push(candidates[i].file.clone());
            assert(texts(files@) =~= texts(before).push(candidates@[i as int].file@));
        }
        i = i + 1;
    }
    assert(all.take(all.len() as int) =~= all);
    files
}

/// No file is listed twice, and every candidate's file is listed.
pub proof fn law_candidate_files_are_distinct(candidates: Seq<CandidateView>)
    ensures
        forall|i: int, j: int|
            0 <= i < j < files_in_order(candidates).len() ==> files_in_order(candidates)[i]
                != files_in_order(candidates)[j],
        forall|i: int|
            0 <= i < candidates.len() ==> files_in_order(candidates).contains(
                (#[trigger] candidates[i]).file,
            ),
    decreases candidates.len(),
{
    if candidates.len() > 0 {
        let before = candidates.drop_last();
        law_candidate_files_are_distinct(before);
        let listed = files_in_order(before);
        let all = files_in_order(candidates);
        assert forall|i: int| 0 <= i < candidates.len() implies all.contains(
            (#[trigger] candidates[i]).file,
        ) by {
            if i < before.len() {
                assert(before[i] == candidates[i]);
                assert(listed.contains(before[i].file));
                let k = choose|k: int| 0 <= k < listed.len() && listed[k] == before[i].file;
                assert(all[k] == before[i].file);
            } else if !listed.contains(candidates.last().file) {
                assert(all[all.len() - 1] == candidates.last().file);
            }
        }
    }
}

/// What became of a file that was to be put back.
#[derive(Clone, Copy, Debug, PartialEq, Eq, Structural)]
pub enum FileStatus {
    Restored,
    Skipped,
    Failed,
    Unsupported,
}

/// What is to be done with a file.
#[derive(Debug)]
pub enum RestoreTask {
    /// The turn added the file: remove it if it still holds `post`.
    Remove { post: String },
    /// The turn deleted the file: write `pre` if it is still absent.
    Recreate { pre: String },
    /// The turn changed the file: write `pre` if it still holds `post`.
    Rewrite { pre: String, post: String },
    /// The turn moved the file: write `pre` where it was and remove it where
    /// it is, if it still holds `post` and nobody has taken the old place.
    MoveBack { pre: String, post: String },
}

/// A file that is to be put back, with the places that it concerns.
#[derive(Debug)]
pub enum RestoreStart {
    Unsupported,
    Task { target: Vec<Component>, source: Option<Vec<Component>>, task: RestoreTask },
}

/// The place that a path names in the workspace, if it lies inside.
pub open spec fn place_of(root: Seq<PathPart>, path: PathModel) -> Option<Seq<PathPart>> {
    let place = candidate_parts(root, path.absolute, parts(path.components@));
    if lies_under(place, normal_parts(root)) {
        Some(place)
    } else {
        None
    }
}

/// Whether `start` is how the restore of a candidate starts. `file` and
/// `source` are the candidate's paths as the platform reads them.
pub open spec fn is_restore_start(
    root: Seq<PathPart>,
    file: PathModel,
    source: PathModel,
    state: CandidateState,
    start: RestoreStart,
) -> bool {
    match (place_of(root, file), state) {
        (None, _) => start is Unsupported,
        (Some(place), CandidateState::Unsupported) => start is Unsupported,
        (Some(place), CandidateState::Added { post }) => {
            &&& start matches RestoreStart::Task { target, source, task }
            &&& parts(target@) == place
            &&& source is None
            &&& task == RestoreTask::Remove { post }
        },
        (Some(place), CandidateState::Deleted { pre }) => {
            &&& start matches RestoreStart::Task { target, source, task }
            &&& parts(target@) == place
            &&& source is None
            &&& task == RestoreTask::Recreate { pre }
        },
        (Some(place), CandidateState::Modified { pre, post }) => {
            &&& start matches RestoreStart::Task { target, source, task }
            &&& parts(target@) == place
            &&& source is None
            &&& task == RestoreTask::Rewrite { pre, post }
        },
        (Some(place), CandidateState::Moved { source: from, pre, post }) => match place_of(
            root,
            source,
        ) {
            None => start is Unsupported,
            Some(before) => {
                &&& start matches RestoreStart::Task { target, source, task }
                &&& parts(target@) == place
                &&& if before == place {
                    source is None && task == RestoreTask::Rewrite { pre, post }
                } else {
                    &&& source matches Some(source) && parts(source@) == before
                    &&& task == RestoreTask::MoveBack { pre, post }
                }
            },
        },
    }
}

/// Whether two paths say the same.
pub fn same_path(a: &Vec<Component>, b: &Vec<Component>) -> (r: bool)
    ensures
        r == (parts(a@) == parts(b@)),
{
    if a.len() != b.len() {
        assert(parts(a@).len() != parts(b@).len());
        return false;
    }
    let mut i: usize = 0;
    while i < a.len()
        invariant
            i <= a@.len(),
            a@.len() == b@.len(),
            forall|j: int| 0 <= j < i ==> (#[trigger] a@[j])@ == b@[j]@,
        decreases a@.len() - i,
    {
        if !a[i].same(&b[i]) {
            assert(parts(a@)[i as int] != parts(b@)[i as int]);
            return false;
        }
        i = i + 1;
    }
    assert(parts(a@) =~= parts(b@));
    true
}

/// Starts the restore of a candidate. A path that leads out of the workspace
/// is not touched.
pub fn start_restore(
    root: &Vec<Component>,
    file: &PathModel,
    source: &PathModel,
    state: CandidateState,
) -> (r: RestoreStart)
    ensures
        is_restore_start(parts(root@), *file, *source, state, r),
{
    let target = match resolve_candidate_path(root, file) {
        Some(target) => target,
        None => {
            return RestoreStart::Unsupported;
        },
    };
    match state {
        CandidateState::Added { post } => RestoreStart::Task {
            target,
            source: None,
            task: RestoreTask::Remove { post },
        },
        CandidateState::Deleted { pre } => RestoreStart::Task {
            target,
            source: None,
            task: RestoreTask::Recreate { pre },
        },
        CandidateState::Modified { pre, post } => RestoreStart::Task {
            target,
            source: None,
            task: RestoreTask::Rewrite { pre, post },
        },
        CandidateState::Moved { source: _, pre, post } => match resolve_candidate_path(root, source) {
            None => RestoreStart::Unsupported,
            Some(before) => {
                if same_path(&before, &target) {
                    RestoreStart::Task {
                        target,
                        source: None,
                        task: RestoreTask::Rewrite { pre, post },
                    }
                } else {
                    RestoreStart::Task {
                        target,
                        source: Some(before),
                        task: RestoreTask::MoveBack { pre, post },
                    }
                }
            },
        },
        CandidateState::Unsupported => RestoreStart::Unsupported,
    }
}

/// What reading a file gave.
#[derive(Debug)]
pub enum FileRead {
    Content(String),
    NotFound,
    /// The file is not text.
    InvalidData,
    Failed,
}

/// What the restore of a file waits for.
#[derive(Clone, Copy, Debug, PartialEq, Eq, Structural)]
pub enum RestorePhase {
    TargetRead,
    /// The moved file is gone from its new place.
    SourceReadAfterLoss,
    /// The moved file is where the turn left it.
    SourceRead,
    TargetWritten,
    SourceWritten,
    TargetRemoved,
    Finished,
}

/// What the host observed while restoring a file.
#[derive(Debug)]
pub enum RestoreEvent {
    Read(FileRead),
    /// Whether the file and its directories could be written.
    Written(bool),
    /// Whether the file is gone, by our hand or before.
    Removed(bool),
}

/// What the host has to do to restore a file. What is written is always the
/// content from before the turn.
#[derive(Debug, PartialEq, Eq)]
pub enum RestoreAction {
    /// Read the file where the turn left it.
    ReadTarget,
    /// Read the file where it was before it was moved.
    ReadSource,
    /// Write the text where the turn left the file.
    WriteTarget(String),
    /// Write the text where the file was before it was moved.
    WriteSource(String),
    /// Remove the file where the turn left it.
    RemoveTarget,
    /// The restore of the file is over.
    Done(FileStatus),
    /// Nothing: the event does not belong to the phase.
    Ignore,
}

/// The step that ends a restore.
pub open spec fn done(status: FileStatus) -> (RestorePhase, RestoreAction) {
    (RestorePhase::Finished, RestoreAction::Done(status))
}

/// The step after a file could not be read as text.
pub open spec fn unread(read: FileRead) -> (RestorePhase, RestoreAction) {
    done(
        if read is Failed {
            FileStatus::Failed
        } else {
            FileStatus::Skipped
        },
    )
}

/// The step after the file that the turn left was read.
pub open spec fn target_step(task: RestoreTask, read: FileRead) -> (RestorePhase, RestoreAction) {
    match task {
        RestoreTask::Remove { post } => match read {
            FileRead::Content(content) => if content@ == post@ {
                (RestorePhase::TargetRemoved, RestoreAction::RemoveTarget)
            } else {
                done(FileStatus::Skipped)
            },
            FileRead::NotFound => done(FileStatus::Restored),
            other => unread(other),
        },
        RestoreTask::Recreate { pre } => match read {
            FileRead::Content(_) => done(FileStatus::Skipped),
            FileRead::NotFound => (RestorePhase::TargetWritten, RestoreAction::WriteTarget(pre)),
            other => unread(other),
        },
        RestoreTask::Rewrite { pre, post } => match read {
            FileRead::Content(content) => if content@ == post@ {
                (RestorePhase::TargetWritten, RestoreAction::WriteTarget(pre))
            } else {
                done(FileStatus::Skipped)
            },
            other => unread(other),
        },
        RestoreTask::MoveBack { pre, post } => match read {
            FileRead::Content(content) => if content@ == post@ {
                (RestorePhase::SourceRead, RestoreAction::ReadSource)
            } else {
                done(FileStatus::Skipped)
            },
            FileRead::NotFound => (RestorePhase::SourceReadAfterLoss, RestoreAction::ReadSource),
            other => unread(other),
        },
    }
}

/// What a file held before the turn, as far as the task knows.
pub open spec fn content_to_restore(task: RestoreTask) -> Seq<char> {
    match task {
        RestoreTask::Remove { post } => Seq::empty(),
        RestoreTask::Recreate { pre } => pre@,
        RestoreTask::Rewrite { pre, post } => pre@,
        RestoreTask::MoveBack { pre, post } => pre@,
    }
}

/// The next step of restoring a file.
pub open spec fn restore_step(task: RestoreTask, phase: RestorePhase, event: RestoreEvent) -> (
    RestorePhase,
    RestoreAction,
) {
    match (phase, event) {
        (RestorePhase::TargetRead, RestoreEvent::Read(read)) => target_step(task, read),
        (RestorePhase::SourceReadAfterLoss, RestoreEvent::Read(read)) => match read {
            FileRead::Content(content) => done(
                if content@ == content_to_restore(task) {
                    FileStatus::Restored
                } else {
                    FileStatus::Skipped
                },
            ),
            other => unread(other),
        },
        (RestorePhase::SourceRead, RestoreEvent::Read(read)) => match read {
            FileRead::Content(content) => if content@ == content_to_restore(task) {
                (RestorePhase::TargetRemoved, RestoreAction::RemoveTarget)
            } else {
                done(FileStatus::Skipped)
            },
            FileRead::NotFound => match task {
                RestoreTask::MoveBack { pre, .. } => (
                    RestorePhase::SourceWritten,
                    RestoreAction::WriteSource(pre),
                ),
                _ => (phase, RestoreAction::Ignore),
            },
            other => unread(other),
        },
        (RestorePhase::TargetWritten, RestoreEvent::Written(written)) => done(
            if written {
                FileStatus::Restored
            } else {
                FileStatus::Failed
            },
        ),
        (RestorePhase::SourceWritten, RestoreEvent::Written(written)) => if written {
            (RestorePhase::TargetRemoved, RestoreAction::RemoveTarget)
        } else {
            done(FileStatus::Failed)
        },
        (RestorePhase::TargetRemoved, RestoreEvent::Removed(removed)) => done(
            if removed {
                FileStatus::Restored
            } else {
                FileStatus::Failed
            },
        ),
        _ => (phase, RestoreAction::Ignore),
    }
}

fn end_restore(status: FileStatus) -> (r: (RestorePhase, RestoreAction))
    ensures
        r == done(status),
{
    (RestorePhase::Finished, RestoreAction::Done(status))
}

fn after_target(task: &RestoreTask, read: FileRead) -> (r: (RestorePhase, RestoreAction))
    ensures
        r == target_step(*task, read),
{
    match read {
        FileRead::Content(content) => {
            let current = content.as_str();
            match task {
                RestoreTask::Remove { post } => {
                    if text_equal(current, post.as_str()) {
                        (RestorePhase::TargetRemoved, RestoreAction::RemoveTarget)
                    } else {
                        end_restore(FileStatus::Skipped)
                    }
                },
                RestoreTask::Recreate { .. } => end_restore(FileStatus::Skipped),
                RestoreTask::Rewrite { pre, post } => {
                    if text_equal(current, post.as_str()) {
                        (RestorePhase::TargetWritten, RestoreAction::WriteTarget(pre.clone()))
                    } else {
                        end_restore(FileStatus::Skipped)
                    }
                },
                RestoreTask::MoveBack { pre: _, post } => {
                    if text_equal(current, post.as_str()) {
                        (RestorePhase::SourceRead, RestoreAction::ReadSource)
                    } else {
                        end_restore(FileStatus::Skipped)
                    }
                },
            }
        },
        FileRead::NotFound => match task {
            RestoreTask::Remove { .. } => end_restore(FileStatus::Restored),
            RestoreTask::Recreate { pre } => (
                RestorePhase::TargetWritten,
                RestoreAction::WriteTarget(pre.clone()),
            ),
            RestoreTask::Rewrite { .. } => end_restore(FileStatus::Skipped),
            RestoreTask::MoveBack { .. } => (
                RestorePhase::SourceReadAfterLoss,
                RestoreAction::ReadSource,
            ),
        },
        FileRead::InvalidData => end_restore(FileStatus::Skipped),
        FileRead::Failed => end_restore(FileStatus::Failed),
    }
}

fn holds_old_content(task: &RestoreTask, content: &str) -> (r: bool)
    ensures
        r == (content@ == content_to_restore(*task)),
{
    match task {
        RestoreTask::Remove { .. } => {
            let empty = content.is_empty();
            assert(empty ==> content@ =~= Seq::empty());
            empty
        },
        RestoreTask::Recreate { pre } => text_equal(content, pre.as_str()),
        RestoreTask::Rewrite { pre, .. } => text_equal(content, pre.as_str()),
        RestoreTask::MoveBack { pre, .. } => text_equal(content, pre.as_str()),
    }
}

/// Takes the restore of a file one step further.
pub fn advance_restore(task: &RestoreTask, phase: RestorePhase, event: RestoreEvent) -> (r: (
    RestorePhase,
    RestoreAction,
))
    ensures
        r == restore_step(*task, phase, event),
{
    match (phase, event) {
        (RestorePhase::TargetRead, RestoreEvent::Read(read)) => after_target(task, read),
        (RestorePhase::SourceReadAfterLoss, RestoreEvent::Read(read)) => match read {
            FileRead::Content(content) => {
                if holds_old_content(task, content.as_str()) {
                    end_restore(FileStatus::Restored)
                } else {
                    end_restore(FileStatus::Skipped)
                }
            },
            FileRead::Failed => end_restore(FileStatus::Failed),
            _ => end_restore(FileStatus::Skipped),
        },
        (RestorePhase::SourceRead, RestoreEvent::Read(read)) => match read {
            FileRead::Content(content) => {
                if holds_old_content(task, content.as_str()) {
                    (RestorePhase::TargetRemoved, RestoreAction::RemoveTarget)
                } else {
                    end_restore(FileStatus::Skipped)
                }
            },
            FileRead::NotFound => match task {
                RestoreTask::MoveBack { pre, .. } => (
                    RestorePhase::SourceWritten,
                    RestoreAction::WriteSource(pre.clone()),
                ),
                _ => (phase, RestoreAction::Ignore),
            },
            FileRead::InvalidData => end_restore(FileStatus::Skipped),
            FileRead::Failed => end_restore(FileStatus::Failed),
        },
        (RestorePhase::TargetWritten, RestoreEvent::Written(written)) => {
            if written {
                end_restore(FileStatus::Restored)
            } else {
                end_restore(FileStatus::Failed)
            }
        },
        (RestorePhase::SourceWritten, RestoreEvent::Written(written)) => {
            if written {
                (RestorePhase::TargetRemoved, RestoreAction::RemoveTarget)
            } else {
                end_restore(FileStatus::Failed)
            }
        },
        (RestorePhase::TargetRemoved, RestoreEvent::Removed(removed)) => {
            if removed {
                end_restore(FileStatus::Restored)
            } else {
                end_restore(FileStatus::Failed)
            }
        },
        (phase, _) => (phase, RestoreAction::Ignore),
    }
}

/// What the turn left in a file, if the task knows.
pub open spec fn content_left(task: RestoreTask) -> Option<Seq<char>> {
    match task {
        RestoreTask::Remove { post } => Some(post@),
        RestoreTask::Recreate { pre } => None,
        RestoreTask::Rewrite { pre, post } => Some(post@),
        RestoreTask::MoveBack { pre, post } => Some(post@),
    }
}

/// The phase that a restore is in after `events`, and what it asked the host
/// to do on the way.
pub open spec fn restore_run(task: RestoreTask, events: Seq<RestoreEvent>) -> (
    RestorePhase,
    Seq<RestoreAction>,
)
    decreases events.len(),
{
    if events.len() == 0 {
        (RestorePhase::TargetRead, Seq::empty())
    } else {
        let (phase, actions) = restore_run(task, events.drop_last());
        let (next, action) = restore_step(task, phase, events.last());
        (next, actions.push(action))
    }
}

/// Whether the first thing that the restore learned is that the file is as
/// the turn left it: with the content that the turn wrote, or absent where
/// the turn deleted it.
pub open spec fn found_as_left(task: RestoreTask, events: Seq<RestoreEvent>) -> bool {
    exists|i: int|
        {
            &&& 0 <= i < events.len()
            &&& restore_run(task, events.take(i)).0 is TargetRead
            &&& match (content_left(task), #[trigger] events[i]) {
                (Some(left), RestoreEvent::Read(FileRead::Content(content))) => content@ == left,
                (None, RestoreEvent::Read(FileRead::NotFound)) => true,
                _ => false,
            }
        }
}

/// Whether an action changes the disk.
pub open spec fn touches_disk(action: RestoreAction) -> bool {
    action is WriteTarget || action is WriteSource || action is RemoveTarget
}

proof fn lemma_found_as_left_grows(task: RestoreTask, events: Seq<RestoreEvent>)
    requires
        events.len() > 0,
        found_as_left(task, events.drop_last()),
    ensures
        found_as_left(task, events),
{
    let before = events.drop_last();
    let i = choose|i: int|
        {
            &&& 0 <= i < before.len()
            &&& restore_run(task, before.take(i)).0 is TargetRead
            &&& match (content_left(task), #[trigger] before[i]) {
                (Some(left), RestoreEvent::Read(FileRead::Content(content))) => content@ == left,
                (None, RestoreEvent::Read(FileRead::NotFound)) => true,
                _ => false,
            }
        };
    assert(before.take(i) =~= events.take(i));
    assert(events[i] == before[i]);
}

proof fn lemma_restore_is_safe(task: RestoreTask, events: Seq<RestoreEvent>)
    ensures
        ({
            let (phase, actions) = restore_run(task, events);
            &&& (exists|i: int| 0 <= i < actions.len() && #[trigger] touches_disk(actions[i]))
                ==> found_as_left(task, events)
            &&& phase is TargetWritten || phase is SourceWritten || phase is TargetRemoved
                || phase is SourceRead ==> found_as_left(task, events)
        }),
    decreases events.len(),
{
    if events.len() > 0 {
        let before = events.drop_last();
        let last = events.len() - 1;
        lemma_restore_is_safe(task, before);
        let (phase, actions) = restore_run(task, before);
        let (next, action) = restore_step(task, phase, events.last());
        let after = actions.push(action);
        assert(events.take(last) =~= before);
        if found_as_left(task, before) {
            lemma_found_as_left_grows(task, events);
        } else {
            if phase is TargetRead && events[last] is Read {
                assert(events[last] == events.last());
            }
            assert forall|i: int| 0 <= i < actions.len() implies !#[trigger] touches_disk(
                actions[i],
            ) by {}
            if exists|i: int| 0 <= i < after.len() && #[trigger] touches_disk(after[i]) {
                let i = choose|i: int| 0 <= i < after.len() && #[trigger] touches_disk(after[i]);
                if i < actions.len() {
                    assert(touches_disk(actions[i]));
                }
            }
        }
    }
}

/// A safe restore changes the disk only after it has found the file as the
/// turn left it: what was written since then survives.
pub proof fn law_restore_never_overwrites_later_work(
    task: RestoreTask,
    events: Seq<RestoreEvent>,
    i: int,
)
    requires
        0 <= i < restore_run(task, events).1.len(),
        touches_disk(restore_run(task, events).1[i]),
    ensures
        found_as_left(task, events),
{
    lemma_restore_is_safe(task, events);
}

/// What a restore writes is what the file held before the turn.
pub proof fn law_restores_write_the_old_content(
    task: RestoreTask,
    phase: RestorePhase,
    event: RestoreEvent,
)
    ensures
        match restore_step(task, phase, event).1 {
            RestoreAction::WriteTarget(text) => text@ == content_to_restore(task),
            RestoreAction::WriteSource(text) => text@ == content_to_restore(task),
            _ => true,
        },
{
}

/// Whether no file of a restore failed or could not be handled.
pub open spec fn all_handled(outcomes: Seq<FileOutcome>) -> bool {
    forall|i: int|
        0 <= i < outcomes.len() ==> !((#[trigger] outcomes[i]).status is Failed) && !(
        outcomes[i].status is Unsupported)
}

/// Whether a restore is reported as a success: no file failed or could not be
/// handled. Files that were left alone do not count against it.
pub fn restore_succeeded(outcomes: &Vec<FileOutcome>) -> (r: bool)
    ensures
        r == all_handled(outcomes@),
{
    let mut i: usize = 0;
    while i < outcomes.len()
        invariant
            i <= outcomes@.len(),
            forall|j: int|
                0 <= j < i ==> !((#[trigger] outcomes@[j]).status is Failed) && !(
                outcomes@[j].status is Unsupported),
        decreases outcomes@.len() - i,
    {
        match outcomes[i].status {
            FileStatus::Failed | FileStatus::Unsupported => {
                return false;
            },
            _ => {},
        }
        i = i + 1;
    }
    true
}

/// Whether `text` is what an object has under the first of `names` that it has
/// a text under.
pub open spec fn text_under(tree: JsonTree, names: Seq<Seq<char>>, text: Seq<char>) -> bool {
    exists|i: int|
        {
            &&& 0 <= i < names.len()
            &&& text_field(tree, #[trigger] names[i]) == Some(text)
            &&& forall|j: int| 0 <= j < i ==> text_field(tree, #[trigger] names[j]) is None
        }
}

/// Whether an object has no text under any of `names`.
pub open spec fn no_text_under(tree: JsonTree, names: Seq<Seq<char>>) -> bool {
    forall|i: int| 0 <= i < names.len() ==> text_field(tree, #[trigger] names[i]) is None
}

/// Whether the output of a tool that a turn called without an error lists the
/// entry `file` among the files that it changed; `diff` is its diff of them all.
pub open spec fn tells_of(
    items: Seq<ChangeItem>,
    turn: TurnId,
    file: JsonTree,
    diff: Option<Seq<char>>,
) -> bool {
    exists|k: int|
        {
            &&& 0 <= k < items.len()
            &&& (#[trigger] items[k]).turn == turn
            &&& items[k].changes matches ItemChanges::ToolOutput { output, is_error } && {
                &&& !is_error
                &&& text_field(value_tree(output), "diff"@) == diff
                &&& tree_field(value_tree(output), "files"@) matches Some(JsonTree::List(files))
                    && files.contains(file)
            }
        }
}

proof fn lemma_text_under(tree: JsonTree, names: Seq<Seq<char>>, text: Seq<char>)
    requires
        text_under(tree, names, text),
    ensures
        first_text(tree, names) == Some(text),
    decreases names.len(),
{
    let i = choose|i: int|
        {
            &&& 0 <= i < names.len()
            &&& text_field(tree, #[trigger] names[i]) == Some(text)
            &&& forall|j: int| 0 <= j < i ==> text_field(tree, #[trigger] names[j]) is None
        };
    if i > 0 {
        let rest = names.drop_first();
        assert(text_field(tree, names[0]) is None);
        assert(rest[i - 1] == names[i]);
        assert forall|j: int| 0 <= j < i - 1 implies text_field(
            tree,
            #[trigger] rest[j],
        ) is None by {
            assert(rest[j] == names[j + 1]);
        }
        lemma_text_under(tree, rest, text);
    }
}

proof fn lemma_no_text_under(tree: JsonTree, names: Seq<Seq<char>>)
    requires
        no_text_under(tree, names),
    ensures
        first_text(tree, names) is None,
    decreases names.len(),
{
    if names.len() > 0 {
        let rest = names.drop_first();
        assert(text_field(tree, names[0]) is None);
        assert forall|j: int| 0 <= j < rest.len() implies text_field(
            tree,
            #[trigger] rest[j],
        ) is None by {
            assert(rest[j] == names[j + 1]);
        }
        lemma_no_text_under(tree, rest);
    }
}

proof fn lemma_candidate_is_listed(files: Seq<JsonTree>, diff: Option<Seq<char>>, n: int)
    requires
        0 <= n < files.len(),
        candidate_of(files[n], diff) is Some,
    ensures
        candidates_of(files, diff).contains(candidate_of(files[n], diff)->0),
    decreases files.len(),
{
    let wanted = candidate_of(files[n], diff)->0;
    let before = candidates_of(files.drop_last(), diff);
    let all = candidates_of(files, diff);
    if n == files.len() - 1 {
        assert(all.last() == wanted);
    } else {
        lemma_candidate_is_listed(files.drop_last(), diff, n);
        let j = choose|j: int| 0 <= j < before.len() && before[j] == wanted;
        assert(all[j] == wanted);
    }
}

proof fn lemma_item_is_listed(
    items: Seq<ChangeItem>,
    turn: TurnId,
    k: int,
    candidate: CandidateView,
)
    requires
        0 <= k < items.len(),
        items[k].turn == turn,
        item_candidates(items[k]).contains(candidate),
    ensures
        turn_candidates(items, turn).contains(candidate),
    decreases items.len(),
{
    let before = turn_candidates(items.drop_last(), turn);
    let all = turn_candidates(items, turn);
    if k == items.len() - 1 {
        let own = item_candidates(items.last());
        let j = choose|j: int| 0 <= j < own.len() && own[j] == candidate;
        assert(all[before.len() + j] == candidate);
    } else {
        lemma_item_is_listed(items.drop_last(), turn, k, candidate);
        let j = choose|j: int| 0 <= j < before.len() && before[j] == candidate;
        assert(all[j] == candidate);
    }
}

proof fn lemma_told_file_is_listed(
    items: Seq<ChangeItem>,
    turn: TurnId,
    file: JsonTree,
    diff: Option<Seq<char>>,
)
    requires
        tells_of(items, turn, file, diff),
        candidate_of(file, diff) is Some,
    ensures
        turn_candidates(items, turn).contains(candidate_of(file, diff)->0),
{
    let k = choose|k: int|
        {
            &&& 0 <= k < items.len()
            &&& (#[trigger] items[k]).turn == turn
            &&& items[k].changes matches ItemChanges::ToolOutput { output, is_error } && {
                &&& !is_error
                &&& text_field(value_tree(output), "diff"@) == diff
                &&& tree_field(value_tree(output), "files"@) matches Some(JsonTree::List(files))
                    && files.contains(file)
            }
        };
    let output = items[k].changes->output;
    let files = tree_field(value_tree(output), "files"@)->0->List_0;
    let n = choose|n: int| 0 <= n < files.len() && files[n] == file;
    lemma_candidate_is_listed(files, diff, n);
    lemma_item_is_listed(items, turn, k, candidate_of(file, diff)->0);
}

proof fn lemma_view_is_listed(r: Seq<RestoreCandidate>, view: CandidateView)
    requires
        candidates_view(r).contains(view),
    ensures
        exists|i: int| 0 <= i < r.len() && (#[trigger] r[i])@ == view,
{
    let i = choose|i: int| 0 <= i < r.len() && candidates_view(r)[i] == view;
    assert(r[i]@ == view);
}

proof fn lemma_kinds_differ()
    ensures
        "add"@ != "delete"@ && "add"@ != "remove"@ && "add"@ != "unlink"@ && "add"@ != "update"@
            && "add"@ != "move"@,
        "update"@ != "delete"@ && "update"@ != "remove"@ && "update"@ != "unlink"@ && "update"@
            != "move"@,
        "move"@ != "delete"@ && "move"@ != "remove"@ && "move"@ != "unlink"@,
{
    reveal_strlit("add");
    reveal_strlit("delete");
    reveal_strlit("remove");
    reveal_strlit("unlink");
    reveal_strlit("update");
    reveal_strlit("move");
    assert("add"@.len() == 3 && "move"@.len() == 4);
    assert("delete"@.len() == 6 && "remove"@.len() == 6 && "unlink"@.len() == 6);
    assert("update"@.len() == 6);
    assert("update"@[0] == 'u' && "unlink"@[0] == 'u');
    assert("update"@[1] == 'p' && "unlink"@[1] == 'n');
    assert("update"@[0] != "delete"@[0]);
    assert("update"@[0] != "remove"@[0]);
}

/// A file that a turn deleted is put on the list with what it held: for every
/// entry of a tool's output with a path, one of the kinds of deletion and a
/// text, the candidates hold that path as deleted with exactly that text.
pub proof fn law_deleted_files_can_be_recreated(
    items: Vec<ChangeItem>,
    turn: TurnId,
    diff: Option<Seq<char>>,
    file: JsonTree,
    path: Seq<char>,
    kind: Seq<char>,
    content: Seq<char>,
    found: Vec<RestoreCandidate>,
)
    requires
        candidates_view(found@) == turn_candidates(items@, turn),
        tells_of(items@, turn, file, diff),
        file is Object,
        text_under(file, seq!["path"@, "filePath"@, "relativePath"@], path),
        text_under(file, seq!["kind"@, "type"@], kind),
        kind == "delete"@ || kind == "remove"@ || kind == "unlink"@,
        text_under(
            file,
            seq!["content"@, "preContent"@, "pre_content"@, "oldContent"@, "old_content"@],
            content,
        ),
    ensures
        exists|i: int|
            {
                &&& 0 <= i < found@.len()
                &&& (#[trigger] found@[i]).file@ == path
                &&& found@[i].state matches CandidateState::Deleted { pre } && pre@ == content
            },
{
    lemma_kinds_differ();
    lemma_text_under(file, seq!["path"@, "filePath"@, "relativePath"@], path);
    lemma_text_under(file, seq!["kind"@, "type"@], kind);
    lemma_text_under(
        file,
        seq!["content"@, "preContent"@, "pre_content"@, "oldContent"@, "old_content"@],
        content,
    );
    lemma_told_file_is_listed(items@, turn, file, diff);
    lemma_view_is_listed(found@, candidate_of(file, diff)->0);
    let i = choose|i: int|
        0 <= i < found@.len() && (#[trigger] found@[i])@ == candidate_of(file, diff)->0;
    assert(found@[i].file@ == path);
}

/// A file that a turn added is put on the list with what the turn wrote.
pub proof fn law_added_files_can_be_removed(
    items: Vec<ChangeItem>,
    turn: TurnId,
    diff: Option<Seq<char>>,
    file: JsonTree,
    path: Seq<char>,
    content: Seq<char>,
    found: Vec<RestoreCandidate>,
)
    requires
        candidates_view(found@) == turn_candidates(items@, turn),
        tells_of(items@, turn, file, diff),
        file is Object,
        text_under(file, seq!["path"@, "filePath"@, "relativePath"@], path),
        text_under(file, seq!["kind"@, "type"@], "add"@),
        text_under(file, seq!["content"@, "postContent"@, "post_content"@], content),
    ensures
        exists|i: int|
            {
                &&& 0 <= i < found@.len()
                &&& (#[trigger] found@[i]).file@ == path
                &&& found@[i].state matches CandidateState::Added { post } && post@ == content
            },
{
    lemma_kinds_differ();
    lemma_text_under(file, seq!["path"@, "filePath"@, "relativePath"@], path);
    lemma_text_under(file, seq!["kind"@, "type"@], "add"@);
    lemma_text_under(file, seq!["content"@, "postContent"@, "post_content"@], content);
    lemma_told_file_is_listed(items@, turn, file, diff);
    lemma_view_is_listed(found@, candidate_of(file, diff)->0);
    let i = choose|i: int|
        0 <= i < found@.len() && (#[trigger] found@[i])@ == candidate_of(file, diff)->0;
    assert(found@[i].file@ == path);
}

/// Whether `pre` is what an entry says that its file held before the turn: the
/// text that it gives, else what its diff, or that of the whole output, makes
/// of the text after the turn.
pub open spec fn held_before(
    file: JsonTree,
    diff: Option<Seq<char>>,
    post: Seq<char>,
    pre: Seq<char>,
) -> bool {
    let given = seq![
        "preContent"@,
        "pre_content"@,
        "oldContent"@,
        "old_content"@,
        "previousContent"@,
        "previous_content"@,
    ];
    ||| text_under(file, given, pre)
    ||| {
        &&& no_text_under(file, given)
        &&& exists|own: Seq<char>|
            {
                &&& #[trigger] content_before(post, own) == Some(pre)
                &&& text_under(file, seq!["diff"@, "patch"@], own) || (no_text_under(
                    file,
                    seq!["diff"@, "patch"@],
                ) && diff == Some(own))
            }
    }
}

proof fn lemma_held_before(
    file: JsonTree,
    diff: Option<Seq<char>>,
    post: Seq<char>,
    pre: Seq<char>,
)
    requires
        first_text(file, post_names()) == Some(post),
        held_before(file, diff, post, pre),
    ensures
        pre_content(file, diff) == Some(pre),
{
    let given = seq![
        "preContent"@,
        "pre_content"@,
        "oldContent"@,
        "old_content"@,
        "previousContent"@,
        "previous_content"@,
    ];
    if text_under(file, given, pre) {
        lemma_text_under(file, given, pre);
    } else {
        lemma_no_text_under(file, given);
        let own = choose|own: Seq<char>|
            {
                &&& #[trigger] content_before(post, own) == Some(pre)
                &&& text_under(file, seq!["diff"@, "patch"@], own) || (no_text_under(
                    file,
                    seq!["diff"@, "patch"@],
                ) && diff == Some(own))
            };
        if text_under(file, seq!["diff"@, "patch"@], own) {
            lemma_text_under(file, seq!["diff"@, "patch"@], own);
        } else {
            lemma_no_text_under(file, seq!["diff"@, "patch"@]);
        }
    }
}

/// A file that a turn changed is put on the list with what it held before and
/// after. An entry that names no kind is a change.
pub proof fn law_changed_files_can_be_put_back(
    items: Vec<ChangeItem>,
    turn: TurnId,
    diff: Option<Seq<char>>,
    file: JsonTree,
    path: Seq<char>,
    pre: Seq<char>,
    post: Seq<char>,
    found: Vec<RestoreCandidate>,
)
    requires
        candidates_view(found@) == turn_candidates(items@, turn),
        tells_of(items@, turn, file, diff),
        file is Object,
        text_under(file, seq!["path"@, "filePath"@, "relativePath"@], path),
        text_under(file, seq!["kind"@, "type"@], "update"@) || no_text_under(
            file,
            seq!["kind"@, "type"@],
        ),
        text_under(
            file,
            seq!["postContent"@, "post_content"@, "newContent"@, "new_content"@, "content"@],
            post,
        ),
        held_before(file, diff, post, pre),
    ensures
        exists|i: int|
            {
                &&& 0 <= i < found@.len()
                &&& (#[trigger] found@[i]).file@ == path
                &&& found@[i].state matches CandidateState::Modified { pre: old_text, post: new_text }
                    && old_text@ == pre && new_text@ == post
            },
{
    lemma_kinds_differ();
    lemma_text_under(file, seq!["path"@, "filePath"@, "relativePath"@], path);
    if text_under(file, seq!["kind"@, "type"@], "update"@) {
        lemma_text_under(file, seq!["kind"@, "type"@], "update"@);
    } else {
        lemma_no_text_under(file, seq!["kind"@, "type"@]);
    }
    lemma_text_under(
        file,
        seq!["postContent"@, "post_content"@, "newContent"@, "new_content"@, "content"@],
        post,
    );
    lemma_held_before(file, diff, post, pre);
    lemma_told_file_is_listed(items@, turn, file, diff);
    lemma_view_is_listed(found@, candidate_of(file, diff)->0);
    let i = choose|i: int|
        0 <= i < found@.len() && (#[trigger] found@[i])@ == candidate_of(file, diff)->0;
    assert(found@[i].file@ == path);
}

/// A file that a turn moved is put on the list where it is now, with where it
/// was and what it held before and after.
pub proof fn law_moved_files_can_be_moved_back(
    items: Vec<ChangeItem>,
    turn: TurnId,
    diff: Option<Seq<char>>,
    file: JsonTree,
    target: Seq<char>,
    source: Seq<char>,
    pre: Seq<char>,
    post: Seq<char>,
    found: Vec<RestoreCandidate>,
)
    requires
        candidates_view(found@) == turn_candidates(items@, turn),
        tells_of(items@, turn, file, diff),
        file is Object,
        !no_text_under(file, seq!["path"@, "filePath"@, "relativePath"@]),
        text_under(file, seq!["kind"@, "type"@], "move"@),
        text_under(
            file,
            seq![
                "path"@,
                "relativePath"@,
                "relative_path"@,
                "targetPath"@,
                "target_path"@,
                "newPath"@,
                "new_path"@,
                "movePath"@,
                "move_path"@,
            ],
            target,
        ),
        text_under(
            file,
            seq![
                "sourcePath"@,
                "source_path"@,
                "oldPath"@,
                "old_path"@,
                "fromPath"@,
                "from_path"@,
                "filePath"@,
            ],
            source,
        ),
        text_under(
            file,
            seq!["postContent"@, "post_content"@, "newContent"@, "new_content"@, "content"@],
            post,
        ),
        held_before(file, diff, post, pre),
    ensures
        exists|i: int|
            {
                &&& 0 <= i < found@.len()
                &&& (#[trigger] found@[i]).file@ == target
                &&& found@[i].state matches CandidateState::Moved {
                    source: from,
                    pre: old_text,
                    post: new_text,
                } && from@ == source && old_text@ == pre && new_text@ == post
            },
{
    lemma_kinds_differ();
    let names = seq!["path"@, "filePath"@, "relativePath"@];
    if first_text(file, names) is None {
        assert(first_text(file, names.drop_first()) is None);
        assert(first_text(file, names.drop_first().drop_first()) is None);
        assert(names[0] == "path"@ && names.drop_first()[0] == names[1]
            && names.drop_first().drop_first()[0] == names[2]);
        assert(no_text_under(file, names));
    }
    lemma_text_under(file, seq!["kind"@, "type"@], "move"@);
    let all = seq![
        "path"@,
        "relativePath"@,
        "relative_path"@,
        "targetPath"@,
        "target_path"@,
        "newPath"@,
        "new_path"@,
        "movePath"@,
        "move_path"@,
    ];
    let i = choose|i: int|
        {
            &&& 0 <= i < all.len()
            &&& text_field(file, #[trigger] all[i]) == Some(target)
            &&& forall|j: int| 0 <= j < i ==> text_field(file, #[trigger] all[j]) is None
        };
    let near = target_names();
    let far = move_names();
    assert forall|j: int| 0 <= j < near.len() implies near[j] == all[j] by {}
    assert forall|j: int| 0 <= j < far.len() implies far[j] == all[j + 7] by {}
    if i < 7 {
        assert(near[i] == all[i]);
        assert(text_under(file, near, target));
        lemma_text_under(file, near, target);
    } else {
        assert(no_text_under(file, near));
        lemma_no_text_under(file, near);
        assert(far[i - 7] == all[i]);
        assert(text_under(file, far, target));
        lemma_text_under(file, far, target);
    }
    lemma_text_under(
        file,
        seq![
            "sourcePath"@,
            "source_path"@,
            "oldPath"@,
            "old_path"@,
            "fromPath"@,
            "from_path"@,
            "filePath"@,
        ],
        source,
    );
    lemma_text_under(
        file,
        seq!["postContent"@, "post_content"@, "newContent"@, "new_content"@, "content"@],
        post,
    );
    lemma_held_before(file, diff, post, pre);
    lemma_told_file_is_listed(items@, turn, file, diff);
    lemma_view_is_listed(found@, candidate_of(file, diff)->0);
    let i = choose|i: int|
        0 <= i < found@.len() && (#[trigger] found@[i])@ == candidate_of(file, diff)->0;
    assert(found@[i].file@ == target);
}

/// An entry of another kind, or one that does not say what its file held, is on
/// the list as one that cannot be undone.
pub proof fn law_unclear_changes_cannot_be_undone(
    items: Vec<ChangeItem>,
    turn: TurnId,
    diff: Option<Seq<char>>,
    file: JsonTree,
    path: Seq<char>,
    kind: Seq<char>,
    found: Vec<RestoreCandidate>,
)
    requires
        candidates_view(found@) == turn_candidates(items@, turn),
        tells_of(items@, turn, file, diff),
        file is Object,
        text_under(file, seq!["path"@, "filePath"@, "relativePath"@], path),
        text_under(file, seq!["kind"@, "type"@], kind),
        ({
            ||| kind != "add"@ && kind != "delete"@ && kind != "remove"@ && kind != "unlink"@
                && kind != "update"@ && kind != "move"@
            ||| kind == "add"@ && no_text_under(
                file,
                seq!["content"@, "postContent"@, "post_content"@],
            )
            ||| (kind == "delete"@ || kind == "remove"@ || kind == "unlink"@) && no_text_under(
                file,
                seq!["content"@, "preContent"@, "pre_content"@, "oldContent"@, "old_content"@],
            )
            ||| kind == "update"@ && no_text_under(
                file,
                seq!["postContent"@, "post_content"@, "newContent"@, "new_content"@, "content"@],
            )
        }),
    ensures
        exists|i: int|
            {
                &&& 0 <= i < found@.len()
                &&& (#[trigger] found@[i]).file@ == path
                &&& found@[i].state is Unsupported
            },
{
    lemma_kinds_differ();
    lemma_text_under(file, seq!["path"@, "filePath"@, "relativePath"@], path);
    lemma_text_under(file, seq!["kind"@, "type"@], kind);
    if kind == "add"@ {
        lemma_no_text_under(file, seq!["content"@, "postContent"@, "post_content"@]);
    } else if kind == "delete"@ || kind == "remove"@ || kind == "unlink"@ {
        lemma_no_text_under(
            file,
            seq!["content"@, "preContent"@, "pre_content"@, "oldContent"@, "old_content"@],
        );
    } else if kind == "update"@ {
        lemma_no_text_under(
            file,
            seq!["postContent"@, "post_content"@, "newContent"@, "new_content"@, "content"@],
        );
    }
    lemma_told_file_is_listed(items@, turn, file, diff);
    lemma_view_is_listed(found@, candidate_of(file, diff)->0);
    let i = choose|i: int|
        0 <= i < found@.len() && (#[trigger] found@[i])@ == candidate_of(file, diff)->0;
    assert(found@[i].file@ == path);
}

/// What an item records of a file is put on the list as it is recorded: an
/// added file with its content, a deleted file with what it held, a moved file
/// with where it was.
pub proof fn law_recorded_changes_are_listed(
    items: Vec<ChangeItem>,
    turn: TurnId,
    k: int,
    n: int,
    found: Vec<RestoreCandidate>,
)
    requires
        candidates_view(found@) == turn_candidates(items@, turn),
        0 <= k < items@.len(),
        items@[k].turn == turn,
        items@[k].changes is Files,
        0 <= n < items@[k].changes->Files_0@.len(),
    ensures
        ({
            let change = items@[k].changes->Files_0@[n];
            exists|i: int|
                {
                    &&& 0 <= i < found@.len()
                    &&& (#[trigger] found@[i]).file@ == change.path@
                    &&& match change.change {
                        FileChangeKind::Add { content } => found@[i].state
                            matches CandidateState::Added { post } && post@ == content@,
                        FileChangeKind::Delete { content } => found@[i].state
                            matches CandidateState::Deleted { pre } && pre@ == content@,
                        FileChangeKind::Update { diff, moved_from: Some(source) } => {
                            found@[i].state matches CandidateState::Moved { source: from, pre, post }
                                && from@ == source@ && pre@.len() == 0 && post@ == diff@
                        },
                        FileChangeKind::Update { diff, moved_from: None } => {
                            found@[i].state is Unsupported
                        },
                    }
                }
        }),
{
    let changes = items@[k].changes->Files_0@;
    let view = recorded_candidate(changes[n]);
    assert(item_candidates(items@[k])[n] == view);
    lemma_item_is_listed(items@, turn, k, view);
    lemma_view_is_listed(found@, view);
    let i = choose|i: int| 0 <= i < found@.len() && (#[trigger] found@[i])@ == view;
    assert(found@[i].file@ == changes[n].path@);
}

/// Nothing that another turn did, that a failed tool said or that has no path
/// is put on the list.
pub proof fn law_only_the_turns_own_changes_are_listed(
    items: Seq<ChangeItem>,
    turn: TurnId,
    item: ChangeItem,
)
    ensures
        item.turn != turn ==> turn_candidates(items.push(item), turn) == turn_candidates(
            items,
            turn,
        ),
        item.changes matches ItemChanges::ToolOutput { output, is_error } && (is_error || !(
        tree_field(value_tree(output), "files"@) is Some) || (tree_field(
            value_tree(output),
            "files"@,
        ) matches Some(JsonTree::List(files)) && forall|i: int|
            0 <= i < files.len() ==> no_text_under(
                #[trigger] files[i],
                seq!["path"@, "filePath"@, "relativePath"@],
            ))) ==> turn_candidates(items.push(item), turn) == turn_candidates(items, turn),
        turn_candidates(Seq::empty(), turn).len() == 0,
{
    let all = items.push(item);
    assert(all.drop_last() =~= items);
    let before = turn_candidates(items, turn);
    if let ItemChanges::ToolOutput { output, is_error } = item.changes {
        if let Some(JsonTree::List(files)) = tree_field(value_tree(output), "files"@) {
            if forall|i: int|
                0 <= i < files.len() ==> no_text_under(
                    #[trigger] files[i],
                    seq!["path"@, "filePath"@, "relativePath"@],
                ) {
                lemma_pathless(files, text_field(value_tree(output), "diff"@));
            }
        }
    }
    assert(before + Seq::<CandidateView>::empty() =~= before);
}

proof fn lemma_pathless(files: Seq<JsonTree>, diff: Option<Seq<char>>)
    requires
        forall|i: int|
            0 <= i < files.len() ==> no_text_under(
                #[trigger] files[i],
                seq!["path"@, "filePath"@, "relativePath"@],
            ),
    ensures
        candidates_of(files, diff) == Seq::<CandidateView>::empty(),
    decreases files.len(),
{
    if files.len() > 0 {
        lemma_pathless(files.drop_last(), diff);
        let last = files[files.len() - 1];
        lemma_no_text_under(last, seq!["path"@, "filePath"@, "relativePath"@]);
    }
}

/// A diff whose numbers fit is undone as the patch says.
pub proof fn law_diffs_that_fit_are_undone(post: Seq<char>, diff: Seq<char>)
    ensures
        hunk_numbers_fit(diff) ==> content_before(post, diff) == reverse_applied(post, diff),
        !hunk_numbers_fit(diff) ==> content_before(post, diff) is None,
{
}

/// How the restore of one file goes on every state of the disk: an added file
/// is removed if it holds what the turn wrote, a deleted one is written anew if
/// nothing stands in its place, a changed one is overwritten if it holds what
/// the turn wrote; and the result says whether that went well.
pub proof fn law_files_are_restored_where_untouched(
    pre: String,
    post: String,
    content: String,
    went_well: bool,
)
    ensures
        ({
            let end = if went_well {
                RestoreAction::Done(FileStatus::Restored)
            } else {
                RestoreAction::Done(FileStatus::Failed)
            };
            let found = RestoreEvent::Read(FileRead::Content(content));
            let gone = RestoreEvent::Read(FileRead::NotFound);
            let odd = RestoreEvent::Read(FileRead::InvalidData);
            let broken = RestoreEvent::Read(FileRead::Failed);
            let removed = RestoreEvent::Removed(went_well);
            let written = RestoreEvent::Written(went_well);
            let left = seq![RestoreAction::Done(FileStatus::Skipped)];
            let failed = seq![RestoreAction::Done(FileStatus::Failed)];
            let fine = seq![RestoreAction::Done(FileStatus::Restored)];
            let remove = RestoreTask::Remove { post };
            let recreate = RestoreTask::Recreate { pre };
            let rewrite = RestoreTask::Rewrite { pre, post };
            &&& content@ == post@ ==> restore_run(remove, seq![found, removed]).1 == seq![
                RestoreAction::RemoveTarget,
                end,
            ]
            &&& content@ != post@ ==> restore_run(remove, seq![found]).1 == left
            &&& restore_run(remove, seq![gone]).1 == fine
            &&& restore_run(recreate, seq![gone, written]).1 == seq![
                RestoreAction::WriteTarget(pre),
                end,
            ]
            &&& restore_run(recreate, seq![found]).1 == left
            &&& content@ == post@ ==> restore_run(rewrite, seq![found, written]).1 == seq![
                RestoreAction::WriteTarget(pre),
                end,
            ]
            &&& content@ != post@ ==> restore_run(rewrite, seq![found]).1 == left
            &&& restore_run(rewrite, seq![gone]).1 == left
            &&& forall|task: RestoreTask| #[trigger]
                restore_run(task, seq![odd]).1 == left && restore_run(task, seq![broken]).1
                    == failed
        }),
{
    reveal_with_fuel(restore_run, 3);
    let found = RestoreEvent::Read(FileRead::Content(content));
    let gone = RestoreEvent::Read(FileRead::NotFound);
    let odd = RestoreEvent::Read(FileRead::InvalidData);
    let broken = RestoreEvent::Read(FileRead::Failed);
    let removed = RestoreEvent::Removed(went_well);
    let written = RestoreEvent::Written(went_well);
    assert(seq![found, removed].drop_last() =~= seq![found]);
    assert(seq![gone, written].drop_last() =~= seq![gone]);
    assert(seq![found, written].drop_last() =~= seq![found]);
    assert(seq![found].drop_last() =~= Seq::empty());
    assert(seq![gone].drop_last() =~= Seq::empty());
    assert(seq![odd].drop_last() =~= Seq::empty());
    assert(seq![broken].drop_last() =~= Seq::empty());
    let remove = RestoreTask::Remove { post };
    let recreate = RestoreTask::Recreate { pre };
    let rewrite = RestoreTask::Rewrite { pre, post };
    let end = if went_well {
        RestoreAction::Done(FileStatus::Restored)
    } else {
        RestoreAction::Done(FileStatus::Failed)
    };
    if content@ == post@ {
        assert(restore_run(remove, seq![found, removed]).1 =~= seq![
            RestoreAction::RemoveTarget,
            end,
        ]);
        assert(restore_run(rewrite, seq![found, written]).1 =~= seq![
            RestoreAction::WriteTarget(pre),
            end,
        ]);
    } else {
        assert(restore_run(remove, seq![found]).1 =~= seq![
            RestoreAction::Done(FileStatus::Skipped),
        ]);
        assert(restore_run(rewrite, seq![found]).1 =~= seq![
            RestoreAction::Done(FileStatus::Skipped),
        ]);
    }
    assert(restore_run(remove, seq![gone]).1 =~= seq![RestoreAction::Done(FileStatus::Restored)]);
    assert(restore_run(recreate, seq![gone, written]).1 =~= seq![
        RestoreAction::WriteTarget(pre),
        end,
    ]);
    assert(restore_run(recreate, seq![found]).1 =~= seq![RestoreAction::Done(FileStatus::Skipped)]);
    assert(restore_run(rewrite, seq![gone]).1 =~= seq![RestoreAction::Done(FileStatus::Skipped)]);
    assert forall|task: RestoreTask| #[trigger]
        restore_run(task, seq![odd]).1 == seq![RestoreAction::Done(FileStatus::Skipped)]
            && restore_run(task, seq![broken]).1 == seq![
            RestoreAction::Done(FileStatus::Failed),
        ] by {
        assert(restore_run(task, seq![odd]).1 =~= seq![RestoreAction::Done(FileStatus::Skipped)]);
        assert(restore_run(task, seq![broken]).1 =~= seq![RestoreAction::Done(FileStatus::Failed)]);
    }
}

/// A moved file that is where the turn left it is written where it was and then
/// removed; nothing is done where somebody has taken its old place or changed
/// it since, and a move that is undone already counts as such.
pub proof fn law_moved_files_go_back_where_untouched(
    pre: String,
    post: String,
    here: String,
    there: String,
    went_well: bool,
)
    ensures
        ({
            let task = RestoreTask::MoveBack { pre, post };
            let end = if went_well {
                RestoreAction::Done(FileStatus::Restored)
            } else {
                RestoreAction::Done(FileStatus::Failed)
            };
            let found = RestoreEvent::Read(FileRead::Content(here));
            let gone = RestoreEvent::Read(FileRead::NotFound);
            let taken = RestoreEvent::Read(FileRead::Content(there));
            let skipped = RestoreAction::Done(FileStatus::Skipped);
            &&& here@ != post@ ==> restore_run(task, seq![found]).1 == seq![skipped]
            &&& here@ == post@ ==> {
                &&& restore_run(
                    task,
                    seq![found, gone, RestoreEvent::Written(true), RestoreEvent::Removed(went_well)],
                ).1 == seq![
                    RestoreAction::ReadSource,
                    RestoreAction::WriteSource(pre),
                    RestoreAction::RemoveTarget,
                    end,
                ]
                &&& restore_run(task, seq![found, gone, RestoreEvent::Written(false)]).1 == seq![
                    RestoreAction::ReadSource,
                    RestoreAction::WriteSource(pre),
                    RestoreAction::Done(FileStatus::Failed),
                ]
                &&& there@ != pre@ ==> restore_run(task, seq![found, taken]).1 == seq![
                    RestoreAction::ReadSource,
                    skipped,
                ]
                &&& there@ == pre@ ==> restore_run(
                    task,
                    seq![found, taken, RestoreEvent::Removed(went_well)],
                ).1 == seq![RestoreAction::ReadSource, RestoreAction::RemoveTarget, end]
            }
            &&& restore_run(task, seq![gone, taken]).1 == seq![
                RestoreAction::ReadSource,
                if there@ == pre@ {
                    RestoreAction::Done(FileStatus::Restored)
                } else {
                    skipped
                },
            ]
            &&& restore_run(task, seq![gone, gone]).1 == seq![RestoreAction::ReadSource, skipped]
        }),
{
    reveal_with_fuel(restore_run, 5);
    let task = RestoreTask::MoveBack { pre, post };
    let found = RestoreEvent::Read(FileRead::Content(here));
    let gone = RestoreEvent::Read(FileRead::NotFound);
    let taken = RestoreEvent::Read(FileRead::Content(there));
    let well = RestoreEvent::Written(true);
    let badly = RestoreEvent::Written(false);
    let removed = RestoreEvent::Removed(went_well);
    let end = if went_well {
        RestoreAction::Done(FileStatus::Restored)
    } else {
        RestoreAction::Done(FileStatus::Failed)
    };
    let skipped = RestoreAction::Done(FileStatus::Skipped);
    assert(seq![found].drop_last() =~= Seq::empty());
    assert(seq![gone].drop_last() =~= Seq::empty());
    assert(seq![found, gone].drop_last() =~= seq![found]);
    assert(seq![found, taken].drop_last() =~= seq![found]);
    assert(seq![gone, taken].drop_last() =~= seq![gone]);
    assert(seq![gone, gone].drop_last() =~= seq![gone]);
    assert(seq![found, gone, well].drop_last() =~= seq![found, gone]);
    assert(seq![found, gone, badly].drop_last() =~= seq![found, gone]);
    assert(seq![found, gone, well, removed].drop_last() =~= seq![found, gone, well]);
    assert(seq![found, taken, removed].drop_last() =~= seq![found, taken]);
    if here@ != post@ {
        assert(restore_run(task, seq![found]).1 =~= seq![skipped]);
    } else {
        assert(restore_run(task, seq![found]).1 =~= seq![RestoreAction::ReadSource]);
        assert(restore_run(task, seq![found, gone]).1 =~= seq![
            RestoreAction::ReadSource,
            RestoreAction::WriteSource(pre),
        ]);
        assert(restore_run(task, seq![found, gone, well]).1 =~= seq![
            RestoreAction::ReadSource,
            RestoreAction::WriteSource(pre),
            RestoreAction::RemoveTarget,
        ]);
        assert(restore_run(task, seq![found, gone, well, removed]).1 =~= seq![
            RestoreAction::ReadSource,
            RestoreAction::WriteSource(pre),
            RestoreAction::RemoveTarget,
            end,
        ]);
        assert(restore_run(task, seq![found, gone, badly]).1 =~= seq![
            RestoreAction::ReadSource,
            RestoreAction::WriteSource(pre),
            RestoreAction::Done(FileStatus::Failed),
        ]);
        if there@ != pre@ {
            assert(restore_run(task, seq![found, taken]).1 =~= seq![
                RestoreAction::ReadSource,
                skipped,
            ]);
        } else {
            assert(restore_run(task, seq![found, taken]).1 =~= seq![
                RestoreAction::ReadSource,
                RestoreAction::RemoveTarget,
            ]);
            assert(restore_run(task, seq![found, taken, removed]).1 =~= seq![
                RestoreAction::ReadSource,
                RestoreAction::RemoveTarget,
                end,
            ]);
        }
    }
    assert(restore_run(task, seq![gone]).1 =~= seq![RestoreAction::ReadSource]);
    assert(restore_run(task, seq![gone, taken]).1 =~= seq![
        RestoreAction::ReadSource,
        if there@ == pre@ {
            RestoreAction::Done(FileStatus::Restored)
        } else {
            skipped
        },
    ]);
    assert(restore_run(task, seq![gone, gone]).1 =~= seq![RestoreAction::ReadSource, skipped]);
}

/// What is done to a file undoes what the turn did to it: an added file is
/// removed, a deleted one written, a changed one overwritten, a moved one moved
/// back. Nothing is done to a file outside the workspace.
pub proof fn law_restores_undo_what_the_turn_did(
    root: Seq<PathPart>,
    file: PathModel,
    source: PathModel,
    state: CandidateState,
    start: RestoreStart,
)
    requires
        is_restore_start(root, file, source, state, start),
    ensures
        start matches RestoreStart::Task { target, task, .. } ==> {
            &&& normal_parts(root).is_prefix_of(parts(target@))
            &&& match state {
                CandidateState::Added { post } => task == (RestoreTask::Remove { post }),
                CandidateState::Deleted { pre } => task == (RestoreTask::Recreate { pre }),
                CandidateState::Modified { pre, post } => task == (RestoreTask::Rewrite {
                    pre,
                    post,
                }),
                CandidateState::Moved { pre, post, .. } => task == (RestoreTask::MoveBack {
                    pre,
                    post,
                }) || task == (RestoreTask::Rewrite { pre, post }),
                CandidateState::Unsupported => false,
            }
        },
        normal_parts(root).is_prefix_of(
            candidate_parts(root, file.absolute, parts(file.components@)),
        ) && !(state is Unsupported) && !(state is Moved) ==> start is Task,
{
}

/// A file that was moved is moved back from where it is to where it was, both
/// inside the workspace; where both are one place it is only put back. A file is
/// restored at its own place.
pub proof fn law_moved_files_go_back_to_their_place(
    root: Seq<PathPart>,
    file: PathModel,
    source: PathModel,
    state: CandidateState,
    start: RestoreStart,
)
    requires
        is_restore_start(root, file, source, state, start),
        normal_parts(root).is_prefix_of(
            candidate_parts(root, file.absolute, parts(file.components@)),
        ),
    ensures
        ({
            let here = candidate_parts(root, file.absolute, parts(file.components@));
            let before = candidate_parts(root, source.absolute, parts(source.components@));
            let inside = normal_parts(root).is_prefix_of(before);
            &&& start matches RestoreStart::Task { target, .. } ==> parts(target@) == here
            &&& !(state is Moved) ==> (start matches RestoreStart::Task { source: from, .. } ==> from
                is None)
            &&& state matches CandidateState::Moved { pre, post, .. } ==> {
                &&& start is Task <==> inside
                &&& inside && before != here ==> (start matches RestoreStart::Task {
                    source: from,
                    task,
                    ..
                } && from is Some && parts(from->0@) == before && task == (RestoreTask::MoveBack {
                    pre,
                    post,
                }))
                &&& inside && before == here ==> (start matches RestoreStart::Task {
                    source: from,
                    task,
                    ..
                } && from is None && task == (RestoreTask::Rewrite { pre, post }))
            }
        }),
{
}

/// The numbers of a header are read digit by digit, up to the second pair of
/// signs.
pub proof fn law_header_numbers_are_read(rest: Seq<char>, c: char, so_far: nat, limit: nat)
    ensures
        numbers_fit(Seq::empty(), so_far, limit),
        numbers_fit(seq!['@'] + rest, so_far, limit),
        c != '@' && !('0' <= c <= '9') ==> numbers_fit(seq![c] + rest, so_far, limit)
            == numbers_fit(rest, 0, limit),
        '0' <= c <= '9' ==> numbers_fit(seq![c] + rest, so_far, limit) == (so_far * 10 + (c as nat
            - '0' as nat) <= limit && numbers_fit(
            rest,
            (so_far * 10 + (c as nat - '0' as nat)) as nat,
            limit,
        )),
{
    assert((seq![c] + rest).drop_first() =~= rest);
    assert((seq![c] + rest)[0] == c);
    assert((seq!['@'] + rest)[0] == '@');
}

/// Whether no more than nine digits stand in a row in `s`, up to the first `@`;
/// `run` digits stand before it.
pub open spec fn has_short_numbers(s: Seq<char>, run: nat) -> bool
    decreases s.len(),
{
    if s.len() == 0 || s[0] == '@' {
        true
    } else if '0' <= s[0] <= '9' {
        run < 9 && has_short_numbers(s.drop_first(), run + 1)
    } else {
        has_short_numbers(s.drop_first(), 0)
    }
}

/// The smallest number with one digit more than `n`.
pub open spec fn tens(n: nat) -> nat
    decreases n,
{
    if n == 0 {
        1
    } else {
        10 * tens((n - 1) as nat)
    }
}

proof fn lemma_short_numbers_fit(s: Seq<char>, run: nat, so_far: nat, limit: nat)
    requires
        run <= 9,
        so_far < tens(run),
        has_short_numbers(s, run),
        limit >= 999_999_999,
    ensures
        numbers_fit(s, so_far, limit),
    decreases s.len(),
{
    if s.len() > 0 && s[0] != '@' {
        if '0' <= s[0] <= '9' {
            let value = (so_far * 10 + (s[0] as nat - '0' as nat)) as nat;
            assert(tens(run + 1) == 10 * tens(run));
            assert(value < tens(run + 1));
            assert(tens(run + 1) <= 1_000_000_000) by {
                reveal_with_fuel(tens, 11);
            }
            lemma_short_numbers_fit(s.drop_first(), run + 1, value, limit);
        } else {
            assert(tens(0) == 1);
            lemma_short_numbers_fit(s.drop_first(), 0, 0, limit);
        }
    }
}

/// Every diff of ordinary size can be undone: one whose headers hold no number of
/// more than nine digits, and one without a header.
pub proof fn law_ordinary_diffs_are_undone(post: Seq<char>, diff: Seq<char>)
    requires
        diff.len() <= 1_000_000_000,
        forall|i: int|
            0 <= i < text_lines(diff).len() && "@@ "@.is_prefix_of(#[trigger] text_lines(diff)[i])
                ==> has_short_numbers(text_lines(diff)[i].skip(3), 0),
    ensures
        content_before(post, diff) == reverse_applied(post, diff),
{
    let lines = text_lines(diff);
    let limit = (usize::MAX - diff.len()) as nat;
    assert forall|i: int| 0 <= i < lines.len() && "@@ "@.is_prefix_of(
        #[trigger] lines[i],
    ) implies diff.len() <= usize::MAX && numbers_fit(lines[i].skip(3), 0, limit) by {
        assert(tens(0) == 1);
        lemma_short_numbers_fit(lines[i].skip(3), 0, 0, limit);
    }
}

} // verus!
