//! Exporting a session's transcript and importing one.

use crate::json::{
    copy_value, either_field_text, either_text, fields_tree, list_tree, list_value, object_value,
    parse_value, parsed_json, render_value, rendered_json, text_value, tree_field,
    tree_text, value_field, value_shape, value_text, value_tree, JsonTree, ValueShape,
};
use crate::paths::{
    copy_path, joined_parts, parts, resolve_import_path, Component, PathModel, PathPart,
};
use crate::protocol::{
    reject, reject_about, rejection, rejection_about, ErrorCode, Rejection,
};
use crate::text::{
    chars_of, contains, is_blank, law_replacing_leaves_other_texts_alone,
    law_texts_occur_where_they_stand, lines_of, occurs_in,
    opt_view, replace_all, replaced, text_equal, text_lines, texts, trim, trimmed,
};
use vstd::prelude::*;

verus! {

/// A character as HTML text shows it.
pub open spec fn html_char(c: char) -> Seq<char> {
    if c == '&' {
        "&amp;"@
    } else if c == '<' {
        "&lt;"@
    } else if c == '>' {
        "&gt;"@
    } else {
        seq![c]
    }
}

/// A text as HTML text shows it.
pub open spec fn html_text(s: Seq<char>) -> Seq<char>
    decreases s.len(),
{
    if s.len() == 0 {
        Seq::empty()
    } else {
        html_text(s.drop_last()) + html_char(s.last())
    }
}

/// Writes a text so that HTML shows it as it is.
pub fn html_escape(input: &str) -> (r: String)
    ensures
        r@ == html_text(input@),
{
    let v = chars_of(input);
    let mut out = String::new();
    let mut i: usize = 0;
    assert(v@.take(0) =~= Seq::empty());
    while i < v.len()
        invariant
            i <= v@.len(),
            out@ == html_text(v@.take(i as int)),
        decreases v@.len() - i,
    {
        assert(v@.take(i + 1).drop_last() =~= v@.take(i as int));
        let c = v[i];
        let ghost before = out@;
        if c == '&' {
            out.append("&amp;");
        } else if c == '<' {
            out.append("&lt;");
        } else if c == '>' {
            out.append("&gt;");
        } else {
            out.push(c);
            assert(out@ =~= before + seq![c]);
        }
        i = i + 1;
    }
    assert(v@.take(v@.len() as int) =~= v@);
    out
}

/// Escaped text opens and closes no HTML element.
pub proof fn law_escaped_text_has_no_tags(s: Seq<char>)
    ensures
        !html_text(s).contains('<'),
        !html_text(s).contains('>'),
    decreases s.len(),
{
    if s.len() > 0 {
        law_escaped_text_has_no_tags(s.drop_last());
        reveal_strlit("&amp;");
        reveal_strlit("&lt;");
        reveal_strlit("&gt;");
        let before = html_text(s.drop_last());
        let last = html_char(s.last());
        assert forall|i: int| 0 <= i < html_text(s).len() implies html_text(s)[i] != '<'
            && html_text(s)[i] != '>' by {
            if i < before.len() {
                assert(html_text(s)[i] == before[i]);
                assert(before.contains(before[i]));
            } else {
                assert(html_text(s)[i] == last[i - before.len()]);
            }
        }
    }
}

/// The body of an exported page: every line that is not blank, in order.
pub open spec fn html_body(lines: Seq<Seq<char>>) -> Seq<char>
    decreases lines.len(),
{
    if lines.len() == 0 {
        Seq::empty()
    } else {
        let before = html_body(lines.drop_last());
        if trimmed(lines.last()).len() == 0 {
            before
        } else {
            before + "<pre>"@ + html_text(lines.last()) + "</pre>\n"@
        }
    }
}

/// The page that shows a transcript.
pub open spec fn html_page(transcript: Seq<char>, session: Seq<char>) -> Seq<char> {
    "<!DOCTYPE html><html><head><meta charset=\"utf-8\"><title>Session "@ + session
        + "</title></head><body><h1>Session "@ + session + "</h1>\n"@ + html_body(
        text_lines(transcript),
    ) + "</body></html>"@
}

/// Writes the page that shows a transcript.
pub fn export_rollout_as_html(transcript: &str, session: &str) -> (r: String)
    ensures
        r@ == html_page(transcript@, session@),
{
    let lines = lines_of(transcript);
    let mut body = String::new();
    let mut i: usize = 0;
    assert(texts(lines@.take(0)) =~= Seq::empty());
    while i < lines.len()
        invariant
            i <= lines@.len(),
            body@ == html_body(texts(lines@.take(i as int))),
        decreases lines@.len() - i,
    {
        assert(texts(lines@.take(i + 1)).drop_last() =~= texts(lines@.take(i as int)));
        assert(texts(lines@.take(i + 1)).last() == lines@[i as int]@);
        if !is_blank(lines[i].as_str()) {
            body.append("<pre>");
            body.append(html_escape(lines[i].as_str()).as_str());
            body.append("</pre>\n");
        }
        i = i + 1;
    }
    assert(lines@.take(lines@.len() as int) =~= lines@);
    let mut page =
        "<!DOCTYPE html><html><head><meta charset=\"utf-8\"><title>Session ".to_owned();
    page.append(session);
    page.append("</title></head><body><h1>Session ");
    page.append(session);
    page.append("</h1>\n");
    page.append(body.as_str());
    page.append("</body></html>");
    page
}

/// Whether a line type is that of a session's own description.
pub open spec fn names_session_meta(kind: Option<Seq<char>>) -> bool {
    kind == Some("sessionMeta"@) || kind == Some("SessionMeta"@)
}

/// Whether a text that is not JSON still looks like a session's description.
pub open spec fn looks_like_session_meta(line: Seq<char>) -> bool {
    ||| occurs_in(line, "\"type\":\"sessionMeta\""@)
    ||| occurs_in(line, "\"type\": \"sessionMeta\""@)
    ||| occurs_in(line, "\"kind\":\"sessionMeta\""@)
    ||| occurs_in(line, "\"kind\": \"sessionMeta\""@)
    ||| occurs_in(line, "\"SessionMeta\""@)
}

/// Whether a value describes a session: by its own type or its payload's.
pub open spec fn describes_session(tree: JsonTree) -> bool {
    ||| names_session_meta(either_text(tree, "type"@, "kind"@))
    ||| tree_field(tree, "payload"@) matches Some(payload) && names_session_meta(
        either_text(payload, "type"@, "kind"@),
    )
}

/// Whether a line of a transcript describes the session.
pub open spec fn is_meta_line(line: Seq<char>) -> bool {
    match parsed_json(line) {
        Some(tree) => describes_session(tree),
        None => looks_like_session_meta(line),
    }
}

fn is_meta_name(kind: &Option<String>) -> (r: bool)
    ensures
        r == names_session_meta(
            match *kind {
                Some(kind) => Some(kind@),
                None => None,
            },
        ),
{
    match kind {
        Some(kind) => text_equal(kind.as_str(), "sessionMeta") || text_equal(
            kind.as_str(),
            "SessionMeta",
        ),
        None => false,
    }
}

/// Whether a value describes a session.
pub fn is_session_meta_value(value: &serde_json::Value) -> (r: bool)
    ensures
        r == describes_session(value_tree(*value)),
{
    if is_meta_name(&either_field_text(value, "type", "kind")) {
        return true;
    }
    match value_field(value, "payload") {
        Some(payload) => is_meta_name(&either_field_text(payload, "type", "kind")),
        None => false,
    }
}

/// Whether a line of a transcript describes the session. A line that is not
/// JSON is judged by its text.
pub fn is_session_meta_line(line: &str) -> (r: bool)
    ensures
        r == is_meta_line(line@),
{
    match parse_value(line) {
        Some(value) => is_session_meta_value(&value),
        None => contains(line, "\"type\":\"sessionMeta\"") || contains(
            line,
            "\"type\": \"sessionMeta\"",
        ) || contains(line, "\"kind\":\"sessionMeta\"") || contains(
            line,
            "\"kind\": \"sessionMeta\"",
        ) || contains(line, "\"SessionMeta\""),
    }
}

/// The identifier of the session that a value describes: that of its session,
/// or where that is absent its own.
pub open spec fn described_session(tree: JsonTree) -> Option<Seq<char>> {
    let nested = match tree_field(tree, "session"@) {
        Some(session) => tree_field(session, "id"@),
        None => None,
    };
    let id = match nested {
        Some(id) => Some(id),
        None => tree_field(tree, "id"@),
    };
    match id {
        Some(id) => tree_text(id),
        None => None,
    }
}

/// The identifier in a line that describes a session.
pub open spec fn meta_line_session(line: Seq<char>) -> Option<Seq<char>> {
    match parsed_json(line) {
        Some(tree) => if describes_session(tree) {
            described_session(tree)
        } else {
            None
        },
        None => None,
    }
}

/// Reads the identifier of the session that a value describes.
pub fn session_id_of_value(value: &serde_json::Value) -> (r: Option<String>)
    ensures
        match r {
            Some(id) => described_session(value_tree(*value)) == Some(id@),
            None => described_session(value_tree(*value)) is None,
        },
{
    let nested = match value_field(value, "session") {
        Some(session) => value_field(session, "id"),
        None => None,
    };
    let id = match nested {
        Some(id) => Some(id),
        None => value_field(value, "id"),
    };
    match id {
        Some(id) => match value_text(id) {
            Some(text) => Some(text.to_owned()),
            None => None,
        },
        None => None,
    }
}

/// Reads the identifier in a line that describes a session.
pub fn extract_session_meta_id(line: &str) -> (r: Option<String>)
    ensures
        match r {
            Some(id) => meta_line_session(line@) == Some(id@),
            None => meta_line_session(line@) is None,
        },
{
    match parse_value(line) {
        Some(value) => {
            if is_session_meta_value(&value) {
                session_id_of_value(&value)
            } else {
                None
            }
        },
        None => None,
    }
}

/// Whether a line type is that of a snapshot of the workspace.
pub open spec fn names_artifact(kind: Option<Seq<char>>) -> bool {
    ||| kind == Some("workspaceCheckpoint"@)
    ||| kind == Some("workspaceChange"@)
    ||| kind == Some("workspaceRestoreStarted"@)
    ||| kind == Some("workspaceRestoreCompleted"@)
    ||| kind == Some("WorkspaceCheckpoint"@)
    ||| kind == Some("WorkspaceChange"@)
    ||| kind == Some("WorkspaceRestoreStarted"@)
    ||| kind == Some("WorkspaceRestoreCompleted"@)
}

/// Whether a value stands for a snapshot of the workspace.
pub open spec fn describes_artifact(tree: JsonTree) -> bool {
    names_artifact(either_text(tree, "kind"@, "type"@))
}

/// Whether a line of a transcript stands for a snapshot of the workspace.
pub open spec fn is_artifact_line(line: Seq<char>) -> bool {
    parsed_json(line) matches Some(tree) && describes_artifact(tree)
}

/// Whether a value stands for a snapshot of the workspace.
pub fn is_workspace_artifact_value(value: &serde_json::Value) -> (r: bool)
    ensures
        r == describes_artifact(value_tree(*value)),
{
    match either_field_text(value, "kind", "type") {
        Some(kind) => {
            let kind = kind.as_str();
            text_equal(kind, "workspaceCheckpoint") || text_equal(kind, "workspaceChange")
                || text_equal(kind, "workspaceRestoreStarted") || text_equal(
                kind,
                "workspaceRestoreCompleted",
            ) || text_equal(kind, "WorkspaceCheckpoint") || text_equal(kind, "WorkspaceChange")
                || text_equal(kind, "WorkspaceRestoreStarted") || text_equal(
                kind,
                "WorkspaceRestoreCompleted",
            )
        },
        None => false,
    }
}

/// Whether a line of a transcript stands for a snapshot of the workspace.
pub fn is_workspace_artifact_line(line: &str) -> (r: bool)
    ensures
        r == is_artifact_line(line@),
{
    match parse_value(line) {
        Some(value) => is_workspace_artifact_value(&value),
        None => false,
    }
}

/// A value in which every text has `from` replaced by `to`.
pub open spec fn renamed_tree(tree: JsonTree, from: Seq<char>, to: Seq<char>) -> JsonTree
    decreases tree,
{
    match tree {
        JsonTree::Text(text) => JsonTree::Text(replaced(text, from, to)),
        JsonTree::List(items) => JsonTree::List(renamed_list(items, from, to)),
        JsonTree::Object(fields) => JsonTree::Object(renamed_fields(fields, from, to)),
        _ => tree,
    }
}

/// A list of values in which every text has `from` replaced by `to`.
pub open spec fn renamed_list(items: Seq<JsonTree>, from: Seq<char>, to: Seq<char>) -> Seq<JsonTree>
    decreases items,
{
    if items.len() == 0 {
        Seq::empty()
    } else {
        renamed_list(items.drop_last(), from, to).push(renamed_tree(items.last(), from, to))
    }
}

/// Fields in whose values every text has `from` replaced by `to`. The keys
/// stay.
pub open spec fn renamed_fields(
    fields: Seq<(Seq<char>, JsonTree)>,
    from: Seq<char>,
    to: Seq<char>,
) -> Seq<(Seq<char>, JsonTree)>
    decreases fields,
{
    if fields.len() == 0 {
        Seq::empty()
    } else {
        renamed_fields(fields.drop_last(), from, to).push(
            (fields.last().0, renamed_tree(fields.last().1, from, to)),
        )
    }
}

/// Replaces `from` by `to` in every text of a value.
pub fn replace_session_id_strings(value: &serde_json::Value, from: &str, to: &str) -> (r:
    serde_json::Value)
    requires
        from@.len() > 0,
    ensures
        value_tree(r) == renamed_tree(value_tree(*value), from@, to@),
    decreases value_tree(*value),
{
    match value_shape(value) {
        ValueShape::Text(text) => text_value(replace_all(text.as_str(), from, to)),
        ValueShape::List(items) => {
            let ghost trees = list_tree(items@);
            let mut renamed: Vec<serde_json::Value> = Vec::new();
            let mut i: usize = 0;
            assert(trees.take(0) =~= Seq::empty());
            assert(list_tree(renamed@) =~= Seq::empty());
            while i < items.len()
                invariant
                    i <= items@.len(),
                    from@.len() > 0,
                    trees == list_tree(items@),
                    value_tree(*value) == JsonTree::List(trees),
                    list_tree(renamed@) == renamed_list(trees.take(i as int), from@, to@),
                decreases items@.len() - i,
            {
                let ghost before = renamed@;
                proof {
                    assert(trees.take(i + 1).drop_last() =~= trees.take(i as int));
                    assert(trees.take(i + 1).last() == value_tree(items@[i as int]));
                    assert(decreases_to!(value_tree(*value) => value_tree(*value)->List_0));
                    assert(decreases_to!(trees => trees[i as int]));
                }
                let item = replace_session_id_strings(&items[i], from, to);
                renamed.push(item);
                assert(list_tree(renamed@) =~= list_tree(before).push(value_tree(item)));
                i = i + 1;
            }
            assert(trees.take(trees.len() as int) =~= trees);
            list_value(renamed)
        },
        ValueShape::Object(fields) => {
            let ghost trees = fields_tree(fields@);
            let mut renamed: Vec<(String, serde_json::Value)> = Vec::new();
            let mut i: usize = 0;
            assert(trees.take(0) =~= Seq::empty());
            assert(fields_tree(renamed@) =~= Seq::empty());
            while i < fields.len()
                invariant
                    i <= fields@.len(),
                    from@.len() > 0,
                    trees == fields_tree(fields@),
                    value_tree(*value) == JsonTree::Object(trees),
                    renamed@.len() == i,
                    forall|j: int| 0 <= j < i ==> (#[trigger] renamed@[j]).0@ == trees[j].0,
                    fields_tree(renamed@) == renamed_fields(trees.take(i as int), from@, to@),
                decreases fields@.len() - i,
            {
                let ghost before = renamed@;
                proof {
                    assert(trees.take(i + 1).drop_last() =~= trees.take(i as int));
                    assert(trees.take(i + 1).last() == trees[i as int]);
                    assert(decreases_to!(value_tree(*value) => value_tree(*value)->Object_0));
                    assert(decreases_to!(trees => trees[i as int]));
                    assert(decreases_to!(trees[i as int] => trees[i as int].1));
                }
                let field = replace_session_id_strings(&fields[i].1, from, to);
                renamed.push((fields[i].0.clone(), field));
                assert(fields_tree(renamed@) =~= fields_tree(before).push(
                    (trees[i as int].0, value_tree(field)),
                ));
                i = i + 1;
            }
            assert(trees.take(trees.len() as int) =~= trees);
            object_value(value, renamed)
        },
        ValueShape::Plain => copy_value(value),
    }
}

/// Whether a key names the session that a line belongs to.
pub open spec fn names_session(key: Seq<char>) -> bool {
    key == "sessionId"@ || key == "session_id"@
}

/// A line of a transcript moved to another session: the session that it names
/// is the other one.
pub open spec fn moved_tree(tree: JsonTree, session: Seq<char>) -> JsonTree {
    match tree {
        JsonTree::Object(fields) => JsonTree::Object(
            fields.map_values(
                |field: (Seq<char>, JsonTree)|
                    if names_session(field.0) {
                        (field.0, JsonTree::Text(session))
                    } else {
                        field
                    },
            ),
        ),
        _ => tree,
    }
}

/// Names another session in a line of a transcript.
pub fn move_to_session(value: &serde_json::Value, session: &str) -> (r: serde_json::Value)
    ensures
        value_tree(r) == moved_tree(value_tree(*value), session@),
{
    match value_shape(value) {
        ValueShape::Object(fields) => {
            let ghost trees = fields_tree(fields@);
            let mut moved: Vec<(String, serde_json::Value)> = Vec::new();
            let mut i: usize = 0;
            while i < fields.len()
                invariant
                    i <= fields@.len(),
                    trees == fields_tree(fields@),
                    moved@.len() == i,
                    forall|j: int|
                        0 <= j < i ==> {
                            &&& (#[trigger] moved@[j]).0@ == trees[j].0
                            &&& value_tree(moved@[j].1) == if names_session(trees[j].0) {
                                JsonTree::Text(session@)
                            } else {
                                trees[j].1
                            }
                        },
                decreases fields@.len() - i,
            {
                let key = fields[i].0.clone();
                let named = text_equal(key.as_str(), "sessionId") || text_equal(
                    key.as_str(),
                    "session_id",
                );
                let field = if named {
                    text_value(session.to_owned())
                } else {
                    copy_value(&fields[i].1)
                };
                moved.push((key, field));
                i = i + 1;
            }
            assert(fields_tree(moved@) =~= moved_tree(
                JsonTree::Object(trees),
                session@,
            )->Object_0);
            object_value(value, moved)
        },
        _ => copy_value(value),
    }
}

/// A line of a transcript as the session `session` takes it over from the
/// session `source`.
pub open spec fn imported_tree(
    tree: JsonTree,
    source: Option<Seq<char>>,
    session: Seq<char>,
) -> JsonTree {
    let moved = moved_tree(tree, session);
    match source {
        Some(source) => if source.len() > 0 && source != session {
            renamed_tree(moved, source, session)
        } else {
            moved
        },
        None => moved,
    }
}

/// Takes a line of a transcript over from another session.
pub fn import_value(value: &serde_json::Value, source: &Option<String>, session: &str) -> (r:
    serde_json::Value)
    ensures
        value_tree(r) == imported_tree(
            value_tree(*value),
            match *source {
                Some(source) => Some(source@),
                None => None,
            },
            session@,
        ),
{
    let moved = move_to_session(value, session);
    match source {
        Some(source) => {
            if source.as_str().is_empty() || text_equal(source.as_str(), session) {
                moved
            } else {
                replace_session_id_strings(&moved, source.as_str(), session)
            }
        },
        None => moved,
    }
}

/// Why a transcript could not be imported.
#[derive(Debug)]
pub enum ImportError {
    /// A line is not JSON; the line.
    NotJson(String),
    /// A line could not be written again.
    NotWritten,
}

impl ImportError {
    /// What a client is told.
    pub open spec fn message_view(self) -> Seq<char> {
        match self {
            ImportError::NotJson(line) => "import jsonl line is not valid JSON: "@ + line@,
            ImportError::NotWritten => "import jsonl line cannot be written"@,
        }
    }

    /// What a client is told.
    pub fn message(&self) -> (r: String)
        ensures
            r@ == self.message_view(),
    {
        match self {
            ImportError::NotJson(line) => "import jsonl line is not valid JSON: ".to_owned().concat(
                line.as_str(),
            ),
            ImportError::NotWritten => "import jsonl line cannot be written".to_owned(),
        }
    }
}

/// Why an import stops.
pub enum ImportFault {
    NotJson(Seq<char>),
    NotWritten,
}

impl View for ImportError {
    type V = ImportFault;

    open spec fn view(&self) -> ImportFault {
        match *self {
            ImportError::NotJson(line) => ImportFault::NotJson(line@),
            ImportError::NotWritten => ImportFault::NotWritten,
        }
    }
}

/// The line that a transcript's line turns into, or why it does not: it is not
/// JSON, or cannot be written.
pub open spec fn imported_line(
    line: Seq<char>,
    source: Option<Seq<char>>,
    session: Seq<char>,
) -> Result<Seq<char>, ImportFault> {
    match parsed_json(line) {
        Some(tree) => match rendered_json(imported_tree(tree, source, session)) {
            Some(text) => Ok(text),
            None => Err(ImportFault::NotWritten),
        },
        None => Err(ImportFault::NotJson(line)),
    }
}

/// Takes a line of a transcript over from another session.
pub fn rewrite_import_line_session_id(line: &str, source: &Option<String>, session: &str) -> (r:
    Result<String, ImportError>)
    ensures
        imported_line(line@, opt_view(*source), session@) == match r {
            Ok(text) => Ok::<Seq<char>, ImportFault>(text@),
            Err(error) => Err(error@),
        },
{
    let value = match parse_value(line) {
        Some(value) => value,
        None => {
            return Err(ImportError::NotJson(line.to_owned()));
        },
    };
    let imported = import_value(&value, source, session);
    match render_value(&imported) {
        Some(text) => Ok(text),
        None => Err(ImportError::NotWritten),
    }
}

/// Whether a line of a transcript is taken over: blank lines are not, nor is
/// the description of the old session, nor what stands for snapshots of its
/// workspace.
pub open spec fn is_taken_over(line: Seq<char>) -> bool {
    let text = trimmed(line);
    text.len() > 0 && !is_meta_line(text) && !is_artifact_line(text)
}

/// The lines that the lines of a transcript add, up to the first that is taken
/// over and cannot be, and why it cannot.
pub open spec fn import_lines(
    lines: Seq<Seq<char>>,
    source: Option<Seq<char>>,
    session: Seq<char>,
) -> (Seq<Seq<char>>, Option<ImportFault>)
    decreases lines.len(),
{
    if lines.len() == 0 {
        (Seq::empty(), None)
    } else {
        let (added, fault) = import_lines(lines.drop_last(), source, session);
        let line = lines.last();
        if fault is Some || !is_taken_over(line) {
            (added, fault)
        } else {
            match imported_line(trimmed(line), source, session) {
                Ok(text) => (added.push(text), None),
                Err(fault) => (added, Some(fault)),
            }
        }
    }
}

/// Whether the first line that describes a session stands at `i`.
pub open spec fn is_first_description(lines: Seq<Seq<char>>, i: int) -> bool {
    &&& 0 <= i < lines.len()
    &&& meta_line_session(lines[i]) is Some
    &&& forall|j: int| 0 <= j < i ==> meta_line_session(#[trigger] lines[j]) is None
}

/// The session that a transcript was written for.
pub open spec fn source_session(lines: Seq<Seq<char>>) -> Option<Seq<char>> {
    if exists|i: int| is_first_description(lines, i) {
        meta_line_session(lines[choose|i: int| is_first_description(lines, i)])
    } else {
        None
    }
}

fn find_source_session(lines: &Vec<String>) -> (r: Option<String>)
    ensures
        opt_view(r) == source_session(texts(lines@)),
{
    let ghost all = texts(lines@);
    let mut i: usize = 0;
    while i < lines.len()
        invariant
            i <= lines@.len(),
            all == texts(lines@),
            forall|j: int| 0 <= j < i ==> meta_line_session(#[trigger] all[j]) is None,
        decreases lines@.len() - i,
    {
        assert(all[i as int] == lines@[i as int]@);
        if let Some(id) = extract_session_meta_id(lines[i].as_str()) {
            proof {
                assert(is_first_description(all, i as int));
                let k = choose|k: int| is_first_description(all, k);
                assert(is_first_description(all, k));
                assert(k == i) by {
                    if k < i {
                        assert(meta_line_session(all[k]) is None);
                    } else if k > i {
                        assert(meta_line_session(all[i as int]) is None);
                    }
                }
            }
            return Some(id);
        }
        i = i + 1;
    }
    None
}

/// What an import adds to a session.
#[derive(Debug)]
pub struct ImportedLines {
    pub lines: Vec<String>,
    /// Why the import stopped, if it did.
    pub failure: Option<ImportError>,
}

proof fn lemma_import_stays_stopped(
    lines: Seq<Seq<char>>,
    source: Option<Seq<char>>,
    session: Seq<char>,
    i: int,
)
    requires
        0 <= i <= lines.len(),
        import_lines(lines.take(i), source, session).1 is Some,
    ensures
        import_lines(lines, source, session) == import_lines(lines.take(i), source, session),
    decreases lines.len() - i,
{
    if i < lines.len() {
        assert(lines.take(i + 1).drop_last() =~= lines.take(i));
        lemma_import_stays_stopped(lines, source, session, i + 1);
    } else {
        assert(lines.take(i) =~= lines);
    }
}

/// The lines that a transcript adds to the session `session`.
pub fn append_import_jsonl(transcript: &str, session: &str) -> (r: ImportedLines)
    ensures
        ({
            let lines = text_lines(transcript@);
            (
                texts(r.lines@),
                match r.failure {
                    Some(error) => Some(error@),
                    None => None,
                },
            ) == import_lines(lines, source_session(lines), session@)
        }),
{
    let lines = lines_of(transcript);
    let source = find_source_session(&lines);
    let ghost all = texts(lines@);
    let mut added: Vec<String> = Vec::new();
    let mut i: usize = 0;
    assert(all.take(0) =~= Seq::empty());
    assert(texts(added@) =~= Seq::empty());
    while i < lines.len()
        invariant
            i <= lines@.len(),
            all == texts(lines@),
            all == text_lines(transcript@),
            opt_view(source) == source_session(all),
            (texts(added@), None::<ImportFault>) == import_lines(
                all.take(i as int),
                source_session(all),
                session@,
            ),
        decreases lines@.len() - i,
    {
        proof {
            assert(all.take(i + 1).drop_last() =~= all.take(i as int));
            assert(all.take(i + 1).last() == lines@[i as int]@);
        }
        let text = trim(lines[i].as_str());
        if !text.as_str().is_empty() && !is_session_meta_line(text.as_str())
            && !is_workspace_artifact_line(text.as_str()) {
            let ghost before = added@;
            match rewrite_import_line_session_id(text.as_str(), &source, session) {
                Ok(line) => {
                    added.push(line);
                    assert(texts(added@) =~= texts(before).push(line@));
                },
                Err(error) => {
                    proof {
                        lemma_import_stays_stopped(all, source_session(all), session@, i + 1);
                    }
                    return ImportedLines { lines: added, failure: Some(error) };
                },
            }
        }
        i = i + 1;
    }
    assert(all.take(all.len() as int) =~= all);
    ImportedLines { lines: added, failure: None }
}

proof fn lemma_renamed_fields(
    fields: Seq<(Seq<char>, JsonTree)>,
    from: Seq<char>,
    to: Seq<char>,
    i: int,
)
    requires
        0 <= i < fields.len(),
    ensures
        renamed_fields(fields, from, to).len() == fields.len(),
        renamed_fields(fields, from, to)[i] == (
            fields[i].0,
            renamed_tree(fields[i].1, from, to),
        ),
    decreases fields.len(),
{
    if i < fields.len() - 1 {
        lemma_renamed_fields(fields.drop_last(), from, to, i);
    } else if fields.len() > 1 {
        lemma_renamed_fields(fields.drop_last(), from, to, 0);
    } else {
        assert(fields.drop_last() =~= Seq::empty());
        reveal_with_fuel(renamed_fields, 2);
    }
}

/// A line that names its session names the new one after an import. The law
/// does not speak of a new identifier that holds the old one within itself.
pub proof fn law_imported_lines_name_the_new_session(
    fields: Seq<(Seq<char>, JsonTree)>,
    source: Option<Seq<char>>,
    session: Seq<char>,
    i: int,
)
    requires
        0 <= i < fields.len(),
        names_session(fields[i].0),
        source matches Some(source) ==> !occurs_in(session, source),
    ensures
        ({
            let imported = imported_tree(JsonTree::Object(fields), source, session);
            &&& imported is Object
            &&& imported->Object_0.len() == fields.len()
            &&& imported->Object_0[i] == (fields[i].0, JsonTree::Text(session))
        }),
{
    let moved = moved_tree(JsonTree::Object(fields), session)->Object_0;
    assert(moved[i] == (fields[i].0, JsonTree::Text(session)));
    if let Some(source) = source {
        if source.len() > 0 && source != session {
            lemma_renamed_fields(moved, source, session, i);
            law_replacing_leaves_other_texts_alone(session, source, session);
        }
    }
}

/// In what form a transcript is exported.
#[derive(Clone, Copy, Debug, PartialEq, Eq, Structural)]
pub enum ExportFormat {
    Jsonl,
    Html,
}

/// The file extension of an export.
pub open spec fn export_extension(format: ExportFormat) -> Seq<char> {
    match format {
        ExportFormat::Jsonl => "jsonl"@,
        ExportFormat::Html => "html"@,
    }
}

/// The name of an export that the client does not name: the session, the
/// time and the form.
pub fn export_file_name(session: &str, stamp: &str, format: ExportFormat) -> (r: String)
    ensures
        r@ == session@ + "-"@ + stamp@ + "."@ + export_extension(format),
{
    let mut name = session.to_owned();
    name.append("-");
    name.append(stamp);
    name.append(".");
    match format {
        ExportFormat::Jsonl => name.append("jsonl"),
        ExportFormat::Html => name.append("html"),
    }
    name
}

/// Where an export goes: to the named place, read from the session's working
/// directory where it is relative and that is known; else to the directory of
/// exports under its own name.
pub open spec fn export_parts(
    named: Option<PathModel>,
    cwd: Option<Vec<Component>>,
    exports: Seq<PathPart>,
    name: Seq<char>,
) -> Seq<PathPart> {
    match (named, cwd) {
        (Some(path), Some(cwd)) => if path.absolute {
            parts(path.components@)
        } else {
            joined_parts(parts(cwd@), parts(path.components@))
        },
        (Some(path), None) => parts(path.components@),
        (None, _) => exports.push(PathPart::Normal(name)),
    }
}

/// Chooses where an export goes.
pub fn export_destination(
    named: &Option<PathModel>,
    cwd: &Option<Vec<Component>>,
    exports: &Vec<Component>,
    name: String,
) -> (r: Vec<Component>)
    ensures
        parts(r@) == export_parts(*named, *cwd, parts(exports@), name@),
{
    match named {
        Some(path) => match cwd {
            Some(cwd) => resolve_import_path(path, cwd),
            None => {
                let nowhere: Vec<Component> = Vec::new();
                assert(parts(nowhere@) =~= Seq::empty());
                let place = PathModel { absolute: true, components: copy_path(&path.components) };
                resolve_import_path(&place, &nowhere)
            },
        },
        None => {
            let mut place = copy_path(exports);
            place.push(Component::Normal(name));
            assert(parts(place@) =~= parts(exports@).push(PathPart::Normal(name@)));
            place
        },
    }
}

/// What an export waits for.
#[derive(Clone, Copy, Debug, PartialEq, Eq, Structural)]
pub enum ExportPhase {
    Rollout,
    DirectoryMade,
    RootsChecked,
    ParentMade,
    Exported,
    Finished,
}

/// What the host observed during an export.
#[derive(Debug)]
pub enum ExportEvent {
    /// Whether the transcript was found; the session in text form.
    RolloutFound(bool, String),
    /// What went wrong, if anything did.
    Done(Option<String>),
}

/// What the host has to do for an export.
#[derive(Debug)]
pub enum ExportAction {
    /// Make the directory for exports.
    MakeDirectory,
    /// Choose the destination and check that it lies under an allowed root.
    CheckRoots,
    /// Make the directory of the destination.
    MakeParent,
    /// Copy the rollout to the destination.
    Copy,
    /// Write the rollout to the destination as a page.
    WriteHtml,
    /// Answer with the destination.
    Answer,
    /// Refuse the export.
    Reject(Rejection),
    /// Nothing: the event does not belong to the phase.
    Ignore,
}

/// The next step of an export.
pub open spec fn export_step(format: ExportFormat, phase: ExportPhase, event: ExportEvent) -> (
    ExportPhase,
    ExportAction,
) {
    match (phase, event) {
        (ExportPhase::Rollout, ExportEvent::RolloutFound(found, session)) => if found {
            (ExportPhase::DirectoryMade, ExportAction::MakeDirectory)
        } else {
            (
                ExportPhase::Finished,
                ExportAction::Reject(
                    rejection_about(
                        ErrorCode::SessionNotFound,
                        "session rollout not found: ",
                        session,
                    ),
                ),
            )
        },
        (ExportPhase::DirectoryMade, ExportEvent::Done(failure)) => match failure {
            Some(error) => (
                ExportPhase::Finished,
                ExportAction::Reject(
                    rejection_about(
                        ErrorCode::InternalError,
                        "failed to create export dir: ",
                        error,
                    ),
                ),
            ),
            None => (ExportPhase::RootsChecked, ExportAction::CheckRoots),
        },
        (ExportPhase::RootsChecked, ExportEvent::Done(failure)) => match failure {
            Some(error) => (
                ExportPhase::Finished,
                ExportAction::Reject(rejection_about(ErrorCode::PermissionDenied, "", error)),
            ),
            None => (ExportPhase::ParentMade, ExportAction::MakeParent),
        },
        (ExportPhase::ParentMade, ExportEvent::Done(failure)) => match failure {
            Some(error) => (
                ExportPhase::Finished,
                ExportAction::Reject(
                    rejection_about(
                        ErrorCode::InternalError,
                        "failed to create export parent: ",
                        error,
                    ),
                ),
            ),
            None => (
                ExportPhase::Exported,
                if format == ExportFormat::Jsonl {
                    ExportAction::Copy
                } else {
                    ExportAction::WriteHtml
                },
            ),
        },
        (ExportPhase::Exported, ExportEvent::Done(failure)) => (
            ExportPhase::Finished,
            match failure {
                Some(error) => ExportAction::Reject(
                    rejection_about(ErrorCode::InternalError, "failed to export session: ", error),
                ),
                None => ExportAction::Answer,
            },
        ),
        _ => (phase, ExportAction::Ignore),
    }
}

/// Takes an export one step further.
pub fn advance_export(format: ExportFormat, phase: ExportPhase, event: ExportEvent) -> (r: (
    ExportPhase,
    ExportAction,
))
    ensures
        r == export_step(format, phase, event),
{
    match (phase, event) {
        (ExportPhase::Rollout, ExportEvent::RolloutFound(found, session)) => {
            if found {
                (ExportPhase::DirectoryMade, ExportAction::MakeDirectory)
            } else {
                (
                    ExportPhase::Finished,
                    ExportAction::Reject(
                        reject_about(
                            ErrorCode::SessionNotFound,
                            "session rollout not found: ",
                            session,
                        ),
                    ),
                )
            }
        },
        (ExportPhase::DirectoryMade, ExportEvent::Done(failure)) => match failure {
            Some(error) => (
                ExportPhase::Finished,
                ExportAction::Reject(
                    reject_about(ErrorCode::InternalError, "failed to create export dir: ", error),
                ),
            ),
            None => (ExportPhase::RootsChecked, ExportAction::CheckRoots),
        },
        (ExportPhase::RootsChecked, ExportEvent::Done(failure)) => match failure {
            Some(error) => (
                ExportPhase::Finished,
                ExportAction::Reject(reject_about(ErrorCode::PermissionDenied, "", error)),
            ),
            None => (ExportPhase::ParentMade, ExportAction::MakeParent),
        },
        (ExportPhase::ParentMade, ExportEvent::Done(failure)) => match failure {
            Some(error) => (
                ExportPhase::Finished,
                ExportAction::Reject(
                    reject_about(
                        ErrorCode::InternalError,
                        "failed to create export parent: ",
                        error,
                    ),
                ),
            ),
            None => (
                ExportPhase::Exported,
                match format {
                    ExportFormat::Jsonl => ExportAction::Copy,
                    ExportFormat::Html => ExportAction::WriteHtml,
                },
            ),
        },
        (ExportPhase::Exported, ExportEvent::Done(failure)) => (
            ExportPhase::Finished,
            match failure {
                Some(error) => ExportAction::Reject(
                    reject_about(ErrorCode::InternalError, "failed to export session: ", error),
                ),
                None => ExportAction::Answer,
            },
        ),
        (phase, _) => (phase, ExportAction::Ignore),
    }
}

/// Nothing is written before the destination was found to lie under an
/// allowed root: a step that writes the export or makes its parent directory
/// comes after that check has passed.
pub proof fn law_exports_stay_under_the_roots(
    format: ExportFormat,
    phase: ExportPhase,
    event: ExportEvent,
)
    ensures
        ({
            let (next, action) = export_step(format, phase, event);
            &&& action is MakeParent ==> phase is RootsChecked && event == ExportEvent::Done(None)
            &&& action is Copy || action is WriteHtml ==> phase is ParentMade
            &&& next is ParentMade && !(phase is ParentMade) ==> action is MakeParent
        }),
{
}

/// What an import waits for.
#[derive(Debug)]
pub enum ImportPhase {
    HomeChecked,
    /// The path lies outside the server's own directories; the answer to that.
    DirectoryChecked(String),
    FileFound,
    SessionMade,
    Destination,
    Evicted,
    Appended,
    Indexed,
    Finished,
}

/// What the host observed during an import.
#[derive(Debug)]
pub enum ImportEvent {
    /// Why the path is refused, if it is.
    Checked(Option<String>),
    /// Whether the path is a file; the path as it is shown.
    FileFound(bool, String),
    /// Why no session was made, if none was.
    SessionMade(Option<String>),
    DestinationFound(bool),
    Done(Option<String>),
}

/// What the host has to do for an import.
#[derive(Debug)]
pub enum ImportAction {
    /// Check the path against the working directory.
    CheckDirectory,
    /// Find out whether the path is a file.
    FindFile,
    /// Start a session for the import.
    MakeSession,
    /// Find the rollout of that session.
    FindDestination,
    /// Drop the empty session, so that it does not overwrite the import.
    Evict,
    /// Append the lines of the file to that rollout.
    Append,
    /// Index what the rollouts say.
    Index,
    /// Answer with the session.
    Answer,
    /// Refuse the import.
    Reject(Rejection),
    /// Nothing: the event does not belong to the phase.
    Ignore,
}

/// The next step of an import. The path has to lie under the server's own
/// directories or under the working directory.
pub open spec fn import_step(
    phase: ImportPhase,
    event: ImportEvent,
) -> (ImportPhase, ImportAction) {
    match (phase, event) {
        (ImportPhase::HomeChecked, ImportEvent::Checked(failure)) => match failure {
            Some(outside) => (
                ImportPhase::DirectoryChecked(outside),
                ImportAction::CheckDirectory,
            ),
            None => (ImportPhase::FileFound, ImportAction::FindFile),
        },
        (ImportPhase::DirectoryChecked(outside), ImportEvent::Checked(failure)) => if failure is Some {
            (
                ImportPhase::Finished,
                ImportAction::Reject(rejection_about(ErrorCode::PermissionDenied, "", outside)),
            )
        } else {
            (ImportPhase::FileFound, ImportAction::FindFile)
        },
        (ImportPhase::FileFound, ImportEvent::FileFound(found, shown)) => if found {
            (ImportPhase::SessionMade, ImportAction::MakeSession)
        } else {
            (
                ImportPhase::Finished,
                ImportAction::Reject(
                    rejection_about(
                        ErrorCode::InvalidParams,
                        "import path is not a file: ",
                        shown,
                    ),
                ),
            )
        },
        (ImportPhase::SessionMade, ImportEvent::SessionMade(failure)) => match failure {
            Some(error) => (
                ImportPhase::Finished,
                ImportAction::Reject(
                    rejection_about(
                        ErrorCode::InternalError,
                        "session/import failed to create session: ",
                        error,
                    ),
                ),
            ),
            None => (ImportPhase::Destination, ImportAction::FindDestination),
        },
        (ImportPhase::Destination, ImportEvent::DestinationFound(found)) => if found {
            (ImportPhase::Evicted, ImportAction::Evict)
        } else {
            (
                ImportPhase::Finished,
                ImportAction::Reject(
                    rejection(ErrorCode::InternalError, "imported session has no rollout path"),
                ),
            )
        },
        (ImportPhase::Evicted, ImportEvent::Done(_)) => (
            ImportPhase::Appended,
            ImportAction::Append,
        ),
        (ImportPhase::Appended, ImportEvent::Done(failure)) => match failure {
            Some(error) => (
                ImportPhase::Finished,
                ImportAction::Reject(
                    rejection_about(
                        ErrorCode::InternalError,
                        "failed to append import jsonl: ",
                        error,
                    ),
                ),
            ),
            None => (ImportPhase::Indexed, ImportAction::Index),
        },
        (ImportPhase::Indexed, ImportEvent::Done(_)) => (
            ImportPhase::Finished,
            ImportAction::Answer,
        ),
        _ => (phase, ImportAction::Ignore),
    }
}

/// Takes an import one step further.
pub fn advance_import(phase: ImportPhase, event: ImportEvent) -> (r: (ImportPhase, ImportAction))
    ensures
        r == import_step(phase, event),
{
    match (phase, event) {
        (ImportPhase::HomeChecked, ImportEvent::Checked(failure)) => match failure {
            Some(outside) => (
                ImportPhase::DirectoryChecked(outside),
                ImportAction::CheckDirectory,
            ),
            None => (ImportPhase::FileFound, ImportAction::FindFile),
        },
        (ImportPhase::DirectoryChecked(outside), ImportEvent::Checked(failure)) => {
            if failure.is_some() {
                (
                    ImportPhase::Finished,
                    ImportAction::Reject(reject_about(ErrorCode::PermissionDenied, "", outside)),
                )
            } else {
                (ImportPhase::FileFound, ImportAction::FindFile)
            }
        },
        (ImportPhase::FileFound, ImportEvent::FileFound(found, shown)) => {
            if found {
                (ImportPhase::SessionMade, ImportAction::MakeSession)
            } else {
                (
                    ImportPhase::Finished,
                    ImportAction::Reject(
                        reject_about(
                            ErrorCode::InvalidParams,
                            "import path is not a file: ",
                            shown,
                        ),
                    ),
                )
            }
        },
        (ImportPhase::SessionMade, ImportEvent::SessionMade(failure)) => match failure {
            Some(error) => (
                ImportPhase::Finished,
                ImportAction::Reject(
                    reject_about(
                        ErrorCode::InternalError,
                        "session/import failed to create session: ",
                        error,
                    ),
                ),
            ),
            None => (ImportPhase::Destination, ImportAction::FindDestination),
        },
        (ImportPhase::Destination, ImportEvent::DestinationFound(found)) => {
            if found {
                (ImportPhase::Evicted, ImportAction::Evict)
            } else {
                (
                    ImportPhase::Finished,
                    ImportAction::Reject(
                        reject(ErrorCode::InternalError, "imported session has no rollout path"),
                    ),
                )
            }
        },
        (ImportPhase::Evicted, ImportEvent::Done(_)) => (
            ImportPhase::Appended,
            ImportAction::Append,
        ),
        (ImportPhase::Appended, ImportEvent::Done(failure)) => match failure {
            Some(error) => (
                ImportPhase::Finished,
                ImportAction::Reject(
                    reject_about(
                        ErrorCode::InternalError,
                        "failed to append import jsonl: ",
                        error,
                    ),
                ),
            ),
            None => (ImportPhase::Indexed, ImportAction::Index),
        },
        (ImportPhase::Indexed, ImportEvent::Done(_)) => (
            ImportPhase::Finished,
            ImportAction::Answer,
        ),
        (phase, _) => (phase, ImportAction::Ignore),
    }
}

/// Escaping writes the three characters that HTML gives a meaning out by name
/// and leaves every other character as it is.
pub proof fn law_text_is_escaped(s: Seq<char>, c: char)
    ensures
        html_text(Seq::empty()) == Seq::<char>::empty(),
        html_text(s.push('&')) == html_text(s) + "&amp;"@,
        html_text(s.push('<')) == html_text(s) + "&lt;"@,
        html_text(s.push('>')) == html_text(s) + "&gt;"@,
        c != '&' && c != '<' && c != '>' ==> html_text(s.push(c)) == html_text(s) + seq![c],
{
    assert(s.push('&').drop_last() =~= s);
    assert(s.push('<').drop_last() =~= s);
    assert(s.push('>').drop_last() =~= s);
    assert(s.push(c).drop_last() =~= s);
}

/// Every line of a transcript that is not blank is shown, escaped, in order.
pub proof fn law_lines_are_shown_in_order(lines: Seq<Seq<char>>, line: Seq<char>)
    ensures
        html_body(Seq::empty()) == Seq::<char>::empty(),
        trimmed(line).len() == 0 ==> html_body(lines.push(line)) == html_body(lines),
        trimmed(line).len() > 0 ==> html_body(lines.push(line)) == html_body(lines) + "<pre>"@
            + html_text(line) + "</pre>\n"@,
{
    assert(lines.push(line).drop_last() =~= lines);
}

/// A line that reads as a value describes the session where it, or its payload,
/// is of that kind, in either spelling and under either name; its session is the
/// one that it names.
pub proof fn law_session_lines_are_recognized(line: Seq<char>, tree: JsonTree)
    requires
        parsed_json(line) == Some(tree),
    ensures
        either_text(tree, "type"@, "kind"@) == Some("sessionMeta"@) ==> is_meta_line(line),
        either_text(tree, "type"@, "kind"@) == Some("SessionMeta"@) ==> is_meta_line(line),
        tree_field(tree, "payload"@) matches Some(payload) ==> (either_text(
            payload,
            "type"@,
            "kind"@,
        ) == Some("sessionMeta"@) ==> is_meta_line(line)),
        tree_field(tree, "payload"@) matches Some(payload) ==> (either_text(
            payload,
            "type"@,
            "kind"@,
        ) == Some("SessionMeta"@) ==> is_meta_line(line)),
        either_text(tree, "type"@, "kind"@) is None && tree_field(tree, "payload"@) is None
            ==> !is_meta_line(line),
        is_meta_line(line) ==> meta_line_session(line) == described_session(tree),
        !is_meta_line(line) ==> meta_line_session(line) is None,
        (tree_field(tree, "session"@) matches Some(session) && tree_field(
            session,
            "id"@,
        ) is Some) ==> described_session(tree) == tree_text(
            tree_field(tree_field(tree, "session"@)->0, "id"@)->0,
        ),
        tree_field(tree, "session"@) is None && tree_field(tree, "id"@) is Some
            ==> described_session(tree) == tree_text(tree_field(tree, "id"@)->0),
        tree_field(tree, "session"@) is None && tree_field(tree, "id"@) is None
            ==> described_session(tree) is None,
{
}

/// Lines about the workspace are those of the four kinds that record it, in
/// either spelling.
pub proof fn law_workspace_lines_are_recognized(line: Seq<char>, tree: JsonTree, kind: Seq<char>)
    requires
        parsed_json(line) == Some(tree),
        either_text(tree, "kind"@, "type"@) == Some(kind),
    ensures
        is_artifact_line(line) <==> (kind == "workspaceCheckpoint"@ || kind
            == "WorkspaceCheckpoint"@ || kind == "workspaceChange"@ || kind == "WorkspaceChange"@
            || kind == "workspaceRestoreStarted"@ || kind == "WorkspaceRestoreStarted"@ || kind
            == "workspaceRestoreCompleted"@ || kind == "WorkspaceRestoreCompleted"@),
{
}

/// What is taken over from a transcript: every line that holds something and
/// neither describes the old session nor records its workspace, in order, until
/// one cannot be read.
pub proof fn law_lines_are_taken_over_in_order(
    lines: Seq<Seq<char>>,
    line: Seq<char>,
    source: Option<Seq<char>>,
    session: Seq<char>,
)
    requires
        import_lines(lines, source, session).1 is None,
    ensures
        ({
            let text = trimmed(line);
            let before = import_lines(lines, source, session).0;
            let after = import_lines(lines.push(line), source, session);
            &&& text.len() == 0 || is_meta_line(text) || is_artifact_line(text) ==> after == (
                before,
                None::<ImportFault>,
            )
            &&& text.len() > 0 && !is_meta_line(text) && !is_artifact_line(text) ==> match
                parsed_json(text) {
                None => after == (before, Some(ImportFault::NotJson(text))),
                Some(tree) => match rendered_json(imported_tree(tree, source, session)) {
                    None => after == (before, Some(ImportFault::NotWritten)),
                    Some(written) => after == (before.push(written), None::<ImportFault>),
                },
            }
        }),
        import_lines(Seq::empty(), source, session) == (
            Seq::<Seq<char>>::empty(),
            None::<ImportFault>,
        ),
{
    assert(lines.push(line).drop_last() =~= lines);
}

/// Nothing is taken over behind a line that cannot be.
pub proof fn law_imports_stop_at_a_fault(
    lines: Seq<Seq<char>>,
    line: Seq<char>,
    source: Option<Seq<char>>,
    session: Seq<char>,
)
    requires
        import_lines(lines, source, session).1 is Some,
    ensures
        import_lines(lines.push(line), source, session) == import_lines(lines, source, session),
{
    assert(lines.push(line).drop_last() =~= lines);
}

/// The session that a transcript is of is the one that the first line that
/// describes one names.
pub proof fn law_transcripts_name_their_session(lines: Seq<Seq<char>>, i: int)
    requires
        0 <= i < lines.len(),
        meta_line_session(lines[i]) is Some,
        forall|j: int| 0 <= j < i ==> meta_line_session(#[trigger] lines[j]) is None,
    ensures
        source_session(lines) == meta_line_session(lines[i]),
{
    assert(is_first_description(lines, i));
    let k = choose|k: int| is_first_description(lines, k);
    assert(is_first_description(lines, k));
    if k < i {
        assert(meta_line_session(lines[k]) is None);
    }
    if i < k {
        assert(meta_line_session(lines[i]) is None);
    }
}

/// An imported value names the new session where it names one, whatever the
/// spelling; its other fields are kept, with the old session's name in their
/// texts replaced.
pub proof fn law_imported_values_are_of_the_new_session(
    fields: Seq<(Seq<char>, JsonTree)>,
    session: Seq<char>,
    i: int,
)
    requires
        0 <= i < fields.len(),
    ensures
        ({
            let moved = moved_tree(JsonTree::Object(fields), session);
            &&& moved is Object && moved->Object_0.len() == fields.len()
            &&& fields[i].0 == "sessionId"@ || fields[i].0 == "session_id"@ ==> moved->Object_0[i]
                == (fields[i].0, JsonTree::Text(session))
            &&& fields[i].0 != "sessionId"@ && fields[i].0 != "session_id"@ ==> moved->Object_0[i]
                == fields[i]
        }),
{
}

/// The name of the old session is replaced in every text of a value, however
/// deep, and nothing else of it changes.
pub proof fn law_names_are_replaced_everywhere(
    text: Seq<char>,
    flag: bool,
    items: Seq<JsonTree>,
    item: JsonTree,
    fields: Seq<(Seq<char>, JsonTree)>,
    key: Seq<char>,
    from: Seq<char>,
    to: Seq<char>,
)
    ensures
        renamed_tree(JsonTree::Text(text), from, to) == JsonTree::Text(replaced(text, from, to)),
        renamed_tree(JsonTree::Null, from, to) == JsonTree::Null,
        renamed_tree(JsonTree::Bool(flag), from, to) == JsonTree::Bool(flag),
        renamed_tree(JsonTree::List(items), from, to) matches JsonTree::List(renamed)
            && renamed_tree(JsonTree::List(items.push(item)), from, to) == JsonTree::List(
            renamed.push(renamed_tree(item, from, to)),
        ),
        renamed_tree(JsonTree::Object(fields), from, to) matches JsonTree::Object(renamed)
            && renamed_tree(JsonTree::Object(fields.push((key, item))), from, to)
            == JsonTree::Object(renamed.push((key, renamed_tree(item, from, to)))),
{
    reveal_with_fuel(renamed_tree, 3);
    reveal_with_fuel(renamed_list, 3);
    reveal_with_fuel(renamed_fields, 3);
    assert(items.push(item).drop_last() =~= items);
    assert(fields.push((key, item)).drop_last() =~= fields);
}

/// A transcript is exported to where it is asked for, in the session's directory
/// where the path is relative, and else under the exports.
pub proof fn law_exports_go_where_asked(
    path: PathModel,
    cwd: Vec<Component>,
    exports: Seq<PathPart>,
    name: Seq<char>,
)
    ensures
        path.absolute ==> export_parts(Some(path), Some(cwd), exports, name) == parts(
            path.components@,
        ),
        !path.absolute ==> export_parts(Some(path), Some(cwd), exports, name) == joined_parts(
            parts(cwd@),
            parts(path.components@),
        ),
        export_parts(Some(path), None, exports, name) == parts(path.components@),
        export_parts(None, Some(cwd), exports, name) == exports.push(PathPart::Normal(name)),
        export_parts(None, None, exports, name) == exports.push(PathPart::Normal(name)),
        export_extension(ExportFormat::Jsonl) == "jsonl"@,
        export_extension(ExportFormat::Html) == "html"@,
{
}

/// An export makes the directory, is checked against the roots, and is written
/// in the form that is asked for; what fails is told.
pub proof fn law_exports_are_written_as_asked(
    format: ExportFormat,
    session: String,
    error: String,
)
    ensures
        ({
            let a = export_step(
                format,
                ExportPhase::Rollout,
                ExportEvent::RolloutFound(true, session),
            );
            let b = export_step(format, a.0, ExportEvent::Done(None));
            let c = export_step(format, b.0, ExportEvent::Done(None));
            let d = export_step(format, c.0, ExportEvent::Done(None));
            let e = export_step(format, d.0, ExportEvent::Done(None));
            &&& a.1 is MakeDirectory
            &&& b.1 is CheckRoots
            &&& c.1 is MakeParent
            &&& format is Jsonl ==> d.1 is Copy
            &&& format is Html ==> d.1 is WriteHtml
            &&& e.1 is Answer
            &&& export_step(
                format,
                ExportPhase::Rollout,
                ExportEvent::RolloutFound(false, session),
            ).1 matches ExportAction::Reject(why) && why.code is SessionNotFound && why.detail
                == Some(session)
            &&& export_step(format, a.0, ExportEvent::Done(Some(error))).1 matches
                ExportAction::Reject(why) && why.code is InternalError && why.detail == Some(error)
            &&& export_step(format, b.0, ExportEvent::Done(Some(error))).1 matches
                ExportAction::Reject(why) && why.code is PermissionDenied && why.detail == Some(
                error,
            )
            &&& export_step(format, c.0, ExportEvent::Done(Some(error))).1 matches
                ExportAction::Reject(why) && why.code is InternalError && why.detail == Some(error)
            &&& export_step(format, d.0, ExportEvent::Done(Some(error))).1 matches
                ExportAction::Reject(why) && why.code is InternalError && why.detail == Some(error)
        }),
{
}

/// An import is taken from a file under the server's home or the session's
/// directory, into a session that is made for it, and is answered once it is
/// indexed; what fails is told.
pub proof fn law_imports_are_taken_from_allowed_places(
    outside: String,
    elsewhere: String,
    shown: String,
    unindexed: Option<String>,
    error: String,
)
    ensures
        ({
            let a = import_step(ImportPhase::HomeChecked, ImportEvent::Checked(None));
            let b = import_step(ImportPhase::HomeChecked, ImportEvent::Checked(Some(outside)));
            let c = import_step(a.0, ImportEvent::FileFound(true, shown));
            let d = import_step(c.0, ImportEvent::SessionMade(None));
            let e = import_step(d.0, ImportEvent::DestinationFound(true));
            let f = import_step(e.0, ImportEvent::Done(unindexed));
            let g = import_step(f.0, ImportEvent::Done(None));
            let h = import_step(g.0, ImportEvent::Done(unindexed));
            &&& a.1 is FindFile
            &&& b.1 is CheckDirectory
            &&& import_step(b.0, ImportEvent::Checked(None)).1 is FindFile
            &&& import_step(b.0, ImportEvent::Checked(Some(elsewhere))).1 matches
                ImportAction::Reject(why) && why.code is PermissionDenied && why.detail == Some(
                outside,
            )
            &&& c.1 is MakeSession
            &&& d.1 is FindDestination
            &&& e.1 is Evict
            &&& f.1 is Append
            &&& g.1 is Index
            &&& h.1 is Answer
            &&& import_step(a.0, ImportEvent::FileFound(false, shown)).1 matches
                ImportAction::Reject(why) && why.code is InvalidParams && why.detail == Some(shown)
            &&& import_step(c.0, ImportEvent::SessionMade(Some(error))).1 matches
                ImportAction::Reject(why) && why.code is InternalError && why.detail == Some(error)
            &&& import_step(d.0, ImportEvent::DestinationFound(false)).1 matches
                ImportAction::Reject(why) && why.code is InternalError
            &&& import_step(f.0, ImportEvent::Done(Some(error))).1 matches
                ImportAction::Reject(why) && why.code is InternalError && why.detail == Some(error)
        }),
{
}

/// A line that does not read as a value is taken for one that describes the
/// session where it looks like one.
pub proof fn law_broken_lines_are_judged_by_their_looks(line: Seq<char>)
    requires
        parsed_json(line) is None,
    ensures
        is_meta_line(line) <==> (occurs_in(line, "\"type\":\"sessionMeta\""@) || occurs_in(
            line,
            "\"type\": \"sessionMeta\""@,
        ) || occurs_in(line, "\"kind\":\"sessionMeta\""@) || occurs_in(
            line,
            "\"kind\": \"sessionMeta\""@,
        ) || occurs_in(line, "\"SessionMeta\""@)),
        !is_artifact_line(line),
        meta_line_session(line) is None,
{
}

/// A page shows the session that it is of, and the whole transcript.
pub proof fn law_pages_show_the_whole_transcript(transcript: Seq<char>, session: Seq<char>)
    ensures
        occurs_in(html_page(transcript, session), html_body(text_lines(transcript))),
        occurs_in(html_page(transcript, session), "<h1>Session "@ + session + "</h1>"@),
{
    let body = html_body(text_lines(transcript));
    let title = "<!DOCTYPE html><html><head><meta charset=\"utf-8\"><title>Session "@ + session
        + "</title></head><body><h1>Session "@ + session + "</h1>\n"@;
    let page = html_page(transcript, session);
    assert(page =~= title + body + "</body></html>"@);
    law_texts_occur_where_they_stand(title, body, "</body></html>"@);
    let head = "<!DOCTYPE html><html><head><meta charset=\"utf-8\"><title>Session "@ + session
        + "</title></head><body>"@;
    let name = "<h1>Session "@ + session + "</h1>"@;
    let rest = "\n"@ + body + "</body></html>"@;
    reveal_strlit("</title></head><body><h1>Session ");
    reveal_strlit("</title></head><body>");
    reveal_strlit("<h1>Session ");
    reveal_strlit("</h1>\n");
    reveal_strlit("</h1>");
    reveal_strlit("\n");
    assert("</title></head><body><h1>Session "@ =~= "</title></head><body>"@ + "<h1>Session "@);
    assert("</h1>\n"@ =~= "</h1>"@ + "\n"@);
    assert(page =~= head + name + rest);
    law_texts_occur_where_they_stand(head, name, rest);
}

/// A transcript that describes no session is of none that is known.
pub proof fn law_undescribed_transcripts_have_no_session(lines: Seq<Seq<char>>)
    requires
        forall|i: int| 0 <= i < lines.len() ==> meta_line_session(#[trigger] lines[i]) is None,
    ensures
        source_session(lines) is None,
{
    assert forall|i: int| !is_first_description(lines, i) by {
        if 0 <= i < lines.len() {
            assert(meta_line_session(lines[i]) is None);
        }
    }
}

} // verus!
