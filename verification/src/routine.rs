//! Editing `routines.toml`: adding, removing, enabling and disabling
//! `[[routine]]` entries in place, through `toml_edit` so that comments and
//! layout survive.  A document is seen through its rows: each routine
//! table's `name`, `command`, `schedule` and `context` strings and its
//! `ephemeral` and `enabled` booleans, in order.

use vstd::prelude::*;
use crate::text::{
    chars_of, eq_chars, join_strs, join_with, opt_text, pad_right, pad_right_of, push_all, push_lit, string_of,
    texts_of,
};

verus! {

#[verifier::external_type_specification]
#[verifier::external_body]
pub struct ExDocumentMut(toml_edit::DocumentMut);

/// A routine table as the rows model it: `name`, `command`, `schedule`,
/// `context` (each when a string), `ephemeral` and `enabled` (each when a
/// boolean).
pub type RowModel = (Option<Seq<char>>, Option<Seq<char>>, Option<Seq<char>>, Option<Seq<char>>, Option<bool>, Option<bool>);

/// A row as read from a document.
pub type RawRow = (Option<String>, Option<String>, Option<String>, Option<String>, Option<bool>, Option<bool>);

/// A row with its `enabled` value replaced.
pub open spec fn with_enabled(r: RowModel, e: Option<bool>) -> RowModel {
    (r.0, r.1, r.2, r.3, r.4, e)
}

/// The rows of a document's `routine` array of tables, in order; none when
/// `routine` is absent or not an array of tables.
pub uninterp spec fn routine_rows(doc: toml_edit::DocumentMut) -> Seq<RowModel>;

/// Whether a document's `routine` key is absent or an array of tables.
pub uninterp spec fn routine_is_array(doc: toml_edit::DocumentMut) -> bool;

/// Whether a document's `routine` key is present and an array of tables.
pub uninterp spec fn routine_present(doc: toml_edit::DocumentMut) -> bool;

#[verifier::external_type_specification]
#[verifier::external_body]
pub struct ExTable(toml_edit::Table);

/// A table as the rows model it.
pub uninterp spec fn table_row(t: toml_edit::Table) -> RowModel;

/// The row after a string is stored under `key`: `name`, `command`,
/// `schedule` and `context` are modelled, other keys leave it as it was.
pub open spec fn row_set_str(r: RowModel, key: Seq<char>, v: Seq<char>) -> RowModel {
    if key == "name"@ {
        (Some(v), r.1, r.2, r.3, r.4, r.5)
    } else if key == "command"@ {
        (r.0, Some(v), r.2, r.3, r.4, r.5)
    } else if key == "schedule"@ {
        (r.0, r.1, Some(v), r.3, r.4, r.5)
    } else if key == "context"@ {
        (r.0, r.1, r.2, Some(v), r.4, r.5)
    } else {
        r
    }
}

/// The row after a boolean is stored under `key`: `ephemeral` and
/// `enabled` are modelled, other keys leave it as it was.
pub open spec fn row_set_bool(r: RowModel, key: Seq<char>, b: bool) -> RowModel {
    if key == "ephemeral"@ {
        (r.0, r.1, r.2, r.3, Some(b), r.5)
    } else if key == "enabled"@ {
        (r.0, r.1, r.2, r.3, r.4, Some(b))
    } else {
        r
    }
}

/// `toml_edit::Table::new`: a table with no keys, so no modelled field is
/// set.
#[verifier::external_body]
fn new_table() -> (r: toml_edit::Table)
    ensures
        table_row(r) == (None::<Seq<char>>, None::<Seq<char>>, None::<Seq<char>>, None::<Seq<char>>, None::<bool>, None::<bool>),
{
    toml_edit::Table::new()
}

/// `table[key] = toml_edit::value(v)`: the key now holds the string `v`;
/// the other keys are untouched.
#[verifier::external_body]
fn set_str(t: &mut toml_edit::Table, key: &str, v: &str)
    ensures
        table_row(*final(t)) == row_set_str(table_row(*old(t)), key@, v@),
{
    t[key] = toml_edit::value(v);
}

/// `table[key] = toml_edit::value(b)`: the key now holds the boolean `b`;
/// the other keys are untouched.
#[verifier::external_body]
fn set_bool(t: &mut toml_edit::Table, key: &str, b: bool)
    ensures
        table_row(*final(t)) == row_set_bool(table_row(*old(t)), key@, b),
{
    t[key] = toml_edit::value(b);
}

/// `toml_edit::ArrayOfTables::push` on the `routine` array: the table
/// becomes its last row, the rows before it unchanged.
#[verifier::external_body]
fn push_table(doc: &mut toml_edit::DocumentMut, t: toml_edit::Table)
    requires
        routine_present(*old(doc)),
    ensures
        routine_present(*final(doc)),
        routine_is_array(*final(doc)),
        routine_rows(*final(doc)) == routine_rows(*old(doc)).push(table_row(t)),
{
    if let Some(a) = doc.get_mut("routine").and_then(|i| i.as_array_of_tables_mut()) {
        a.push(t);
    }
}

pub open spec fn row_view(r: RawRow) -> RowModel {
    (opt_text(r.0), opt_text(r.1), opt_text(r.2), opt_text(r.3), r.4, r.5)
}

/// `DocumentMut::new`: an empty document, with no routine rows.
#[verifier::external_body]
pub fn new_document() -> (r: toml_edit::DocumentMut)
    ensures
        routine_is_array(r),
        routine_rows(r) == Seq::<RowModel>::empty(),
{
    toml_edit::DocumentMut::new()
}

/// The text of the error `str::parse::<DocumentMut>` gives for a text;
/// none when it parses.
pub uninterp spec fn toml_parse_error(text: Seq<char>) -> Option<Seq<char>>;

/// The routine rows of the document a text parses to (as `routine_rows`
/// gives them).
pub uninterp spec fn text_routine_rows(text: Seq<char>) -> Seq<RowModel>;

/// Whether the `routine` key of the document a text parses to is absent or
/// an array of tables (as `routine_is_array` gives it).
pub uninterp spec fn text_routine_is_array(text: Seq<char>) -> bool;

/// `str::parse::<DocumentMut>`, with the parse error's text; the document
/// has the text's routine rows and shape.
#[verifier::external_body]
fn parse_document(text: &str) -> (r: Result<toml_edit::DocumentMut, String>)
    ensures
        match r {
            Ok(d) => toml_parse_error(text@) is None && routine_rows(d) == text_routine_rows(text@)
                && routine_is_array(d) == text_routine_is_array(text@),
            Err(e) => toml_parse_error(text@) == Some(e@),
        },
{
    match text.parse::<toml_edit::DocumentMut>() {
        Ok(d) => Ok(d),
        Err(e) => Err(e.to_string()),
    }
}

/// The document's text (`Display`): TOML that parses back to a document
/// with the same routine rows and shape.
#[verifier::external_body]
pub fn document_text(doc: &toml_edit::DocumentMut) -> (r: String)
    ensures
        toml_parse_error(r@) is None,
        text_routine_rows(r@) == routine_rows(*doc),
        text_routine_is_array(r@) == routine_is_array(*doc),
{
    doc.to_string()
}

/// `doc.entry("routine").or_insert(<empty array of tables>)`, then whether
/// the entry is an array of tables; the rows are unchanged.
#[verifier::external_body]
fn ensure_routine_array(doc: &mut toml_edit::DocumentMut) -> (r: bool)
    ensures
        r == routine_is_array(*old(doc)),
        r ==> routine_present(*final(doc)),
        routine_is_array(*final(doc)) == routine_is_array(*old(doc)),
        routine_rows(*final(doc)) == routine_rows(*old(doc)),
{
    let empty = toml_edit::Item::ArrayOfTables(toml_edit::ArrayOfTables::new());
    doc.entry("routine").or_insert(empty).as_array_of_tables_mut().is_some()
}

/// The rows of the `routine` array of tables: each table's `name`,
/// `command`, `schedule` and `context` as strings and `ephemeral` and
/// `enabled` as booleans.
#[verifier::external_body]
fn rows_of(doc: &toml_edit::DocumentMut) -> (r: Vec<RawRow>)
    ensures
        r@.map_values(|x: RawRow| row_view(x)) == routine_rows(*doc),
{
    let s = |t: &toml_edit::Table, k: &str| t.get(k).and_then(|v| v.as_str()).map(str::to_owned);
    let b = |t: &toml_edit::Table, k: &str| t.get(k).and_then(|v| v.as_bool());
    match doc.get("routine").and_then(|i| i.as_array_of_tables()) {
        Some(a) => a.iter().map(|t| (s(t, "name"), s(t, "command"), s(t, "schedule"), s(t, "context"), b(t, "ephemeral"), b(t, "enabled"))).collect(),
        None => Vec::new(),
    }
}

/// `ArrayOfTables::remove` on the `routine` array.
#[verifier::external_body]
fn remove_row(doc: &mut toml_edit::DocumentMut, idx: usize)
    requires
        routine_is_array(*old(doc)),
        idx < routine_rows(*old(doc)).len(),
    ensures
        routine_is_array(*final(doc)),
        routine_rows(*final(doc)) == routine_rows(*old(doc)).remove(idx as int),
{
    if let Some(a) = doc.get_mut("routine").and_then(|i| i.as_array_of_tables_mut()) {
        a.remove(idx);
    }
}

/// `Table::remove("enabled")` on a row of the `routine` array.
#[verifier::external_body]
fn clear_row_enabled(doc: &mut toml_edit::DocumentMut, idx: usize)
    requires
        routine_is_array(*old(doc)),
        idx < routine_rows(*old(doc)).len(),
    ensures
        routine_is_array(*final(doc)),
        routine_rows(*final(doc)) == routine_rows(*old(doc)).update(idx as int, with_enabled(routine_rows(*old(doc))[idx as int], None)),
{
    if let Some(t) = doc.get_mut("routine").and_then(|i| i.as_array_of_tables_mut()).and_then(|a| a.get_mut(idx)) {
        t.remove("enabled");
    }
}

/// `table["enabled"] = value(false)` on a row of the `routine` array.
#[verifier::external_body]
fn disable_row(doc: &mut toml_edit::DocumentMut, idx: usize)
    requires
        routine_is_array(*old(doc)),
        idx < routine_rows(*old(doc)).len(),
    ensures
        routine_is_array(*final(doc)),
        routine_rows(*final(doc)) == routine_rows(*old(doc)).update(idx as int, with_enabled(routine_rows(*old(doc))[idx as int], Some(false))),
{
    if let Some(t) = doc.get_mut("routine").and_then(|i| i.as_array_of_tables_mut()).and_then(|a| a.get_mut(idx)) {
        t["enabled"] = toml_edit::value(false);
    }
}

// ── errors ──────────────────────────────────────────────────────────────────

/// Why a routine file could not be changed.
#[derive(Debug, Clone, PartialEq, Eq)]
pub enum RoutineFileError {
    /// The schedule is not one the scheduler accepts.
    BadSchedule(String),
    /// `routine add` with a name that is already taken.
    DuplicateName(String),
    /// A routine that is not in the file, with the names that are.
    UnknownName { name: String, available: Vec<String> },
    /// A read, parse or shape failure, with its message.
    Io(String),
}

pub open spec fn spec_error_message(e: RoutineFileError) -> Seq<char> {
    match e {
        RoutineFileError::BadSchedule(s) => "schedule '"@ + s@ + "' is not a recognized format"@,
        RoutineFileError::DuplicateName(n) => "a routine named '"@ + n@ + "' already exists"@,
        RoutineFileError::UnknownName { name, available } => if available@.len() == 0 {
            "routine '"@ + name@ + "' not found (no routines defined)"@
        } else {
            "routine '"@ + name@ + "' not found. Available routines: "@ + join_with(texts_of(available@), ", "@)
        },
        RoutineFileError::Io(m) => m@,
    }
}

impl RoutineFileError {
    /// The message shown for the error.
    pub fn message(&self) -> (r: String)
        ensures
            r@ == spec_error_message(*self),
    {
        let mut out: Vec<char> = Vec::new();
        match self {
            RoutineFileError::BadSchedule(s) => {
                push_lit(&mut out, "schedule '");
                push_lit(&mut out, s.as_str());
                push_lit(&mut out, "' is not a recognized format");
            },
            RoutineFileError::DuplicateName(n) => {
                push_lit(&mut out, "a routine named '");
                push_lit(&mut out, n.as_str());
                push_lit(&mut out, "' already exists");
            },
            RoutineFileError::UnknownName { name, available } => {
                push_lit(&mut out, "routine '");
                push_lit(&mut out, name.as_str());
                if available.len() == 0 {
                    push_lit(&mut out, "' not found (no routines defined)");
                } else {
                    push_lit(&mut out, "' not found. Available routines: ");
                    let j = join_strs(available, ", ");
                    push_lit(&mut out, j.as_str());
                }
            },
            RoutineFileError::Io(m) => {
                push_lit(&mut out, m.as_str());
            },
        }
        string_of(&out)
    }
}

// ── rows ────────────────────────────────────────────────────────────────────

/// The first row named `name`.
pub open spec fn first_named(rows: Seq<RowModel>, name: Seq<char>) -> Option<int>
    decreases rows.len(),
{
    if rows.len() == 0 {
        None
    } else if rows[0].0 == Some(name) {
        Some(0)
    } else {
        match first_named(rows.skip(1), name) {
            Some(i) => Some(i + 1),
            None => None,
        }
    }
}

/// The names the rows carry, in order.
pub open spec fn row_names(rows: Seq<RowModel>) -> Seq<Seq<char>>
    decreases rows.len(),
{
    if rows.len() == 0 {
        seq![]
    } else {
        let rest = row_names(rows.drop_last());
        match rows.last().0 {
            Some(n) => rest.push(n),
            None => rest,
        }
    }
}

proof fn lemma_first_named_step(rows: Seq<RowModel>, name: Seq<char>, i: int)
    requires
        0 <= i < rows.len(),
        forall|j: int| 0 <= j < i ==> rows[j].0 != Some(name),
    ensures
        rows[i].0 == Some(name) ==> first_named(rows, name) == Some(i),
    decreases i,
{
    if i > 0 {
        lemma_first_named_step(rows.skip(1), name, i - 1);
    }
}

proof fn lemma_first_named_none(rows: Seq<RowModel>, name: Seq<char>)
    requires
        forall|j: int| 0 <= j < rows.len() ==> rows[j].0 != Some(name),
    ensures
        first_named(rows, name) is None,
    decreases rows.len(),
{
    if rows.len() > 0 {
        lemma_first_named_none(rows.skip(1), name);
    }
}

proof fn lemma_first_named_found(rows: Seq<RowModel>, name: Seq<char>)
    ensures
        first_named(rows, name) matches Some(i) ==> 0 <= i < rows.len() && rows[i].0 == Some(name),
    decreases rows.len(),
{
    if rows.len() > 0 {
        lemma_first_named_found(rows.skip(1), name);
    }
}

fn find_row(rows: &Vec<RawRow>, name: &str) -> (r: Option<usize>)
    ensures
        match r {
            Some(i) => first_named(rows@.map_values(|x: RawRow| row_view(x)), name@) == Some(i as int),
            None => first_named(rows@.map_values(|x: RawRow| row_view(x)), name@) is None,
        },
{
    let ghost rv = rows@.map_values(|x: RawRow| row_view(x));
    let nc = crate::text::chars_of(name);
    let mut i: usize = 0;
    while i < rows.len()
        invariant
            i <= rows@.len(),
            rv == rows@.map_values(|x: RawRow| row_view(x)),
            nc@ == name@,
            forall|j: int| 0 <= j < i ==> rv[j].0 != Some(name@),
        decreases rows@.len() - i,
    {
        assert(rv[i as int] == row_view(rows@[i as int]));
        match &rows[i].0 {
            Some(n) => {
                let c = crate::text::chars_of(n.as_str());
                if crate::text::eq_chars(&c, &nc) {
                    proof {
                        lemma_first_named_step(rv, name@, i as int);
                    }
                    return Some(i);
                }
            },
            None => {},
        }
        i = i + 1;
    }
    proof {
        lemma_first_named_none(rv, name@);
    }
    None
}

fn names_in(rows: &Vec<RawRow>) -> (r: Vec<String>)
    ensures
        texts_of(r@) == row_names(rows@.map_values(|x: RawRow| row_view(x))),
{
    let ghost rv = rows@.map_values(|x: RawRow| row_view(x));
    let mut out: Vec<String> = Vec::new();
    let mut i: usize = 0;
    while i < rows.len()
        invariant
            i <= rows@.len(),
            rv == rows@.map_values(|x: RawRow| row_view(x)),
            texts_of(out@) == row_names(rv.take(i as int)),
        decreases rows@.len() - i,
    {
        proof {
            assert(rv.take(i + 1).drop_last() =~= rv.take(i as int));
            assert(rv.take(i + 1).last() == row_view(rows@[i as int]));
        }
        match &rows[i].0 {
            Some(n) => {
                let ghost before = out@;
                out.push(n.clone());
                assert(texts_of(out@) =~= texts_of(before).push(n@));
            },
            None => {},
        }
        i = i + 1;
    }
    proof {
        assert(rv.take(rows@.len() as int) =~= rv);
    }
    out
}

/// The error for a `routine` key that is not an array of tables.
pub open spec fn not_array_message(path: Seq<char>) -> Seq<char> {
    "'routine' in "@ + path + " is not an array of tables ([[routine]])"@
}

fn not_array_error(path: &str) -> (r: RoutineFileError)
    ensures
        r matches RoutineFileError::Io(m) && m@ == not_array_message(path@),
{
    let mut out: Vec<char> = Vec::new();
    push_lit(&mut out, "'routine' in ");
    push_lit(&mut out, path);
    push_lit(&mut out, " is not an array of tables ([[routine]])");
    RoutineFileError::Io(string_of(&out))
}

/// The unknown-name error, listing the names of the rows.
pub open spec fn unknown_name_error(name: Seq<char>, rows: Seq<RowModel>, e: RoutineFileError) -> bool {
    e matches RoutineFileError::UnknownName { name: n, available } && n@ == name && texts_of(available@) == row_names(rows)
}

// ── editing a document ──────────────────────────────────────────────────────

/// The context a new routine is written with: only a non-empty one.
pub open spec fn written_context(context: Option<&str>) -> Option<Seq<char>> {
    match context {
        Some(c) => if c@.len() > 0 {
            Some(c@)
        } else {
            None
        },
        None => None,
    }
}

/// The row `routine add` appends: name, command and schedule; the context
/// when not empty; `ephemeral = true` only for an ephemeral routine; no
/// `enabled` key.
pub open spec fn added_row(name: Seq<char>, command: Seq<char>, schedule: Seq<char>, context: Option<&str>, ephemeral: bool) -> RowModel {
    (Some(name), Some(command), Some(schedule), written_context(context), if ephemeral {
        Some(true)
    } else {
        None
    }, None)
}

/// A row's `enabled` value after `routine enable` (no key) or
/// `routine disable` (`false`).
pub open spec fn enabled_value(enabled: bool) -> Option<bool> {
    if enabled {
        None
    } else {
        Some(false)
    }
}

/// `routine add` on a document: a schedule the scheduler rejects, a
/// `routine` key that is no array of tables, or a name already used is
/// refused; otherwise the routine is appended (its context only when not
/// empty).
pub fn add_routine_in(
    doc: &mut toml_edit::DocumentMut,
    path: &str,
    name: &str,
    command: &str,
    schedule: &str,
    schedule_ok: bool,
    context: Option<&str>,
    ephemeral: bool,
) -> (r: Result<(), RoutineFileError>)
    ensures
        !schedule_ok ==> (r matches Err(RoutineFileError::BadSchedule(s)) && s@ == schedule@),
        schedule_ok && !routine_is_array(*old(doc)) ==> (r matches Err(RoutineFileError::Io(m)) && m@ == not_array_message(path@)),
        schedule_ok && routine_is_array(*old(doc)) && first_named(routine_rows(*old(doc)), name@) is Some ==> (r matches Err(RoutineFileError::DuplicateName(n)) && n@ == name@),
        schedule_ok && routine_is_array(*old(doc)) && first_named(routine_rows(*old(doc)), name@) is None ==> r is Ok,
        r is Ok ==> routine_rows(*final(doc)) == routine_rows(*old(doc)).push(added_row(name@, command@, schedule@, context, ephemeral)),
        r is Err ==> routine_rows(*final(doc)) == routine_rows(*old(doc)),
{
    if !schedule_ok {
        return Err(RoutineFileError::BadSchedule(schedule.to_owned()));
    }
    if !ensure_routine_array(doc) {
        return Err(not_array_error(path));
    }
    let rows = rows_of(doc);
    if find_row(&rows, name).is_some() {
        return Err(RoutineFileError::DuplicateName(name.to_owned()));
    }
    proof {
        reveal_strlit("name");
        reveal_strlit("command");
        reveal_strlit("schedule");
        reveal_strlit("context");
        reveal_strlit("ephemeral");
        // the keys differ in length, or ("command", "context") in their third character
        assert("name"@.len() == 4 && "command"@.len() == 7 && "schedule"@.len() == 8 && "context"@.len() == 7);
        assert("command"@[2] != "context"@[2]);
    }
    let mut table = new_table();
    set_str(&mut table, "name", name);
    set_str(&mut table, "command", command);
    set_str(&mut table, "schedule", schedule);
    match context {
        Some(c) => {
            if c.unicode_len() > 0 {
                set_str(&mut table, "context", c);
            }
        },
        None => {},
    }
    if ephemeral {
        set_bool(&mut table, "ephemeral", true);
    }
    assert(table_row(table) == added_row(name@, command@, schedule@, context, ephemeral));
    push_table(doc, table);
    Ok(())
}

/// `routine remove` on a document: the first routine with the name goes;
/// an unknown name is refused with the names there are.
pub fn remove_routine_in(doc: &mut toml_edit::DocumentMut, path: &str, name: &str) -> (r: Result<(), RoutineFileError>)
    ensures
        !routine_is_array(*old(doc)) ==> (r matches Err(RoutineFileError::Io(m)) && m@ == not_array_message(path@)),
        routine_is_array(*old(doc)) ==> match first_named(routine_rows(*old(doc)), name@) {
            Some(i) => r is Ok && routine_rows(*final(doc)) == routine_rows(*old(doc)).remove(i),
            None => r matches Err(e) && unknown_name_error(name@, routine_rows(*old(doc)), e)
                && routine_rows(*final(doc)) == routine_rows(*old(doc)),
        },
{
    if !ensure_routine_array(doc) {
        return Err(not_array_error(path));
    }
    let rows = rows_of(doc);
    match find_row(&rows, name) {
        Some(i) => {
            proof {
                lemma_first_named_found(routine_rows(*doc), name@);
            }
            remove_row(doc, i);
            Ok(())
        },
        None => Err(RoutineFileError::UnknownName { name: name.to_owned(), available: names_in(&rows) }),
    }
}

/// `routine enable` / `routine disable` on a document: enabling drops the
/// `enabled` key (enabled is the default), disabling writes
/// `enabled = false`; an unknown name is refused with the names there are.
pub fn set_routine_enabled_in(doc: &mut toml_edit::DocumentMut, path: &str, name: &str, enabled: bool) -> (r: Result<(), RoutineFileError>)
    ensures
        !routine_is_array(*old(doc)) ==> (r matches Err(RoutineFileError::Io(m)) && m@ == not_array_message(path@)),
        routine_is_array(*old(doc)) ==> match first_named(routine_rows(*old(doc)), name@) {
            Some(i) => r is Ok && routine_rows(*final(doc)) == routine_rows(*old(doc)).update(
                i,
                with_enabled(routine_rows(*old(doc))[i], enabled_value(enabled)),
            ),
            None => r matches Err(e) && unknown_name_error(name@, routine_rows(*old(doc)), e)
                && routine_rows(*final(doc)) == routine_rows(*old(doc)),
        },
{
    if !ensure_routine_array(doc) {
        return Err(not_array_error(path));
    }
    let rows = rows_of(doc);
    match find_row(&rows, name) {
        Some(i) => {
            proof {
                lemma_first_named_found(routine_rows(*doc), name@);
            }
            if enabled {
                clear_row_enabled(doc, i);
            } else {
                disable_row(doc, i);
            }
            Ok(())
        },
        None => Err(RoutineFileError::UnknownName { name: name.to_owned(), available: names_in(&rows) }),
    }
}

// ── files ───────────────────────────────────────────────────────────────────

/// What reading `routines.toml` gave.
#[derive(Debug, Clone, PartialEq, Eq)]
pub enum FileRead {
    /// Its text.
    Text(String),
    /// There is no such file.
    NotFound,
    /// Reading failed, with the error's text.
    Failed(String),
}

/// The document to edit: the parsed text; an empty one for a missing file
/// when that is allowed (`routine add`); otherwise an error naming the file.
pub fn read_doc(path: &str, read: FileRead, missing_ok: bool) -> (r: Result<toml_edit::DocumentMut, RoutineFileError>)
    ensures
        read == FileRead::NotFound && missing_ok ==> (r matches Ok(d) && routine_is_array(d) && routine_rows(d) == Seq::<RowModel>::empty()),
        read == FileRead::NotFound && !missing_ok ==> (r matches Err(RoutineFileError::Io(m)) && m@ == "no "@ + path@
            + " found — nothing to modify. Run `plexi routine add` first."@),
        read matches FileRead::Failed(e) ==> (r matches Err(RoutineFileError::Io(m)) && m@ == "could not read "@ + path@
            + ": "@ + e@),
        read matches FileRead::Text(t) ==> match toml_parse_error(t@) {
            None => r matches Ok(d) && routine_rows(d) == text_routine_rows(t@) && routine_is_array(d) == text_routine_is_array(t@),
            Some(x) => r matches Err(RoutineFileError::Io(m)) && m@ == "failed to parse "@ + path@ + ": "@ + x,
        },
{
    match read {
        FileRead::Text(t) => match parse_document(t.as_str()) {
            Ok(d) => Ok(d),
            Err(e) => {
                let mut out: Vec<char> = Vec::new();
                push_lit(&mut out, "failed to parse ");
                push_lit(&mut out, path);
                push_lit(&mut out, ": ");
                push_lit(&mut out, e.as_str());
                Err(RoutineFileError::Io(string_of(&out)))
            },
        },
        FileRead::NotFound => {
            if missing_ok {
                Ok(new_document())
            } else {
                let mut out: Vec<char> = Vec::new();
                push_lit(&mut out, "no ");
                push_lit(&mut out, path);
                push_lit(&mut out, " found — nothing to modify. Run `plexi routine add` first.");
                Err(RoutineFileError::Io(string_of(&out)))
            }
        },
        FileRead::Failed(e) => {
            let mut out: Vec<char> = Vec::new();
            push_lit(&mut out, "could not read ");
            push_lit(&mut out, path);
            push_lit(&mut out, ": ");
            push_lit(&mut out, e.as_str());
            Err(RoutineFileError::Io(string_of(&out)))
        },
    }
}

/// The shape and rows of what was read, when it is a document to edit: a
/// text that parses, or a missing file where that is allowed (empty).
pub open spec fn read_state(read: FileRead, missing_ok: bool) -> Option<(bool, Seq<RowModel>)> {
    match read {
        FileRead::Text(t) => if toml_parse_error(t@) is None {
            Some((text_routine_is_array(t@), text_routine_rows(t@)))
        } else {
            None
        },
        FileRead::NotFound => if missing_ok {
            Some((true, seq![]))
        } else {
            None
        },
        FileRead::Failed(_) => None,
    }
}

/// Text to write whose routine rows are `rows`.
pub open spec fn writes_rows(r: Result<String, RoutineFileError>, rows: Seq<RowModel>) -> bool {
    r matches Ok(out) && toml_parse_error(out@) is None && text_routine_rows(out@) == rows
}

/// `routine add` on the file's contents: the schedule is checked before
/// anything is read; a missing file starts empty.  `Ok` holds the text to
/// write.
pub fn add_routine_to_file(
    path: &str,
    read: FileRead,
    name: &str,
    command: &str,
    schedule: &str,
    schedule_ok: bool,
    context: Option<&str>,
    ephemeral: bool,
) -> (r: Result<String, RoutineFileError>)
    ensures
        !schedule_ok ==> (r matches Err(RoutineFileError::BadSchedule(s)) && s@ == schedule@),
        schedule_ok && read == FileRead::NotFound ==> r is Ok,
        schedule_ok ==> match read {
            FileRead::Failed(e) => r matches Err(RoutineFileError::Io(m)) && m@ == "could not read "@ + path@ + ": "@ + e@,
            FileRead::Text(t) => match toml_parse_error(t@) {
                Some(x) => r matches Err(RoutineFileError::Io(m)) && m@ == "failed to parse "@ + path@ + ": "@ + x,
                None => true,
            },
            FileRead::NotFound => true,
        },
        schedule_ok ==> match read_state(read, true) {
            Some((a, rows)) => if !a {
                r matches Err(RoutineFileError::Io(m)) && m@ == not_array_message(path@)
            } else if first_named(rows, name@) is Some {
                r matches Err(RoutineFileError::DuplicateName(n)) && n@ == name@
            } else {
                writes_rows(r, rows.push(added_row(name@, command@, schedule@, context, ephemeral)))
            },
            None => true,
        },
{
    if !schedule_ok {
        return Err(RoutineFileError::BadSchedule(schedule.to_owned()));
    }
    let mut doc = match read_doc(path, read, true) {
        Ok(d) => d,
        Err(e) => return Err(e),
    };
    match add_routine_in(&mut doc, path, name, command, schedule, schedule_ok, context, ephemeral) {
        Ok(()) => Ok(document_text(&doc)),
        Err(e) => Err(e),
    }
}

/// `routine remove` on the file's contents; `Ok` holds the text to write.
pub fn remove_routine_from_file(path: &str, read: FileRead, name: &str) -> (r: Result<String, RoutineFileError>)
    ensures
        read == FileRead::NotFound ==> (r matches Err(RoutineFileError::Io(m)) && m@ == "no "@ + path@
            + " found — nothing to modify. Run `plexi routine add` first."@),
        match read {
            FileRead::Failed(e) => r matches Err(RoutineFileError::Io(m)) && m@ == "could not read "@ + path@ + ": "@ + e@,
            FileRead::Text(t) => match toml_parse_error(t@) {
                Some(x) => r matches Err(RoutineFileError::Io(m)) && m@ == "failed to parse "@ + path@ + ": "@ + x,
                None => true,
            },
            FileRead::NotFound => true,
        },
        match read_state(read, false) {
            Some((a, rows)) => if !a {
                r matches Err(RoutineFileError::Io(m)) && m@ == not_array_message(path@)
            } else {
                match first_named(rows, name@) {
                    Some(i) => writes_rows(r, rows.remove(i)),
                    None => r matches Err(e) && unknown_name_error(name@, rows, e),
                }
            },
            None => true,
        },
{
    let mut doc = match read_doc(path, read, false) {
        Ok(d) => d,
        Err(e) => return Err(e),
    };
    match remove_routine_in(&mut doc, path, name) {
        Ok(()) => Ok(document_text(&doc)),
        Err(e) => Err(e),
    }
}

/// `routine enable` / `routine disable` on the file's contents; `Ok` holds
/// the text to write.
pub fn set_routine_enabled_in_file(path: &str, read: FileRead, name: &str, enabled: bool) -> (r: Result<String, RoutineFileError>)
    ensures
        read == FileRead::NotFound ==> (r matches Err(RoutineFileError::Io(m)) && m@ == "no "@ + path@
            + " found — nothing to modify. Run `plexi routine add` first."@),
        match read {
            FileRead::Failed(e) => r matches Err(RoutineFileError::Io(m)) && m@ == "could not read "@ + path@ + ": "@ + e@,
            FileRead::Text(t) => match toml_parse_error(t@) {
                Some(x) => r matches Err(RoutineFileError::Io(m)) && m@ == "failed to parse "@ + path@ + ": "@ + x,
                None => true,
            },
            FileRead::NotFound => true,
        },
        match read_state(read, false) {
            Some((a, rows)) => if !a {
                r matches Err(RoutineFileError::Io(m)) && m@ == not_array_message(path@)
            } else {
                match first_named(rows, name@) {
                    Some(i) => writes_rows(r, rows.update(i, with_enabled(rows[i], enabled_value(enabled)))),
                    None => r matches Err(e) && unknown_name_error(name@, rows, e),
                }
            },
            None => true,
        },
{
    let mut doc = match read_doc(path, read, false) {
        Ok(d) => d,
        Err(e) => return Err(e),
    };
    match set_routine_enabled_in(&mut doc, path, name, enabled) {
        Ok(()) => Ok(document_text(&doc)),
        Err(e) => Err(e),
    }
}

// ── laws ────────────────────────────────────────────────────────────────────

/// Adding a routine under a new name and then removing that name leaves
/// the rows as they were, whatever else the added row carries.
pub proof fn lemma_add_then_remove(rows: Seq<RowModel>, added: RowModel, name: Seq<char>)
    requires
        first_named(rows, name) is None,
        added.0 == Some(name),
    ensures
        first_named(rows.push(added), name) == Some(rows.len() as int),
        rows.push(added).remove(rows.len() as int) == rows,
    decreases rows.len(),
{
    let pushed = rows.push(added);
    if rows.len() > 0 {
        lemma_add_then_remove(rows.skip(1), added, name);
        assert(pushed.skip(1) =~= rows.skip(1).push(added));
    }
    assert(pushed.remove(rows.len() as int) =~= rows);
}

/// Disabling then enabling a routine leaves it as it was before, when it
/// had no `enabled` key: as a routine that was never disabled.
pub proof fn lemma_disable_then_enable(rows: Seq<RowModel>, i: int)
    requires
        0 <= i < rows.len(),
    ensures
        ({
            let disabled = rows.update(i, with_enabled(rows[i], enabled_value(false)));
            disabled.update(i, with_enabled(disabled[i], enabled_value(true)))
        }) == rows.update(i, with_enabled(rows[i], None)),
        rows[i].5 is None ==> ({
            let disabled = rows.update(i, with_enabled(rows[i], enabled_value(false)));
            disabled.update(i, with_enabled(disabled[i], enabled_value(true)))
        }) == rows,
{
    let disabled = rows.update(i, with_enabled(rows[i], enabled_value(false)));
    assert(disabled.update(i, with_enabled(disabled[i], enabled_value(true))) =~= rows.update(i, with_enabled(rows[i], None)));
    if rows[i].5 is None {
        assert(rows.update(i, with_enabled(rows[i], None)) =~= rows);
    }
}

// ── listing and running ─────────────────────────────────────────────────────

/// A configured routine, as the scheduler's configuration holds it.
pub struct RoutineEntry {
    pub name: String,
    pub command: String,
    pub schedule: String,
    pub context: String,
    pub ephemeral: bool,
    pub enabled: bool,
}

/// A routine's line in `plexi routine list`: name padded to 20 characters,
/// schedule to 30, when it next fires, its context (the active one when
/// empty), and its ephemeral and disabled marks.
pub open spec fn spec_routine_line(r: RoutineEntry, next: Seq<char>) -> Seq<char> {
    "  "@ + pad_right(r.name@, 20) + " "@ + pad_right(r.schedule@, 30) + " next: "@ + next + "  context: "@
        + (if r.context@.len() == 0 {
        "(active context)"@
    } else {
        r.context@
    }) + (if r.ephemeral {
        " [ephemeral]"@
    } else {
        ""@
    }) + (if r.enabled {
        ""@
    } else {
        " [disabled]"@
    })
}

pub fn routine_line(r: &RoutineEntry, next: &str) -> (out: String)
    ensures
        out@ == spec_routine_line(*r, next@),
{
    let mut m: Vec<char> = Vec::new();
    push_lit(&mut m, "  ");
    let n = pad_right_of(r.name.as_str(), 20);
    push_all(&mut m, &n);
    push_lit(&mut m, " ");
    let sc = pad_right_of(r.schedule.as_str(), 30);
    push_all(&mut m, &sc);
    push_lit(&mut m, " next: ");
    push_lit(&mut m, next);
    push_lit(&mut m, "  context: ");
    let cc = chars_of(r.context.as_str());
    if cc.len() == 0 {
        push_lit(&mut m, "(active context)");
    } else {
        push_lit(&mut m, r.context.as_str());
    }
    let ghost before_eph = m@;
    if r.ephemeral {
        push_lit(&mut m, " [ephemeral]");
    } else {
        proof {
            reveal_strlit("");
        }
        assert(m@ =~= before_eph + ""@);
    }
    let ghost before_dis = m@;
    if r.enabled {
        proof {
            reveal_strlit("");
        }
        assert(m@ =~= before_dis + ""@);
    } else {
        push_lit(&mut m, " [disabled]");
    }
    string_of(&m)
}

/// What `plexi routine list` prints for the routines of a file: a heading
/// and one line per routine, each with when it next fires (one description
/// per routine, in order); a note when the file defines none.
pub open spec fn spec_routine_list(routines: Seq<RoutineEntry>, nexts: Seq<Seq<char>>, file: Seq<char>) -> Seq<Seq<char>> {
    if routines.len() == 0 {
        seq!["No routines defined in "@ + file + "."@]
    } else {
        seq!["Routines:"@] + Seq::new(routines.len(), |i: int| spec_routine_line(routines[i], nexts[i]))
    }
}

pub fn routine_list_lines(routines: &Vec<RoutineEntry>, nexts: &Vec<String>, file: &str) -> (r: Vec<String>)
    requires
        nexts@.len() == routines@.len(),
    ensures
        texts_of(r@) == spec_routine_list(routines@, texts_of(nexts@), file@),
{
    let mut out: Vec<String> = Vec::new();
    if routines.len() == 0 {
        let mut m: Vec<char> = Vec::new();
        push_lit(&mut m, "No routines defined in ");
        push_lit(&mut m, file);
        push_lit(&mut m, ".");
        out.push(string_of(&m));
        assert(texts_of(out@) =~= spec_routine_list(routines@, texts_of(nexts@), file@));
        return out;
    }
    out.push("Routines:".to_owned());
    let ghost nv = texts_of(nexts@);
    let mut i: usize = 0;
    while i < routines.len()
        invariant
            i <= routines@.len(),
            nexts@.len() == routines@.len(),
            nv == texts_of(nexts@),
            texts_of(out@) == seq!["Routines:"@] + Seq::new(i as nat, |k: int| spec_routine_line(routines@[k], nv[k])),
        decreases routines@.len() - i,
    {
        let ghost before = texts_of(out@);
        out.push(routine_line(&routines[i], nexts[i].as_str()));
        assert(nv[i as int] == nexts@[i as int]@);
        assert(texts_of(out@) =~= before.push(spec_routine_line(routines@[i as int], nv[i as int])));
        assert(texts_of(out@) =~= seq!["Routines:"@] + Seq::new((i + 1) as nat, |k: int| spec_routine_line(routines@[k], nv[k])));
        i = i + 1;
    }
    out
}

pub open spec fn routine_names(routines: Seq<RoutineEntry>) -> Seq<Seq<char>> {
    routines.map_values(|r: RoutineEntry| r.name@)
}

/// The first routine with a name.
pub open spec fn first_routine(routines: Seq<RoutineEntry>, name: Seq<char>) -> Option<int>
    decreases routines.len(),
{
    if routines.len() == 0 {
        None
    } else if routines[0].name@ == name {
        Some(0)
    } else {
        match first_routine(routines.skip(1), name) {
            Some(i) => Some(i + 1),
            None => None,
        }
    }
}

/// What `plexi routine run` does with a name.
pub enum RoutineRun {
    /// Open a pane running the command, in the routine's context when it
    /// names one.
    Dispatch { command: String, context: Option<String>, ephemeral: bool },
    /// The messages for a name no routine has.
    NotFound(Vec<String>),
    /// The message for a disabled routine fired without `--force`.
    Disabled(String),
}

pub open spec fn routine_run_view(r: RoutineRun) -> (int, Seq<char>, Option<Seq<char>>, bool, Seq<Seq<char>>) {
    match r {
        RoutineRun::Dispatch { command, context, ephemeral } => (0, command@, opt_text(context), ephemeral, seq![]),
        RoutineRun::NotFound(lines) => (1, seq![], None, false, texts_of(lines@)),
        RoutineRun::Disabled(m) => (2, seq![], None, false, seq![m@]),
    }
}

/// The first routine with the name runs its command, in its context when
/// that is not empty; a disabled one only with `force`.  A name no routine
/// has is an error, followed by the names there are when there are any.
pub open spec fn spec_routine_run(routines: Seq<RoutineEntry>, name: Seq<char>, force: bool, file: Seq<char>) -> (int, Seq<char>, Option<Seq<char>>, bool, Seq<Seq<char>>) {
    match first_routine(routines, name) {
        None => (
            1,
            seq![],
            None,
            false,
            seq!["routine '"@ + name + "' not found in "@ + file] + if routines.len() == 0 {
                Seq::<Seq<char>>::empty()
            } else {
                seq!["Available routines: "@ + join_with(routine_names(routines), ", "@)]
            },
        ),
        Some(i) => {
            let r = routines[i];
            if !r.enabled && !force {
                (
                    2,
                    seq![],
                    None,
                    false,
                    seq!["routine '"@ + name + "' is disabled — run `plexi routine enable "@ + name
                        + "` first, or pass --force to fire it anyway"@],
                )
            } else {
                (0, r.command@, if r.context@.len() == 0 {
                    None
                } else {
                    Some(r.context@)
                }, r.ephemeral, seq![])
            }
        },
    }
}

proof fn lemma_first_routine_at(routines: Seq<RoutineEntry>, name: Seq<char>, i: int)
    requires
        0 <= i < routines.len(),
        forall|j: int| 0 <= j < i ==> (#[trigger] routines[j]).name@ != name,
    ensures
        routines[i].name@ == name ==> first_routine(routines, name) == Some(i),
        routines[i].name@ != name && i == routines.len() - 1 ==> first_routine(routines, name) is None,
    decreases i,
{
    if i > 0 {
        assert forall|j: int| 0 <= j < i - 1 implies (#[trigger] routines.skip(1)[j]).name@ != name by {
            assert(routines.skip(1)[j] == routines[j + 1]);
        }
        let j0: int = 0;
        assert(routines[j0].name@ != name);
        lemma_first_routine_at(routines.skip(1), name, i - 1);
    } else if routines.len() == 1 {
        assert(routines.skip(1).len() == 0);
        assert(first_routine(routines.skip(1), name) is None);
    }
}

pub fn routine_run_plan(routines: &Vec<RoutineEntry>, name: &str, force: bool, file: &str) -> (r: RoutineRun)
    ensures
        routine_run_view(r) == spec_routine_run(routines@, name@, force, file@),
{
    let nc = chars_of(name);
    let mut i: usize = 0;
    while i < routines.len()
        invariant
            i <= routines@.len(),
            nc@ == name@,
            forall|j: int| 0 <= j < i ==> (#[trigger] routines@[j]).name@ != name@,
        decreases routines@.len() - i,
    {
        let rc = chars_of(routines[i].name.as_str());
        if eq_chars(&rc, &nc) {
            proof {
                lemma_first_routine_at(routines@, name@, i as int);
            }
            let r = &routines[i];
            if !r.enabled && !force {
                let mut m: Vec<char> = Vec::new();
                push_lit(&mut m, "routine '");
                push_lit(&mut m, name);
                push_lit(&mut m, "' is disabled — run `plexi routine enable ");
                push_lit(&mut m, name);
                push_lit(&mut m, "` first, or pass --force to fire it anyway");
                return RoutineRun::Disabled(string_of(&m));
            }
            let cc = chars_of(r.context.as_str());
            let context = if cc.len() == 0 {
                None
            } else {
                Some(r.context.clone())
            };
            return RoutineRun::Dispatch { command: r.command.clone(), context, ephemeral: r.ephemeral };
        }
        proof {
            lemma_first_routine_at(routines@, name@, i as int);
        }
        i = i + 1;
    }
    proof {
        if routines@.len() == 0 {
            assert(first_routine(routines@, name@) is None);
        } else {
            lemma_first_routine_at(routines@, name@, routines@.len() - 1);
        }
    }
    let mut lines: Vec<String> = Vec::new();
    let mut m: Vec<char> = Vec::new();
    push_lit(&mut m, "routine '");
    push_lit(&mut m, name);
    push_lit(&mut m, "' not found in ");
    push_lit(&mut m, file);
    lines.push(string_of(&m));
    let ghost msg = "routine '"@ + name@ + "' not found in "@ + file@;
    assert(texts_of(lines@) =~= seq![msg]);
    if routines.len() > 0 {
        let mut names: Vec<String> = Vec::new();
        let mut k: usize = 0;
        while k < routines.len()
            invariant
                k <= routines@.len(),
                texts_of(names@) == routine_names(routines@.take(k as int)),
            decreases routines@.len() - k,
        {
            let ghost before = texts_of(names@);
            names.push(routines[k].name.clone());
            assert(texts_of(names@) =~= before.push(routines@[k as int].name@));
            assert(routine_names(routines@.take(k + 1)) =~= routine_names(routines@.take(k as int)).push(routines@[k as int].name@));
            k = k + 1;
        }
        assert(routines@.take(routines@.len() as int) =~= routines@);
        assert(texts_of(names@) == routine_names(routines@));
        let joined = join_strs(&names, ", ");
        let mut a: Vec<char> = Vec::new();
        push_lit(&mut a, "Available routines: ");
        push_lit(&mut a, joined.as_str());
        lines.push(string_of(&a));
        assert(texts_of(lines@) =~= seq![msg] + seq!["Available routines: "@ + join_with(routine_names(routines@), ", "@)]);
    } else {
        assert(texts_of(lines@) =~= seq![msg] + Seq::<Seq<char>>::empty());
    }
    let out = RoutineRun::NotFound(lines);
    out
}

} // verus!
