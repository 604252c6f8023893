//! Validating an app directory's `manifest.toml`: the required `[app]`
//! fields, the recommended description, and the report printed for them.

use vstd::prelude::*;
use crate::text::{decimal_chars, decimal, opt_text, push_all, push_lit, string_of, chars_of};

verus! {

/// The `[app]` values of a manifest that validation reads; each is `None`
/// when absent or not a string.  `capabilities` is the array
/// `[app.capabilities].capabilities` (each item `None` when not a string),
/// `None` when absent or not an array.
#[derive(Debug, Clone)]
pub struct ManifestFields {
    pub id: Option<String>,
    pub name: Option<String>,
    pub version: Option<String>,
    pub entry: Option<String>,
    pub description: Option<String>,
    pub capabilities: Option<Vec<Option<String>>>,
}

pub open spec fn opt_items(v: Option<Vec<Option<String>>>) -> Option<Seq<Option<Seq<char>>>> {
    match v {
        Some(items) => Some(items@.map_values(|x: Option<String>| opt_text(x))),
        None => None,
    }
}

/// The `[app]` string values of manifest text (`id`, `name`, `version`,
/// `entry`, `description`) and its capability list, or the parser's
/// message when it is not TOML.
pub uninterp spec fn toml_app_fields(raw: Seq<char>) -> Result<(Option<Seq<char>>, Option<Seq<char>>, Option<Seq<char>>, Option<Seq<char>>, Option<Seq<char>>, Option<Seq<Option<Seq<char>>>>), Seq<char>>;

/// `raw.parse::<toml::Value>()`, then the string values `id`, `name`,
/// `version`, `entry` and `description` of its `app` table and the items of
/// `app.capabilities.capabilities`.
#[verifier::external_body]
pub fn parse_manifest_fields(raw: &str) -> (r: Result<ManifestFields, String>)
    ensures
        match r {
            Ok(f) => toml_app_fields(raw@) == Ok::<(Option<Seq<char>>, Option<Seq<char>>, Option<Seq<char>>, Option<Seq<char>>, Option<Seq<char>>, Option<Seq<Option<Seq<char>>>>), Seq<char>>((opt_text(f.id), opt_text(f.name), opt_text(f.version), opt_text(f.entry), opt_text(f.description), opt_items(f.capabilities))),
            Err(m) => toml_app_fields(raw@) == Err::<(Option<Seq<char>>, Option<Seq<char>>, Option<Seq<char>>, Option<Seq<char>>, Option<Seq<char>>, Option<Seq<Option<Seq<char>>>>), Seq<char>>(m@),
        },
{
    let v: toml::Value = match raw.parse() {
        Ok(v) => v,
        Err(e) => return Err(e.to_string()),
    };
    let a = v.get("app");
    let g = |k: &str| a.and_then(|x| x.get(k)).and_then(|x| x.as_str()).map(str::to_owned);
    let c = a.and_then(|x| x.get("capabilities")?.get("capabilities")?.as_array());
    let capabilities = c.map(|l| l.iter().map(|x| x.as_str().map(str::to_owned)).collect());
    Ok(ManifestFields { id: g("id"), name: g("name"), version: g("version"), entry: g("entry"), description: g("description"), capabilities })
}

/// Whether a field is absent or empty.
pub open spec fn missing(v: Option<Seq<char>>) -> bool {
    match v {
        Some(s) => s.len() == 0,
        None => true,
    }
}

pub open spec fn missing_error(field: Seq<char>) -> Seq<char> {
    "  [app]."@ + field + " is missing or empty"@
}

pub open spec fn with_if(s: Seq<Seq<char>>, cond: bool, x: Seq<char>) -> Seq<Seq<char>> {
    if cond {
        s.push(x)
    } else {
        s
    }
}

/// The errors for the required fields, in the order `id`, `name`,
/// `version`, `entry`.
pub open spec fn spec_field_errors(f: ManifestFields) -> Seq<Seq<char>> {
    let e0 = with_if(seq![], missing(opt_text(f.id)), missing_error("id"@));
    let e1 = with_if(e0, missing(opt_text(f.name)), missing_error("name"@));
    let e2 = with_if(e1, missing(opt_text(f.version)), missing_error("version"@));
    with_if(e2, missing(opt_text(f.entry)), missing_error("entry"@))
}

/// The warning for a missing description.
pub open spec fn spec_field_warnings(f: ManifestFields) -> Seq<Seq<char>> {
    with_if(seq![], missing(opt_text(f.description)), "  [app].description is missing (recommended)"@)
}

pub open spec fn texts(v: Seq<String>) -> Seq<Seq<char>> {
    v.map_values(|s: String| s@)
}

fn is_missing(v: &Option<String>) -> (r: bool)
    ensures
        r == missing(opt_text(*v)),
{
    match v {
        Some(s) => chars_of(s.as_str()).len() == 0,
        None => true,
    }
}

fn push_text(v: &mut Vec<String>, s: String)
    ensures
        texts(final(v)@) == texts(old(v)@).push(s@),
{
    let ghost before = v@;
    v.push(s);
    assert(texts(v@) =~= texts(before).push(s@));
}

fn missing_message(field: &str) -> (r: String)
    ensures
        r@ == missing_error(field@),
{
    let mut out: Vec<char> = Vec::new();
    push_lit(&mut out, "  [app].");
    push_lit(&mut out, field);
    push_lit(&mut out, " is missing or empty");
    string_of(&out)
}

/// The errors and warnings of a manifest's fields.
pub fn field_findings(f: &ManifestFields) -> (r: (Vec<String>, Vec<String>))
    ensures
        texts(r.0@) == spec_field_errors(*f),
        texts(r.1@) == spec_field_warnings(*f),
{
    let mut errors: Vec<String> = Vec::new();
    let mut warnings: Vec<String> = Vec::new();
    assert(texts(errors@) =~= Seq::<Seq<char>>::empty());
    assert(texts(warnings@) =~= Seq::<Seq<char>>::empty());
    if is_missing(&f.id) {
        push_text(&mut errors, missing_message("id"));
    }
    if is_missing(&f.name) {
        push_text(&mut errors, missing_message("name"));
    }
    if is_missing(&f.version) {
        push_text(&mut errors, missing_message("version"));
    }
    if is_missing(&f.entry) {
        push_text(&mut errors, missing_message("entry"));
    }
    if is_missing(&f.description) {
        push_text(&mut warnings, "  [app].description is missing (recommended)".to_owned());
    }
    (errors, warnings)
}

/// The lines printed for an app: a pass line when there is nothing to
/// report; else the errors under a count line, then the warnings under theirs.
pub open spec fn spec_report_lines(id: Seq<char>, errors: Seq<Seq<char>>, warnings: Seq<Seq<char>>) -> Seq<Seq<char>> {
    if errors.len() == 0 && warnings.len() == 0 {
        seq!["✓ "@ + id + " — all checks passed"@]
    } else {
        let e = if errors.len() > 0 {
            seq!["✗ "@ + id + " — "@ + decimal(errors.len()) + " error(s):"@] + errors
        } else {
            seq![]
        };
        let w = if warnings.len() > 0 {
            seq!["⚠ "@ + id + " — "@ + decimal(warnings.len()) + " warning(s):"@] + warnings
        } else {
            seq![]
        };
        e + w
    }
}

fn count_line(mark: &str, id: &str, n: usize, what: &str) -> (r: String)
    ensures
        r@ == mark@ + id@ + " — "@ + decimal(n as nat) + what@,
{
    let mut out: Vec<char> = Vec::new();
    push_lit(&mut out, mark);
    push_lit(&mut out, id);
    push_lit(&mut out, " — ");
    let d = decimal_chars(n as u64);
    push_all(&mut out, &d);
    push_lit(&mut out, what);
    string_of(&out)
}

fn append_texts(out: &mut Vec<String>, items: &Vec<String>)
    ensures
        texts(final(out)@) == texts(old(out)@) + texts(items@),
{
    let ghost start = texts(out@);
    let mut i: usize = 0;
    while i < items.len()
        invariant
            i <= items@.len(),
            texts(out@) == start + texts(items@).take(i as int),
        decreases items@.len() - i,
    {
        push_text(out, items[i].clone());
        assert(texts(items@).take(i + 1) =~= texts(items@).take(i as int).push(items[i as int]@));
        i = i + 1;
    }
    assert(texts(items@).take(items@.len() as int) =~= texts(items@));
}

/// The lines to print for the app `id`.
pub fn report_lines(id: &str, errors: &Vec<String>, warnings: &Vec<String>) -> (r: Vec<String>)
    ensures
        texts(r@) == spec_report_lines(id@, texts(errors@), texts(warnings@)),
{
    let mut out: Vec<String> = Vec::new();
    if errors.len() == 0 && warnings.len() == 0 {
        let mut line: Vec<char> = Vec::new();
        push_lit(&mut line, "✓ ");
        push_lit(&mut line, id);
        push_lit(&mut line, " — all checks passed");
        push_text(&mut out, string_of(&line));
        return out;
    }
    assert(texts(out@) =~= Seq::<Seq<char>>::empty());
    if errors.len() > 0 {
        push_text(&mut out, count_line("✗ ", id, errors.len(), " error(s):"));
        append_texts(&mut out, errors);
    }
    let ghost mid = texts(out@);
    if warnings.len() > 0 {
        push_text(&mut out, count_line("⚠ ", id, warnings.len(), " warning(s):"));
        append_texts(&mut out, warnings);
    }
    proof {
        let e = if errors@.len() > 0 {
            seq!["✗ "@ + id@ + " — "@ + decimal(errors@.len()) + " error(s):"@] + texts(errors@)
        } else {
            seq![]
        };
        assert(mid =~= e);
    }
    assert(texts(out@) =~= spec_report_lines(id@, texts(errors@), texts(warnings@)));
    out
}

/// The exit status of a validation: 1 with errors, else 0.
pub fn exit_code(errors: &Vec<String>) -> (r: i32)
    ensures
        r == if errors@.len() > 0 {
            1i32
        } else {
            0i32
        },
{
    if errors.len() > 0 {
        1
    } else {
        0
    }
}

// ── package files ───────────────────────────────────────────────────────────

/// What `plexi app validate <file.plexipkg>` prints for a valid package:
/// its id, name, version, runtime and entry, its capabilities (`(none)`
/// when it has none), and its file count and size.
pub open spec fn spec_package_lines(
    id: Seq<char>,
    name: Seq<char>,
    version: Seq<char>,
    runtime: Seq<char>,
    entry: Seq<char>,
    capabilities: Seq<Seq<char>>,
    file_count: u64,
    total_size: u64,
) -> Seq<Seq<char>> {
    seq![
        "✓ "@ + id + " — package valid"@,
        "  name:         "@ + name,
        "  version:      "@ + version,
        "  runtime:      "@ + runtime,
        "  entry:        "@ + entry,
        "  capabilities: "@ + if capabilities.len() == 0 {
            "(none)"@
        } else {
            crate::text::join_with(capabilities, ", "@)
        },
        "  files:        "@ + crate::text::decimal(file_count as nat) + " ("@ + crate::text::decimal(total_size as nat)
            + " bytes)"@,
    ]
}

fn line2(a: &str, b: &str) -> (r: String)
    ensures
        r@ == a@ + b@,
{
    let mut out: Vec<char> = Vec::new();
    push_lit(&mut out, a);
    push_lit(&mut out, b);
    string_of(&out)
}

pub fn package_lines(
    id: &str,
    name: &str,
    version: &str,
    runtime: &str,
    entry: &str,
    capabilities: &Vec<String>,
    file_count: u64,
    total_size: u64,
) -> (r: Vec<String>)
    ensures
        crate::text::texts_of(r@) == spec_package_lines(
            id@,
            name@,
            version@,
            runtime@,
            entry@,
            crate::text::texts_of(capabilities@),
            file_count,
            total_size,
        ),
{
    let mut v: Vec<String> = Vec::new();
    let mut first: Vec<char> = Vec::new();
    push_lit(&mut first, "✓ ");
    push_lit(&mut first, id);
    push_lit(&mut first, " — package valid");
    v.push(string_of(&first));
    v.push(line2("  name:         ", name));
    v.push(line2("  version:      ", version));
    v.push(line2("  runtime:      ", runtime));
    v.push(line2("  entry:        ", entry));
    let caps = if capabilities.len() == 0 {
        "(none)".to_owned()
    } else {
        crate::text::join_strs(capabilities, ", ")
    };
    v.push(line2("  capabilities: ", caps.as_str()));
    let mut last: Vec<char> = Vec::new();
    push_lit(&mut last, "  files:        ");
    let a = crate::text::decimal_chars(file_count);
    crate::text::push_all(&mut last, &a);
    push_lit(&mut last, " (");
    let b = crate::text::decimal_chars(total_size);
    crate::text::push_all(&mut last, &b);
    push_lit(&mut last, " bytes)");
    v.push(string_of(&last));
    proof {
        assert(crate::text::texts_of(v@) =~= spec_package_lines(
            id@,
            name@,
            version@,
            runtime@,
            entry@,
            crate::text::texts_of(capabilities@),
            file_count,
            total_size,
        ));
    }
    v
}

/// What it prints when the package is refused.
pub fn package_failure_lines(file: &str, error: &str) -> (r: Vec<String>)
    ensures
        crate::text::texts_of(r@) == seq!["✗ "@ + file@ + " — package validation failed:"@, "  "@ + error@],
{
    let mut first: Vec<char> = Vec::new();
    push_lit(&mut first, "✗ ");
    push_lit(&mut first, file);
    push_lit(&mut first, " — package validation failed:");
    let mut v: Vec<String> = Vec::new();
    v.push(string_of(&first));
    v.push(line2("  ", error));
    assert(crate::text::texts_of(v@) =~= seq!["✗ "@ + file@ + " — package validation failed:"@, "  "@ + error@]);
    v
}


// ── what kind of path is validated ──────────────────────────────────────────

/// What `plexi validate <path>` does with a path: refuse a missing one,
/// validate a package file, refuse another file or a non-directory, or
/// validate an app directory.
pub enum ValidateTarget {
    Refused(String),
    Package,
    AppDir,
}

pub open spec fn validate_target_view(t: ValidateTarget) -> (int, Seq<char>) {
    match t {
        ValidateTarget::Refused(m) => (0, m@),
        ValidateTarget::Package => (1, seq![]),
        ValidateTarget::AppDir => (2, seq![]),
    }
}

/// A missing path, a file without the package extension, and a path that
/// is neither file nor directory are refused, each with its message.
pub open spec fn spec_validate_target(path: Seq<char>, exists: bool, is_file: bool, package_ext: bool, is_dir: bool, ext: Seq<char>) -> (int, Seq<char>) {
    if !exists {
        (0, "validate: path does not exist: "@ + path)
    } else if is_file {
        if package_ext {
            (1, seq![])
        } else {
            (0, "validate: path is not a directory or ."@ + ext + " file: "@ + path)
        }
    } else if !is_dir {
        (0, "validate: path is not a directory: "@ + path)
    } else {
        (2, seq![])
    }
}

pub fn validate_target(path: &str, exists: bool, is_file: bool, package_ext: bool, is_dir: bool, ext: &str) -> (r: ValidateTarget)
    ensures
        validate_target_view(r) == spec_validate_target(path@, exists, is_file, package_ext, is_dir, ext@),
{
    let mut m: Vec<char> = Vec::new();
    if !exists {
        push_lit(&mut m, "validate: path does not exist: ");
        push_lit(&mut m, path);
        return ValidateTarget::Refused(string_of(&m));
    }
    if is_file {
        if package_ext {
            return ValidateTarget::Package;
        }
        push_lit(&mut m, "validate: path is not a directory or .");
        push_lit(&mut m, ext);
        push_lit(&mut m, " file: ");
        push_lit(&mut m, path);
        return ValidateTarget::Refused(string_of(&m));
    }
    if !is_dir {
        push_lit(&mut m, "validate: path is not a directory: ");
        push_lit(&mut m, path);
        return ValidateTarget::Refused(string_of(&m));
    }
    ValidateTarget::AppDir
}

// ── the entry file ──────────────────────────────────────────────────────────

/// What the Python syntax check of a `.py` entry found: it passed, it
/// failed with this stderr, or `python3` could not be run (this error).
pub enum PyCheck {
    Passed,
    Failed(String),
    Unavailable(String),
}

/// The findings for the entry file, as (errors, warnings): none for an
/// empty entry; an error when the file is missing; for a `.py` entry, an
/// error with the checker's trimmed stderr when the syntax check fails and
/// a warning when `python3` is missing.
pub open spec fn spec_entry_findings(entry: Seq<char>, entry_path: Seq<char>, exists: bool, check: PyCheck) -> (Seq<Seq<char>>, Seq<Seq<char>>) {
    if entry.len() == 0 {
        (seq![], seq![])
    } else if !exists {
        (seq!["  entry file not found: "@ + entry_path], seq![])
    } else if crate::text::ends_with(entry, ".py"@) {
        match check {
            PyCheck::Passed => (seq![], seq![]),
            PyCheck::Failed(e) => (seq!["  Python syntax error in "@ + entry + ": "@ + crate::text::trim(e@)], seq![]),
            PyCheck::Unavailable(e) => (seq![], seq!["  python3 not found — skipping syntax check: "@ + e@]),
        }
    } else {
        (seq![], seq![])
    }
}

pub fn entry_findings(entry: &str, entry_path: &str, exists: bool, check: &PyCheck) -> (r: (Vec<String>, Vec<String>))
    ensures
        (texts(r.0@), texts(r.1@)) == spec_entry_findings(entry@, entry_path@, exists, *check),
{
    let mut errors: Vec<String> = Vec::new();
    let mut warnings: Vec<String> = Vec::new();
    assert(texts(errors@) =~= Seq::<Seq<char>>::empty());
    assert(texts(warnings@) =~= Seq::<Seq<char>>::empty());
    let ec = chars_of(entry);
    if ec.len() == 0 {
        return (errors, warnings);
    }
    if !exists {
        let mut m: Vec<char> = Vec::new();
        push_lit(&mut m, "  entry file not found: ");
        push_lit(&mut m, entry_path);
        push_text(&mut errors, string_of(&m));
        return (errors, warnings);
    }
    if crate::text::ends_with_lit(&ec, ".py") {
        match check {
            PyCheck::Passed => {},
            PyCheck::Failed(e) => {
                let mut m: Vec<char> = Vec::new();
                push_lit(&mut m, "  Python syntax error in ");
                push_lit(&mut m, entry);
                push_lit(&mut m, ": ");
                let ecs = chars_of(e.as_str());
                let t = crate::text::trim_chars(&ecs);
                push_all(&mut m, &t);
                push_text(&mut errors, string_of(&m));
            },
            PyCheck::Unavailable(e) => {
                let mut m: Vec<char> = Vec::new();
                push_lit(&mut m, "  python3 not found — skipping syntax check: ");
                push_lit(&mut m, e.as_str());
                push_text(&mut warnings, string_of(&m));
            },
        }
    }
    (errors, warnings)
}


// ── capabilities ────────────────────────────────────────────────────────────

pub open spec fn unknown_capability_error(cap: Seq<char>, valid: Seq<Seq<char>>) -> Seq<char> {
    "  unknown capability: "@ + crate::text::debug_quoted(cap) + " \u{2014} valid capabilities: "@ + crate::text::join_with(valid, ", "@)
}

/// The errors for the capability strings that are not valid, in order
/// (items that are not strings are passed over).
pub open spec fn spec_capability_errors(caps: Seq<Option<Seq<char>>>, valid: Seq<Seq<char>>) -> Seq<Seq<char>>
    decreases caps.len(),
{
    if caps.len() == 0 {
        seq![]
    } else {
        spec_capability_errors(caps.drop_last(), valid) + match caps.last() {
            Some(c) => if valid.contains(c) {
                Seq::<Seq<char>>::empty()
            } else {
                seq![unknown_capability_error(c, valid)]
            },
            None => Seq::<Seq<char>>::empty(),
        }
    }
}

/// The errors for a manifest's capabilities against the valid ones: an
/// unknown capability fails validation.
pub fn capability_errors(caps: &Option<Vec<Option<String>>>, valid: &Vec<String>) -> (r: Vec<String>)
    ensures
        texts(r@) == match opt_items(*caps) {
            Some(items) => spec_capability_errors(items, texts(valid@)),
            None => Seq::<Seq<char>>::empty(),
        },
{
    let mut out: Vec<String> = Vec::new();
    assert(texts(out@) =~= Seq::<Seq<char>>::empty());
    match caps {
        None => out,
        Some(items) => {
            let ghost iv = items@.map_values(|x: Option<String>| opt_text(x));
            let ghost vv = texts(valid@);
            let joined = crate::text::join_strs(valid, ", ");
            assert(crate::text::texts_of(valid@) =~= vv);
            let mut i: usize = 0;
            while i < items.len()
                invariant
                    i <= items@.len(),
                    iv == items@.map_values(|x: Option<String>| opt_text(x)),
                    vv == texts(valid@),
                    vv == crate::text::texts_of(valid@),
                    joined@ == crate::text::join_with(vv, ", "@),
                    texts(out@) == spec_capability_errors(iv.take(i as int), vv),
                decreases items@.len() - i,
            {
                proof {
                    assert(iv.take(i + 1).drop_last() =~= iv.take(i as int));
                    assert(iv.take(i + 1).last() == opt_text(items@[i as int]));
                }
                match &items[i] {
                    Some(c) => {
                        if !crate::text::texts_contain(valid, c.as_str()) {
                            let mut m: Vec<char> = Vec::new();
                            push_lit(&mut m, "  unknown capability: ");
                            let d = crate::text::debug_str(c.as_str());
                            push_all(&mut m, &d);
                            push_lit(&mut m, " \u{2014} valid capabilities: ");
                            push_lit(&mut m, joined.as_str());
                            push_text(&mut out, string_of(&m));
                        } else {
                            assert(texts(out@) =~= texts(out@) + Seq::<Seq<char>>::empty());
                        }
                    },
                    None => {
                        assert(texts(out@) =~= texts(out@) + Seq::<Seq<char>>::empty());
                    },
                }
                i = i + 1;
            }
            assert(iv.take(items@.len() as int) =~= iv);
            out
        },
    }
}

} // verus!
