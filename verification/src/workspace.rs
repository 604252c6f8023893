//! Workspaces and their secrets: where `plexi workspace init` refuses to
//! run, what it reports, which name a secret is stored under, and how the
//! stored secrets are listed.

use vstd::prelude::*;
use crate::text::{opt_text, chars_of, push_lit, starts_with, starts_with_lit, string_of, strip_prefix, strip_prefix_lit, texts_of};

verus! {

/// Whether two paths are equal as `Path`s (component by component).
pub uninterp spec fn paths_equal(a: Seq<char>, b: Seq<char>) -> bool;

/// `Path::eq`.
#[verifier::external_body]
fn same_path(a: &str, b: &str) -> (r: bool)
    ensures
        r == paths_equal(a@, b@),
{
    std::path::Path::new(a) == std::path::Path::new(b)
}

/// The parent `Path::parent` gives for a path.
pub uninterp spec fn parent_of(p: Seq<char>) -> Option<Seq<char>>;

/// `Path::parent` on a UTF-8 path: the path without its final component,
/// none for a root or the empty path; a parent is shorter than the path.
#[verifier::external_body]
pub(crate) fn path_parent(p: &str) -> (r: Option<String>)
    ensures
        opt_text(r) == parent_of(p@),
        r matches Some(q) ==> q@.len() < p@.len(),
{
    match std::path::Path::new(p).parent() {
        Some(q) => Some(q.to_string_lossy().into_owned()),
        None => None,
    }
}

/// The directories a workspace is looked for in, nearest first: `dir` and
/// its ancestors, stopping before the home directory or the root.
pub open spec fn spec_search_dirs(dir: Seq<char>, home: Option<Seq<char>>) -> Seq<Seq<char>>
    decreases dir.len(),
{
    if (home matches Some(h) && paths_equal(dir, h)) || paths_equal(dir, "/"@) {
        seq![]
    } else {
        seq![dir] + match parent_of(dir) {
            Some(p) => if p.len() < dir.len() {
                spec_search_dirs(p, home)
            } else {
                seq![]
            },
            None => seq![],
        }
    }
}

pub fn workspace_search_dirs(dir: &str, home: Option<&str>) -> (r: Vec<String>)
    ensures
        texts_of(r@) == spec_search_dirs(
            dir@,
            match home {
                Some(h) => Some(h@),
                None => None,
            },
        ),
{
    let ghost hv = match home {
        Some(h) => Some(h@),
        None => None::<Seq<char>>,
    };
    let mut out: Vec<String> = Vec::new();
    let mut cur: String = dir.to_owned();
    assert(texts_of(out@) + spec_search_dirs(cur@, hv) =~= spec_search_dirs(dir@, hv));
    loop
        invariant
            hv == match home {
                Some(h) => Some(h@),
                None => None::<Seq<char>>,
            },
            texts_of(out@) + spec_search_dirs(cur@, hv) == spec_search_dirs(dir@, hv),
        decreases cur@.len(),
    {
        let at_home = match home {
            Some(h) => same_path(cur.as_str(), h),
            None => false,
        };
        if at_home || same_path(cur.as_str(), "/") {
            assert(texts_of(out@) =~= spec_search_dirs(dir@, hv));
            return out;
        }
        let ghost before = out@;
        let ghost c = cur@;
        out.push(cur.clone());
        assert(texts_of(out@) =~= texts_of(before).push(c));
        match path_parent(cur.as_str()) {
            Some(p) => {
                assert(texts_of(out@) + spec_search_dirs(p@, hv) =~= texts_of(before) + spec_search_dirs(c, hv));
                cur = p;
            },
            None => {
                assert(texts_of(out@) =~= texts_of(before) + spec_search_dirs(c, hv));
                return out;
            },
        }
    }
}

/// What `plexi app install` prints when no workspace is found.
pub fn no_workspace_install_lines(channel_dir: &str) -> (r: Vec<String>)
    ensures
        texts_of(r@) == seq![
            "Usage: plexi app install <source-spec>[@ref] | plexi app install --pack <path|core>"@,
            "  In a workspace (directory with "@ + channel_dir@ + "/), `plexi app install` applies the manifest."@,
            "  Run `plexi workspace init` to initialize a workspace here."@,
        ],
{
    let mut v: Vec<String> = Vec::new();
    v.push("Usage: plexi app install <source-spec>[@ref] | plexi app install --pack <path|core>".to_owned());
    v.push(concat3("  In a workspace (directory with ", channel_dir, "/), `plexi app install` applies the manifest."));
    v.push("  Run `plexi workspace init` to initialize a workspace here.".to_owned());
    assert(texts_of(v@) =~= seq![
        "Usage: plexi app install <source-spec>[@ref] | plexi app install --pack <path|core>"@,
        "  In a workspace (directory with "@ + channel_dir@ + "/), `plexi app install` applies the manifest."@,
        "  Run `plexi workspace init` to initialize a workspace here."@,
    ]);
    v
}

/// What `plexi app install` prints when the workspace has no `apps.toml`.
pub fn missing_apps_toml_lines(channel_dir: &str, root: &str) -> (r: Vec<String>)
    ensures
        texts_of(r@) == seq![
            "no "@ + channel_dir@ + "/apps.toml found in workspace at "@ + root@,
            "  Declare app dependencies there, then re-run `plexi app install`."@,
            "  Usage: plexi app install <source-spec>[@ref] | plexi app install --pack <path|core>"@,
        ],
{
    let mut first: Vec<char> = Vec::new();
    push_lit(&mut first, "no ");
    push_lit(&mut first, channel_dir);
    push_lit(&mut first, "/apps.toml found in workspace at ");
    push_lit(&mut first, root);
    let mut v: Vec<String> = Vec::new();
    v.push(string_of(&first));
    v.push("  Declare app dependencies there, then re-run `plexi app install`.".to_owned());
    v.push("  Usage: plexi app install <source-spec>[@ref] | plexi app install --pack <path|core>".to_owned());
    assert(texts_of(v@) =~= seq![
        "no "@ + channel_dir@ + "/apps.toml found in workspace at "@ + root@,
        "  Declare app dependencies there, then re-run `plexi app install`."@,
        "  Usage: plexi app install <source-spec>[@ref] | plexi app install --pack <path|core>"@,
    ]);
    v
}

/// `plexi workspace init` refuses the root directory, the home directory,
/// and anything inside a `~/.plexi*` profile directory.
pub open spec fn spec_init_refused(cwd: Seq<char>, home: Option<Seq<char>>) -> bool {
    paths_equal(cwd, "/"@) || match home {
        Some(h) => paths_equal(cwd, h) || starts_with(cwd, h + "/.plexi"@),
        None => false,
    }
}

pub fn workspace_init_refused(cwd: &str, home: Option<&str>) -> (r: bool)
    ensures
        r == spec_init_refused(
            cwd@,
            match home {
                Some(h) => Some(h@),
                None => None,
            },
        ),
{
    if same_path(cwd, "/") {
        return true;
    }
    match home {
        Some(h) => {
            if same_path(cwd, h) {
                return true;
            }
            let mut prefix: Vec<char> = Vec::new();
            push_lit(&mut prefix, h);
            push_lit(&mut prefix, "/.plexi");
            let c = chars_of(cwd);
            let p = string_of(&prefix);
            starts_with_lit(&c, p.as_str())
        },
        None => false,
    }
}

/// What `plexi workspace init` prints when it refuses.
pub fn init_refusal_lines() -> (r: Vec<String>)
    ensures
        texts_of(r@) == seq![
            "error: cannot initialize a workspace in your home or root directory."@,
            "  This would conflict with your Plexi profile (~/.plexi/)."@,
            "  cd into a project directory first."@,
        ],
{
    let mut v: Vec<String> = Vec::new();
    v.push("error: cannot initialize a workspace in your home or root directory.".to_owned());
    v.push("  This would conflict with your Plexi profile (~/.plexi/).".to_owned());
    v.push("  cd into a project directory first.".to_owned());
    assert(texts_of(v@) =~= seq![
        "error: cannot initialize a workspace in your home or root directory."@,
        "  This would conflict with your Plexi profile (~/.plexi/)."@,
        "  cd into a project directory first."@,
    ]);
    v
}

fn concat3(a: &str, b: &str, c: &str) -> (r: String)
    ensures
        r@ == a@ + b@ + c@,
{
    let mut out: Vec<char> = Vec::new();
    push_lit(&mut out, a);
    push_lit(&mut out, b);
    push_lit(&mut out, c);
    string_of(&out)
}

/// What a successful `plexi workspace init` prints, then its tip.
pub open spec fn spec_init_report(cwd: Seq<char>, id: Seq<char>, dir: Seq<char>) -> (Seq<Seq<char>>, Seq<char>) {
    (
        seq![
            "Initialized workspace at "@ + cwd,
            "  workspace id: "@ + id,
            "  channel dir:  "@ + dir + "/"@,
            "  router:       "@ + dir + "/secrets.toml (fallback = true)"@,
            "  apps:         "@ + dir + "/apps.toml (declare app dependencies here)"@,
            "  commands:     "@ + dir + "/commands.toml (run commands with: plexi run)"@,
        ],
        "declare app dependencies in "@ + dir + "/apps.toml, then run `plexi app install`."@,
    )
}

pub fn init_report(cwd: &str, id: &str, channel_dir: &str) -> (r: (Vec<String>, String))
    ensures
        (texts_of(r.0@), r.1@) == spec_init_report(cwd@, id@, channel_dir@),
{
    let mut v: Vec<String> = Vec::new();
    v.push(concat3("Initialized workspace at ", cwd, ""));
    v.push(concat3("  workspace id: ", id, ""));
    v.push(concat3("  channel dir:  ", channel_dir, "/"));
    v.push(concat3("  router:       ", channel_dir, "/secrets.toml (fallback = true)"));
    v.push(concat3("  apps:         ", channel_dir, "/apps.toml (declare app dependencies here)"));
    v.push(concat3("  commands:     ", channel_dir, "/commands.toml (run commands with: plexi run)"));
    let tip = concat3("declare app dependencies in ", channel_dir, "/apps.toml, then run `plexi app install`.");
    proof {
        reveal_strlit("");
        assert(texts_of(v@) =~= spec_init_report(cwd@, id@, channel_dir@).0);
    }
    (v, tip)
}

/// The name `plexi secret set` stores a secret under: the alias when given,
/// else the canonical name; an alias cannot be combined with `--global`.
pub open spec fn spec_secret_target(friendly: Seq<char>, global: bool, alias: Option<Seq<char>>) -> Result<Seq<char>, Seq<Seq<char>>> {
    if global && alias is Some {
        Err(
            seq![
                "error: --alias cannot be combined with --global."@,
                "  Global secrets are always stored under their canonical name."@,
            ],
        )
    } else {
        Ok(
            match alias {
                Some(a) => a,
                None => friendly,
            },
        )
    }
}

pub fn secret_target(friendly: &str, global: bool, alias: Option<&str>) -> (r: Result<String, Vec<String>>)
    ensures
        match r {
            Ok(n) => spec_secret_target(friendly@, global, match alias {
                Some(a) => Some(a@),
                None => None,
            }) == Ok::<Seq<char>, Seq<Seq<char>>>(n@),
            Err(lines) => spec_secret_target(friendly@, global, match alias {
                Some(a) => Some(a@),
                None => None,
            }) == Err::<Seq<char>, Seq<Seq<char>>>(texts_of(lines@)),
        },
{
    if global && alias.is_some() {
        let mut v: Vec<String> = Vec::new();
        v.push("error: --alias cannot be combined with --global.".to_owned());
        v.push("  Global secrets are always stored under their canonical name.".to_owned());
        assert(texts_of(v@) =~= seq![
            "error: --alias cannot be combined with --global."@,
            "  Global secrets are always stored under their canonical name."@,
        ]);
        return Err(v);
    }
    match alias {
        Some(a) => Ok(a.to_owned()),
        None => Ok(friendly.to_owned()),
    }
}

/// The names of the accounts that carry `prefix`, without it, in order.
pub open spec fn names_under(accounts: Seq<Seq<char>>, prefix: Seq<char>) -> Seq<Seq<char>>
    decreases accounts.len(),
{
    if accounts.len() == 0 {
        seq![]
    } else {
        let rest = names_under(accounts.drop_last(), prefix);
        match strip_prefix(accounts.last(), prefix) {
            Some(n) => rest.push("  "@ + n),
            None => rest,
        }
    }
}

fn push_names_under(out: &mut Vec<String>, accounts: &Vec<String>, prefix: &str)
    ensures
        texts_of(final(out)@) == texts_of(old(out)@) + names_under(texts_of(accounts@), prefix@),
{
    let ghost start = texts_of(out@);
    let ghost acc = texts_of(accounts@);
    let mut i: usize = 0;
    while i < accounts.len()
        invariant
            i <= accounts@.len(),
            acc == texts_of(accounts@),
            texts_of(out@) == start + names_under(acc.take(i as int), prefix@),
        decreases accounts@.len() - i,
    {
        proof {
            assert(acc.take(i + 1).drop_last() =~= acc.take(i as int));
            assert(acc.take(i + 1).last() == accounts@[i as int]@);
        }
        let c = chars_of(accounts[i].as_str());
        match strip_prefix_lit(&c, prefix) {
            Some(n) => {
                let mut line: Vec<char> = Vec::new();
                push_lit(&mut line, "  ");
                crate::text::push_all(&mut line, &n);
                let ghost before = out@;
                out.push(string_of(&line));
                assert(texts_of(out@) =~= texts_of(before).push("  "@ + n@));
            },
            None => {},
        }
        i = i + 1;
    }
    proof {
        assert(acc.take(accounts@.len() as int) =~= acc);
    }
}

/// What `plexi secret list` prints: nothing stored is said on stderr;
/// otherwise the workspace's names under its heading, then (after a blank
/// line when both are shown) the user-scope names under theirs.
pub open spec fn spec_secret_list(
    workspace_id: Seq<char>,
    workspace_prefix: Seq<char>,
    user_prefix: Seq<char>,
    workspace_entries: Seq<Seq<char>>,
    user_entries: Seq<Seq<char>>,
) -> (Seq<Seq<char>>, Seq<Seq<char>>) {
    if workspace_entries.len() == 0 && user_entries.len() == 0 {
        (seq![], seq!["No secrets stored."@])
    } else {
        let ws: Seq<Seq<char>> = if workspace_entries.len() > 0 {
            seq!["Workspace ("@ + workspace_id + "):"@] + names_under(workspace_entries, workspace_prefix)
        } else {
            seq![]
        };
        let us: Seq<Seq<char>> = if user_entries.len() > 0 {
            (if workspace_entries.len() > 0 {
                seq![Seq::<char>::empty()]
            } else {
                seq![]
            }) + seq!["User scope:"@] + names_under(user_entries, user_prefix)
        } else {
            seq![]
        };
        (ws + us, seq![])
    }
}

pub fn secret_list_lines(
    workspace_id: &str,
    workspace_prefix: &str,
    user_prefix: &str,
    workspace_entries: &Vec<String>,
    user_entries: &Vec<String>,
) -> (r: (Vec<String>, Vec<String>))
    ensures
        (texts_of(r.0@), texts_of(r.1@)) == spec_secret_list(
            workspace_id@,
            workspace_prefix@,
            user_prefix@,
            texts_of(workspace_entries@),
            texts_of(user_entries@),
        ),
{
    let mut out: Vec<String> = Vec::new();
    let mut err: Vec<String> = Vec::new();
    if workspace_entries.len() == 0 && user_entries.len() == 0 {
        err.push("No secrets stored.".to_owned());
        assert(texts_of(err@) =~= seq!["No secrets stored."@]);
        assert(texts_of(out@) =~= Seq::<Seq<char>>::empty());
        return (out, err);
    }
    assert(texts_of(out@) =~= Seq::<Seq<char>>::empty());
    if workspace_entries.len() > 0 {
        let ghost before = out@;
        out.push(concat3("Workspace (", workspace_id, "):"));
        assert(texts_of(out@) =~= texts_of(before).push("Workspace ("@ + workspace_id@ + "):"@));
        push_names_under(&mut out, workspace_entries, workspace_prefix);
    }
    let ghost mid = texts_of(out@);
    if user_entries.len() > 0 {
        if workspace_entries.len() > 0 {
            let ghost before = out@;
            out.push(String::new());
            assert(texts_of(out@) =~= texts_of(before).push(Seq::<char>::empty()));
        }
        let ghost before = out@;
        out.push("User scope:".to_owned());
        assert(texts_of(out@) =~= texts_of(before).push("User scope:"@));
        push_names_under(&mut out, user_entries, user_prefix);
    }
    proof {
        let want = spec_secret_list(
            workspace_id@,
            workspace_prefix@,
            user_prefix@,
            texts_of(workspace_entries@),
            texts_of(user_entries@),
        );
        assert(texts_of(out@) =~= want.0);
    }
    assert(texts_of(err@) =~= Seq::<Seq<char>>::empty());
    (out, err)
}

/// The error when no workspace is found at or above the directory.
pub fn no_workspace_message(channel_dir: &str, cwd: &str) -> (r: String)
    ensures
        r@ == "no "@ + channel_dir@ + "/ workspace found at or above "@ + cwd@ + ".\nRun `plexi workspace init` first."@,
{
    let mut out: Vec<char> = Vec::new();
    push_lit(&mut out, "no ");
    push_lit(&mut out, channel_dir);
    push_lit(&mut out, "/ workspace found at or above ");
    push_lit(&mut out, cwd);
    push_lit(&mut out, ".\nRun `plexi workspace init` first.");
    string_of(&out)
}

/// The error when a workspace directory has no `workspace.toml`.
pub fn missing_workspace_toml_message(channel_dir: &str, root: &str) -> (r: String)
    ensures
        r@ == channel_dir@ + "/ exists at "@ + root@ + " but workspace.toml is missing.\nRun `plexi workspace init` to create it."@,
{
    let mut out: Vec<char> = Vec::new();
    push_lit(&mut out, channel_dir);
    push_lit(&mut out, "/ exists at ");
    push_lit(&mut out, root);
    push_lit(&mut out, " but workspace.toml is missing.\nRun `plexi workspace init` to create it.");
    string_of(&out)
}


// ── storing a secret ────────────────────────────────────────────────────────

/// An empty value is refused: nothing is stored.
pub fn secret_value_error(value: &str) -> (r: Option<String>)
    ensures
        opt_text(r) == if value@.len() == 0 {
            Some("error: empty value, nothing stored"@)
        } else {
            None
        },
{
    let c = chars_of(value);
    if c.len() == 0 {
        Some("error: empty value, nothing stored".to_owned())
    } else {
        None
    }
}

/// The error when `--from-env` names a variable that is not set.
pub fn env_secret_missing(friendly: &str) -> (r: String)
    ensures
        r@ == "error: env var "@ + friendly@ + " is not set"@,
{
    let mut m = chars_of("error: env var ");
    push_lit(&mut m, friendly);
    push_lit(&mut m, " is not set");
    string_of(&m)
}

/// The account a global secret is stored under: `plexi:user:<name>`.
pub fn user_account(name: &str) -> (r: String)
    ensures
        r@ == "plexi:user:"@ + name@,
{
    let mut m = chars_of("plexi:user:");
    push_lit(&mut m, name);
    string_of(&m)
}

/// What `plexi secret set` reports once the store was written (or not).
pub struct SecretReport {
    pub code: i32,
    pub stdout: Vec<String>,
    pub stderr: Vec<String>,
    pub tip: Option<String>,
}

pub open spec fn secret_report_view(r: SecretReport) -> (i32, Seq<Seq<char>>, Seq<Seq<char>>, Option<Seq<char>>) {
    (r.code, texts_of(r.stdout@), texts_of(r.stderr@), opt_text(r.tip))
}

pub open spec fn reference_tip(friendly: Seq<char>) -> Seq<char> {
    "reference '"@ + friendly + "' in commands.toml under `[secrets] required = [\""@ + friendly + "\"]`."@
}

fn one_line(t: &Vec<char>) -> (r: Vec<String>)
    ensures
        texts_of(r@) == seq![t@],
{
    let mut v: Vec<String> = Vec::new();
    v.push(string_of(t));
    assert(texts_of(v@) =~= seq![t@]);
    v
}

fn no_lines() -> (r: Vec<String>)
    ensures
        texts_of(r@) == Seq::<Seq<char>>::empty(),
{
    let v: Vec<String> = Vec::new();
    assert(texts_of(v@) =~= Seq::<Seq<char>>::empty());
    v
}

fn reference_tip_text(friendly: &str) -> (r: String)
    ensures
        r@ == reference_tip(friendly@),
{
    let mut t = chars_of("reference '");
    push_lit(&mut t, friendly);
    push_lit(&mut t, "' in commands.toml under `[secrets] required = [\"");
    push_lit(&mut t, friendly);
    push_lit(&mut t, "\"]`.");
    string_of(&t)
}

/// A global secret: stored under `plexi:user:<effective>` with a tip on how
/// to reference it, or the store's error.
pub open spec fn spec_global_store_report(friendly: Seq<char>, effective: Seq<char>, write: Result<(), Seq<char>>) -> (i32, Seq<Seq<char>>, Seq<Seq<char>>, Option<Seq<char>>) {
    match write {
        Ok(()) => (
            0,
            seq!["Stored '"@ + friendly + "' globally (plexi:user:"@ + effective + ")"@],
            seq![],
            Some(reference_tip(friendly)),
        ),
        Err(e) => (1, seq![], seq!["error: keychain write failed: "@ + e], None),
    }
}

pub fn global_store_report(friendly: &str, effective: &str, write: &Result<(), String>) -> (r: SecretReport)
    ensures
        secret_report_view(r) == spec_global_store_report(friendly@, effective@, match write {
            Ok(()) => Ok(()),
            Err(e) => Err(e@),
        }),
{
    match write {
        Ok(()) => {
            let mut m = chars_of("Stored '");
            push_lit(&mut m, friendly);
            push_lit(&mut m, "' globally (plexi:user:");
            push_lit(&mut m, effective);
            push_lit(&mut m, ")");
            SecretReport { code: 0, stdout: one_line(&m), stderr: no_lines(), tip: Some(reference_tip_text(friendly)) }
        },
        Err(e) => {
            let mut m = chars_of("error: keychain write failed: ");
            push_lit(&mut m, e.as_str());
            SecretReport { code: 1, stdout: no_lines(), stderr: one_line(&m), tip: None }
        },
    }
}

/// A workspace secret: stored for the workspace (on stderr) with a tip
/// naming the route written to `secrets.toml`, or only how to reference it
/// when the route could not be written; or the store's error.
pub open spec fn spec_workspace_store_report(
    friendly: Seq<char>,
    root: Seq<char>,
    id: Seq<char>,
    channel_dir: Seq<char>,
    write: Result<(), Seq<char>>,
    route_written: bool,
) -> (i32, Seq<Seq<char>>, Seq<Seq<char>>, Option<Seq<char>>) {
    match write {
        Ok(()) => (
            0,
            seq![],
            seq!["Stored '"@ + friendly + "' for workspace "@ + root + " ("@ + id + ")"@],
            Some(if route_written {
                "Route written to "@ + channel_dir + "/secrets.toml \u{2014} use in commands.toml: [secrets] required = [\""@ + friendly + "\"]"@
            } else {
                reference_tip(friendly)
            }),
        ),
        Err(e) => (1, seq![], seq!["error: keychain write failed: "@ + e], None),
    }
}

pub fn workspace_store_report(
    friendly: &str,
    root: &str,
    id: &str,
    channel_dir: &str,
    write: &Result<(), String>,
    route_written: bool,
) -> (r: SecretReport)
    ensures
        secret_report_view(r) == spec_workspace_store_report(friendly@, root@, id@, channel_dir@, match write {
            Ok(()) => Ok(()),
            Err(e) => Err(e@),
        }, route_written),
{
    match write {
        Ok(()) => {
            let mut m = chars_of("Stored '");
            push_lit(&mut m, friendly);
            push_lit(&mut m, "' for workspace ");
            push_lit(&mut m, root);
            push_lit(&mut m, " (");
            push_lit(&mut m, id);
            push_lit(&mut m, ")");
            let tip = if route_written {
                let mut t = chars_of("Route written to ");
                push_lit(&mut t, channel_dir);
                push_lit(&mut t, "/secrets.toml \u{2014} use in commands.toml: [secrets] required = [\"");
                push_lit(&mut t, friendly);
                push_lit(&mut t, "\"]");
                string_of(&t)
            } else {
                reference_tip_text(friendly)
            };
            SecretReport { code: 0, stdout: no_lines(), stderr: one_line(&m), tip: Some(tip) }
        },
        Err(e) => {
            let mut m = chars_of("error: keychain write failed: ");
            push_lit(&mut m, e.as_str());
            SecretReport { code: 1, stdout: no_lines(), stderr: one_line(&m), tip: None }
        },
    }
}

/// What `plexi secret set` says outside any workspace.
pub fn no_workspace_secret_lines(friendly: &str) -> (r: Vec<String>)
    ensures
        texts_of(r@) == seq![
            "error: no .plexi/ workspace found in this directory tree."@,
            "  \u{2192} plexi workspace init        (initialize one here, then retry)"@,
            "  \u{2192} plexi secret set --global "@ + friendly@ + "   (set globally \u{2014} requires explicit flag)"@,
        ],
{
    let mut v: Vec<String> = Vec::new();
    v.push("error: no .plexi/ workspace found in this directory tree.".to_owned());
    v.push("  \u{2192} plexi workspace init        (initialize one here, then retry)".to_owned());
    let mut m = chars_of("  \u{2192} plexi secret set --global ");
    push_lit(&mut m, friendly);
    push_lit(&mut m, "   (set globally \u{2014} requires explicit flag)");
    v.push(string_of(&m));
    assert(texts_of(v@) =~= seq![
        "error: no .plexi/ workspace found in this directory tree."@,
        "  \u{2192} plexi workspace init        (initialize one here, then retry)"@,
        "  \u{2192} plexi secret set --global "@ + friendly@ + "   (set globally \u{2014} requires explicit flag)"@,
    ]);
    v
}

} // verus!
