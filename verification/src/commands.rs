//! User commands: the entries of a workspace's `commands.toml` and the
//! commands the palette lists.

use std::collections::HashMap;
use vstd::prelude::*;
use crate::text::{
    chars_of, eq_chars, join_strs, join_with, opt_text, pad_right, pad_right_of, push_all, push_lit,
    string_of, texts_of,
};
use crate::watch::{insert_sorted, strictly_sorted, strs};

verus! {

/// A parsed `commands.toml`.
pub struct PlexiCommands {
    pub secrets: SecretsConfig,
    pub commands: HashMap<String, CommandEntry>,
}

/// Secrets every command of the workspace needs.
#[derive(Default)]
pub struct SecretsConfig {
    pub required: Vec<String>,
}

/// A command entry: a bare string (`build = "cargo build"`) or a table
/// (`build = { run = "cargo build", description = "..." }`).
pub enum CommandEntry {
    Simple(String),
    Full(CommandDef),
}

/// The table form of a command entry.
pub struct CommandDef {
    pub run: String,
    pub description: Option<String>,
    pub secrets: Vec<String>,
}

impl CommandEntry {
    /// The shell snippet the command runs.
    pub fn run(&self) -> (r: &str)
        ensures
            r@ == match self {
                CommandEntry::Simple(s) => s@,
                CommandEntry::Full(d) => d.run@,
            },
    {
        match self {
            CommandEntry::Simple(s) => s.as_str(),
            CommandEntry::Full(d) => d.run.as_str(),
        }
    }

    /// The description; a bare string has none.
    pub fn description(&self) -> (r: Option<&str>)
        ensures
            match r {
                Some(t) => match self {
                    CommandEntry::Full(d) => d.description matches Some(x) && x@ == t@,
                    CommandEntry::Simple(_) => false,
                },
                None => match self {
                    CommandEntry::Full(d) => d.description is None,
                    CommandEntry::Simple(_) => true,
                },
            },
    {
        match self {
            CommandEntry::Simple(_) => None,
            CommandEntry::Full(d) => match &d.description {
                Some(t) => Some(t.as_str()),
                None => None,
            },
        }
    }

    /// The secrets the command needs; a bare string needs none.
    pub fn secrets(&self) -> (r: &[String])
        ensures
            r@ == match self {
                CommandEntry::Simple(_) => Seq::<String>::empty(),
                CommandEntry::Full(d) => d.secrets@,
            },
    {
        match self {
            CommandEntry::Simple(_) => {
                let empty: &[String] = &[];
                assert(empty@ =~= Seq::<String>::empty());
                empty
            },
            CommandEntry::Full(d) => d.secrets.as_slice(),
        }
    }
}

/// Where a palette command comes from.
#[derive(Debug, Clone, Copy, PartialEq, Eq, Structural)]
pub enum UserCommandScope {
    /// The focused workspace's `commands.toml`.
    Workspace,
    /// A global profile script.
    Global,
}

/// A user command as the palette lists it.
#[derive(Debug, Clone)]
pub struct ResolvedUserCommand {
    pub name: String,
    /// The shell snippet of a `commands.toml` entry; none for a global script.
    pub run: Option<String>,
    pub description: Option<String>,
    pub scope: UserCommandScope,
}

/// The palette entry of a workspace command.
pub fn workspace_command(name: &String, entry: &CommandEntry) -> (r: ResolvedUserCommand)
    ensures
        r.name@ == name@,
        opt_text(r.run) == Some(
            match entry {
                CommandEntry::Simple(s) => s@,
                CommandEntry::Full(d) => d.run@,
            },
        ),
        opt_text(r.description) == match entry {
            CommandEntry::Simple(_) => None,
            CommandEntry::Full(d) => opt_text(d.description),
        },
        r.scope == UserCommandScope::Workspace,
{
    let description = match entry.description() {
        Some(t) => Some(t.to_owned()),
        None => None,
    };
    ResolvedUserCommand {
        name: name.clone(),
        run: Some(entry.run().to_owned()),
        description,
        scope: UserCommandScope::Workspace,
    }
}

/// The palette entry of a global script.
pub fn global_command(name: String) -> (r: ResolvedUserCommand)
    ensures
        r.name == name,
        r.run is None,
        r.description is None,
        r.scope == UserCommandScope::Global,
{
    ResolvedUserCommand { name, run: None, description: None, scope: UserCommandScope::Global }
}


pub open spec fn texts(v: Seq<String>) -> Seq<Seq<char>> {
    v.map_values(|s: String| s@)
}

/// The secrets a command needs: the workspace's, in order, then the
/// command's own that are not already listed.
pub open spec fn merged_keys(global: Seq<Seq<char>>, own: Seq<Seq<char>>) -> Seq<Seq<char>>
    decreases own.len(),
{
    if own.len() == 0 {
        global
    } else {
        let m = merged_keys(global, own.drop_last());
        if m.contains(own.last()) {
            m
        } else {
            m.push(own.last())
        }
    }
}

fn texts_contain(v: &Vec<String>, k: &String) -> (r: bool)
    ensures
        r == texts(v@).contains(k@),
{
    let kc = chars_of(k.as_str());
    let mut i: usize = 0;
    while i < v.len()
        invariant
            i <= v@.len(),
            kc@ == k@,
            forall|j: int| 0 <= j < i ==> texts(v@)[j] != k@,
        decreases v@.len() - i,
    {
        let vc = chars_of(v[i].as_str());
        if eq_chars(&vc, &kc) {
            assert(texts(v@)[i as int] == k@);
            return true;
        }
        i = i + 1;
    }
    false
}

/// The secret keys `plexi run` resolves for a command.
pub fn required_secret_keys(global: &Vec<String>, own: &[String]) -> (r: Vec<String>)
    ensures
        texts(r@) == merged_keys(texts(global@), texts(own@)),
{
    let mut out: Vec<String> = Vec::new();
    let mut i: usize = 0;
    while i < global.len()
        invariant
            i <= global@.len(),
            texts(out@) == texts(global@).take(i as int),
        decreases global@.len() - i,
    {
        let ghost before = out@;
        out.push(global[i].clone());
        assert(texts(out@) =~= texts(before).push(global@[i as int]@));
        assert(texts(global@).take(i + 1) =~= texts(global@).take(i as int).push(global@[i as int]@));
        i = i + 1;
    }
    assert(texts(global@).take(global@.len() as int) =~= texts(global@));
    let mut j: usize = 0;
    while j < own.len()
        invariant
            j <= own@.len(),
            texts(out@) == merged_keys(texts(global@), texts(own@).take(j as int)),
        decreases own@.len() - j,
    {
        proof {
            assert(texts(own@).take(j + 1).drop_last() =~= texts(own@).take(j as int));
        }
        if !texts_contain(&out, &own[j]) {
            let ghost before = out@;
            out.push(own[j].clone());
            assert(texts(out@) =~= texts(before).push(own@[j as int]@));
        }
        j = j + 1;
    }
    assert(texts(own@).take(own@.len() as int) =~= texts(own@));
    out
}

/// The lines printed when secrets are missing.
pub open spec fn spec_missing_lines(missing: Seq<Seq<char>>) -> Seq<Seq<char>> {
    seq!["error: missing required secrets:"@] + missing.map_values(|k: Seq<char>| "  - "@ + k) + seq![
        Seq::<char>::empty(),
        "Set them with:"@,
    ] + missing.map_values(|k: Seq<char>| "  plexi secret set "@ + k)
}

fn prefixed(prefix: &str, k: &String) -> (r: String)
    ensures
        r@ == prefix@ + k@,
{
    let mut out: Vec<char> = Vec::new();
    push_lit(&mut out, prefix);
    push_lit(&mut out, k.as_str());
    string_of(&out)
}

fn push_prefixed_all(out: &mut Vec<String>, prefix: &str, keys: &Vec<String>)
    ensures
        texts(final(out)@) == texts(old(out)@) + texts(keys@).map_values(|k: Seq<char>| prefix@ + k),
{
    let ghost start = texts(out@);
    let mut i: usize = 0;
    while i < keys.len()
        invariant
            i <= keys@.len(),
            texts(out@) == start + texts(keys@).take(i as int).map_values(|k: Seq<char>| prefix@ + k),
        decreases keys@.len() - i,
    {
        let ghost before = out@;
        out.push(prefixed(prefix, &keys[i]));
        assert(texts(out@) =~= texts(before).push(prefix@ + keys@[i as int]@));
        assert(texts(keys@).take(i + 1).map_values(|k: Seq<char>| prefix@ + k) =~= texts(keys@).take(
            i as int,
        ).map_values(|k: Seq<char>| prefix@ + k).push(prefix@ + keys@[i as int]@));
        i = i + 1;
    }
    assert(texts(keys@).take(keys@.len() as int) =~= texts(keys@));
}

/// What `plexi run` prints about missing secrets.
pub fn missing_secrets_lines(missing: &Vec<String>) -> (r: Vec<String>)
    ensures
        texts(r@) == spec_missing_lines(texts(missing@)),
{
    let mut out: Vec<String> = Vec::new();
    out.push("error: missing required secrets:".to_owned());
    assert(texts(out@) =~= seq!["error: missing required secrets:"@]);
    push_prefixed_all(&mut out, "  - ", missing);
    let ghost a = texts(out@);
    out.push(String::new());
    out.push("Set them with:".to_owned());
    assert(texts(out@) =~= a + seq![Seq::<char>::empty(), "Set them with:"@]);
    push_prefixed_all(&mut out, "  plexi secret set ", missing);
    out
}


// ── listing commands ────────────────────────────────────────────────────────

/// The workspace file that holds the commands, inside the channel directory.
pub open spec fn spec_commands_file(channel_dir: Seq<char>) -> Seq<char> {
    channel_dir + "/commands.toml"@
}

pub fn commands_file(channel_dir: &str) -> (r: String)
    ensures
        r@ == spec_commands_file(channel_dir@),
{
    let mut out: Vec<char> = Vec::new();
    push_lit(&mut out, channel_dir);
    push_lit(&mut out, "/commands.toml");
    string_of(&out)
}

/// The names in ascending order, each once.
pub fn sorted_names(names: &Vec<String>) -> (r: Vec<String>)
    ensures
        strictly_sorted(strs(r@)),
        forall|y: Seq<char>| strs(r@).contains(y) <==> strs(names@).contains(y),
{
    let ghost ns = strs(names@);
    let mut out: Vec<String> = Vec::new();
    let mut i: usize = 0;
    while i < names.len()
        invariant
            i <= names@.len(),
            ns == strs(names@),
            strictly_sorted(strs(out@)),
            forall|y: Seq<char>| strs(out@).contains(y) <==> ns.take(i as int).contains(y),
        decreases names@.len() - i,
    {
        let ghost before = strs(out@);
        insert_sorted(&mut out, names[i].clone());
        proof {
            let x = names@[i as int]@;
            assert(ns[i as int] == x);
            assert(ns.take(i + 1) =~= ns.take(i as int).push(x));
            let t0 = ns.take(i as int);
            let t1 = ns.take(i + 1);
            assert forall|y: Seq<char>| strs(out@).contains(y) <==> t1.contains(y) by {
                if t0.contains(y) {
                    let k = choose|k: int| 0 <= k < t0.len() && t0[k] == y;
                    assert(t1[k] == y);
                }
                if y == x {
                    assert(t1[i as int] == y);
                }
                if t1.contains(y) {
                    let k = choose|k: int| 0 <= k < t1.len() && t1[k] == y;
                    if k < i {
                        assert(t0[k] == y);
                    }
                }
            }
        }
        i = i + 1;
    }
    proof {
        assert(ns.take(names@.len() as int) =~= ns);
    }
    out
}

/// What `plexi run <name>` prints for a name it does not know: the
/// defined names in ascending order, or that there are none.
pub open spec fn spec_unknown_command_lines(name: Seq<char>, sorted: Seq<Seq<char>>, file: Seq<char>) -> Seq<Seq<char>> {
    seq![
        "error: unknown command '"@ + name + "'"@,
        if sorted.len() == 0 {
            "No commands defined in "@ + file + "."@
        } else {
            "Available commands: "@ + join_with(sorted, ", "@)
        },
    ]
}

pub fn unknown_command_lines(name: &str, names: &Vec<String>, commands_file: &str) -> (r: Vec<String>)
    ensures
        exists|sorted: Seq<Seq<char>>|
            strictly_sorted(sorted) && (forall|y: Seq<char>| sorted.contains(y) <==> strs(names@).contains(y))
                && strs(r@) == spec_unknown_command_lines(name@, sorted, commands_file@),
{
    let sorted = sorted_names(names);
    let mut first: Vec<char> = Vec::new();
    push_lit(&mut first, "error: unknown command '");
    push_lit(&mut first, name);
    push_lit(&mut first, "'");
    let mut second: Vec<char> = Vec::new();
    if sorted.len() == 0 {
        push_lit(&mut second, "No commands defined in ");
        push_lit(&mut second, commands_file);
        push_lit(&mut second, ".");
    } else {
        push_lit(&mut second, "Available commands: ");
        let joined = join_strs(&sorted, ", ");
        push_lit(&mut second, joined.as_str());
    }
    let mut out: Vec<String> = Vec::new();
    out.push(string_of(&first));
    out.push(string_of(&second));
    proof {
        assert(strs(out@) =~= spec_unknown_command_lines(name@, strs(sorted@), commands_file@));
    }
    out
}

/// The line `plexi run` lists a command with: its name padded to 20
/// columns, its shell snippet, and `  # description` when it has one.
pub open spec fn spec_listing_line(name: Seq<char>, run: Seq<char>, description: Option<Seq<char>>) -> Seq<char> {
    "  "@ + pad_right(name, 20) + " "@ + run + match description {
        Some(d) => "  # "@ + d,
        None => Seq::<char>::empty(),
    }
}

pub fn command_listing_line(name: &str, entry: &CommandEntry) -> (r: String)
    ensures
        r@ == spec_listing_line(
            name@,
            match entry {
                CommandEntry::Simple(s) => s@,
                CommandEntry::Full(d) => d.run@,
            },
            match entry {
                CommandEntry::Simple(_) => None,
                CommandEntry::Full(d) => opt_text(d.description),
            },
        ),
{
    let mut out: Vec<char> = Vec::new();
    push_lit(&mut out, "  ");
    let padded = pad_right_of(name, 20);
    push_all(&mut out, &padded);
    push_lit(&mut out, " ");
    push_lit(&mut out, entry.run());
    match entry.description() {
        Some(d) => {
            push_lit(&mut out, "  # ");
            push_lit(&mut out, d);
        },
        None => {},
    }
    string_of(&out)
}

// ── the palette's user commands ─────────────────────────────────────────────

pub open spec fn entry_run(e: CommandEntry) -> Seq<char> {
    match e {
        CommandEntry::Simple(s) => s@,
        CommandEntry::Full(d) => d.run@,
    }
}

pub open spec fn entry_description(e: CommandEntry) -> Option<Seq<char>> {
    match e {
        CommandEntry::Simple(_) => None,
        CommandEntry::Full(d) => opt_text(d.description),
    }
}

pub open spec fn user_command_view(c: ResolvedUserCommand) -> (Seq<char>, Option<Seq<char>>, Option<Seq<char>>, UserCommandScope) {
    (c.name@, opt_text(c.run), opt_text(c.description), c.scope)
}

pub open spec fn user_command_views(cs: Seq<ResolvedUserCommand>) -> Seq<(Seq<char>, Option<Seq<char>>, Option<Seq<char>>, UserCommandScope)> {
    cs.map_values(|c: ResolvedUserCommand| user_command_view(c))
}

pub open spec fn entry_names(es: Seq<(String, CommandEntry)>) -> Seq<Seq<char>> {
    es.map_values(|e: (String, CommandEntry)| e.0@)
}

/// The first entry named `n`.
pub open spec fn entry_named(es: Seq<(String, CommandEntry)>, n: Seq<char>) -> int {
    choose|i: int| 0 <= i < es.len() && es[i].0@ == n && forall|j: int| 0 <= j < i ==> es[j].0@ != n
}

/// The palette entry for a workspace command name.
pub open spec fn workspace_view(es: Seq<(String, CommandEntry)>, n: Seq<char>) -> (Seq<char>, Option<Seq<char>>, Option<Seq<char>>, UserCommandScope) {
    let e = es[entry_named(es, n)].1;
    (n, Some(entry_run(e)), entry_description(e), UserCommandScope::Workspace)
}

fn first_entry_named(es: &Vec<(String, CommandEntry)>, n: &String) -> (r: usize)
    requires
        entry_names(es@).contains(n@),
    ensures
        r == entry_named(es@, n@),
        r < es@.len(),
{
    let nc = chars_of(n.as_str());
    let mut i: usize = 0;
    while i < es.len()
        invariant
            i <= es@.len(),
            nc@ == n@,
            entry_names(es@).contains(n@),
            forall|j: int| 0 <= j < i ==> es@[j].0@ != n@,
        decreases es@.len() - i,
    {
        let c = chars_of(es[i].0.as_str());
        if eq_chars(&c, &nc) {
            assert(0 <= i < es@.len() && es@[i as int].0@ == n@ && forall|j: int| 0 <= j < i ==> es@[j].0@ != n@);
            return i;
        }
        i = i + 1;
    }
    proof {
        let k = choose|k: int| 0 <= k < entry_names(es@).len() && entry_names(es@)[k] == n@;
        assert(es@[k].0@ == n@);
    }
    0
}

/// What reading a workspace's `commands.toml` gave the palette.
pub enum CommandsFile {
    /// There is no workspace, or it has no `commands.toml`.
    Missing,
    /// The file is there but could not be read or parsed.
    Unusable,
    /// The file's entries.
    Parsed(Vec<(String, CommandEntry)>),
}

/// The user commands the palette lists: a workspace `commands.toml` shadows
/// the global profile scripts entirely, so a file that is there but cannot
/// be read or parsed lists nothing (as `plexi run` would refuse it); only
/// without the file are the global scripts listed.
pub fn resolve_user_commands(file: &CommandsFile, global_scripts: &Vec<String>) -> (r: Vec<ResolvedUserCommand>)
    ensures
        match file {
            CommandsFile::Parsed(es) => listed_workspace(r@, es@),
            CommandsFile::Missing => listed_global(r@, global_scripts@),
            CommandsFile::Unusable => r@.len() == 0,
        },
{
    match file {
        CommandsFile::Parsed(es) => resolve_listed(Some(es), global_scripts),
        CommandsFile::Missing => resolve_listed(None, global_scripts),
        CommandsFile::Unusable => Vec::new(),
    }
}

/// The palette entries of a workspace's commands, ascending by name.
pub open spec fn listed_workspace(r: Seq<ResolvedUserCommand>, es: Seq<(String, CommandEntry)>) -> bool {
    exists|sorted: Seq<Seq<char>>|
        strictly_sorted(sorted) && (forall|y: Seq<char>| sorted.contains(y) <==> entry_names(es).contains(y))
            && user_command_views(r) == sorted.map_values(|n: Seq<char>| workspace_view(es, n))
}

/// The palette entries of the global scripts, ascending by name.
pub open spec fn listed_global(r: Seq<ResolvedUserCommand>, scripts: Seq<String>) -> bool {
    exists|sorted: Seq<Seq<char>>|
        strictly_sorted(sorted) && (forall|y: Seq<char>| sorted.contains(y) <==> strs(scripts).contains(y))
            && user_command_views(r) == sorted.map_values(
            |n: Seq<char>| (n, None::<Seq<char>>, None::<Seq<char>>, UserCommandScope::Global),
        )
}

/// The user commands of a parsed `commands.toml` (its commands are then the
/// whole set), else of the global profile scripts.
fn resolve_listed(workspace: Option<&Vec<(String, CommandEntry)>>, global_scripts: &Vec<String>) -> (r: Vec<ResolvedUserCommand>)
    ensures
        match workspace {
            Some(es) => exists|sorted: Seq<Seq<char>>|
                strictly_sorted(sorted) && (forall|y: Seq<char>| sorted.contains(y) <==> entry_names(es@).contains(y))
                    && user_command_views(r@) == sorted.map_values(|n: Seq<char>| workspace_view(es@, n)),
            None => exists|sorted: Seq<Seq<char>>|
                strictly_sorted(sorted) && (forall|y: Seq<char>| sorted.contains(y) <==> strs(global_scripts@).contains(y))
                    && user_command_views(r@) == sorted.map_values(
                    |n: Seq<char>| (n, None::<Seq<char>>, None::<Seq<char>>, UserCommandScope::Global),
                ),
        },
{
    let mut out: Vec<ResolvedUserCommand> = Vec::new();
    match workspace {
        Some(es) => {
            let mut names: Vec<String> = Vec::new();
            let mut k: usize = 0;
            while k < es.len()
                invariant
                    k <= es@.len(),
                    strs(names@) == entry_names(es@).take(k as int),
                decreases es@.len() - k,
            {
                let ghost before = names@;
                names.push(es[k].0.clone());
                assert(strs(names@) =~= strs(before).push(es@[k as int].0@));
                assert(entry_names(es@).take(k + 1) =~= entry_names(es@).take(k as int).push(es@[k as int].0@));
                k = k + 1;
            }
            assert(entry_names(es@).take(es@.len() as int) =~= entry_names(es@));
            let sorted = sorted_names(&names);
            let ghost sv = strs(sorted@);
            let mut i: usize = 0;
            while i < sorted.len()
                invariant
                    i <= sorted@.len(),
                    sv == strs(sorted@),
                    forall|y: Seq<char>| sv.contains(y) <==> entry_names(es@).contains(y),
                    user_command_views(out@) == sv.take(i as int).map_values(|n: Seq<char>| workspace_view(es@, n)),
                decreases sorted@.len() - i,
            {
                assert(sv[i as int] == sorted@[i as int]@);
                assert(sv.contains(sv[i as int]));
                let j = first_entry_named(es, &sorted[i]);
                let c = workspace_command(&sorted[i], &es[j].1);
                let ghost before = out@;
                out.push(c);
                assert(user_command_views(out@) =~= user_command_views(before).push(workspace_view(es@, sv[i as int])));
                assert(sv.take(i + 1).map_values(|n: Seq<char>| workspace_view(es@, n)) =~= sv.take(i as int).map_values(
                    |n: Seq<char>| workspace_view(es@, n),
                ).push(workspace_view(es@, sv[i as int])));
                i = i + 1;
            }
            assert(sv.take(sorted@.len() as int) =~= sv);
        },
        None => {
            let sorted = sorted_names(global_scripts);
            let ghost sv = strs(sorted@);
            let mut i: usize = 0;
            while i < sorted.len()
                invariant
                    i <= sorted@.len(),
                    sv == strs(sorted@),
                    user_command_views(out@) == sv.take(i as int).map_values(
                        |n: Seq<char>| (n, None::<Seq<char>>, None::<Seq<char>>, UserCommandScope::Global),
                    ),
                decreases sorted@.len() - i,
            {
                assert(sv[i as int] == sorted@[i as int]@);
                let c = global_command(sorted[i].clone());
                let ghost before = out@;
                out.push(c);
                assert(user_command_views(out@) =~= user_command_views(before).push(
                    (sv[i as int], None::<Seq<char>>, None::<Seq<char>>, UserCommandScope::Global),
                ));
                assert(sv.take(i + 1).map_values(
                    |n: Seq<char>| (n, None::<Seq<char>>, None::<Seq<char>>, UserCommandScope::Global),
                ) =~= sv.take(i as int).map_values(
                    |n: Seq<char>| (n, None::<Seq<char>>, None::<Seq<char>>, UserCommandScope::Global),
                ).push((sv[i as int], None::<Seq<char>>, None::<Seq<char>>, UserCommandScope::Global)));
                i = i + 1;
            }
            assert(sv.take(sorted@.len() as int) =~= sv);
        },
    }
    out
}


// ── `plexi run` without a command ───────────────────────────────────────────

/// A listed command's line, from its palette entry.
pub open spec fn listing_of(v: (Seq<char>, Option<Seq<char>>, Option<Seq<char>>, UserCommandScope)) -> Seq<char> {
    spec_listing_line(v.0, match v.1 {
        Some(r) => r,
        None => Seq::<char>::empty(),
    }, v.2)
}

pub open spec fn no_workspace_tail() -> Seq<Seq<char>> {
    seq!["No workspace commands configured."@, ""@, "To add project commands:"@, "  plexi workspace init"@]
}

pub open spec fn global_scripts_block(globals: Seq<Seq<char>>) -> Seq<Seq<char>> {
    if globals.len() == 0 {
        seq![]
    } else {
        seq!["Built-in scripts:"@] + globals.map_values(|n: Seq<char>| "  "@ + n) + seq![""@, "Run one with: plexi run <script>"@, ""@]
    }
}

pub open spec fn empty_commands_lines(file: Seq<char>) -> Seq<Seq<char>> {
    seq![
        "No commands defined in "@ + file + "."@,
        ""@,
        "Add a command:"@,
        "  [commands]"@,
        "  dev = \"npm run dev\""@,
        "  build = { run = \"cargo build\", description = \"Build the project\" }"@,
    ]
}

fn push_text(out: &mut Vec<String>, t: &str)
    ensures
        texts_of(final(out)@) == texts_of(old(out)@).push(t@),
{
    let ghost before = texts_of(out@);
    out.push(t.to_owned());
    assert(texts_of(out@) =~= before.push(t@));
}

/// What `plexi run` prints without a command.  Without a `commands.toml`:
/// the global scripts (as given) when there are any, then how to add
/// project commands.  With an empty one: how to add a command.  Otherwise
/// every command in name order with its snippet and description, then how
/// to run one.
pub fn command_list_lines(config: Option<&Vec<(String, CommandEntry)>>, global_scripts: &Vec<String>, commands_file: &str) -> (r: Vec<String>)
    ensures
        match config {
            None => texts_of(r@) == global_scripts_block(texts_of(global_scripts@)) + no_workspace_tail(),
            Some(es) => if es@.len() == 0 {
                texts_of(r@) == empty_commands_lines(commands_file@)
            } else {
                exists|sorted: Seq<Seq<char>>|
                    strictly_sorted(sorted) && (forall|y: Seq<char>| sorted.contains(y) <==> entry_names(es@).contains(y))
                        && texts_of(r@) == seq!["Available commands:"@] + sorted.map_values(
                        |n: Seq<char>| listing_of(workspace_view(es@, n)),
                    ) + seq![""@, "Run one with: plexi run <command>"@]
            },
        },
{
    let mut out: Vec<String> = Vec::new();
    match config {
        None => {
            let ghost gv = texts_of(global_scripts@);
            if global_scripts.len() > 0 {
                push_text(&mut out, "Built-in scripts:");
                let mut i: usize = 0;
                while i < global_scripts.len()
                    invariant
                        i <= global_scripts@.len(),
                        gv == texts_of(global_scripts@),
                        texts_of(out@) == seq!["Built-in scripts:"@] + gv.take(i as int).map_values(|n: Seq<char>| "  "@ + n),
                    decreases global_scripts@.len() - i,
                {
                    let mut l: Vec<char> = Vec::new();
                    push_lit(&mut l, "  ");
                    push_lit(&mut l, global_scripts[i].as_str());
                    let ghost before = texts_of(out@);
                    out.push(string_of(&l));
                    assert(texts_of(out@) =~= before.push("  "@ + gv[i as int]));
                    assert(gv.take(i + 1).map_values(|n: Seq<char>| "  "@ + n) =~= gv.take(i as int).map_values(|n: Seq<char>| "  "@ + n).push("  "@ + gv[i as int]));
                    i = i + 1;
                }
                assert(gv.take(global_scripts@.len() as int) =~= gv);
                push_text(&mut out, "");
                push_text(&mut out, "Run one with: plexi run <script>");
                push_text(&mut out, "");
            }
            let ghost head = texts_of(out@);
            assert(head =~= global_scripts_block(gv));
            push_text(&mut out, "No workspace commands configured.");
            push_text(&mut out, "");
            push_text(&mut out, "To add project commands:");
            push_text(&mut out, "  plexi workspace init");
            assert(texts_of(out@) =~= head + no_workspace_tail());
        },
        Some(es) => {
            if es.len() == 0 {
                let mut l: Vec<char> = Vec::new();
                push_lit(&mut l, "No commands defined in ");
                push_lit(&mut l, commands_file);
                push_lit(&mut l, ".");
                let ghost before = texts_of(out@);
                out.push(string_of(&l));
                assert(texts_of(out@) =~= before.push("No commands defined in "@ + commands_file@ + "."@));
                push_text(&mut out, "");
                push_text(&mut out, "Add a command:");
                push_text(&mut out, "  [commands]");
                push_text(&mut out, "  dev = \"npm run dev\"");
                push_text(&mut out, "  build = { run = \"cargo build\", description = \"Build the project\" }");
                assert(texts_of(out@) =~= empty_commands_lines(commands_file@));
                return out;
            }
            let resolved = resolve_listed(Some(es), global_scripts);
            let ghost rv = user_command_views(resolved@);
            push_text(&mut out, "Available commands:");
            let mut i: usize = 0;
            while i < resolved.len()
                invariant
                    i <= resolved@.len(),
                    rv == user_command_views(resolved@),
                    texts_of(out@) == seq!["Available commands:"@] + rv.take(i as int).map_values(
                        |v: (Seq<char>, Option<Seq<char>>, Option<Seq<char>>, UserCommandScope)| listing_of(v),
                    ),
                decreases resolved@.len() - i,
            {
                let c = &resolved[i];
                assert(rv[i as int] == user_command_view(*c));
                let mut l: Vec<char> = Vec::new();
                push_lit(&mut l, "  ");
                let padded = pad_right_of(c.name.as_str(), 20);
                push_all(&mut l, &padded);
                push_lit(&mut l, " ");
                let ghost pre = l@;
                match &c.run {
                    Some(run) => push_lit(&mut l, run.as_str()),
                    None => {
                        assert(l@ =~= pre + Seq::<char>::empty());
                    },
                }
                let ghost mid = l@;
                assert(mid =~= "  "@ + pad_right(c.name@, 20) + " "@ + match opt_text(c.run) {
                    Some(r) => r,
                    None => Seq::<char>::empty(),
                });
                match &c.description {
                    Some(d) => {
                        push_lit(&mut l, "  # ");
                        push_lit(&mut l, d.as_str());
                    },
                    None => {
                        assert(l@ =~= mid + Seq::<char>::empty());
                    },
                }
                assert(l@ =~= listing_of(rv[i as int]));
                let ghost before = texts_of(out@);
                out.push(string_of(&l));
                assert(texts_of(out@) =~= before.push(listing_of(rv[i as int])));
                assert(rv.take(i + 1).map_values(
                    |v: (Seq<char>, Option<Seq<char>>, Option<Seq<char>>, UserCommandScope)| listing_of(v),
                ) =~= rv.take(i as int).map_values(
                    |v: (Seq<char>, Option<Seq<char>>, Option<Seq<char>>, UserCommandScope)| listing_of(v),
                ).push(listing_of(rv[i as int])));
                i = i + 1;
            }
            assert(rv.take(resolved@.len() as int) =~= rv);
            let ghost body = texts_of(out@);
            push_text(&mut out, "");
            push_text(&mut out, "Run one with: plexi run <command>");
            proof {
                let sorted = choose|sorted: Seq<Seq<char>>|
                    strictly_sorted(sorted) && (forall|y: Seq<char>| sorted.contains(y) <==> entry_names(es@).contains(y))
                        && user_command_views(resolved@) == sorted.map_values(|n: Seq<char>| workspace_view(es@, n));
                assert(rv.map_values(
                    |v: (Seq<char>, Option<Seq<char>>, Option<Seq<char>>, UserCommandScope)| listing_of(v),
                ) =~= sorted.map_values(|n: Seq<char>| listing_of(workspace_view(es@, n))));
                assert(texts_of(out@) =~= seq!["Available commands:"@] + sorted.map_values(
                    |n: Seq<char>| listing_of(workspace_view(es@, n)),
                ) + seq![""@, "Run one with: plexi run <command>"@]);
            }
        },
    }
    out
}

/// Whether a file's permission bits let anyone execute it.
pub fn is_executable_mode(mode: u32) -> (r: bool)
    ensures
        r == (mode & 0o111u32 != 0),
{
    mode & 0o111 != 0
}


/// What `plexi run <name>` says when the directory has no commands file
/// and no global script has that name.
pub open spec fn spec_no_commands_file_lines(file: Seq<char>, cwd: Seq<char>) -> Seq<Seq<char>> {
    seq!["error: no "@ + file + " found in "@ + cwd, "Create a .plexi/commands.toml to define runnable commands."@]
}

pub fn no_commands_file_lines(file: &str, cwd: &str) -> (r: Vec<String>)
    ensures
        texts_of(r@) == spec_no_commands_file_lines(file@, cwd@),
{
    let mut l: Vec<char> = Vec::new();
    push_lit(&mut l, "error: no ");
    push_lit(&mut l, file);
    push_lit(&mut l, " found in ");
    push_lit(&mut l, cwd);
    let mut out: Vec<String> = Vec::new();
    let ghost before = texts_of(out@);
    out.push(string_of(&l));
    assert(texts_of(out@) =~= before.push("error: no "@ + file@ + " found in "@ + cwd@));
    push_text(&mut out, "Create a .plexi/commands.toml to define runnable commands.");
    assert(texts_of(out@) =~= spec_no_commands_file_lines(file@, cwd@));
    out
}

/// What follows a command that ran: on success, the tip about listing
/// commands; on exit status 127 (not found), a hint naming the scripts
/// directory; nothing otherwise.  The exit status is passed on.
pub open spec fn spec_run_exit_note(code: i32, scripts_dir: Seq<char>) -> (Option<Seq<char>>, Option<Seq<char>>) {
    if code == 0 {
        (Some("run `plexi run` to see all available commands."@), None)
    } else if code == 127 {
        (None, Some("hint: command exited with 'not found' (127). If your command references $PLEXI_CONFIG_DIR, check that the script exists in '"@ + scripts_dir + "'"@))
    } else {
        (None, None)
    }
}

pub fn run_exit_note(code: i32, scripts_dir: &str) -> (r: (Option<String>, Option<String>))
    ensures
        (opt_text(r.0), opt_text(r.1)) == spec_run_exit_note(code, scripts_dir@),
{
    if code == 0 {
        (Some("run `plexi run` to see all available commands.".to_owned()), None)
    } else if code == 127 {
        let mut l: Vec<char> = Vec::new();
        push_lit(&mut l, "hint: command exited with 'not found' (127). If your command references $PLEXI_CONFIG_DIR, check that the script exists in '");
        push_lit(&mut l, scripts_dir);
        push_lit(&mut l, "'");
        (None, Some(string_of(&l)))
    } else {
        (None, None)
    }
}

} // verus!
