//! Routing and reporting for `plexi open` / `plexi pane`: `type_id` prefixes,
//! MCP pane titles, slot-write acknowledgements and exit codes.

use vstd::prelude::*;
use crate::text::{
    chars_of, debug_quoted, debug_str, decimal, decimal_chars, eq_lit, find_char_from,
    lemma_next_idx, next_idx, push_all, push_lit, slice_of, starts_with, string_of, strip_prefix,
    strip_prefix_lit, starts_with_lit, join_strs, join_with, opt_text, texts_contain, texts_of, trim, trim_chars,
};
use crate::watch::{ascii_lower_chars, ascii_lower_str};
use crate::workspace::{parent_of, path_parent};
use crate::pane::{json_reply, number_opt, object_from, object_of, opt_str, quoted_opt, reply_fields, members_view, ReplyMembers};
use crate::notify::{member_if, push_member_num, push_member_quoted, push_quoted};
use crate::cloud_runtime::json_quoted;
use vstd::string::StringSliceAdditionalSpecFns;

verus! {

/// Parsed prefix of a `type_id` such as `app:snake`, `cli:git`, `mcp:fs`.
#[derive(Debug)]
pub enum OpenPrefix {
    /// `app:<name>`: explicit app registry lookup.
    App(String),
    /// `cli:<name>`: CLI registry/crawl lookup.
    Cli(String),
    /// `mcp:<name>`: MCP registry lookup.
    Mcp(String),
    /// No prefix: try the app registry, then the CLI registry.
    Bare(String),
}

/// Model of an `OpenPrefix`: which variant (0 app, 1 cli, 2 mcp, 3 bare)
/// and its name.
pub open spec fn prefix_model(p: OpenPrefix) -> (int, Seq<char>) {
    match p {
        OpenPrefix::App(n) => (0, n@),
        OpenPrefix::Cli(n) => (1, n@),
        OpenPrefix::Mcp(n) => (2, n@),
        OpenPrefix::Bare(n) => (3, n@),
    }
}

pub open spec fn spec_parse_prefix(t: Seq<char>) -> (int, Seq<char>) {
    match strip_prefix(t, "app:"@) {
        Some(n) => (0, n),
        None => match strip_prefix(t, "cli:"@) {
            Some(n) => (1, n),
            None => match strip_prefix(t, "mcp:"@) {
                Some(n) => (2, n),
                None => (3, t),
            },
        },
    }
}

/// Parses a `type_id` argument into an `OpenPrefix`.
pub fn parse_prefix(type_id: &str) -> (r: OpenPrefix)
    ensures
        prefix_model(r) == spec_parse_prefix(type_id@),
{
    let cs = chars_of(type_id);
    if let Some(n) = strip_prefix_lit(&cs, "app:") {
        OpenPrefix::App(string_of(&n))
    } else if let Some(n) = strip_prefix_lit(&cs, "cli:") {
        OpenPrefix::Cli(string_of(&n))
    } else if let Some(n) = strip_prefix_lit(&cs, "mcp:") {
        OpenPrefix::Mcp(string_of(&n))
    } else {
        OpenPrefix::Bare(type_id.to_owned())
    }
}

/// Launcher commands skipped when naming an MCP pane.
pub open spec fn is_runner(a: Seq<char>) -> bool {
    ||| a == "npx"@
    ||| a == "node"@
    ||| a == "uvx"@
    ||| a == "bunx"@
    ||| a == "python"@
    ||| a == "python3"@
    ||| a == "deno"@
    ||| a == "bun"@
}

/// The first argument from `i` on that is neither a runner nor a flag, or
/// `mcp` when there is none.
pub open spec fn server_arg(args: Seq<Seq<char>>, i: int) -> Seq<char>
    decreases args.len() - i,
{
    if i < 0 || i >= args.len() {
        "mcp"@
    } else if !is_runner(args[i]) && !starts_with(args[i], seq!['-']) {
        args[i]
    } else {
        server_arg(args, i + 1)
    }
}

/// The name without a leading `@scope/` prefix: a name starting with `@`
/// loses everything through its first `/`; any other name is kept whole.
pub open spec fn after_scope(n: Seq<char>) -> Seq<char> {
    let k = next_idx(n, '/', 0);
    if n.len() > 0 && n[0] == '@' && k < n.len() {
        n.skip(k + 1)
    } else {
        n
    }
}

/// Drops a leading `mcp-server-`, or else a leading `server-`.
pub open spec fn short_server_name(a: Seq<char>) -> Seq<char> {
    match strip_prefix(a, "mcp-server-"@) {
        Some(x) => x,
        None => match strip_prefix(a, "server-"@) {
            Some(x) => x,
            None => a,
        },
    }
}

pub open spec fn args_model(args: Seq<String>) -> Seq<Seq<char>> {
    args.map_values(|a: String| a@)
}

pub open spec fn spec_mcp_pane_title(args: Seq<Seq<char>>) -> Seq<char> {
    "mcp: "@ + short_server_name(after_scope(server_arg(args, 0)))
}

fn is_runner_exec(a: &Vec<char>) -> (r: bool)
    ensures
        r == is_runner(a@),
{
    eq_lit(a, "npx") || eq_lit(a, "node") || eq_lit(a, "uvx") || eq_lit(a, "bunx") || eq_lit(
        a,
        "python",
    ) || eq_lit(a, "python3") || eq_lit(a, "deno") || eq_lit(a, "bun")
}

/// Short display name for an MCP pane from the server command: skip runner
/// tokens and flags, take the package name, drop an `@scope/` prefix and a
/// `mcp-server-`/`server-` prefix, and prefix `mcp: `.
pub fn mcp_pane_title(args: &[String]) -> (r: String)
    ensures
        r@ == spec_mcp_pane_title(args_model(args@)),
{
    let ghost am = args_model(args@);
    let mut name = chars_of("mcp");
    let mut i: usize = 0;
    while i < args.len()
        invariant_except_break
            name@ == "mcp"@,
        invariant
            i <= args@.len(),
            am == args_model(args@),
            server_arg(am, i as int) == server_arg(am, 0),
        ensures
            name@ == server_arg(am, 0),
        decreases args@.len() - i,
    {
        let a = chars_of(args[i].as_str());
        assert(a@ == am[i as int]);
        if !is_runner_exec(&a) && !(a.len() > 0 && a[0] == '-') {
            proof {
                if a@.len() > 0 {
                    assert(a@.take(1)[0] == a@[0]);
                }
            }
            name = a;
            break;
        }
        proof {
            if a@.len() > 0 && a@[0] == '-' {
                assert(a@.take(1) =~= seq!['-']);
            }
        }
        i = i + 1;
    }
    assert(name@ == server_arg(am, 0));
    let k = find_char_from(&name, '/', 0);
    let after = if name.len() > 0 && name[0] == '@' && k < name.len() {
        slice_of(&name, k + 1, name.len())
    } else {
        slice_of(&name, 0, name.len())
    };
    assert(name@.subrange(0, name@.len() as int) == name@);
    let short = match strip_prefix_lit(&after, "mcp-server-") {
        Some(x) => x,
        None => match strip_prefix_lit(&after, "server-") {
            Some(x) => x,
            None => after,
        },
    };
    let mut out = chars_of("mcp: ");
    push_all(&mut out, &short);
    string_of(&out)
}

pub open spec fn spec_slot_write_ack(name: Seq<char>, bytes: nat, append: bool) -> Seq<char> {
    "slot "@ + debug_quoted(name) + " "@ + (if append {
        "+<-"@
    } else {
        "<-"@
    }) + " "@ + decimal(bytes) + " bytes"@
}

/// Terse success acknowledgement for `pane slot write`.
pub fn slot_write_ack(name: &str, bytes: usize, append: bool) -> (r: String)
    ensures
        r@ == spec_slot_write_ack(name@, bytes as nat, append),
{
    let mut out = chars_of("slot ");
    let q = debug_str(name);
    push_all(&mut out, &q);
    push_lit(&mut out, " ");
    if append {
        push_lit(&mut out, "+<-");
    } else {
        push_lit(&mut out, "<-");
    }
    push_lit(&mut out, " ");
    let n = decimal_chars(bytes as u64);
    push_all(&mut out, &n);
    push_lit(&mut out, " bytes");
    string_of(&out)
}

/// What a `pane slot wait` reply means to the caller.
#[derive(Debug, PartialEq)]
pub enum SlotWaitOutcome {
    /// Slot matched: these raw bytes go to stdout.
    Matched(Vec<u8>),
    /// The host expired the wait.
    TimedOut(String),
    /// Usage or plumbing failure.
    Failed(String),
}

impl SlotWaitOutcome {
    /// Exit code: 0 matched, 2 timed out, 1 failed.
    pub fn exit_code(&self) -> (r: i32)
        ensures
            r == match self {
                SlotWaitOutcome::Matched(_) => 0i32,
                SlotWaitOutcome::Failed(_) => 1i32,
                SlotWaitOutcome::TimedOut(_) => 2i32,
            },
    {
        match self {
            SlotWaitOutcome::Matched(_) => 0,
            SlotWaitOutcome::Failed(_) => 1,
            SlotWaitOutcome::TimedOut(_) => 2,
        }
    }
}

/// What the host said about a `pane send --submit`.
#[derive(Debug, PartialEq, Eq)]
pub enum SubmitOutcome {
    /// Typed and confirmed submitted.
    Confirmed { retried: bool },
    /// Typed, but not confirmed to have left the input line.
    Unconfirmed { message: String, input_line: Vec<String> },
}

impl SubmitOutcome {
    /// Zero only when the text was typed and confirmed submitted.
    pub fn exit_code(&self) -> (r: i32)
        ensures
            r == (if self is Confirmed {
                0i32
            } else {
                1i32
            }),
    {
        match self {
            SubmitOutcome::Confirmed { .. } => 0,
            SubmitOutcome::Unconfirmed { .. } => 1,
        }
    }
}

/// What the caller of an `--agent` spawn prints and exits with.
#[derive(Debug, PartialEq)]
pub struct AgentBootOutcome {
    pub stdout: Option<String>,
    pub stderr: Vec<String>,
    pub exit_code: i32,
}


/// What an `--agent` spawn's reply means to its caller: a reply that is not
/// JSON, or has no pane id, fails; a reply with an `error` fails with it
/// (exit 2 when it says `"timeout": true`, then with the pane id on stderr
/// so the caller can close the pane; stdout stays empty); otherwise the
/// pane id is printed.
pub open spec fn spec_agent_boot(
    response: Seq<char>,
    fields: Option<(Option<u64>, Option<Seq<char>>, Option<bool>, Option<bool>, Option<bool>, Option<Seq<Option<Seq<char>>>>)>,
) -> (Option<Seq<char>>, Seq<Seq<char>>, i32) {
    match fields {
        None => (None, seq!["error: unreadable spawn response: "@ + response], 1i32),
        Some((pane_id, error, timeout, _, _, _)) => match error {
            Some(e) => {
                let timed_out = timeout == Some(true);
                (
                    None,
                    seq!["error: "@ + e] + match pane_id {
                        Some(p) => if timed_out {
                            seq!["pane id: "@ + decimal(p as nat)]
                        } else {
                            seq![]
                        },
                        None => seq![],
                    },
                    if timed_out {
                        2i32
                    } else {
                        1i32
                    },
                )
            },
            None => match pane_id {
                Some(p) => (Some(decimal(p as nat)), seq![], 0i32),
                None => (None, seq!["error: spawn response carried no pane id: "@ + response], 1i32),
            },
        },
    }
}

pub open spec fn agent_boot_view(o: AgentBootOutcome) -> (Option<Seq<char>>, Seq<Seq<char>>, i32) {
    (opt_text(o.stdout), texts_of(o.stderr@), o.exit_code)
}

fn prefixed_line(prefix: &str, rest: &str) -> (r: String)
    ensures
        r@ == prefix@ + rest@,
{
    let mut out: Vec<char> = Vec::new();
    push_lit(&mut out, prefix);
    push_lit(&mut out, rest);
    string_of(&out)
}

fn one_line(s: String) -> (r: Vec<String>)
    ensures
        texts_of(r@) == seq![s@],
{
    let mut v: Vec<String> = Vec::new();
    v.push(s);
    assert(texts_of(v@) =~= seq![v@[0]@]);
    v
}

pub fn agent_boot_outcome(response: &str) -> (r: AgentBootOutcome)
    ensures
        agent_boot_view(r) == spec_agent_boot(response@, json_reply(response.spec_bytes())),
{
    agent_boot_outcome_of(response, reply_fields(response.as_bytes()))
}

/// `agent_boot_outcome` for a response whose members were read (`None`
/// when it is not JSON).
pub fn agent_boot_outcome_of(response: &str, fields: Option<ReplyMembers>) -> (r: AgentBootOutcome)
    ensures
        agent_boot_view(r) == spec_agent_boot(response@, members_view(fields)),
{
    match fields {
        None => AgentBootOutcome {
            stdout: None,
            stderr: one_line(prefixed_line("error: unreadable spawn response: ", response)),
            exit_code: 1,
        },
        Some((pane_id, error, timeout, _, _, _)) => match error {
            Some(e) => {
                let timed_out = timeout == Some(true);
                let mut stderr = one_line(prefixed_line("error: ", e.as_str()));
                match pane_id {
                    Some(p) => {
                        if timed_out {
                            let d = decimal_chars(p);
                            let mut line: Vec<char> = Vec::new();
                            push_lit(&mut line, "pane id: ");
                            push_all(&mut line, &d);
                            let ghost before = stderr@;
                            stderr.push(string_of(&line));
                            assert(texts_of(stderr@) =~= texts_of(before).push("pane id: "@ + decimal(p as nat)));
                        }
                    },
                    None => {},
                }
                proof {
                    assert(texts_of(stderr@) =~= seq!["error: "@ + e@] + match pane_id {
                        Some(p) => if timed_out {
                            seq!["pane id: "@ + decimal(p as nat)]
                        } else {
                            Seq::<Seq<char>>::empty()
                        },
                        None => Seq::<Seq<char>>::empty(),
                    });
                }
                AgentBootOutcome { stdout: None, stderr, exit_code: if timed_out { 2 } else { 1 } }
            },
            None => match pane_id {
                Some(p) => {
                    let d = decimal_chars(p);
                    let v: Vec<String> = Vec::new();
                    assert(texts_of(v@) =~= Seq::<Seq<char>>::empty());
                    AgentBootOutcome { stdout: Some(string_of(&d)), stderr: v, exit_code: 0 }
                },
                None => AgentBootOutcome {
                    stdout: None,
                    stderr: one_line(prefixed_line("error: spawn response carried no pane id: ", response)),
                    exit_code: 1,
                },
            },
        },
    }
}

/// What a command writes for a host reply: the text for stdout (written as
/// is), the lines for stderr, and the exit code.
#[derive(Debug, PartialEq)]
pub struct ReplyOutcome {
    pub stdout_text: String,
    pub stderr_lines: Vec<String>,
    pub exit_code: i32,
}

pub open spec fn reply_view(o: ReplyOutcome) -> (Seq<char>, Seq<Seq<char>>, i32) {
    (o.stdout_text@, texts_of(o.stderr_lines@), o.exit_code)
}

/// What `pane new` (without `--agent`) makes of the host's reply: an
/// `error` member fails with it; a `pane_id` member is printed on a line;
/// anything else is printed as it came.
pub open spec fn spec_response_outcome(
    content: Seq<char>,
    fields: Option<(Option<u64>, Option<Seq<char>>, Option<bool>, Option<bool>, Option<bool>, Option<Seq<Option<Seq<char>>>>)>,
) -> (Seq<char>, Seq<Seq<char>>, i32) {
    match fields {
        Some((_, Some(e), _, _, _, _)) => (seq![], seq!["error: "@ + e], 1i32),
        Some((Some(p), None, _, _, _, _)) => (decimal(p as nat) + "\n"@, seq![], 0i32),
        _ => (content, seq![], 0i32),
    }
}

pub fn response_outcome(content: &str) -> (r: ReplyOutcome)
    ensures
        reply_view(r) == spec_response_outcome(content@, json_reply(content.spec_bytes())),
{
    response_outcome_of(content, reply_fields(content.as_bytes()))
}

/// `response_outcome` for a response whose members were read (`None` when
/// it is not JSON).
pub fn response_outcome_of(content: &str, fields: Option<ReplyMembers>) -> (r: ReplyOutcome)
    ensures
        reply_view(r) == spec_response_outcome(content@, members_view(fields)),
{
    let empty: Vec<String> = Vec::new();
    assert(texts_of(empty@) =~= Seq::<Seq<char>>::empty());
    match fields {
        Some((_, Some(e), _, _, _, _)) => ReplyOutcome {
            stdout_text: String::new(),
            stderr_lines: one_line(prefixed_line("error: ", e.as_str())),
            exit_code: 1,
        },
        Some((Some(p), None, _, _, _, _)) => {
            let mut d = decimal_chars(p);
            push_lit(&mut d, "\n");
            ReplyOutcome { stdout_text: string_of(&d), stderr_lines: empty, exit_code: 0 }
        },
        _ => ReplyOutcome { stdout_text: content.to_owned(), stderr_lines: empty, exit_code: 0 },
    }
}

// ── what `pane new` spawns ──────────────────────────────────────────────────

/// The words joined with single spaces.
pub open spec fn join_words(ws: Seq<Seq<char>>) -> Seq<char>
    decreases ws.len(),
{
    if ws.len() == 0 {
        seq![]
    } else if ws.len() == 1 {
        ws[0]
    } else {
        join_words(ws.drop_last()) + seq![' '] + ws.last()
    }
}

/// The pane type and arguments `pane new` asks for: an app by its id with
/// the extra arguments; MCP servers as an `mcp-renderer` pane with the server
/// command; else a terminal running the command and its arguments as one
/// shell line (no arguments for a plain shell).
pub open spec fn spec_spawn_target(
    cmd: Option<Seq<char>>,
    app: Option<Seq<char>>,
    mcp: Seq<Seq<char>>,
    extra: Seq<Seq<char>>,
) -> (Seq<char>, Seq<Seq<char>>) {
    let type_id = match app {
        Some(a) => a,
        None => if mcp.len() > 0 {
            "mcp-renderer"@
        } else {
            "terminal"@
        },
    };
    let args = if mcp.len() > 0 {
        mcp
    } else if app is Some {
        extra
    } else {
        match cmd {
            Some(c) => seq![join_words(seq![c] + extra)],
            None => seq![],
        }
    };
    (type_id, args)
}

fn copy_strings(v: &[String]) -> (r: Vec<String>)
    ensures
        args_model(r@) == args_model(v@),
{
    let mut out: Vec<String> = Vec::new();
    let mut i: usize = 0;
    while i < v.len()
        invariant
            i <= v@.len(),
            args_model(out@) == args_model(v@).take(i as int),
        decreases v@.len() - i,
    {
        let ghost before = out@;
        out.push(v[i].clone());
        assert(args_model(out@) =~= args_model(before).push(v@[i as int]@));
        assert(args_model(v@).take(i + 1) =~= args_model(v@).take(i as int).push(v@[i as int]@));
        i = i + 1;
    }
    assert(args_model(v@).take(v@.len() as int) =~= args_model(v@));
    out
}

/// The pane type and arguments for `pane new`.
pub fn spawn_target(cmd: Option<&str>, app: Option<&str>, mcp: &[String], extra_args: &[String]) -> (r: (String, Vec<String>))
    ensures
        (r.0@, args_model(r.1@)) == spec_spawn_target(
            match cmd {
                Some(c) => Some(c@),
                None => None,
            },
            match app {
                Some(a) => Some(a@),
                None => None,
            },
            args_model(mcp@),
            args_model(extra_args@),
        ),
{
    let type_id = match app {
        Some(a) => a.to_owned(),
        None => if mcp.len() > 0 {
            "mcp-renderer".to_owned()
        } else {
            "terminal".to_owned()
        },
    };
    if mcp.len() > 0 {
        return (type_id, copy_strings(mcp));
    }
    if app.is_some() {
        return (type_id, copy_strings(extra_args));
    }
    match cmd {
        Some(c) => {
            let ghost words = seq![c@] + args_model(extra_args@);
            let mut line: Vec<char> = Vec::new();
            push_lit(&mut line, c);
            let mut i: usize = 0;
            proof {
                assert(words.take(1) =~= seq![c@]);
            }
            while i < extra_args.len()
                invariant
                    i <= extra_args@.len(),
                    words == seq![c@] + args_model(extra_args@),
                    words.len() == extra_args@.len() + 1,
                    line@ == join_words(words.take(i + 1)),
                decreases extra_args@.len() - i,
            {
                line.push(' ');
                push_lit(&mut line, extra_args[i].as_str());
                proof {
                    assert(words.take(i + 2).drop_last() =~= words.take(i + 1));
                    assert(words[i + 1] == extra_args@[i as int]@);
                }
                i = i + 1;
            }
            proof {
                assert(words.take(extra_args@.len() as int + 1) =~= words);
            }
            let mut args: Vec<String> = Vec::new();
            args.push(string_of(&line));
            assert(args_model(args@) =~= seq![join_words(words)]);
            (type_id, args)
        },
        None => {
            let args: Vec<String> = Vec::new();
            assert(args_model(args@) =~= Seq::<Seq<char>>::empty());
            (type_id, args)
        },
    }
}


// ── raw WASM components ─────────────────────────────────────────────────────

/// The file stem `Path::file_stem` gives for a path.
pub uninterp spec fn file_stem_of(p: Seq<char>) -> Option<Seq<char>>;

/// `Path::file_stem` on a UTF-8 path.
#[verifier::external_body]
fn path_file_stem(p: &str) -> (r: Option<String>)
    ensures
        opt_text(r) == file_stem_of(p@),
{
    match std::path::Path::new(p).file_stem() {
        Some(s) => Some(s.to_string_lossy().into_owned()),
        None => None,
    }
}

/// The app id a raw component is reviewed under: its file stem, else `wasm`.
pub fn raw_wasm_app_id(path: &str) -> (r: String)
    ensures
        r@ == match file_stem_of(path@) {
            Some(s) => s,
            None => "wasm"@,
        },
{
    match path_file_stem(path) {
        Some(s) => s,
        None => "wasm".to_owned(),
    }
}

/// The scope a raw component's grants are kept under: its directory, else `.`.
pub fn raw_wasm_workspace_root(path: &str) -> (r: String)
    ensures
        r@ == match parent_of(path@) {
            Some(p) => p,
            None => "."@,
        },
{
    match path_parent(path) {
        Some(p) => p,
        None => ".".to_owned(),
    }
}

/// The capabilities of `req` that are (`member`) or are not in `set`, in
/// the order of `req`.
pub open spec fn select_caps(req: Seq<Seq<char>>, set: Seq<Seq<char>>, member: bool) -> Seq<Seq<char>>
    decreases req.len(),
{
    if req.len() == 0 {
        seq![]
    } else {
        let rest = select_caps(req.drop_last(), set, member);
        if set.contains(req.last()) == member {
            rest.push(req.last())
        } else {
            rest
        }
    }
}

fn select_caps_of(req: &Vec<String>, set: &Vec<String>, member: bool) -> (r: Vec<String>)
    ensures
        texts_of(r@) == select_caps(texts_of(req@), texts_of(set@), member),
{
    let ghost rs = texts_of(req@);
    let mut out: Vec<String> = Vec::new();
    let mut i: usize = 0;
    while i < req.len()
        invariant
            i <= req@.len(),
            rs == texts_of(req@),
            texts_of(out@) == select_caps(rs.take(i as int), texts_of(set@), member),
        decreases req@.len() - i,
    {
        proof {
            assert(rs.take(i + 1).drop_last() =~= rs.take(i as int));
        }
        if texts_contain(set, req[i].as_str()) == member {
            let ghost before = out@;
            out.push(req[i].clone());
            assert(texts_of(out@) =~= texts_of(before).push(req@[i as int]@));
        }
        i = i + 1;
    }
    proof {
        assert(rs.take(req@.len() as int) =~= rs);
    }
    out
}

/// Before a raw component runs, the host imports it requires are checked
/// against the saved decisions for its scope: any blocked one refuses the
/// launch; those neither blocked nor granted must be approved, which needs
/// a terminal.  `Ok` holds the imports to ask about (none: run at once).
pub open spec fn spec_raw_wasm_review(
    required: Seq<Seq<char>>,
    granted: Seq<Seq<char>>,
    blocked: Seq<Seq<char>>,
    is_tty: bool,
) -> Result<Seq<Seq<char>>, Seq<char>> {
    let blocked_required = select_caps(required, blocked, true);
    let missing = select_caps(required, granted, false);
    if required.len() == 0 {
        Ok(seq![])
    } else if blocked_required.len() > 0 {
        Err("raw WASM launch blocked by saved decision for: "@ + join_with(blocked_required, ", "@))
    } else if missing.len() > 0 && !is_tty {
        Err(
            "raw WASM launch requires review for: "@ + join_with(missing, ", "@)
                + ". Run `plexi app open` from a terminal to approve these imports."@,
        )
    } else {
        Ok(missing)
    }
}

pub fn raw_wasm_review(required: &Vec<String>, granted: &Vec<String>, blocked: &Vec<String>, is_tty: bool) -> (r: Result<Vec<String>, String>)
    ensures
        match r {
            Ok(v) => spec_raw_wasm_review(texts_of(required@), texts_of(granted@), texts_of(blocked@), is_tty)
                == Ok::<Seq<Seq<char>>, Seq<char>>(texts_of(v@)),
            Err(e) => spec_raw_wasm_review(texts_of(required@), texts_of(granted@), texts_of(blocked@), is_tty)
                == Err::<Seq<Seq<char>>, Seq<char>>(e@),
        },
{
    if required.len() == 0 {
        let out: Vec<String> = Vec::new();
        assert(texts_of(out@) =~= Seq::<Seq<char>>::empty());
        return Ok(out);
    }
    let blocked_required = select_caps_of(required, blocked, true);
    if blocked_required.len() > 0 {
        let joined = join_strs(&blocked_required, ", ");
        let mut e: Vec<char> = Vec::new();
        push_lit(&mut e, "raw WASM launch blocked by saved decision for: ");
        push_lit(&mut e, joined.as_str());
        return Err(string_of(&e));
    }
    let missing = select_caps_of(required, granted, false);
    if missing.len() > 0 && !is_tty {
        let joined = join_strs(&missing, ", ");
        let mut e: Vec<char> = Vec::new();
        push_lit(&mut e, "raw WASM launch requires review for: ");
        push_lit(&mut e, joined.as_str());
        push_lit(&mut e, ". Run `plexi app open` from a terminal to approve these imports.");
        return Err(string_of(&e));
    }
    Ok(missing)
}

/// Whether an answer to the review prompt approves: `y` or `yes`, trimmed,
/// in any ASCII case.
pub open spec fn spec_review_accepts(answer: Seq<char>) -> bool {
    let a = ascii_lower_str(trim(answer));
    a == "y"@ || a == "yes"@
}

pub fn review_accepts(answer: &str) -> (r: bool)
    ensures
        r == spec_review_accepts(answer@),
{
    let c = chars_of(answer);
    let t = trim_chars(&c);
    let l = ascii_lower_chars(&t);
    eq_lit(&l, "y") || eq_lit(&l, "yes")
}

/// The grants recorded after a review: all asked imports when approved;
/// otherwise the launch is cancelled.
pub fn review_outcome(missing: Vec<String>, accepted: bool) -> (r: Result<Vec<String>, String>)
    ensures
        accepted ==> r == Ok::<Vec<String>, String>(missing),
        !accepted ==> (r matches Err(e) && e@ == "raw WASM launch cancelled"@),
{
    if accepted {
        Ok(missing)
    } else {
        Err("raw WASM launch cancelled".to_owned())
    }
}

/// What `plexi app trust` grants a component: every import it requires,
/// then `fs.pick` (a runtime picker gate, never an import).
pub fn trust_grants(required: &Vec<String>) -> (r: Vec<String>)
    ensures
        texts_of(r@) == texts_of(required@).push("fs.pick"@),
{
    let mut out: Vec<String> = Vec::new();
    let mut i: usize = 0;
    while i < required.len()
        invariant
            i <= required@.len(),
            texts_of(out@) == texts_of(required@).take(i as int),
        decreases required@.len() - i,
    {
        let ghost before = out@;
        out.push(required[i].clone());
        assert(texts_of(out@) =~= texts_of(before).push(required@[i as int]@));
        assert(texts_of(required@).take(i + 1) =~= texts_of(required@).take(i as int).push(required@[i as int]@));
        i = i + 1;
    }
    assert(texts_of(required@).take(required@.len() as int) =~= texts_of(required@));
    let ghost before = out@;
    out.push("fs.pick".to_owned());
    assert(texts_of(out@) =~= texts_of(before).push("fs.pick"@));
    out
}

// ── `pane new` requests ─────────────────────────────────────────────────────

/// A list of strings as a JSON array.
pub open spec fn json_str_array(items: Seq<Seq<char>>) -> Seq<char> {
    "["@ + join_with(items.map_values(|x: Seq<char>| json_quoted(x)), ","@) + "]"@
}

/// A `true` member, present only when set.
pub open spec fn flag_member(name: Seq<char>, on: bool) -> Seq<char> {
    if on {
        ",\""@ + name + "\":true"@
    } else {
        seq![]
    }
}

fn push_str_array(out: &mut Vec<char>, items: &Vec<String>)
    ensures
        final(out)@ == old(out)@ + json_str_array(texts_of(items@)),
{
    let ghost start = out@;
    let ghost qs = texts_of(items@).map_values(|x: Seq<char>| json_quoted(x));
    let mut body: Vec<char> = Vec::new();
    let mut i: usize = 0;
    while i < items.len()
        invariant
            i <= items@.len(),
            qs == texts_of(items@).map_values(|x: Seq<char>| json_quoted(x)),
            qs.len() == items@.len(),
            body@ == join_with(qs.take(i as int), ","@),
        decreases items@.len() - i,
    {
        if i > 0 {
            push_lit(&mut body, ",");
        }
        push_quoted(&mut body, items[i].as_str());
        proof {
            assert(qs[i as int] == json_quoted(items@[i as int]@));
            assert(qs.take(i + 1).drop_last() =~= qs.take(i as int));
            if i == 0 {
                assert(qs.take(1) =~= seq![qs[0]]);
            }
        }
        i = i + 1;
    }
    proof {
        assert(qs.take(items@.len() as int) =~= qs);
    }
    push_lit(out, "[");
    push_all(out, &body);
    push_lit(out, "]");
    assert(out@ =~= start + json_str_array(texts_of(items@)));
}

fn push_flag(out: &mut Vec<char>, name: &str, on: bool)
    ensures
        final(out)@ == old(out)@ + flag_member(name@, on),
{
    if on {
        let ghost start = out@;
        push_lit(out, ",\"");
        push_lit(out, name);
        push_lit(out, "\":true");
        assert(out@ =~= start + (",\""@ + name@ + "\":true"@));
    } else {
        assert(out@ =~= out@ + Seq::<char>::empty());
    }
}

/// The `spawn_pane` request `pane new` sends over the command socket,
/// members in key order; optional members appear only when set, the two
/// flags only when on, and `boot_timeout_secs` (its JSON number text) only
/// with an agent.
pub open spec fn spec_spawn_pane_payload(
    type_id: Seq<char>,
    args: Seq<Seq<char>>,
    response_file: Seq<char>,
    layout: Option<Seq<char>>,
    ephemeral: bool,
    from_pane_id: Option<u64>,
    cwd: Option<Seq<char>>,
    no_focus: bool,
    name: Option<Seq<char>>,
    context_name: Option<Seq<char>>,
    agent_cmd: Option<Seq<char>>,
    boot_timeout: Option<Seq<char>>,
) -> Seq<char> {
    object_of(
        member_if("agent_cmd"@, quoted_opt(agent_cmd)) + ",\"args\":"@ + json_str_array(args) + member_if(
            "boot_timeout_secs"@,
            if agent_cmd is Some {
                boot_timeout
            } else {
                None
            },
        ) + member_if("context_name"@, quoted_opt(context_name)) + member_if("cwd"@, quoted_opt(cwd))
            + flag_member("ephemeral"@, ephemeral) + member_if("from_pane_id"@, number_opt(from_pane_id))
            + member_if("layout"@, quoted_opt(layout)) + member_if("name"@, quoted_opt(name)) + flag_member(
            "no_focus"@,
            no_focus,
        ) + ",\"response_file\":"@ + json_quoted(response_file) + ",\"type\":\"spawn_pane\",\"type_id\":"@
            + json_quoted(type_id),
    )
}

pub fn spawn_pane_payload(
    type_id: &str,
    args: &Vec<String>,
    response_file: &str,
    layout: Option<&str>,
    ephemeral: bool,
    from_pane_id: Option<u64>,
    cwd: Option<&str>,
    no_focus: bool,
    name: Option<&str>,
    context_name: Option<&str>,
    agent_cmd: Option<&str>,
    boot_timeout: Option<&str>,
) -> (r: String)
    ensures
        r@ == spec_spawn_pane_payload(
            type_id@,
            texts_of(args@),
            response_file@,
            opt_str(layout),
            ephemeral,
            from_pane_id,
            opt_str(cwd),
            no_focus,
            opt_str(name),
            opt_str(context_name),
            opt_str(agent_cmd),
            opt_str(boot_timeout),
        ),
{
    let mut m: Vec<char> = Vec::new();
    push_member_quoted(&mut m, "agent_cmd", agent_cmd);
    push_lit(&mut m, ",\"args\":");
    push_str_array(&mut m, args);
    let timeout = match agent_cmd {
        Some(_) => boot_timeout,
        None => None,
    };
    let ghost t = match timeout {
        Some(x) => Some(x@),
        None => None,
    };
    let ghost before_timeout = m@;
    match timeout {
        Some(x) => {
            push_lit(&mut m, ",\"");
            push_lit(&mut m, "boot_timeout_secs");
            push_lit(&mut m, "\":");
            push_lit(&mut m, x);
            assert(m@ =~= before_timeout + member_if("boot_timeout_secs"@, t));
        },
        None => {
            assert(m@ =~= before_timeout + member_if("boot_timeout_secs"@, t));
        },
    }
    push_member_quoted(&mut m, "context_name", context_name);
    push_member_quoted(&mut m, "cwd", cwd);
    push_flag(&mut m, "ephemeral", ephemeral);
    push_member_num(&mut m, "from_pane_id", from_pane_id);
    push_member_quoted(&mut m, "layout", layout);
    push_member_quoted(&mut m, "name", name);
    push_flag(&mut m, "no_focus", no_focus);
    push_lit(&mut m, ",\"response_file\":");
    push_quoted(&mut m, response_file);
    push_lit(&mut m, ",\"type\":\"spawn_pane\",\"type_id\":");
    push_quoted(&mut m, type_id);
    proof {
        reveal_strlit(",\"args\":");
        assert(m@ =~= member_if("agent_cmd"@, quoted_opt(opt_str(agent_cmd))) + ",\"args\":"@ + json_str_array(texts_of(args@))
            + member_if("boot_timeout_secs"@, if opt_str(agent_cmd) is Some { opt_str(boot_timeout) } else { None })
            + member_if("context_name"@, quoted_opt(opt_str(context_name))) + member_if("cwd"@, quoted_opt(opt_str(cwd)))
            + flag_member("ephemeral"@, ephemeral) + member_if("from_pane_id"@, number_opt(from_pane_id))
            + member_if("layout"@, quoted_opt(opt_str(layout))) + member_if("name"@, quoted_opt(opt_str(name)))
            + flag_member("no_focus"@, no_focus) + ",\"response_file\":"@ + json_quoted(response_file@)
            + ",\"type\":\"spawn_pane\",\"type_id\":"@ + json_quoted(type_id@));
    }
    object_from(&m)
}

/// The request `pane new` queues outside a Plexi pane, members in key
/// order; optional members appear only when set, flags only when on.
pub open spec fn spec_pane_queue_payload(
    type_id: Seq<char>,
    args: Seq<Seq<char>>,
    queued_at_ms: u64,
    layout: Option<Seq<char>>,
    ephemeral: bool,
    cwd: Option<Seq<char>>,
    no_focus: bool,
    name: Option<Seq<char>>,
    context_name: Option<Seq<char>>,
) -> Seq<char> {
    object_of(
        ",\"args\":"@ + json_str_array(args) + member_if("context_name"@, quoted_opt(context_name)) + member_if(
            "cwd"@,
            quoted_opt(cwd),
        ) + flag_member("ephemeral"@, ephemeral) + member_if("layout"@, quoted_opt(layout)) + member_if(
            "name"@,
            quoted_opt(name),
        ) + flag_member("no_focus"@, no_focus) + ",\"origin\":\"pane new\",\"queued_at_ms\":"@ + decimal(
            queued_at_ms as nat,
        ) + ",\"type_id\":"@ + json_quoted(type_id),
    )
}

pub fn pane_queue_payload(
    type_id: &str,
    args: &Vec<String>,
    queued_at_ms: u64,
    layout: Option<&str>,
    ephemeral: bool,
    cwd: Option<&str>,
    no_focus: bool,
    name: Option<&str>,
    context_name: Option<&str>,
) -> (r: String)
    ensures
        r@ == spec_pane_queue_payload(
            type_id@,
            texts_of(args@),
            queued_at_ms,
            opt_str(layout),
            ephemeral,
            opt_str(cwd),
            no_focus,
            opt_str(name),
            opt_str(context_name),
        ),
{
    let mut m: Vec<char> = Vec::new();
    push_lit(&mut m, ",\"args\":");
    push_str_array(&mut m, args);
    push_member_quoted(&mut m, "context_name", context_name);
    push_member_quoted(&mut m, "cwd", cwd);
    push_flag(&mut m, "ephemeral", ephemeral);
    push_member_quoted(&mut m, "layout", layout);
    push_member_quoted(&mut m, "name", name);
    push_flag(&mut m, "no_focus", no_focus);
    push_lit(&mut m, ",\"origin\":\"pane new\",\"queued_at_ms\":");
    let d = decimal_chars(queued_at_ms);
    push_all(&mut m, &d);
    push_lit(&mut m, ",\"type_id\":");
    push_quoted(&mut m, type_id);
    proof {
        reveal_strlit(",\"args\":");
        assert(m@ =~= ",\"args\":"@ + json_str_array(texts_of(args@)) + member_if("context_name"@, quoted_opt(opt_str(context_name)))
            + member_if("cwd"@, quoted_opt(opt_str(cwd))) + flag_member("ephemeral"@, ephemeral)
            + member_if("layout"@, quoted_opt(opt_str(layout))) + member_if("name"@, quoted_opt(opt_str(name)))
            + flag_member("no_focus"@, no_focus) + ",\"origin\":\"pane new\",\"queued_at_ms\":"@
            + decimal(queued_at_ms as nat) + ",\"type_id\":"@ + json_quoted(type_id@));
    }
    object_from(&m)
}

/// What `pane new` prints once its request is queued.
pub fn pane_queued_message(type_id: &str) -> (r: String)
    ensures
        r@ == "queued: open "@ + type_id@,
{
    prefixed_line("queued: open ", type_id)
}


// ── where `plexi app open` goes ─────────────────────────────────────────────

/// Where `plexi app open <type_id>` sends a request.
#[derive(Clone, Copy, PartialEq, Eq, Structural)]
pub enum OpenRoute {
    /// `github:owner/repo`: cloned and opened without installing.
    Github,
    /// A directory holding `manifest.toml`: opened by path.
    AppDir,
    /// A `.wasm` file: reviewed, then opened by path.
    WasmComponent,
    /// Anything else: a pane of that type.
    Pane,
}

/// The route for a type id, given whether it names a directory with a
/// manifest and whether it names a `.wasm` file; and whether to warn that
/// `terminal` is deprecated (any type id but a github one that is exactly
/// `terminal`).
pub open spec fn spec_open_route(type_id: Seq<char>, has_manifest: bool, wasm_file: bool) -> (OpenRoute, bool) {
    if starts_with(type_id, "github:"@) {
        (OpenRoute::Github, false)
    } else {
        let warn = type_id == "terminal"@;
        if has_manifest {
            (OpenRoute::AppDir, warn)
        } else if wasm_file {
            (OpenRoute::WasmComponent, warn)
        } else {
            (OpenRoute::Pane, warn)
        }
    }
}

pub fn open_route(type_id: &str, has_manifest: bool, wasm_file: bool) -> (r: (OpenRoute, bool))
    ensures
        r == spec_open_route(type_id@, has_manifest, wasm_file),
{
    let t = chars_of(type_id);
    if starts_with_lit(&t, "github:") {
        return (OpenRoute::Github, false);
    }
    let warn = eq_lit(&t, "terminal");
    if has_manifest {
        (OpenRoute::AppDir, warn)
    } else if wasm_file {
        (OpenRoute::WasmComponent, warn)
    } else {
        (OpenRoute::Pane, warn)
    }
}

} // verus!
