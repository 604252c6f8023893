//! Channel naming: the per-channel app-bundle suffix and paths, profile
//! directory names, command-socket resolution and the spawn-gate message.

use vstd::prelude::*;
use crate::text::{
    chars_of, ends_with, eq_lit, push_all, push_lit, slice_of, starts_with, string_of, strip_prefix,
    strip_prefix_lit, decimal, decimal_chars, debug_quoted, debug_str,
};

verus! {

/// The text `char::to_uppercase` yields for `c`.
pub uninterp spec fn upper_of(c: char) -> Seq<char>;

/// `char::to_uppercase`, collected. For an ASCII lowercase letter it is the
/// ASCII uppercase letter, as the std documentation states.
#[verifier::external_body]
pub fn char_to_upper(c: char) -> (r: Vec<char>)
    ensures
        r@ == upper_of(c),
        'a' <= c <= 'z' ==> r@ == seq![((c as u32) - 32) as char],
{
    c.to_uppercase().collect()
}

/// The suffix after `Plexi` in a channel's app-bundle name: none for the main
/// channel, ` PR<n>` for `pr-<n>`, ` Alpha`/` Beta`, and otherwise the channel
/// name with its first character uppercased.
pub open spec fn spec_bundle_cap(channel: Option<Seq<char>>) -> Seq<char> {
    match channel {
        None => seq![],
        Some(c) => match strip_prefix(c, "pr-"@) {
            Some(n) => " PR"@ + n,
            None => if c == "alpha"@ {
                " Alpha"@
            } else if c == "beta"@ {
                " Beta"@
            } else if c.len() == 0 {
                seq![]
            } else {
                " "@ + upper_of(c[0]) + c.drop_first()
            },
        },
    }
}

pub open spec fn opt_str(o: Option<&str>) -> Option<Seq<char>> {
    match o {
        Some(s) => Some(s@),
        None => None,
    }
}

/// Bundle-name suffix for `channel` (`/Applications/Plexi<cap>.app`).
pub fn channel_bundle_cap(channel: Option<&str>) -> (r: String)
    ensures
        r@ == spec_bundle_cap(opt_str(channel)),
{
    match channel {
        None => String::new(),
        Some(c) => {
            let cs = chars_of(c);
            match strip_prefix_lit(&cs, "pr-") {
                Some(n) => {
                    let mut out = chars_of(" PR");
                    push_all(&mut out, &n);
                    string_of(&out)
                },
                None => {
                    if eq_lit(&cs, "alpha") {
                        " Alpha".to_owned()
                    } else if eq_lit(&cs, "beta") {
                        " Beta".to_owned()
                    } else if cs.len() == 0 {
                        String::new()
                    } else {
                        let mut out = chars_of(" ");
                        let up = char_to_upper(cs[0]);
                        push_all(&mut out, &up);
                        let rest = slice_of(&cs, 1, cs.len());
                        push_all(&mut out, &rest);
                        string_of(&out)
                    }
                },
            }
        },
    }
}

/// `-<channel>` for a named channel, nothing for the main channel.
pub open spec fn channel_suffix(channel: Option<Seq<char>>) -> Seq<char> {
    match channel {
        Some(c) => "-"@ + c,
        None => seq![],
    }
}

/// The app bundle of a channel and the binary inside it.
pub open spec fn spec_channel_paths(channel: Option<Seq<char>>) -> (Seq<char>, Seq<char>) {
    let bundle = "/Applications/Plexi"@ + spec_bundle_cap(channel) + ".app"@;
    (bundle, bundle + "/Contents/MacOS/plexi"@ + channel_suffix(channel))
}

/// App-bundle path and binary-inside-bundle path for `channel`.
pub fn resolve_channel_paths(channel: Option<&str>) -> (r: (String, String))
    ensures
        (r.0@, r.1@) == spec_channel_paths(opt_str(channel)),
{
    let cap = channel_bundle_cap(channel);
    let mut bundle = chars_of("/Applications/Plexi");
    let capc = chars_of(cap.as_str());
    push_all(&mut bundle, &capc);
    push_lit(&mut bundle, ".app");
    let mut binary = slice_of(&bundle, 0, bundle.len());
    assert(bundle@.subrange(0, bundle@.len() as int) == bundle@);
    push_lit(&mut binary, "/Contents/MacOS/plexi");
    match channel {
        Some(c) => {
            push_lit(&mut binary, "-");
            push_lit(&mut binary, c);
        },
        None => {},
    }
    (string_of(&bundle), string_of(&binary))
}

/// The per-channel profile directory name: `.plexi` or `.plexi-<channel>`.
pub open spec fn spec_profile_dir_name(channel: Option<Seq<char>>) -> Seq<char> {
    ".plexi"@ + channel_suffix(channel)
}

/// Profile directory name (under the home directory) for `channel`.
pub fn profile_dir_name(channel: Option<&str>) -> (r: String)
    ensures
        r@ == spec_profile_dir_name(opt_str(channel)),
{
    let mut out = chars_of(".plexi");
    match channel {
        Some(c) => {
            push_lit(&mut out, "-");
            push_lit(&mut out, c);
        },
        None => {},
    }
    string_of(&out)
}

/// Human channel name from a profile directory basename: `.plexi-<ch>` →
/// `<ch>` when `<ch>` is not empty, anything else → `default`.
pub open spec fn spec_channel_label(basename: Seq<char>) -> Seq<char> {
    match strip_prefix(basename, ".plexi-"@) {
        Some(ch) => if ch.len() > 0 {
            ch
        } else {
            "default"@
        },
        None => "default"@,
    }
}

pub fn channel_label_from(profile_dir_basename: &str) -> (r: String)
    ensures
        r@ == spec_channel_label(profile_dir_basename@),
{
    let cs = chars_of(profile_dir_basename);
    match strip_prefix_lit(&cs, ".plexi-") {
        Some(ch) => if ch.len() > 0 {
            string_of(&ch)
        } else {
            "default".to_owned()
        },
        None => "default".to_owned(),
    }
}

/// The refusal printed when no host services pane spawns on `channel`.
pub open spec fn spec_spawn_gate_error(channel: Seq<char>, socket: Seq<char>) -> Seq<char> {
    "error: host not servicing pane spawns on channel "@ + channel + " (no running host at "@
        + socket + "); nothing was spawned"@
}

/// The spawn-gate refusal message naming the channel and its socket path
/// (the path as displayed).
pub fn spawn_gate_error(channel: &str, socket: &str) -> (r: String)
    ensures
        r@ == spec_spawn_gate_error(channel@, socket@),
{
    let mut out = chars_of("error: host not servicing pane spawns on channel ");
    push_lit(&mut out, channel);
    push_lit(&mut out, " (no running host at ");
    push_lit(&mut out, socket);
    push_lit(&mut out, "); nothing was spawned");
    string_of(&out)
}

/// Direct dispatch over a socket is possible with an explicit `--socket`
/// override or an ambient `PLEXI_SOCKET`.
pub fn command_socket_available_from(explicit_override: bool, ambient_socket: bool) -> (r: bool)
    ensures
        r == (explicit_override || ambient_socket),
{
    explicit_override || ambient_socket
}

/// `Path::join` on Unix paths: an absolute `b` replaces `a`; otherwise `b` is
/// appended after a `/` unless `a` is empty or already ends in `/`.
pub open spec fn path_join(a: Seq<char>, b: Seq<char>) -> Seq<char> {
    if b.len() > 0 && b[0] == '/' {
        b
    } else if a.len() == 0 || a.last() == '/' {
        a + b
    } else {
        a + "/"@ + b
    }
}

/// `Path::join`.
pub fn join_path(a: &Vec<char>, b: &Vec<char>) -> (r: Vec<char>)
    ensures
        r@ == path_join(a@, b@),
{
    if b.len() > 0 && b[0] == '/' {
        return slice_of(b, 0, b.len());
    }
    let mut out = slice_of(a, 0, a.len());
    assert(a@.subrange(0, a@.len() as int) == a@);
    if !(a.len() == 0 || a[a.len() - 1] == '/') {
        out.push('/');
        assert(out@ == a@ + "/"@) by {
            reveal_strlit("/");
        }
    }
    push_all(&mut out, b);
    out
}

/// The socket a CLI command talks to: an explicit override wins; a suffixed
/// binary uses its own channel's `~/.plexi-<channel>/notify.sock`; otherwise
/// the ambient `PLEXI_SOCKET`, if any.
pub open spec fn spec_command_socket(
    explicit: Option<Seq<char>>,
    binary_channel: Option<Seq<char>>,
    ambient: Option<Seq<char>>,
    home: Seq<char>,
) -> Option<Seq<char>> {
    match explicit {
        Some(s) => Some(s),
        None => match binary_channel {
            Some(c) => Some(path_join(path_join(home, ".plexi-"@ + c), "notify.sock"@)),
            None => ambient,
        },
    }
}

pub fn resolve_command_socket_from(
    explicit_socket: Option<&str>,
    binary_channel: Option<&str>,
    ambient_socket: Option<&str>,
    home_dir: &str,
) -> (r: Option<String>)
    ensures
        match r {
            Some(p) => spec_command_socket(
                opt_str(explicit_socket),
                opt_str(binary_channel),
                opt_str(ambient_socket),
                home_dir@,
            ) == Some(p@),
            None => spec_command_socket(
                opt_str(explicit_socket),
                opt_str(binary_channel),
                opt_str(ambient_socket),
                home_dir@,
            ) is None,
        },
{
    if let Some(socket) = explicit_socket {
        return Some(socket.to_owned());
    }
    if let Some(channel) = binary_channel {
        let home = chars_of(home_dir);
        let mut dir = chars_of(".plexi-");
        push_lit(&mut dir, channel);
        let profile = join_path(&home, &dir);
        let sock = chars_of("notify.sock");
        let full = join_path(&profile, &sock);
        return Some(string_of(&full));
    }
    match ambient_socket {
        Some(a) => Some(a.to_owned()),
        None => None,
    }
}

/// `std::io::Error`, carried opaquely.
#[verifier::external_type_specification]
#[verifier::external_body]
pub struct ExIoError(std::io::Error);

/// Why delivering a line to a host socket failed.
#[derive(Debug)]
pub enum SocketTransportError {
    ConnectTimeout,
    Connect(std::io::Error),
    WriteTimeout { bytes_written: usize },
    Write { source: std::io::Error, bytes_written: usize },
}

/// Maps the outcome of waiting for a non-blocking connect: ready is success,
/// an expired deadline is a connect timeout, an I/O error is a connect error.
pub fn classify_connect_wait(result: Result<bool, std::io::Error>) -> (r: Result<
    (),
    SocketTransportError,
>)
    ensures
        match result {
            Ok(true) => r is Ok,
            Ok(false) => r matches Err(SocketTransportError::ConnectTimeout),
            Err(_) => r matches Err(SocketTransportError::Connect(_)),
        },
{
    match result {
        Ok(true) => Ok(()),
        Ok(false) => Err(SocketTransportError::ConnectTimeout),
        Err(error) => Err(SocketTransportError::Connect(error)),
    }
}


/// A delivery failure as plain values: a connect the socket refused, a
/// connect that timed out, another connect error (its text), a write that
/// timed out, or another write error (its text), with the bytes written.
pub enum TransportFailure {
    Refused,
    ConnectTimeout,
    Connect(String),
    WriteTimeout { bytes_written: usize },
    Write { message: String, bytes_written: usize },
}

/// A transport error as plain values: a connect error whose kind is
/// `ConnectionRefused` is a refusal, other I/O errors keep their display
/// text (which is not stated here).
#[verifier::external_body]
pub(crate) fn transport_failure(e: SocketTransportError) -> (r: TransportFailure)
    ensures
        match e {
            SocketTransportError::ConnectTimeout => r is ConnectTimeout,
            SocketTransportError::Connect(_) => r is Refused || r is Connect,
            SocketTransportError::WriteTimeout { bytes_written } => r == (TransportFailure::WriteTimeout { bytes_written }),
            SocketTransportError::Write { bytes_written, .. } => r matches TransportFailure::Write { bytes_written: b, .. } && b == bytes_written,
        },
{
    match e {
        SocketTransportError::ConnectTimeout => TransportFailure::ConnectTimeout,
        SocketTransportError::Connect(e) if e.kind() == std::io::ErrorKind::ConnectionRefused => TransportFailure::Refused,
        SocketTransportError::Connect(e) => TransportFailure::Connect(e.to_string()),
        SocketTransportError::WriteTimeout { bytes_written } => TransportFailure::WriteTimeout { bytes_written },
        SocketTransportError::Write { source, bytes_written } => TransportFailure::Write { message: source.to_string(), bytes_written },
    }
}

pub open spec fn retry_note() -> Seq<char> {
    "; the incomplete frame was not delivered and is safe to retry"@
}

/// What a failed delivery of a `line_len`-byte request to `socket` reports,
/// and whether the stale socket file is removed (only when the connect was
/// refused).  A partial write names how far it got.
pub open spec fn spec_transport_report(socket: Seq<char>, line_len: nat, f: TransportFailure) -> (bool, Seq<char>) {
    match f {
        TransportFailure::Refused => (true, "error: Plexi is not responding (stale socket removed). Is Plexi running?"@),
        TransportFailure::ConnectTimeout => (false, "error: timed out connecting to PLEXI_SOCKET "@ + debug_quoted(socket) + "; request was not delivered"@),
        TransportFailure::Connect(t) => (false, "error: could not connect to PLEXI_SOCKET "@ + debug_quoted(socket) + ": "@ + t@),
        TransportFailure::WriteTimeout { bytes_written } => (false, if bytes_written == 0 {
            "error: timed out writing request to PLEXI_SOCKET "@ + debug_quoted(socket) + retry_note()
        } else {
            "error: timed out writing request to PLEXI_SOCKET "@ + debug_quoted(socket) + " after "@ + decimal(bytes_written as nat) + "/"@ + decimal(line_len) + " bytes"@ + retry_note()
        }),
        TransportFailure::Write { message, bytes_written } => (false, if bytes_written == 0 {
            "error: could not write request to socket: "@ + message@
        } else {
            "error: socket write failed after "@ + decimal(bytes_written as nat) + "/"@ + decimal(line_len) + " bytes: "@ + message@ + retry_note()
        }),
    }
}

pub fn transport_report(socket: &str, line_len: usize, f: &TransportFailure) -> (r: (bool, String))
    ensures
        (r.0, r.1@) == spec_transport_report(socket@, line_len as nat, *f),
{
    let mut m: Vec<char> = Vec::new();
    match f {
        TransportFailure::Refused => {
            push_lit(&mut m, "error: Plexi is not responding (stale socket removed). Is Plexi running?");
            return (true, string_of(&m));
        },
        TransportFailure::ConnectTimeout => {
            push_lit(&mut m, "error: timed out connecting to PLEXI_SOCKET ");
            let d = debug_str(socket);
            push_all(&mut m, &d);
            push_lit(&mut m, "; request was not delivered");
        },
        TransportFailure::Connect(t) => {
            push_lit(&mut m, "error: could not connect to PLEXI_SOCKET ");
            let d = debug_str(socket);
            push_all(&mut m, &d);
            push_lit(&mut m, ": ");
            push_lit(&mut m, t.as_str());
        },
        TransportFailure::WriteTimeout { bytes_written } => {
            push_lit(&mut m, "error: timed out writing request to PLEXI_SOCKET ");
            let d = debug_str(socket);
            push_all(&mut m, &d);
            if *bytes_written != 0 {
                push_lit(&mut m, " after ");
                let b = decimal_chars(*bytes_written as u64);
                push_all(&mut m, &b);
                push_lit(&mut m, "/");
                let n = decimal_chars(line_len as u64);
                push_all(&mut m, &n);
                push_lit(&mut m, " bytes");
            }
            push_lit(&mut m, "; the incomplete frame was not delivered and is safe to retry");
        },
        TransportFailure::Write { message, bytes_written } => {
            if *bytes_written == 0 {
                push_lit(&mut m, "error: could not write request to socket: ");
                push_lit(&mut m, message.as_str());
            } else {
                push_lit(&mut m, "error: socket write failed after ");
                let b = decimal_chars(*bytes_written as u64);
                push_all(&mut m, &b);
                push_lit(&mut m, "/");
                let n = decimal_chars(line_len as u64);
                push_all(&mut m, &n);
                push_lit(&mut m, " bytes: ");
                push_lit(&mut m, message.as_str());
                push_lit(&mut m, "; the incomplete frame was not delivered and is safe to retry");
            }
        },
    }
    (false, string_of(&m))
}


/// What a failed delivery reports: a refused connect removes the stale
/// socket; the texts of other I/O errors are those the errors display.
pub fn delivery_report(socket: &str, line_len: usize, e: SocketTransportError) -> (r: (bool, String))
    ensures
        match e {
            SocketTransportError::ConnectTimeout => (r.0, r.1@) == spec_transport_report(socket@, line_len as nat, TransportFailure::ConnectTimeout),
            SocketTransportError::WriteTimeout { bytes_written } => (r.0, r.1@) == spec_transport_report(socket@, line_len as nat, TransportFailure::WriteTimeout { bytes_written }),
            SocketTransportError::Connect(_) => (r.0, r.1@) == spec_transport_report(socket@, line_len as nat, TransportFailure::Refused)
                || exists|t: String| (r.0, r.1@) == spec_transport_report(socket@, line_len as nat, TransportFailure::Connect(t)),
            SocketTransportError::Write { bytes_written, .. } => exists|t: String|
                (r.0, r.1@) == spec_transport_report(socket@, line_len as nat, TransportFailure::Write { message: t, bytes_written }),
        },
{
    let f = transport_failure(e);
    let r = transport_report(socket, line_len, &f);
    proof {
        match f {
            TransportFailure::Connect(t) => {
                assert((r.0, r.1@) == spec_transport_report(socket@, line_len as nat, TransportFailure::Connect(t)));
            },
            TransportFailure::Write { message, bytes_written } => {
                assert((r.0, r.1@) == spec_transport_report(socket@, line_len as nat, TransportFailure::Write { message, bytes_written }));
            },
            _ => {},
        }
    }
    r
}

} // verus!
