//! The local cloud runtime: an app lifecycle that answers view requests and
//! input events with UI patches and state syncs, and a client that keeps its
//! own copy of the tree and of the app's state.

use vstd::prelude::*;
use vstd::utf8::encode_utf8;
use crate::cloud_protocol::{
    all_view, apply, apply_ops, clone_node, diff, lemma_all_view, node_view, ops_view, spec_diff, text_eq, CloudFrame,
    CloudPayload, CloudUiNode, FrameType, IntoText, NodeModel, OpModel, PatchOp, ProtocolError,
    StateSyncFrame, UiNodePatch, ViewRequest,
};
use crate::text::{chars_of, decimal, opt_text, decimal_chars, eq_lit, push_all, push_lit, string_of};

verus! {

#[derive(Debug)]
pub enum CloudRuntimeError {
    Protocol(ProtocolError),
    UnexpectedFrame { expected: &'static str, actual: FrameType },
    InvalidInputEvent(String),
    MissingClientTree,
}

// ── state hash ──────────────────────────────────────────────────────────────

/// The SHA-256 digest of `bytes`.
pub uninterp spec fn sha256_of(bytes: Seq<u8>) -> Seq<u8>;

/// `sha2::Sha256::digest`: the 32-byte SHA-256 digest of `bytes`.
#[verifier::external_body]
fn sha256_digest(bytes: &[u8]) -> (r: Vec<u8>)
    ensures
        r@ == sha256_of(bytes@),
        r@.len() == 32,
{
    <sha2::Sha256 as sha2::Digest>::digest(bytes).to_vec()
}

/// The lowercase hexadecimal digit of `n` (below 16).
pub open spec fn hex_digit(n: u8) -> char {
    if n < 10 {
        (n + 48) as char
    } else {
        (n + 87) as char
    }
}

/// Two lowercase hexadecimal digits per byte, high nibble first.
pub open spec fn hex_lower(bytes: Seq<u8>) -> Seq<char>
    decreases bytes.len(),
{
    if bytes.len() == 0 {
        seq![]
    } else {
        hex_lower(bytes.drop_last()) + seq![
            hex_digit(bytes.last() / 16),
            hex_digit(bytes.last() % 16),
        ]
    }
}

/// The state hash of a snapshot: lowercase hex of the SHA-256 of its UTF-8 bytes.
pub open spec fn state_hash_of(snapshot: Seq<char>) -> Seq<char> {
    hex_lower(sha256_of(encode_utf8(snapshot)))
}

fn hex_char(n: u8) -> (r: char)
    requires
        n < 16,
    ensures
        r == hex_digit(n),
{
    if n < 10 {
        (n + 48) as char
    } else {
        (n + 87) as char
    }
}

/// Lowercase hex of the SHA-256 of `text`'s UTF-8 bytes.
pub fn hex_sha256(text: &str) -> (r: String)
    ensures
        r@ == state_hash_of(text@),
{
    let digest = sha256_digest(text.as_bytes());
    let mut out: Vec<char> = Vec::new();
    let mut i: usize = 0;
    while i < digest.len()
        invariant
            i <= digest@.len(),
            out@ == hex_lower(digest@.take(i as int)),
        decreases digest@.len() - i,
    {
        let b = digest[i];
        proof {
            assert(digest@.take(i + 1).drop_last() =~= digest@.take(i as int));
            assert(digest@.take(i + 1).last() == b);
        }
        out.push(hex_char(b / 16));
        out.push(hex_char(b % 16));
        proof {
            assert(out@ =~= hex_lower(digest@.take(i + 1)));
        }
        i = i + 1;
    }
    proof {
        assert(digest@.take(digest@.len() as int) =~= digest@);
    }
    string_of(&out)
}

// ── lifecycle ───────────────────────────────────────────────────────────────

/// A runtime error as values: its kind (in declaration order), the text an
/// invalid input event carries, the frame type an unexpected frame has, and
/// the protocol error.
pub type ErrorModel = (int, Seq<char>, Option<FrameType>, Option<ProtocolError>);

pub open spec fn error_view(e: CloudRuntimeError) -> ErrorModel {
    match e {
        CloudRuntimeError::Protocol(p) => (0, Seq::<char>::empty(), None, Some(p)),
        CloudRuntimeError::UnexpectedFrame { expected, actual } => (1, expected@, Some(actual), None),
        CloudRuntimeError::InvalidInputEvent(m) => (2, m@, None, None),
        CloudRuntimeError::MissingClientTree => (3, Seq::<char>::empty(), None, None),
    }
}

/// A cloud app as the runtime drives it: it takes input events, renders a UI
/// tree, and snapshots its state as JSON.
pub trait CloudLifecycle: Sized {
    /// The app's identifier.
    spec fn spec_app_id(&self) -> Seq<char>;

    /// The tree `view` renders.
    spec fn spec_view(&self) -> NodeModel;

    /// The JSON `snapshot_json` gives.
    spec fn spec_snapshot(&self) -> Seq<char>;

    fn app_id(&self) -> (r: &str)
        ensures
            r@ == self.spec_app_id(),
    ;

    /// Whether the app takes an input event (given as JSON) in this state.
    spec fn spec_accepts(&self, event_json: Seq<char>) -> bool;

    /// The error with which the app refuses an input event (as values).
    spec fn spec_refusal(&self, event_json: Seq<char>) -> ErrorModel;

    /// Takes one input event, given as JSON; it succeeds exactly when the
    /// app accepts the event.  A refused event leaves the app as it was and
    /// comes back with the app's refusal.
    fn update(&mut self, event_json: &str) -> (r: Result<(), CloudRuntimeError>)
        ensures
            r is Ok <==> old(self).spec_accepts(event_json@),
            r matches Err(e) ==> error_view(e) == old(self).spec_refusal(event_json@) && *final(self) == *old(self),
    ;

    fn view(&self) -> (r: CloudUiNode)
        ensures
            node_view(r) == self.spec_view(),
    ;

    fn snapshot_json(&self) -> (r: String)
        ensures
            r@ == self.spec_snapshot(),
    ;

    /// The hash of the snapshot, by which a client tells whether it is current.
    fn state_hash(&self) -> (r: String)
        ensures
            r@ == state_hash_of(self.spec_snapshot()),
    {
        let s = self.snapshot_json();
        hex_sha256(s.as_str())
    }
}


/// What the runtime answers to a request for the view of `lc`, having last
/// sent `prev`, from a client that holds `known_hash`: the patch from `prev`
/// to the current view, then the state, unless the client holds its hash.
pub open spec fn rendered<L: CloudLifecycle>(
    frames: Seq<CloudFrame>,
    prev: Option<NodeModel>,
    lc: L,
    known_hash: Option<Seq<char>>,
) -> bool {
    let hash = state_hash_of(lc.spec_snapshot());
    let sync = known_hash != Some(hash);
    &&& frames.len() == (if sync {
        2int
    } else {
        1int
    })
    &&& frames[0].frame_type == FrameType::UiNodePatch
    &&& match frames[0].payload {
        CloudPayload::UiNodePatch(p) => ops_view(p.ops@) == spec_diff(prev, lc.spec_view()),
        _ => false,
    }
    &&& sync ==> frames[1].frame_type == FrameType::StateSync
    &&& sync ==> match frames[1].payload {
        CloudPayload::StateSync(s) => {
            &&& s.app_id@ == lc.spec_app_id()
            &&& s.state_hash@ == hash
            &&& s.snapshot_json@ == lc.spec_snapshot()
        },
        _ => false,
    }
}

fn clone_opt_text(o: &Option<String>) -> (r: Option<String>)
    ensures
        opt_text(r) == opt_text(*o),
{
    match o {
        Some(s) => Some(s.clone()),
        None => None,
    }
}

// ── runtime ─────────────────────────────────────────────────────────────────

/// Serves one lifecycle, remembering the tree it last sent.
pub struct LocalCloudRuntime<L> {
    lifecycle: L,
    previous_tree: Option<CloudUiNode>,
}

impl<L: CloudLifecycle> LocalCloudRuntime<L> {
    /// The lifecycle being served.
    pub closed spec fn lifecycle(&self) -> L {
        self.lifecycle
    }

    /// The tree last sent, if any.
    pub closed spec fn previous(&self) -> Option<NodeModel> {
        match self.previous_tree {
            Some(t) => Some(node_view(t)),
            None => None,
        }
    }

    pub fn new(lifecycle: L) -> (r: Self)
        ensures
            r.lifecycle() == lifecycle,
            r.previous() is None,
    {
        LocalCloudRuntime { lifecycle, previous_tree: None }
    }

    /// Answers a view request or an input event; any other frame is refused.
    pub fn handle_frame(&mut self, frame: CloudFrame) -> (r: Result<Vec<CloudFrame>, CloudRuntimeError>)
        ensures
            match frame.payload {
                CloudPayload::ViewRequest(req) => {
                    &&& final(self).lifecycle() == old(self).lifecycle()
                    &&& final(self).previous() == Some(old(self).lifecycle().spec_view())
                    &&& match r {
                        Ok(fs) => rendered(
                            fs@,
                            old(self).previous(),
                            old(self).lifecycle(),
                            opt_text(req.last_state_hash),
                        ),
                        Err(_) => false,
                    }
                },
                CloudPayload::InputEvent(input) => match r {
                    Ok(fs) => {
                        &&& old(self).lifecycle().spec_accepts(input.event_json@)
                        &&& rendered(fs@, old(self).previous(), final(self).lifecycle(), None)
                        &&& final(self).previous() == Some(final(self).lifecycle().spec_view())
                    },
                    Err(e) => {
                        &&& !old(self).lifecycle().spec_accepts(input.event_json@)
                        &&& error_view(e) == old(self).lifecycle().spec_refusal(input.event_json@)
                        &&& final(self).lifecycle() == old(self).lifecycle()
                        &&& final(self).previous() == old(self).previous()
                    },
                },
                _ => {
                    &&& final(self).lifecycle() == old(self).lifecycle()
                    &&& final(self).previous() == old(self).previous()
                    &&& match r {
                        Err(CloudRuntimeError::UnexpectedFrame { expected, actual }) => {
                            &&& expected@ == "ViewRequest or InputEvent"@
                            &&& actual == frame.frame_type
                        },
                        _ => false,
                    }
                },
            },
    {
        match frame.payload {
            CloudPayload::ViewRequest(request) => Ok(self.render_response_frames(request)),
            CloudPayload::InputEvent(input) => {
                match self.lifecycle.update(input.event_json.as_str()) {
                    Ok(()) => {},
                    Err(e) => {
                        return Err(e);
                    },
                }
                Ok(self.render_response_frames(ViewRequest { last_state_hash: None }))
            },
            _ => Err(
                CloudRuntimeError::UnexpectedFrame {
                    expected: "ViewRequest or InputEvent",
                    actual: frame.frame_type,
                },
            ),
        }
    }

    fn render_response_frames(&mut self, request: ViewRequest) -> (r: Vec<CloudFrame>)
        ensures
            final(self).lifecycle() == old(self).lifecycle(),
            final(self).previous() == Some(old(self).lifecycle().spec_view()),
            rendered(
                r@,
                old(self).previous(),
                old(self).lifecycle(),
                opt_text(request.last_state_hash),
            ),
    {
        let next_tree = self.lifecycle.view();
        let patch = diff(self.previous_tree.as_ref(), &next_tree);
        self.previous_tree = Some(next_tree);
        let mut frames: Vec<CloudFrame> = Vec::new();
        frames.push(
            CloudFrame { frame_type: FrameType::UiNodePatch, payload: CloudPayload::UiNodePatch(patch) },
        );
        let state_hash = self.lifecycle.state_hash();
        let known = match &request.last_state_hash {
            Some(h) => text_eq(h, &state_hash),
            None => false,
        };
        if !known {
            let app_id = self.lifecycle.app_id().to_owned();
            let snapshot_json = self.lifecycle.snapshot_json();
            frames.push(
                CloudFrame {
                    frame_type: FrameType::StateSync,
                    payload: CloudPayload::StateSync(
                        StateSyncFrame { app_id, state_hash, snapshot_json },
                    ),
                },
            );
        }
        frames
    }
}


// ── client ──────────────────────────────────────────────────────────────────

/// What a client holds: its copy of the tree, and the last state it was sent.
pub struct ClientModel {
    pub tree: Option<NodeModel>,
    pub state_hash: Option<Seq<char>>,
    pub snapshot_json: Option<Seq<char>>,
}

/// The node of the first `Replace` step, if any.
pub open spec fn first_replace(ops: Seq<OpModel>) -> Option<NodeModel>
    decreases ops.len(),
{
    if ops.len() == 0 {
        None
    } else {
        match ops[0] {
            OpModel::Replace { node, .. } => Some(node),
            _ => first_replace(ops.drop_first()),
        }
    }
}

/// The client's state after one response; `None` when a patch arrives and the
/// client has no tree to apply it to.
pub open spec fn absorb_frame(c: ClientModel, f: CloudFrame) -> Option<ClientModel> {
    match f.payload {
        CloudPayload::UiNodePatch(p) => {
            let ops = ops_view(p.ops@);
            let base = match c.tree {
                Some(t) => Some(t),
                None => first_replace(ops),
            };
            match base {
                Some(t) => Some(
                    ClientModel {
                        tree: Some(apply_ops(t, ops)),
                        state_hash: c.state_hash,
                        snapshot_json: c.snapshot_json,
                    },
                ),
                None => None,
            }
        },
        CloudPayload::StateSync(s) => Some(
            ClientModel {
                tree: c.tree,
                state_hash: Some(s.state_hash@),
                snapshot_json: Some(s.snapshot_json@),
            },
        ),
        _ => Some(c),
    }
}

/// The client's state after the responses, in order.
pub open spec fn absorb_frames(c: ClientModel, fs: Seq<CloudFrame>) -> Option<ClientModel>
    decreases fs.len(),
{
    if fs.len() == 0 {
        Some(c)
    } else {
        match absorb_frames(c, fs.drop_last()) {
            Some(c2) => absorb_frame(c2, fs.last()),
            None => None,
        }
    }
}

/// A client talking to a local runtime.
pub struct LocalCloudClient<L> {
    runtime: LocalCloudRuntime<L>,
    tree: Option<CloudUiNode>,
    state_hash: Option<String>,
    snapshot_json: Option<String>,
}

fn first_replace_node(patch: &UiNodePatch) -> (r: Option<CloudUiNode>)
    ensures
        match r {
            Some(n) => first_replace(ops_view(patch.ops@)) == Some(node_view(n)),
            None => first_replace(ops_view(patch.ops@)) is None,
        },
{
    let ghost ops = ops_view(patch.ops@);
    assert(ops.skip(0) =~= ops);
    let mut i: usize = 0;
    while i < patch.ops.len()
        invariant
            i <= patch.ops@.len(),
            ops == ops_view(patch.ops@),
            ops.len() == patch.ops@.len(),
            first_replace(ops.skip(i as int)) == first_replace(ops),
        decreases patch.ops@.len() - i,
    {
        proof {
            assert(ops.skip(i as int).drop_first() =~= ops.skip(i + 1));
            assert(ops.skip(i as int)[0] == ops[i as int]);
        }
        match &patch.ops[i] {
            PatchOp::Replace { node, .. } => {
                return Some(clone_node(node));
            },
            _ => {},
        }
        i = i + 1;
    }
    None
}

impl<L: CloudLifecycle> LocalCloudClient<L> {
    /// The runtime the client talks to.
    pub closed spec fn runtime(&self) -> LocalCloudRuntime<L> {
        self.runtime
    }

    /// The client's tree and state.
    pub closed spec fn model(&self) -> ClientModel {
        ClientModel {
            tree: match self.tree {
                Some(t) => Some(node_view(t)),
                None => None,
            },
            state_hash: opt_text(self.state_hash),
            snapshot_json: opt_text(self.snapshot_json),
        }
    }

    /// A client with no tree and no state yet.
    pub fn new(runtime: LocalCloudRuntime<L>) -> (r: Self)
        ensures
            r.runtime() == runtime,
            r.model() == (ClientModel { tree: None, state_hash: None, snapshot_json: None }),
    {
        LocalCloudClient { runtime, tree: None, state_hash: None, snapshot_json: None }
    }

    /// Asks for the current view, naming the state hash the client holds.
    pub fn request_view(&mut self) -> (r: Result<Vec<CloudFrame>, CloudRuntimeError>)
        ensures
            final(self).runtime().lifecycle() == old(self).runtime().lifecycle(),
            final(self).runtime().previous() == Some(old(self).runtime().lifecycle().spec_view()),
            match r {
                Ok(fs) => {
                    &&& rendered(
                        fs@,
                        old(self).runtime().previous(),
                        old(self).runtime().lifecycle(),
                        old(self).model().state_hash,
                    )
                    &&& absorb_frames(old(self).model(), fs@) == Some(final(self).model())
                },
                Err(e) => {
                    &&& e is MissingClientTree
                    &&& old(self).model().tree is None
                    &&& first_replace(
                        spec_diff(
                            old(self).runtime().previous(),
                            old(self).runtime().lifecycle().spec_view(),
                        ),
                    ) is None
                },
            },
    {
        let known = clone_opt_text(&self.state_hash);
        let frame = CloudFrame {
            frame_type: FrameType::ViewRequest,
            payload: CloudPayload::ViewRequest(ViewRequest { last_state_hash: known }),
        };
        let responses = match self.runtime.handle_frame(frame) {
            Ok(fs) => fs,
            Err(e) => {
                return Err(e);
            },
        };
        match self.absorb_all(&responses) {
            Ok(()) => Ok(responses),
            Err(e) => {
                proof {
                    reveal_with_fuel(absorb_frames, 3);
                }
                Err(e)
            },
        }
    }

    /// Sends one input event, given as JSON.
    pub fn send_input<T: IntoText>(&mut self, event_json: T) -> (r: Result<Vec<CloudFrame>, CloudRuntimeError>)
        ensures
            match r {
                Ok(fs) => {
                    &&& old(self).runtime().lifecycle().spec_accepts(event_json.text_view())
                    &&& rendered(fs@, old(self).runtime().previous(), final(self).runtime().lifecycle(), None)
                    &&& final(self).runtime().previous() == Some(final(self).runtime().lifecycle().spec_view())
                    &&& absorb_frames(old(self).model(), fs@) == Some(final(self).model())
                },
                Err(e) => {
                    ||| {
                        &&& !old(self).runtime().lifecycle().spec_accepts(event_json.text_view())
                        &&& error_view(e) == old(self).runtime().lifecycle().spec_refusal(event_json.text_view())
                        &&& final(self).runtime().lifecycle() == old(self).runtime().lifecycle()
                        &&& final(self).runtime().previous() == old(self).runtime().previous()
                        &&& final(self).model() == old(self).model()
                    }
                    ||| {
                        &&& old(self).runtime().lifecycle().spec_accepts(event_json.text_view())
                        &&& e is MissingClientTree
                        &&& old(self).model().tree is None
                        &&& first_replace(
                            spec_diff(old(self).runtime().previous(), final(self).runtime().lifecycle().spec_view()),
                        ) is None
                        &&& final(self).runtime().previous() == Some(final(self).runtime().lifecycle().spec_view())
                    }
                },
            },
    {
        let frame = CloudFrame {
            frame_type: FrameType::InputEvent,
            payload: CloudPayload::InputEvent(
                crate::cloud_protocol::InputEventFrame { event_json: event_json.into_text() },
            ),
        };
        let responses = match self.runtime.handle_frame(frame) {
            Ok(fs) => fs,
            Err(e) => {
                return Err(e);
            },
        };
        match self.absorb_all(&responses) {
            Ok(()) => Ok(responses),
            Err(e) => {
                proof {
                    reveal_with_fuel(absorb_frames, 3);
                }
                Err(e)
            },
        }
    }

    /// The client's copy of the tree, once it has one.
    pub fn cached_tree(&self) -> (r: Option<&CloudUiNode>)
        ensures
            match r {
                Some(t) => self.model().tree == Some(node_view(*t)),
                None => self.model().tree is None,
            },
    {
        self.tree.as_ref()
    }

    /// The state hash the client was last sent.
    pub fn state_hash(&self) -> (r: Option<&str>)
        ensures
            match r {
                Some(h) => self.model().state_hash == Some(h@),
                None => self.model().state_hash is None,
            },
    {
        match &self.state_hash {
            Some(h) => Some(h.as_str()),
            None => None,
        }
    }

    /// The state snapshot the client was last sent.
    pub fn snapshot_json(&self) -> (r: Option<&str>)
        ensures
            match r {
                Some(s) => self.model().snapshot_json == Some(s@),
                None => self.model().snapshot_json is None,
            },
    {
        match &self.snapshot_json {
            Some(s) => Some(s.as_str()),
            None => None,
        }
    }

    fn absorb_all(&mut self, responses: &Vec<CloudFrame>) -> (r: Result<(), CloudRuntimeError>)
        ensures
            final(self).runtime() == old(self).runtime(),
            match absorb_frames(old(self).model(), responses@) {
                Some(m) => r is Ok && final(self).model() == m,
                None => r matches Err(e) && e is MissingClientTree,
            },
    {
        let ghost m0 = self.model();
        let mut i: usize = 0;
        while i < responses.len()
            invariant
                i <= responses@.len(),
                m0 == old(self).model(),
                self.runtime() == old(self).runtime(),
                absorb_frames(m0, responses@.take(i as int)) == Some(self.model()),
            decreases responses@.len() - i,
        {
            proof {
                assert(responses@.take(i + 1).drop_last() =~= responses@.take(i as int));
                assert(responses@.take(i + 1).last() == responses@[i as int]);
            }
            match self.apply_response(&responses[i]) {
                Ok(()) => {},
                Err(e) => {
                    proof {
                        lemma_absorb_stuck(m0, responses@, i as int + 1);
                    }
                    return Err(e);
                },
            }
            i = i + 1;
        }
        proof {
            assert(responses@.take(responses@.len() as int) =~= responses@);
        }
        Ok(())
    }

    fn apply_response(&mut self, frame: &CloudFrame) -> (r: Result<(), CloudRuntimeError>)
        ensures
            final(self).runtime() == old(self).runtime(),
            match absorb_frame(old(self).model(), *frame) {
                Some(m) => r is Ok && final(self).model() == m,
                None => r matches Err(e) && e is MissingClientTree,
            },
    {
        match &frame.payload {
            CloudPayload::UiNodePatch(patch) => {
                if self.tree.is_none() {
                    self.tree = first_replace_node(patch);
                }
                match self.tree.take() {
                    Some(mut t) => {
                        apply(&mut t, patch);
                        self.tree = Some(t);
                        Ok(())
                    },
                    None => Err(CloudRuntimeError::MissingClientTree),
                }
            },
            CloudPayload::StateSync(state) => {
                self.state_hash = Some(state.state_hash.clone());
                self.snapshot_json = Some(state.snapshot_json.clone());
                Ok(())
            },
            _ => Ok(()),
        }
    }
}

proof fn lemma_absorb_stuck(c: ClientModel, fs: Seq<CloudFrame>, k: int)
    requires
        0 < k <= fs.len(),
        absorb_frames(c, fs.take(k)) is None,
    ensures
        absorb_frames(c, fs) is None,
    decreases fs.len() - k,
{
    if k < fs.len() {
        assert(fs.take(k + 1).drop_last() =~= fs.take(k));
        lemma_absorb_stuck(c, fs, k + 1);
    } else {
        assert(fs.take(k) =~= fs);
    }
}


// ── the counter app ─────────────────────────────────────────────────────────

/// The event's `type` and `target` strings, when the text parses as JSON, or
/// the parser's message when it does not.
pub uninterp spec fn json_event(text: Seq<char>) -> Result<(Option<Seq<char>>, Option<Seq<char>>), Seq<char>>;

/// `serde_json::from_str` into a JSON value, then the string members `type`
/// and `target` of it (`None` where a member is absent or not a string); on
/// a parse failure, the error's message.
#[verifier::external_body]
fn json_event_fields(text: &str) -> (r: Result<(Option<String>, Option<String>), String>)
    ensures
        match r {
            Ok((ty, target)) => json_event(text@) == Ok::<(Option<Seq<char>>, Option<Seq<char>>), Seq<char>>((opt_text(ty), opt_text(target))),
            Err(m) => json_event(text@) == Err::<(Option<Seq<char>>, Option<Seq<char>>), Seq<char>>(m@),
        },
{
    match serde_json::from_str::<serde_json::Value>(text) {
        Ok(v) => Ok((
            v.get("type").and_then(serde_json::Value::as_str).map(str::to_owned),
            v.get("target").and_then(serde_json::Value::as_str).map(str::to_owned),
        )),
        Err(e) => Err(e.to_string()),
    }
}

/// The JSON string literal for `s`, quoted and escaped.
pub uninterp spec fn json_quoted(s: Seq<char>) -> Seq<char>;

/// A character JSON writes as itself inside a string literal: anything but
/// a control character below U+0020, the quote and the backslash.
pub open spec fn plain_json_char(c: char) -> bool {
    c >= ' ' && c != '"' && c != '\\'
}

/// `serde_json::to_string` of a string: the quoted, escaped JSON literal;
/// text of plain characters only is quoted as it is.
#[verifier::external_body]
pub(crate) fn json_quote(s: &str) -> (r: String)
    ensures
        r@ == json_quoted(s@),
        (forall|i: int| 0 <= i < s@.len() ==> plain_json_char(#[trigger] s@[i])) ==> r@ == seq!['"'] + s@ + seq!['"'],
{
    serde_json::to_string(s).unwrap_or_default()
}

/// A counter: a label showing the count and a button that increments it.
/// Its view is `counter_view(count)`, its snapshot
/// `counter_snapshot(count, last_event)`.
pub struct CounterCloudLifecycle {
    app_id: String,
    count: u64,
    last_event: Option<String>,
}

/// The counter's label text.
pub open spec fn count_text(count: u64) -> Seq<char> {
    "Count: "@ + decimal(count as nat)
}

/// The counter's UI tree.
pub open spec fn counter_view(count: u64) -> NodeModel {
    NodeModel {
        key: "root"@,
        kind: "column"@,
        props: seq![],
        children: seq![
            NodeModel {
                key: "count-label"@,
                kind: "text"@,
                props: seq![("text"@, count_text(count))],
                children: seq![],
            },
            NodeModel {
                key: "increment"@,
                kind: "button"@,
                props: seq![("label"@, "Increment"@)],
                children: seq![],
            },
        ],
    }
}

/// The counter's snapshot: `{"count":N,"last_event":E}`, E being the last
/// event's JSON as a string literal, or `null`.
pub open spec fn counter_snapshot(count: u64, last_event: Option<Seq<char>>) -> Seq<char> {
    "{\"count\":"@ + decimal(count as nat) + ",\"last_event\":"@ + match last_event {
        Some(e) => json_quoted(e),
        None => "null"@,
    } + "}"@
}

/// Whether an event is a click on the increment button.
pub open spec fn is_increment(ev: (Option<Seq<char>>, Option<Seq<char>>)) -> bool {
    ev.0 == Some("click"@) && ev.1 == Some("increment"@)
}

impl CounterCloudLifecycle {
    /// The count so far.
    pub closed spec fn count(&self) -> u64 {
        self.count
    }

    /// The last event taken, as JSON.
    pub closed spec fn last_event(&self) -> Option<Seq<char>> {
        opt_text(self.last_event)
    }

    pub fn new<T: IntoText>(app_id: T) -> (r: Self)
        ensures
            r.spec_app_id() == app_id.text_view(),
            r.count() == 0,
            r.last_event() is None,
    {
        CounterCloudLifecycle { app_id: app_id.into_text(), count: 0, last_event: None }
    }
}

fn eq_opt_lit(o: &Option<String>, lit: &str) -> (r: bool)
    ensures
        r == (opt_text(*o) == Some(lit@)),
{
    match o {
        Some(s) => {
            let c = chars_of(s.as_str());
            eq_lit(&c, lit)
        },
        None => false,
    }
}

fn leaf_with_prop(key: &str, kind: &str, name: &str, value: String) -> (r: CloudUiNode)
    ensures
        node_view(r) == (NodeModel {
            key: key@,
            kind: kind@,
            props: seq![(name@, value@)],
            children: seq![],
        }),
{
    let mut n = CloudUiNode::new(key, kind);
    let _ = n.props.insert(name.to_owned(), value);
    proof {
        assert(n.props@ =~= seq![(name@, value@)]);
        lemma_all_view(n.children@);
        assert(all_view(n.children@) =~= Seq::<NodeModel>::empty());
    }
    n
}

impl CloudLifecycle for CounterCloudLifecycle {
    closed spec fn spec_app_id(&self) -> Seq<char> {
        self.app_id@
    }

    closed spec fn spec_view(&self) -> NodeModel {
        counter_view(self.count)
    }

    closed spec fn spec_snapshot(&self) -> Seq<char> {
        counter_snapshot(self.count, opt_text(self.last_event))
    }

    /// The counter takes every event that is JSON.
    closed spec fn spec_accepts(&self, event_json: Seq<char>) -> bool {
        json_event(event_json) is Ok
    }

    /// The counter refuses text that is not JSON with the parser's message.
    closed spec fn spec_refusal(&self, event_json: Seq<char>) -> ErrorModel {
        match json_event(event_json) {
            Err(m) => (2, m, None, None),
            Ok(_) => (2, Seq::<char>::empty(), None, None),
        }
    }

    fn app_id(&self) -> (r: &str) {
        self.app_id.as_str()
    }

    /// Records the event; a click on `increment` adds one to the count
    /// (wrapping at the top of `u64`). Text that is not JSON is refused and
    /// changes nothing.
    fn update(&mut self, event_json: &str) -> (r: Result<(), CloudRuntimeError>)
        ensures
            match json_event(event_json@) {
                Ok(ev) => {
                    &&& r is Ok
                    &&& final(self).spec_app_id() == old(self).spec_app_id()
                    &&& final(self).last_event() == Some(event_json@)
                    &&& final(self).count() == if is_increment(ev) {
                        if old(self).count() == u64::MAX {
                            0
                        } else {
                            (old(self).count() + 1) as u64
                        }
                    } else {
                        old(self).count()
                    }
                },
                Err(m) => {
                    &&& r matches Err(CloudRuntimeError::InvalidInputEvent(e)) && e@ == m
                    &&& final(self).spec_app_id() == old(self).spec_app_id()
                    &&& final(self).count() == old(self).count()
                    &&& final(self).last_event() == old(self).last_event()
                },
            },
    {
        match json_event_fields(event_json) {
            Err(m) => Err(CloudRuntimeError::InvalidInputEvent(m)),
            Ok((ty, target)) => {
                self.last_event = Some(event_json.to_owned());
                if eq_opt_lit(&ty, "click") && eq_opt_lit(&target, "increment") {
                    self.count = self.count.wrapping_add(1);
                }
                Ok(())
            },
        }
    }

    fn view(&self) -> (r: CloudUiNode) {
        let mut root = CloudUiNode::new("root", "column");
        let mut text: Vec<char> = Vec::new();
        push_lit(&mut text, "Count: ");
        let digits = decimal_chars(self.count);
        push_all(&mut text, &digits);
        let count = leaf_with_prop("count-label", "text", "text", string_of(&text));
        root.children.push(count);
        let button = leaf_with_prop("increment", "button", "label", "Increment".to_owned());
        root.children.push(button);
        proof {
            lemma_all_view(root.children@);
            assert(all_view(root.children@) =~= counter_view(self.count).children);
        }
        root
    }

    fn snapshot_json(&self) -> (r: String) {
        let mut out: Vec<char> = Vec::new();
        push_lit(&mut out, "{\"count\":");
        let digits = decimal_chars(self.count);
        push_all(&mut out, &digits);
        push_lit(&mut out, ",\"last_event\":");
        match &self.last_event {
            Some(e) => {
                let q = json_quote(e.as_str());
                let qc = chars_of(q.as_str());
                push_all(&mut out, &qc);
            },
            None => push_lit(&mut out, "null"),
        }
        push_lit(&mut out, "}");
        string_of(&out)
    }
}


/// The counter's view and snapshot, in terms of its count and last event.
pub proof fn lemma_counter_model(c: CounterCloudLifecycle)
    ensures
        c.spec_view() == counter_view(c.count()),
        c.spec_snapshot() == counter_snapshot(c.count(), c.last_event()),
{
}


/// After taking a view response, a client holds the state hash of the app it
/// was rendered from.
pub proof fn lemma_view_leaves_client_current<L: CloudLifecycle>(
    c: ClientModel,
    fs: Seq<CloudFrame>,
    prev: Option<NodeModel>,
    lc: L,
    c2: ClientModel,
)
    requires
        rendered(fs, prev, lc, c.state_hash),
        absorb_frames(c, fs) == Some(c2),
    ensures
        c2.state_hash == Some(state_hash_of(lc.spec_snapshot())),
{
    reveal_with_fuel(absorb_frames, 3);
    assert(fs.drop_last().len() == fs.len() - 1);
    if fs.len() == 2 {
        assert(fs.drop_last().drop_last() =~= Seq::<CloudFrame>::empty());
        assert(fs.drop_last()[0] == fs[0]);
    } else {
        assert(fs.drop_last() =~= Seq::<CloudFrame>::empty());
    }
}

/// A client that already holds the app's state hash is sent the patch alone,
/// with no state sync.
pub proof fn lemma_current_client_gets_no_sync<L: CloudLifecycle>(
    fs: Seq<CloudFrame>,
    prev: Option<NodeModel>,
    lc: L,
)
    requires
        rendered(fs, prev, lc, Some(state_hash_of(lc.spec_snapshot()))),
    ensures
        fs.len() == 1,
        fs[0].payload is UiNodePatch,
{
}

} // verus!
