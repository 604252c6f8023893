//! Cloud-runtime wire protocol: frame types, the 5-byte frame header, UI
//! trees, and the tree diff/patch that keeps a client's copy in step.

use vstd::prelude::*;
use crate::text::{
    chars_of, decimal, decimal_chars, eq_chars, push_all, push_lit, str_less, str_lt, str_lt_from,
    string_of,
};

verus! {

// ── errors and frame types ──────────────────────────────────────────────────

#[derive(Debug)]
pub enum ProtocolError {
    FrameTooShort,
    UnknownFrameType(u8),
    LengthMismatch { expected: usize, actual: usize },
    Decode(String),
    Encode(String),
}

#[derive(Debug, Clone, Copy, PartialEq, Eq, Structural)]
pub enum FrameType {
    ViewRequest,
    UiNodePatch,
    InputEvent,
    EffectRequest,
    EffectResult,
    StateSync,
    PaymentRequest,
    PaymentResult,
}

/// The wire byte of each frame type.
pub open spec fn frame_code(t: FrameType) -> u8 {
    match t {
        FrameType::ViewRequest => 1,
        FrameType::UiNodePatch => 2,
        FrameType::InputEvent => 3,
        FrameType::EffectRequest => 4,
        FrameType::EffectResult => 5,
        FrameType::StateSync => 6,
        FrameType::PaymentRequest => 7,
        FrameType::PaymentResult => 8,
    }
}

impl FrameType {
    /// The wire byte of this frame type.
    pub fn code(self) -> (r: u8)
        ensures
            r == frame_code(self),
    {
        match self {
            FrameType::ViewRequest => 1,
            FrameType::UiNodePatch => 2,
            FrameType::InputEvent => 3,
            FrameType::EffectRequest => 4,
            FrameType::EffectResult => 5,
            FrameType::StateSync => 6,
            FrameType::PaymentRequest => 7,
            FrameType::PaymentResult => 8,
        }
    }

    /// The frame type of a wire byte; bytes 1 to 8 are the eight types.
    pub fn from_code(value: u8) -> (r: Result<FrameType, ProtocolError>)
        ensures
            match r {
                Ok(t) => frame_code(t) == value,
                Err(e) => {
                    &&& (1 > value || value > 8)
                    &&& e matches ProtocolError::UnknownFrameType(v) && v == value
                },
            },
    {
        match value {
            1 => Ok(FrameType::ViewRequest),
            2 => Ok(FrameType::UiNodePatch),
            3 => Ok(FrameType::InputEvent),
            4 => Ok(FrameType::EffectRequest),
            5 => Ok(FrameType::EffectResult),
            6 => Ok(FrameType::StateSync),
            7 => Ok(FrameType::PaymentRequest),
            8 => Ok(FrameType::PaymentResult),
            other => Err(ProtocolError::UnknownFrameType(other)),
        }
    }
}

// ── frames ──────────────────────────────────────────────────────────────────

/// A typed frame: the header's type and the decoded payload.
#[derive(Debug)]
pub struct CloudFrame {
    pub frame_type: FrameType,
    pub payload: CloudPayload,
}

/// The payload of each frame type.
#[derive(Debug)]
pub enum CloudPayload {
    ViewRequest(ViewRequest),
    UiNodePatch(UiNodePatch),
    InputEvent(InputEventFrame),
    EffectRequest(EffectRequestFrame),
    EffectResult(EffectResultFrame),
    StateSync(StateSyncFrame),
    PaymentRequest(PaymentRequestFrame),
    PaymentResult(PaymentResultFrame),
}

/// A client asks for the current view; it names the state hash it holds.
#[derive(Debug, Default)]
pub struct ViewRequest {
    pub last_state_hash: Option<String>,
}

#[derive(Debug)]
pub struct InputEventFrame {
    pub event_json: String,
}

#[derive(Debug)]
pub struct EffectRequestFrame {
    pub request_id: u64,
    pub effect_json: String,
}

#[derive(Debug)]
pub struct EffectResultFrame {
    pub request_id: u64,
    pub result_json: String,
}

#[derive(Debug)]
pub struct StateSyncFrame {
    pub app_id: String,
    pub state_hash: String,
    pub snapshot_json: String,
}

#[derive(Debug)]
pub struct PaymentRequestFrame {
    pub app_id: String,
    pub price_usd_cents: u64,
    pub model: String,
    pub payment_endpoint: String,
}

#[derive(Debug)]
pub struct PaymentResultFrame {
    pub approved: bool,
    pub session_token: Option<String>,
    pub error: Option<String>,
}

// ── frame header ────────────────────────────────────────────────────────────

/// Big-endian 4-byte length.
pub open spec fn be32(n: u32) -> Seq<u8> {
    seq![(n >> 24u32) as u8, (n >> 16u32) as u8, (n >> 8u32) as u8, n as u8]
}

/// The number four big-endian bytes spell.
pub open spec fn be32_value(b: Seq<u8>) -> u32 {
    be32_combine(b[0], b[1], b[2], b[3])
}

pub open spec fn be32_combine(b0: u8, b1: u8, b2: u8, b3: u8) -> u32 {
    ((b0 as u32) << 24u32) | ((b1 as u32) << 16u32) | ((b2 as u32) << 8u32) | (b3 as u32)
}

/// A frame on the wire: type byte, big-endian payload length, payload.
pub open spec fn spec_frame_bytes(t: FrameType, payload: Seq<u8>) -> Seq<u8> {
    seq![frame_code(t)] + be32(payload.len() as u32) + payload
}

/// What `split_frame` returns for `bytes`.
pub open spec fn spec_split_frame(bytes: Seq<u8>) -> Result<(u8, Seq<u8>), (int, int)> {
    if bytes.len() < 5 {
        Err((-1, 0))
    } else if 1 > bytes[0] || bytes[0] > 8 {
        Err((-2, bytes[0] as int))
    } else if bytes.len() - 5 != be32_value(bytes.subrange(1, 5)) {
        Err((be32_value(bytes.subrange(1, 5)) as int, bytes.len() - 5))
    } else {
        Ok((bytes[0], bytes.skip(5)))
    }
}

/// Prepends the 5-byte header to an encoded payload.
pub fn frame_bytes(frame_type: FrameType, payload: &Vec<u8>) -> (r: Vec<u8>)
    requires
        payload@.len() <= u32::MAX,
    ensures
        r@ == spec_frame_bytes(frame_type, payload@),
{
    let n = payload.len() as u32;
    let mut out: Vec<u8> = Vec::new();
    out.push(frame_type.code());
    out.push((n >> 24u32) as u8);
    out.push((n >> 16u32) as u8);
    out.push((n >> 8u32) as u8);
    out.push(n as u8);
    let mut k: usize = 0;
    while k < payload.len()
        invariant
            k <= payload@.len(),
            n == payload@.len(),
            out@ == seq![frame_code(frame_type)] + be32(n) + payload@.take(k as int),
        decreases payload@.len() - k,
    {
        out.push(payload[k]);
        assert(payload@.take(k + 1) == payload@.take(k as int).push(payload@[k as int]));
        k = k + 1;
    }
    assert(payload@.take(payload@.len() as int) == payload@);
    out
}

/// Checks a frame's header and returns its type and payload bytes: too
/// short, an unknown type byte, or a length that disagrees with the payload
/// are errors.
pub fn split_frame(bytes: &Vec<u8>) -> (r: Result<(FrameType, Vec<u8>), ProtocolError>)
    ensures
        match r {
            Ok((t, p)) => spec_split_frame(bytes@) == Ok::<(u8, Seq<u8>), (int, int)>(
                (frame_code(t), p@),
            ),
            Err(ProtocolError::FrameTooShort) => spec_split_frame(bytes@) == Err::<
                (u8, Seq<u8>),
                (int, int),
            >((-1, 0)),
            Err(ProtocolError::UnknownFrameType(v)) => spec_split_frame(bytes@) == Err::<
                (u8, Seq<u8>),
                (int, int),
            >((-2, v as int)),
            Err(ProtocolError::LengthMismatch { expected, actual }) => spec_split_frame(bytes@)
                == Err::<(u8, Seq<u8>), (int, int)>((expected as int, actual as int)),
            Err(_) => false,
        },
{
    if bytes.len() < 5 {
        return Err(ProtocolError::FrameTooShort);
    }
    let frame_type = match FrameType::from_code(bytes[0]) {
        Ok(t) => t,
        Err(e) => return Err(e),
    };
    let e32: u32 = ((bytes[1] as u32) << 24u32) | ((bytes[2] as u32) << 16u32) | ((bytes[3] as u32)
        << 8u32) | (bytes[4] as u32);
    assert(e32 == be32_value(bytes@.subrange(1, 5)));
    let expected = e32 as usize;
    let actual = bytes.len() - 5;
    if actual != expected {
        return Err(ProtocolError::LengthMismatch { expected, actual });
    }
    let mut payload: Vec<u8> = Vec::new();
    let mut k: usize = 5;
    while k < bytes.len()
        invariant
            5 <= k <= bytes@.len(),
            payload@ == bytes@.subrange(5, k as int),
        decreases bytes@.len() - k,
    {
        payload.push(bytes[k]);
        k = k + 1;
    }
    Ok((frame_type, payload))
}

proof fn lemma_be32_round_trip(n: u32)
    ensures
        be32_value(be32(n)) == n,
{
    let b0 = (n >> 24u32) as u8;
    let b1 = (n >> 16u32) as u8;
    let b2 = (n >> 8u32) as u8;
    let b3 = n as u8;
    assert(be32_combine(b0, b1, b2, b3) == n) by (bit_vector)
        requires
            b0 == (n >> 24u32) as u8,
            b1 == (n >> 16u32) as u8,
            b2 == (n >> 8u32) as u8,
            b3 == n as u8,
    ;
}

/// Splitting a framed payload gives back its type and payload.
pub proof fn lemma_frame_round_trip(t: FrameType, payload: Seq<u8>)
    requires
        payload.len() <= u32::MAX,
    ensures
        spec_split_frame(spec_frame_bytes(t, payload)) == Ok::<(u8, Seq<u8>), (int, int)>(
            (frame_code(t), payload),
        ),
{
    let b = spec_frame_bytes(t, payload);
    let n = payload.len() as u32;
    assert(b.subrange(1, 5) =~= be32(n));
    lemma_be32_round_trip(n);
    assert(b.skip(5) =~= payload);
}

// ── property maps ──────────────────────────────────────────────────────────


/// String properties of a UI node, ordered by key with each key once
/// (the entries of a `BTreeMap<String, String>`).
#[derive(Debug, Clone, PartialEq, Eq)]
pub struct Props {
    entries: Vec<(String, String)>,
}

pub open spec fn pairs_view(v: Seq<(String, String)>) -> Seq<(Seq<char>, Seq<char>)> {
    v.map_values(|p: (String, String)| (p.0@, p.1@))
}

impl View for Props {
    type V = Seq<(Seq<char>, Seq<char>)>;

    closed spec fn view(&self) -> Seq<(Seq<char>, Seq<char>)> {
        pairs_view(self.entries@)
    }
}

/// Index of the first entry at or after `i` whose key is not below `k`.
pub open spec fn ins_pos(s: Seq<(Seq<char>, Seq<char>)>, k: Seq<char>, i: int) -> int
    decreases s.len() - i,
{
    if i < 0 || i >= s.len() {
        s.len() as int
    } else if !str_lt(s[i].0, k) {
        i
    } else {
        ins_pos(s, k, i + 1)
    }
}

proof fn lemma_ins_pos(s: Seq<(Seq<char>, Seq<char>)>, k: Seq<char>, i: int)
    requires
        0 <= i <= s.len(),
    ensures
        i <= ins_pos(s, k, i) <= s.len(),
    decreases s.len() - i,
{
    if i < s.len() && str_lt(s[i].0, k) {
        lemma_ins_pos(s, k, i + 1);
    }
}

/// `BTreeMap::insert` on the ordered entries: replace the value of an equal
/// key, or insert the entry before the first greater key.
pub open spec fn props_insert(s: Seq<(Seq<char>, Seq<char>)>, k: Seq<char>, v: Seq<char>) -> Seq<
    (Seq<char>, Seq<char>),
> {
    let p = ins_pos(s, k, 0);
    if p < s.len() && s[p].0 == k {
        s.update(p, (k, v))
    } else {
        s.insert(p, (k, v))
    }
}

/// Index of the first entry with key `k` at or after `i`, or `s.len()`.
pub open spec fn key_pos(s: Seq<(Seq<char>, Seq<char>)>, k: Seq<char>, i: int) -> int
    decreases s.len() - i,
{
    if i < 0 || i >= s.len() {
        s.len() as int
    } else if s[i].0 == k {
        i
    } else {
        key_pos(s, k, i + 1)
    }
}

proof fn lemma_key_pos(s: Seq<(Seq<char>, Seq<char>)>, k: Seq<char>, i: int)
    requires
        0 <= i <= s.len(),
    ensures
        i <= key_pos(s, k, i) <= s.len(),
        key_pos(s, k, i) < s.len() ==> s[key_pos(s, k, i)].0 == k,
    decreases s.len() - i,
{
    if i < s.len() && s[i].0 != k {
        lemma_key_pos(s, k, i + 1);
    }
}

/// The value stored under `k`, if any.
pub open spec fn props_get(s: Seq<(Seq<char>, Seq<char>)>, k: Seq<char>) -> Option<Seq<char>> {
    let p = key_pos(s, k, 0);
    if p < s.len() {
        Some(s[p].1)
    } else {
        None
    }
}

impl Props {
    /// No properties.
    pub fn new() -> (r: Props)
        ensures
            r@ == Seq::<(Seq<char>, Seq<char>)>::empty(),
    {
        let r = Props { entries: Vec::new() };
        assert(r@ =~= Seq::<(Seq<char>, Seq<char>)>::empty());
        r
    }

    /// Sets `key` to `value`, returning the value it replaced.
    pub fn insert(&mut self, key: String, value: String) -> (r: Option<String>)
        ensures
            final(self)@ == props_insert(old(self)@, key@, value@),
            match r {
                Some(o) => {
                    let p = ins_pos(old(self)@, key@, 0);
                    p < old(self)@.len() && old(self)@[p].0 == key@ && o@ == old(self)@[p].1
                },
                None => {
                    let p = ins_pos(old(self)@, key@, 0);
                    !(p < old(self)@.len() && old(self)@[p].0 == key@)
                },
            },
    {
        let ghost s = self@;
        let kc = chars_of(key.as_str());
        let mut i: usize = 0;
        while i < self.entries.len()
            invariant
                i <= self.entries@.len(),
                s == pairs_view(self.entries@),
                kc@ == key@,
                ins_pos(s, key@, i as int) == ins_pos(s, key@, 0),
            ensures
                i <= self.entries@.len(),
                s == pairs_view(self.entries@),
                ins_pos(s, key@, i as int) == ins_pos(s, key@, 0),
                i == self.entries@.len() || !str_lt(s[i as int].0, key@),
            decreases self.entries@.len() - i,
        {
            let ek = chars_of(self.entries[i].0.as_str());
            assert(ek@ == s[i as int].0);
            if !str_less(&ek, &kc) {
                break;
            }
            i = i + 1;
        }
        proof {
            lemma_ins_pos(s, key@, i as int);
        }
        assert(ins_pos(s, key@, 0) == i);
        if i < self.entries.len() {
            let ek = chars_of(self.entries[i].0.as_str());
            if eq_chars(&ek, &kc) {
                let old_entry = self.entries.remove(i);
                let ghost mid = self.entries@;
                self.entries.insert(i, (key, value));
                assert(pairs_view(self.entries@) =~= s.update(i as int, (key@, value@)));
                return Some(old_entry.1);
            }
        }
        self.entries.insert(i, (key, value));
        assert(pairs_view(self.entries@) =~= s.insert(i as int, (key@, value@)));
        None
    }

    /// The value stored under `key`, if any.
    pub fn get(&self, key: &str) -> (r: Option<&String>)
        ensures
            match r {
                Some(v) => props_get(self@, key@) == Some(v@),
                None => props_get(self@, key@) is None,
            },
    {
        let ghost s = self@;
        let kc = chars_of(key);
        let mut i: usize = 0;
        while i < self.entries.len()
            invariant
                i <= self.entries@.len(),
                s == pairs_view(self.entries@),
                kc@ == key@,
                key_pos(s, key@, i as int) == key_pos(s, key@, 0),
            decreases self.entries@.len() - i,
        {
            let ek = chars_of(self.entries[i].0.as_str());
            assert(ek@ == s[i as int].0);
            if eq_chars(&ek, &kc) {
                return Some(&self.entries[i].1);
            }
            i = i + 1;
        }
        None
    }

    /// The entries, in ascending key order.
    pub fn entries(&self) -> (r: &Vec<(String, String)>)
        ensures
            pairs_view(r@) == self@,
    {
        &self.entries
    }

    /// Entry-by-entry equality (the same map).
    pub fn same_as(&self, other: &Props) -> (r: bool)
        ensures
            r == (self@ == other@),
    {
        if self.entries.len() != other.entries.len() {
            return false;
        }
        let mut i: usize = 0;
        while i < self.entries.len()
            invariant
                i <= self.entries@.len(),
                self.entries@.len() == other.entries@.len(),
                forall|j: int| 0 <= j < i ==> #[trigger] self@[j] == other@[j],
            decreases self.entries@.len() - i,
        {
            let a0 = chars_of(self.entries[i].0.as_str());
            let b0 = chars_of(other.entries[i].0.as_str());
            let a1 = chars_of(self.entries[i].1.as_str());
            let b1 = chars_of(other.entries[i].1.as_str());
            let same = eq_chars(&a0, &b0) && eq_chars(&a1, &b1);
            assert(self@[i as int] == (a0@, a1@));
            assert(other@[i as int] == (b0@, b1@));
            if !same {
                return false;
            }
            i = i + 1;
        }
        assert(self@ =~= other@);
        true
    }

    /// A copy with the same entries.
    pub fn duplicate(&self) -> (r: Props)
        ensures
            r@ == self@,
    {
        let mut entries: Vec<(String, String)> = Vec::new();
        let mut i: usize = 0;
        while i < self.entries.len()
            invariant
                i <= self.entries@.len(),
                pairs_view(entries@) == pairs_view(self.entries@).take(i as int),
            decreases self.entries@.len() - i,
        {
            let e = (self.entries[i].0.clone(), self.entries[i].1.clone());
            let ghost before = entries@;
            entries.push(e);
            assert(pairs_view(entries@) =~= pairs_view(before).push((e.0@, e.1@)));
            assert(pairs_view(self.entries@).take(i + 1) =~= pairs_view(self.entries@).take(
                i as int,
            ).push(pairs_view(self.entries@)[i as int]));
            i = i + 1;
        }
        assert(pairs_view(self.entries@).take(self.entries@.len() as int) =~= pairs_view(
            self.entries@,
        ));
        Props { entries }
    }
}

// ── UI trees ──────────────────────────────────────────────────────────────

/// Text arguments accepted where the original takes `impl Into<String>`.
pub trait IntoText {
    spec fn text_view(&self) -> Seq<char>;

    fn into_text(self) -> (r: String)
        ensures
            r@ == self.text_view(),
    ;
}

impl<'a> IntoText for &'a str {
    open spec fn text_view(&self) -> Seq<char> {
        (*self)@
    }

    fn into_text(self) -> (r: String) {
        self.to_owned()
    }
}

impl IntoText for String {
    open spec fn text_view(&self) -> Seq<char> {
        self@
    }

    fn into_text(self) -> (r: String) {
        self
    }
}

/// A node of a cloud app's UI tree.
#[derive(Debug)]
pub struct CloudUiNode {
    pub key: String,
    pub kind: String,
    pub props: Props,
    pub children: Vec<CloudUiNode>,
}

/// Mathematical model of a UI tree.
pub struct NodeModel {
    pub key: Seq<char>,
    pub kind: Seq<char>,
    pub props: Seq<(Seq<char>, Seq<char>)>,
    pub children: Seq<NodeModel>,
}

pub open spec fn node_view(n: CloudUiNode) -> NodeModel
    decreases n, 0int,
{
    NodeModel {
        key: n.key@,
        kind: n.kind@,
        props: n.props@,
        children: nodes_view(n.children@, n.children@.len() as int),
    }
}

/// Models of the first `k` nodes of `cs`.
pub open spec fn nodes_view(cs: Seq<CloudUiNode>, k: int) -> Seq<NodeModel>
    decreases cs, k,
{
    if k <= 0 || k > cs.len() {
        seq![]
    } else {
        nodes_view(cs, k - 1).push(node_view(cs[k - 1]))
    }
}

pub proof fn lemma_nodes_view(cs: Seq<CloudUiNode>, k: int)
    requires
        0 <= k <= cs.len(),
    ensures
        nodes_view(cs, k).len() == k,
        forall|j: int| 0 <= j < k ==> #[trigger] nodes_view(cs, k)[j] == node_view(cs[j]),
    decreases k,
{
    if k > 0 {
        lemma_nodes_view(cs, k - 1);
    }
}

/// The models of all of `cs`.
pub open spec fn all_view(cs: Seq<CloudUiNode>) -> Seq<NodeModel> {
    nodes_view(cs, cs.len() as int)
}

pub proof fn lemma_all_view(cs: Seq<CloudUiNode>)
    ensures
        all_view(cs).len() == cs.len(),
        forall|j: int| 0 <= j < cs.len() ==> #[trigger] all_view(cs)[j] == node_view(cs[j]),
{
    lemma_nodes_view(cs, cs.len() as int);
}

impl CloudUiNode {
    /// A node with no properties and no children.
    pub fn new<K: IntoText, T: IntoText>(key: K, kind: T) -> (r: CloudUiNode)
        ensures
            r.key@ == key.text_view(),
            r.kind@ == kind.text_view(),
            r.props@ == Seq::<(Seq<char>, Seq<char>)>::empty(),
            r.children@ == Seq::<CloudUiNode>::empty(),
    {
        CloudUiNode {
            key: key.into_text(),
            kind: kind.into_text(),
            props: Props::new(),
            children: Vec::new(),
        }
    }
}

pub fn text_eq(a: &String, b: &String) -> (r: bool)
    ensures
        r == (a@ == b@),
{
    let x = chars_of(a.as_str());
    let y = chars_of(b.as_str());
    eq_chars(&x, &y)
}

/// Structural equality of two trees.
pub fn node_eq(a: &CloudUiNode, b: &CloudUiNode) -> (r: bool)
    ensures
        r == (node_view(*a) == node_view(*b)),
    decreases a,
{
    proof {
        lemma_all_view(a.children@);
        lemma_all_view(b.children@);
    }
    if !text_eq(&a.key, &b.key) || !text_eq(&a.kind, &b.kind) || !a.props.same_as(&b.props) {
        return false;
    }
    if a.children.len() != b.children.len() {
        return false;
    }
    let mut i: usize = 0;
    while i < a.children.len()
        invariant
            i <= a.children@.len(),
            a.children@.len() == b.children@.len(),
            all_view(a.children@).len() == a.children@.len(),
            all_view(b.children@).len() == b.children@.len(),
            forall|j: int|
                0 <= j < a.children@.len() ==> #[trigger] all_view(a.children@)[j] == node_view(
                    a.children@[j],
                ),
            forall|j: int|
                0 <= j < b.children@.len() ==> #[trigger] all_view(b.children@)[j] == node_view(
                    b.children@[j],
                ),
            forall|j: int|
                0 <= j < i ==> #[trigger] all_view(a.children@)[j] == all_view(b.children@)[j],
        decreases a.children@.len() - i,
    {
        if !node_eq(&a.children[i], &b.children[i]) {
            assert(all_view(a.children@)[i as int] != all_view(b.children@)[i as int]);
            return false;
        }
        i = i + 1;
    }
    assert(all_view(a.children@) =~= all_view(b.children@));
    true
}

impl Clone for CloudUiNode {
    fn clone(&self) -> (r: Self)
        ensures
            node_view(r) == node_view(*self),
    {
        clone_node(self)
    }
}

/// A deep copy of a tree.
pub fn clone_node(a: &CloudUiNode) -> (r: CloudUiNode)
    ensures
        node_view(r) == node_view(*a),
    decreases a,
{
    proof {
        lemma_all_view(a.children@);
    }
    let mut children: Vec<CloudUiNode> = Vec::new();
    let mut i: usize = 0;
    while i < a.children.len()
        invariant
            i <= a.children@.len(),
            children@.len() == i,
            all_view(a.children@).len() == a.children@.len(),
            forall|j: int|
                0 <= j < a.children@.len() ==> #[trigger] all_view(a.children@)[j] == node_view(
                    a.children@[j],
                ),
            forall|j: int| 0 <= j < i ==> node_view(#[trigger] children@[j]) == node_view(
                a.children@[j],
            ),
        decreases a.children@.len() - i,
    {
        let c = clone_node(&a.children[i]);
        children.push(c);
        i = i + 1;
    }
    let r = CloudUiNode {
        key: a.key.clone(),
        kind: a.kind.clone(),
        props: a.props.duplicate(),
        children,
    };
    proof {
        lemma_all_view(r.children@);
        assert(all_view(r.children@) =~= all_view(a.children@));
    }
    r
}


impl PartialEq for CloudUiNode {
    fn eq(&self, other: &Self) -> (r: bool) {
        node_eq(self, other)
    }
}

impl vstd::std_specs::cmp::PartialEqSpecImpl for CloudUiNode {
    open spec fn obeys_eq_spec() -> bool {
        true
    }

    open spec fn eq_spec(&self, other: &Self) -> bool {
        node_view(*self) == node_view(*other)
    }
}

// ── patches ─────────────────────────────────────────────────────────────────

/// One step of a patch, keyed by the node it concerns.
#[derive(Debug)]
pub enum PatchOp {
    Replace { key: String, node: CloudUiNode },
    Remove { key: String },
    Skip { key: String },
}

/// The steps that bring a client's tree up to date.
#[derive(Debug)]
pub struct UiNodePatch {
    pub ops: Vec<PatchOp>,
}

/// Mathematical model of a patch step.
pub enum OpModel {
    Replace { key: Seq<char>, node: NodeModel },
    Remove { key: Seq<char> },
    Skip { key: Seq<char> },
}

pub open spec fn op_view(op: PatchOp) -> OpModel {
    match op {
        PatchOp::Replace { key, node } => OpModel::Replace { key: key@, node: node_view(node) },
        PatchOp::Remove { key } => OpModel::Remove { key: key@ },
        PatchOp::Skip { key } => OpModel::Skip { key: key@ },
    }
}

pub open spec fn ops_view(ops: Seq<PatchOp>) -> Seq<OpModel> {
    ops.map_values(|o: PatchOp| op_view(o))
}

/// A node's own key, or the positional key it stands at when its own is empty.
pub open spec fn key_or(n: NodeModel, implicit: Seq<char>) -> Seq<char> {
    if n.key.len() == 0 {
        implicit
    } else {
        n.key
    }
}

/// The positional key of child `idx` under a node whose positional key is `implicit`.
pub open spec fn child_implicit(implicit: Seq<char>, idx: nat) -> Seq<char> {
    implicit + seq!['/'] + decimal(idx)
}

/// The keys of a list of nodes, in order.
pub open spec fn child_keys(cs: Seq<NodeModel>) -> Seq<Seq<char>> {
    cs.map_values(|c: NodeModel| c.key)
}

/// The patch steps that turn `old` into `new`, `implicit` being the positional key.
pub open spec fn diff_pair(old: NodeModel, new: NodeModel, implicit: Seq<char>) -> Seq<OpModel>
    decreases new, 0int,
{
    let key = key_or(new, implicit);
    if old == new {
        seq![OpModel::Skip { key }]
    } else if old.kind != new.kind || old.props != new.props || old.key != new.key
        || child_keys(old.children) != child_keys(new.children) {
        seq![OpModel::Replace { key, node: new }]
    } else {
        diff_children(old.children, new.children, implicit, new.children.len() as int)
    }
}

/// The steps for the first `k` child pairs, in order.
pub open spec fn diff_children(
    olds: Seq<NodeModel>,
    news: Seq<NodeModel>,
    implicit: Seq<char>,
    k: int,
) -> Seq<OpModel>
    decreases news, k,
{
    if k <= 0 || k > news.len() || k > olds.len() {
        seq![]
    } else {
        diff_children(olds, news, implicit, k - 1) + diff_pair(
            olds[k - 1],
            news[k - 1],
            child_implicit(implicit, (k - 1) as nat),
        )
    }
}

/// The root's positional key.
pub open spec fn root_key() -> Seq<char> {
    seq!['0']
}

/// The patch `diff` produces.
pub open spec fn spec_diff(prev: Option<NodeModel>, next: NodeModel) -> Seq<OpModel> {
    match prev {
        Some(p) => diff_pair(p, next, root_key()),
        None => seq![OpModel::Replace { key: key_or(next, root_key()), node: next }],
    }
}

pub fn is_empty_text(s: &String) -> (r: bool)
    ensures
        r == (s@.len() == 0),
{
    let c = chars_of(s.as_str());
    c.len() == 0
}

fn key_text(n: &CloudUiNode, implicit: &Vec<char>) -> (r: String)
    ensures
        r@ == key_or(node_view(*n), implicit@),
{
    if is_empty_text(&n.key) {
        string_of(implicit)
    } else {
        n.key.clone()
    }
}

fn same_child_keys(a: &Vec<CloudUiNode>, b: &Vec<CloudUiNode>) -> (r: bool)
    ensures
        r == (child_keys(all_view(a@)) == child_keys(all_view(b@))),
{
    proof {
        lemma_all_view(a@);
        lemma_all_view(b@);
    }
    if a.len() != b.len() {
        assert(child_keys(all_view(a@)).len() != child_keys(all_view(b@)).len());
        return false;
    }
    let mut i: usize = 0;
    while i < a.len()
        invariant
            i <= a@.len(),
            a@.len() == b@.len(),
            all_view(a@).len() == a@.len(),
            all_view(b@).len() == b@.len(),
            forall|j: int| 0 <= j < a@.len() ==> #[trigger] all_view(a@)[j] == node_view(a@[j]),
            forall|j: int| 0 <= j < b@.len() ==> #[trigger] all_view(b@)[j] == node_view(b@[j]),
            forall|j: int| 0 <= j < i ==> #[trigger] a@[j].key@ == b@[j].key@,
        decreases a@.len() - i,
    {
        if !text_eq(&a[i].key, &b[i].key) {
            assert(child_keys(all_view(a@))[i as int] != child_keys(all_view(b@))[i as int]);
            return false;
        }
        i = i + 1;
    }
    assert(child_keys(all_view(a@)) =~= child_keys(all_view(b@)));
    true
}

proof fn lemma_ops_push(s: Seq<PatchOp>, op: PatchOp)
    ensures
        ops_view(s.push(op)) == ops_view(s).push(op_view(op)),
{
    assert(ops_view(s.push(op)) =~= ops_view(s).push(op_view(op)));
}

fn push_op(ops: &mut Vec<PatchOp>, op: PatchOp)
    ensures
        ops_view(final(ops)@) == ops_view(old(ops)@).push(op_view(op)),
{
    proof {
        lemma_ops_push(ops@, op);
    }
    ops.push(op);
}

fn child_key_chars(implicit: &Vec<char>, idx: usize) -> (r: Vec<char>)
    ensures
        r@ == child_implicit(implicit@, idx as nat),
{
    let mut r: Vec<char> = Vec::new();
    push_all(&mut r, implicit);
    r.push('/');
    let d = decimal_chars(idx as u64);
    push_all(&mut r, &d);
    r
}

fn diff_node(a: &CloudUiNode, b: &CloudUiNode, implicit: &Vec<char>, ops: &mut Vec<PatchOp>)
    ensures
        ops_view(final(ops)@) == ops_view(old(ops)@) + diff_pair(
            node_view(*a),
            node_view(*b),
            implicit@,
        ),
    decreases b,
{
    let ghost o = node_view(*a);
    let ghost n = node_view(*b);
    let ghost start = ops_view(ops@);
    let key = key_text(b, implicit);
    if node_eq(a, b) {
        push_op(ops, PatchOp::Skip { key });
        assert(ops_view(ops@) =~= start + diff_pair(o, n, implicit@));
        return ;
    }
    if !text_eq(&a.kind, &b.kind) || !a.props.same_as(&b.props) || !text_eq(
        &a.key,
        &b.key,
    ) || !same_child_keys(&a.children, &b.children) {
        let node = clone_node(b);
        push_op(ops, PatchOp::Replace { key, node });
        assert(ops_view(ops@) =~= start + diff_pair(o, n, implicit@));
        return ;
    }
    proof {
        lemma_all_view(a.children@);
        lemma_all_view(b.children@);
        assert(child_keys(o.children).len() == o.children.len());
        assert(child_keys(n.children).len() == n.children.len());
    }
    let len = b.children.len();
    let mut idx: usize = 0;
    while idx < len
        invariant
            len == b.children@.len(),
            len == a.children@.len(),
            idx <= len,
            o == node_view(*a),
            n == node_view(*b),
            o.children == all_view(a.children@),
            n.children == all_view(b.children@),
            o.children.len() == len,
            n.children.len() == len,
            forall|j: int| 0 <= j < len ==> #[trigger] o.children[j] == node_view(a.children@[j]),
            forall|j: int| 0 <= j < len ==> #[trigger] n.children[j] == node_view(b.children@[j]),
            ops_view(ops@) == start + diff_children(o.children, n.children, implicit@, idx as int),
        decreases len - idx,
    {
        let ck = child_key_chars(implicit, idx);
        let ghost before = ops_view(ops@);
        diff_node(&a.children[idx], &b.children[idx], &ck, ops);
        assert(ops_view(ops@) =~= start + diff_children(
            o.children,
            n.children,
            implicit@,
            idx + 1,
        ));
        idx = idx + 1;
    }
}

/// The patch that turns `prev` (or nothing) into `next`.
pub fn diff(prev: Option<&CloudUiNode>, next: &CloudUiNode) -> (r: UiNodePatch)
    ensures
        ops_view(r.ops@) == spec_diff(
            match prev {
                Some(p) => Some(node_view(*p)),
                None => None,
            },
            node_view(*next),
        ),
{
    let mut ops: Vec<PatchOp> = Vec::new();
    let mut implicit: Vec<char> = Vec::new();
    implicit.push('0');
    assert(implicit@ =~= root_key());
    match prev {
        Some(p) => {
            diff_node(p, next, &implicit, &mut ops);
            assert(ops_view(ops@) =~= diff_pair(node_view(*p), node_view(*next), root_key()));
        },
        None => {
            let key = key_text(next, &implicit);
            let node = clone_node(next);
            push_op(&mut ops, PatchOp::Replace { key, node });
            assert(ops_view(ops@) =~= seq![
                OpModel::Replace { key: key_or(node_view(*next), root_key()), node: node_view(*next) },
            ]);
        },
    }
    UiNodePatch { ops }
}


// ── applying a patch ───────────────────────────────────────────────────────

/// `t` with its children replaced by `cs`.
pub open spec fn with_children(t: NodeModel, cs: Seq<NodeModel>) -> NodeModel {
    NodeModel { key: t.key, kind: t.kind, props: t.props, children: cs }
}

/// Replaces the first descendant of `t` (children before grandchildren of
/// later children, depth first) whose key is `key`; reports whether one was found.
pub open spec fn replace_in(t: NodeModel, key: Seq<char>, node: NodeModel) -> (bool, NodeModel)
    decreases t, 0int,
{
    let r = replace_in_children(t.children, key, node, 0);
    if r.0 {
        (true, with_children(t, r.1))
    } else {
        (false, t)
    }
}

/// The search of `replace_in` over `cs` from position `i` on.
pub open spec fn replace_in_children(
    cs: Seq<NodeModel>,
    key: Seq<char>,
    node: NodeModel,
    i: int,
) -> (bool, Seq<NodeModel>)
    decreases cs, cs.len() - i,
{
    if i < 0 || i >= cs.len() {
        (false, cs)
    } else if cs[i].key == key {
        (true, cs.update(i, node))
    } else {
        let r = replace_in(cs[i], key, node);
        if r.0 {
            (true, cs.update(i, r.1))
        } else {
            replace_in_children(cs, key, node, i + 1)
        }
    }
}

/// `cs` without the nodes whose key is `key`.
pub open spec fn without_key(cs: Seq<NodeModel>, key: Seq<char>) -> Seq<NodeModel>
    decreases cs.len(),
{
    if cs.len() == 0 {
        cs
    } else {
        let w = without_key(cs.drop_last(), key);
        if cs.last().key == key {
            w
        } else {
            w.push(cs.last())
        }
    }
}

/// Removes every child of `t` keyed `key`; failing that, does so in the first
/// child (in order, depth first) where that removes something.
pub open spec fn remove_in(t: NodeModel, key: Seq<char>) -> (bool, NodeModel)
    decreases t, 0int,
{
    let kept = without_key(t.children, key);
    if kept.len() != t.children.len() {
        (true, with_children(t, kept))
    } else {
        let r = remove_in_children(t.children, key, 0);
        if r.0 {
            (true, with_children(t, r.1))
        } else {
            (false, t)
        }
    }
}

/// The search of `remove_in` over `cs` from position `i` on.
pub open spec fn remove_in_children(cs: Seq<NodeModel>, key: Seq<char>, i: int) -> (bool, Seq<NodeModel>)
    decreases cs, cs.len() - i,
{
    if i < 0 || i >= cs.len() {
        (false, cs)
    } else {
        let r = remove_in(cs[i], key);
        if r.0 {
            (true, cs.update(i, r.1))
        } else {
            remove_in_children(cs, key, i + 1)
        }
    }
}

/// One patch step applied to a tree.
pub open spec fn apply_op(t: NodeModel, op: OpModel) -> NodeModel {
    match op {
        OpModel::Skip { .. } => t,
        OpModel::Replace { key, node } => if t.key == key {
            node
        } else {
            replace_in(t, key, node).1
        },
        OpModel::Remove { key } => remove_in(t, key).1,
    }
}

/// The steps applied in order.
pub open spec fn apply_ops(t: NodeModel, ops: Seq<OpModel>) -> NodeModel
    decreases ops.len(),
{
    if ops.len() == 0 {
        t
    } else {
        apply_op(apply_ops(t, ops.drop_last()), ops.last())
    }
}

proof fn lemma_all_view_update(cs: Seq<CloudUiNode>, i: int, c: CloudUiNode)
    requires
        0 <= i < cs.len(),
    ensures
        all_view(cs.update(i, c)) == all_view(cs).update(i, node_view(c)),
{
    lemma_all_view(cs);
    lemma_all_view(cs.update(i, c));
    assert(all_view(cs.update(i, c)) =~= all_view(cs).update(i, node_view(c)));
}

proof fn lemma_all_view_push(cs: Seq<CloudUiNode>, c: CloudUiNode)
    ensures
        all_view(cs.push(c)) == all_view(cs).push(node_view(c)),
{
    lemma_all_view(cs);
    lemma_all_view(cs.push(c));
    assert(all_view(cs.push(c)) =~= all_view(cs).push(node_view(c)));
}

fn replace_child(tree: &mut CloudUiNode, key: &String, node: &CloudUiNode) -> (r: bool)
    ensures
        (r, node_view(*final(tree))) == replace_in(node_view(*old(tree)), key@, node_view(*node)),
    decreases node_view(*old(tree)),
{
    let ghost t0 = node_view(*tree);
    let ghost cs0 = all_view(tree.children@);
    proof {
        lemma_all_view(tree.children@);
    }
    let n = tree.children.len();
    let mut i: usize = 0;
    while i < n
        invariant
            n == tree.children@.len(),
            i <= n,
            t0 == node_view(*old(tree)),
            t0.key == tree.key@,
            t0.kind == tree.kind@,
            t0.props == tree.props@,
            t0.children == cs0,
            cs0 == all_view(tree.children@),
            cs0.len() == n,
            replace_in_children(cs0, key@, node_view(*node), i as int) == replace_in_children(
                cs0,
                key@,
                node_view(*node),
                0,
            ),
        decreases n - i,
    {
        proof {
            lemma_all_view(tree.children@);
        }
        if text_eq(&tree.children[i].key, key) {
            let c = clone_node(node);
            proof {
                lemma_all_view_update(tree.children@, i as int, c);
            }
            tree.children.set(i, c);
            return true;
        }
        let ghost before = tree.children@;
        let mut child = tree.children.remove(i);
        proof {
            assert(node_view(child) == t0.children[i as int]);
            assert(decreases_to!(t0 => t0.children));
            assert(decreases_to!(t0.children => t0.children[i as int]));
        }
        let found = replace_child(&mut child, key, node);
        tree.children.insert(i, child);
        proof {
            assert(tree.children@ =~= before.update(i as int, child));
            lemma_all_view_update(before, i as int, child);
        }
        if found {
            return true;
        }
        i = i + 1;
    }
    false
}


fn remove_child(tree: &mut CloudUiNode, key: &String) -> (r: bool)
    ensures
        (r, node_view(*final(tree))) == remove_in(node_view(*old(tree)), key@),
    decreases node_view(*old(tree)),
{
    let ghost t0 = node_view(*tree);
    let ghost cs0 = all_view(tree.children@);
    proof {
        lemma_all_view(tree.children@);
    }
    let n = tree.children.len();
    let mut kept: Vec<CloudUiNode> = Vec::new();
    let mut i: usize = 0;
    while i < n
        invariant
            n == tree.children@.len(),
            i <= n,
            cs0 == all_view(tree.children@),
            cs0.len() == n,
            forall|j: int| 0 <= j < n ==> #[trigger] cs0[j] == node_view(tree.children@[j]),
            all_view(kept@) == without_key(cs0.take(i as int), key@),
        decreases n - i,
    {
        proof {
            assert(cs0.take(i + 1).drop_last() =~= cs0.take(i as int));
            assert(cs0.take(i + 1).last() == cs0[i as int]);
        }
        if !text_eq(&tree.children[i].key, key) {
            let c = clone_node(&tree.children[i]);
            proof {
                lemma_all_view_push(kept@, c);
            }
            kept.push(c);
        }
        i = i + 1;
    }
    proof {
        assert(cs0.take(n as int) =~= cs0);
        lemma_all_view(kept@);
    }
    if kept.len() != n {
        tree.children = kept;
        return true;
    }
    i = 0;
    while i < n
        invariant
            n == tree.children@.len(),
            i <= n,
            t0 == node_view(*old(tree)),
            t0.key == tree.key@,
            t0.kind == tree.kind@,
            t0.props == tree.props@,
            t0.children == cs0,
            cs0 == all_view(tree.children@),
            cs0.len() == n,
            without_key(cs0, key@).len() == n,
            remove_in_children(cs0, key@, i as int) == remove_in_children(cs0, key@, 0),
        decreases n - i,
    {
        proof {
            lemma_all_view(tree.children@);
        }
        let ghost before = tree.children@;
        let mut child = tree.children.remove(i);
        proof {
            assert(node_view(child) == t0.children[i as int]);
            assert(decreases_to!(t0 => t0.children));
            assert(decreases_to!(t0.children => t0.children[i as int]));
        }
        let found = remove_child(&mut child, key);
        tree.children.insert(i, child);
        proof {
            assert(tree.children@ =~= before.update(i as int, child));
            lemma_all_view_update(before, i as int, child);
        }
        if found {
            return true;
        }
        i = i + 1;
    }
    false
}

/// Applies the steps of `patch` to `tree`, in order.
pub fn apply(tree: &mut CloudUiNode, patch: &UiNodePatch)
    ensures
        node_view(*final(tree)) == apply_ops(node_view(*old(tree)), ops_view(patch.ops@)),
{
    let ghost t0 = node_view(*tree);
    let ghost ops = ops_view(patch.ops@);
    let mut i: usize = 0;
    while i < patch.ops.len()
        invariant
            i <= patch.ops@.len(),
            ops == ops_view(patch.ops@),
            ops.len() == patch.ops@.len(),
            t0 == node_view(*old(tree)),
            node_view(*tree) == apply_ops(t0, ops.take(i as int)),
        decreases patch.ops@.len() - i,
    {
        proof {
            assert(ops.take(i + 1).drop_last() =~= ops.take(i as int));
            assert(ops.take(i + 1).last() == op_view(patch.ops@[i as int]));
        }
        match &patch.ops[i] {
            PatchOp::Skip { .. } => {},
            PatchOp::Replace { key, node } => {
                if text_eq(&tree.key, key) {
                    *tree = clone_node(node);
                } else {
                    let _ = replace_child(tree, key, node);
                }
            },
            PatchOp::Remove { key } => {
                let _ = remove_child(tree, key);
            },
        }
        i = i + 1;
    }
    proof {
        assert(ops.take(ops.len() as int) =~= ops);
    }
}


// ── laws ────────────────────────────────────────────────────────────────────

/// A tree patched with its diff against itself is unchanged.
pub proof fn lemma_apply_diff_same(t: NodeModel)
    ensures
        apply_ops(t, spec_diff(Some(t), t)) == t,
{
    assert(spec_diff(Some(t), t) == seq![OpModel::Skip { key: key_or(t, root_key()) }]);
    reveal_with_fuel(apply_ops, 2);
    assert(seq![OpModel::Skip { key: key_or(t, root_key()) }].drop_last() =~= Seq::<OpModel>::empty());
}

/// The patch from nothing carries the whole tree: applied to that tree's own
/// root (as a client without a tree takes it), it gives the tree back, when
/// the root has a key.
pub proof fn lemma_apply_diff_fresh(next: NodeModel)
    requires
        next.key.len() > 0,
    ensures
        apply_ops(next, spec_diff(None, next)) == next,
{
    let op = OpModel::Replace { key: next.key, node: next };
    assert(spec_diff(None, next) == seq![op]);
    reveal_with_fuel(apply_ops, 2);
    assert(seq![op].drop_last() =~= Seq::<OpModel>::empty());
}

/// Where the root keeps its (non-empty) key but its kind, properties or the
/// keys of its children change, the patch replaces the whole tree, and
/// applying it to the old tree gives the new one.
pub proof fn lemma_apply_diff_root_change(prev: NodeModel, next: NodeModel)
    requires
        prev.key == next.key,
        next.key.len() > 0,
        prev.kind != next.kind || prev.props != next.props || child_keys(prev.children)
            != child_keys(next.children),
    ensures
        apply_ops(prev, spec_diff(Some(prev), next)) == next,
{
    let op = OpModel::Replace { key: next.key, node: next };
    assert(prev != next);
    assert(spec_diff(Some(prev), next) == seq![op]);
    reveal_with_fuel(apply_ops, 2);
    assert(seq![op].drop_last() =~= Seq::<OpModel>::empty());
}


proof fn lemma_key_pos_skips(s: Seq<(Seq<char>, Seq<char>)>, k: Seq<char>, i: int, p: int)
    requires
        0 <= i <= p < s.len(),
        s[p].0 == k,
        forall|j: int| 0 <= j < p ==> s[j].0 != k,
    ensures
        key_pos(s, k, i) == p,
    decreases p - i,
{
    if i < p {
        lemma_key_pos_skips(s, k, i + 1, p);
    }
}

/// Reading a property just set gives the value set.
pub proof fn lemma_props_get_insert(s: Seq<(Seq<char>, Seq<char>)>, k: Seq<char>, v: Seq<char>)
    ensures
        props_get(props_insert(s, k, v), k) == Some(v),
{
    let p = ins_pos(s, k, 0);
    lemma_ins_pos(s, k, 0);
    lemma_ins_pos_below(s, k, 0);
    let t = props_insert(s, k, v);
    assert forall|j: int| 0 <= j < p implies t[j].0 != k by {
        crate::text::lemma_str_lt_irrefl(k, 0);
        assert(str_lt(s[j].0, k));
    }
    lemma_key_pos_skips(t, k, 0, p);
}

proof fn lemma_ins_pos_below(s: Seq<(Seq<char>, Seq<char>)>, k: Seq<char>, i: int)
    requires
        0 <= i <= s.len(),
    ensures
        forall|j: int| i <= j < ins_pos(s, k, i) ==> str_lt(#[trigger] s[j].0, k),
    decreases s.len() - i,
{
    if i < s.len() && str_lt(s[i].0, k) {
        lemma_ins_pos_below(s, k, i + 1);
    }
}

} // verus!
