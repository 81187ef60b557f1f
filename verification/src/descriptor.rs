//! The signalling-string codec for connection descriptors.
//!
//! A descriptor — the offer or answer one side hands the other out of
//! band — travels as base64 text wrapping a small JSON object,
//! `{"type":"offer","sdp":"..."}`. The JSON framing and its string
//! escaping are verified byte-for-byte; only the base64 step is delegated
//! to the base64 crate. Decoding inverts encoding exactly: that is the
//! round-trip law [`lemma_descriptor_round_trip`].

use vstd::prelude::*;
use vstd::slice::slice_index_get;
use vstd::utf8::{decode_utf8, encode_utf8, valid_utf8};

verus! {

/// What a descriptor answers in the offer-answer exchange.
#[derive(Clone, Copy, Debug, PartialEq, Eq, Structural)]
pub enum DescriptorKind {
    /// The creator's opening description.
    Offer,
    /// A provisional answer.
    Pranswer,
    /// The joiner's final answer.
    Answer,
    /// Withdraws a previously applied description.
    Rollback,
}

/// One side's session description, as the signalling step carries it.
#[derive(Debug, Clone, PartialEq)]
pub struct ConnectionDescriptor {
    /// Offer or answer.
    pub kind: DescriptorKind,
    /// The session-description text itself.
    pub sdp: String,
}

/// Why a pasted connection string was rejected.
#[derive(Clone, Copy, Debug, PartialEq, Eq, Structural)]
pub enum DescriptorDecodeError {
    /// The text is not base64.
    InvalidBase64,
    /// The bytes behind the base64 are not a descriptor.
    InvalidDescriptor,
}

/// The mathematical shape of a descriptor.
pub struct DescriptorModel {
    pub kind: DescriptorKind,
    pub sdp: Seq<char>,
}

impl View for ConnectionDescriptor {
    type V = DescriptorModel;

    open spec fn view(&self) -> DescriptorModel {
        DescriptorModel { kind: self.kind, sdp: self.sdp@ }
    }
}

/// The opening bytes of the JSON object, `{"type":"`.
pub open spec fn json_prefix() -> Seq<u8> {
    seq![0x7bu8, 0x22, 0x74, 0x79, 0x70, 0x65, 0x22, 0x3a, 0x22]
}

/// The bytes between the kind and the text, `","sdp":"`.
pub open spec fn json_mid() -> Seq<u8> {
    seq![0x22u8, 0x2c, 0x22, 0x73, 0x64, 0x70, 0x22, 0x3a, 0x22]
}

/// The closing bytes, `"}`.
pub open spec fn json_suffix() -> Seq<u8> {
    seq![0x22u8, 0x7d]
}

/// The lowercase name of a kind on the wire.
pub open spec fn kind_bytes(k: DescriptorKind) -> Seq<u8> {
    match k {
        DescriptorKind::Offer => seq![0x6fu8, 0x66, 0x66, 0x65, 0x72],
        DescriptorKind::Pranswer => seq![0x70u8, 0x72, 0x61, 0x6e, 0x73, 0x77, 0x65, 0x72],
        DescriptorKind::Answer => seq![0x61u8, 0x6e, 0x73, 0x77, 0x65, 0x72],
        DescriptorKind::Rollback => seq![0x72u8, 0x6f, 0x6c, 0x6c, 0x62, 0x61, 0x63, 0x6b],
    }
}

/// The lowercase hex digit for a value below sixteen.
pub open spec fn hex_digit(v: u8) -> u8 {
    if v < 10 {
        (0x30 + v) as u8
    } else {
        (0x57 + v) as u8
    }
}

/// True for the bytes of the sixteen lowercase hex digits.
pub open spec fn is_hex(x: u8) -> bool {
    (0x30 <= x <= 0x39) || (0x61 <= x <= 0x66)
}

/// The value of a lowercase hex digit byte.
pub open spec fn hex_val(x: u8) -> u8 {
    if 0x30 <= x <= 0x39 {
        (x - 0x30) as u8
    } else if 0x61 <= x <= 0x66 {
        (x - 0x57) as u8
    } else {
        0
    }
}

/// How one byte of string content is written inside a JSON string: quote
/// and backslash get a backslash, the common control characters their
/// short escapes, other control characters a `\u00..` escape, and
/// everything else stands as itself.
pub open spec fn esc_byte(x: u8) -> Seq<u8> {
    if x == 0x22 {
        seq![0x5cu8, 0x22]
    } else if x == 0x5c {
        seq![0x5cu8, 0x5c]
    } else if x == 0x08 {
        seq![0x5cu8, 0x62]
    } else if x == 0x09 {
        seq![0x5cu8, 0x74]
    } else if x == 0x0a {
        seq![0x5cu8, 0x6e]
    } else if x == 0x0c {
        seq![0x5cu8, 0x66]
    } else if x == 0x0d {
        seq![0x5cu8, 0x72]
    } else if x < 0x20 {
        seq![0x5cu8, 0x75, 0x30, 0x30, hex_digit(x / 16), hex_digit(x % 16)]
    } else {
        seq![x]
    }
}

/// A whole byte string, escaped.
pub open spec fn esc_bytes(s: Seq<u8>) -> Seq<u8>
    decreases s.len(),
{
    if s.len() == 0 {
        Seq::empty()
    } else {
        esc_byte(s[0]) + esc_bytes(s.drop_first())
    }
}

/// The JSON bytes of a descriptor with the given kind and UTF-8 text.
pub open spec fn spec_render_descriptor(k: DescriptorKind, sdp_bytes: Seq<u8>) -> Seq<u8> {
    json_prefix() + kind_bytes(k) + json_mid() + esc_bytes(sdp_bytes) + json_suffix()
}

/// The base64 text of a byte sequence, named: what base64::encode
/// returns, a function of the bytes alone.
pub uninterp spec fn b64_of(b: Seq<u8>) -> Seq<char>;

/// The connection string that encodes a descriptor.
pub open spec fn spec_encode_descriptor(dm: DescriptorModel) -> Seq<char> {
    b64_of(spec_render_descriptor(dm.kind, encode_utf8(dm.sdp)))
}

/// Relies on base64::encode (standard alphabet, padded): the base64 text
/// of the bytes, a function of the bytes alone.
#[verifier::external_body]
fn b64_encode(b: &Vec<u8>) -> (r: String)
    ensures
        r@ == b64_of(b@),
{
    base64::encode(b.as_slice())
}

/// True when `r` is what decoding the base64 text `s` must give: for
/// whatever byte sequence `s` is the base64 text of, `r` holds exactly
/// those bytes.
pub open spec fn b64_decodes(s: Seq<char>, r: Option<Vec<u8>>) -> bool {
    forall|b: Seq<u8>| s == b64_of(b) ==> (r matches Some(v) && v@ == b)
}

/// Relies on base64::decode: decoding the standard base64 text of any
/// byte sequence yields exactly those bytes; text that is not valid
/// base64 is refused.
#[verifier::external_body]
fn b64_decode(s: &str) -> (r: Option<Vec<u8>>)
    ensures
        b64_decodes(s@, r),
{
    base64::decode(s).ok()
}

/// True when `pat` occurs in `b` at position `p`.
pub open spec fn bytes_at(b: Seq<u8>, p: int, pat: Seq<u8>) -> bool {
    0 <= p && p + pat.len() <= b.len() && b.subrange(p, p + pat.len()) == pat
}

/// Reads an escaped JSON string from the front of `b` up to its closing
/// quote: the unescaped content, and the index of that quote.
pub open spec fn spec_unesc(b: Seq<u8>) -> Option<(Seq<u8>, int)>
    decreases b.len(), 7int,
{
    if b.len() == 0 {
        None
    } else if b[0] == 0x22 {
        Some((Seq::empty(), 0))
    } else if b[0] == 0x5c {
        if b.len() < 2 {
            None
        } else {
            let e = b[1];
            if e == 0x22 || e == 0x5c {
                spec_unesc_step(b, 2, e)
            } else if e == 0x62 {
                spec_unesc_step(b, 2, 0x08)
            } else if e == 0x74 {
                spec_unesc_step(b, 2, 0x09)
            } else if e == 0x6e {
                spec_unesc_step(b, 2, 0x0a)
            } else if e == 0x66 {
                spec_unesc_step(b, 2, 0x0c)
            } else if e == 0x72 {
                spec_unesc_step(b, 2, 0x0d)
            } else if e == 0x75 {
                if b.len() >= 6 && b[2] == 0x30 && b[3] == 0x30 && is_hex(b[4]) && is_hex(b[5]) {
                    spec_unesc_step(b, 6, (hex_val(b[4]) * 16 + hex_val(b[5])) as u8)
                } else {
                    None
                }
            } else {
                None
            }
        }
    } else if b[0] < 0x20 {
        None
    } else {
        spec_unesc_step(b, 1, b[0])
    }
}

/// One step of [`spec_unesc`]: byte `v` came from the first `k` bytes;
/// the rest of the string follows.
pub open spec fn spec_unesc_step(b: Seq<u8>, k: int, v: u8) -> Option<(Seq<u8>, int)>
    recommends
        0 < k <= b.len(),
    decreases b.len(), k,
    when 0 < k <= b.len()
{
    match spec_unesc(b.skip(k)) {
        Some((t, q)) => Some((seq![v] + t, k + q)),
        None => None,
    }
}

/// The kind named at the front of a descriptor's JSON, and the position
/// where the escaped text begins.
pub open spec fn spec_parse_kind(b: Seq<u8>) -> Option<(DescriptorKind, int)> {
    if bytes_at(b, 0, json_prefix()) {
        if bytes_at(b, 9, kind_bytes(DescriptorKind::Offer) + json_mid()) {
            Some((DescriptorKind::Offer, 23int))
        } else if bytes_at(b, 9, kind_bytes(DescriptorKind::Pranswer) + json_mid()) {
            Some((DescriptorKind::Pranswer, 26int))
        } else if bytes_at(b, 9, kind_bytes(DescriptorKind::Answer) + json_mid()) {
            Some((DescriptorKind::Answer, 24int))
        } else if bytes_at(b, 9, kind_bytes(DescriptorKind::Rollback) + json_mid()) {
            Some((DescriptorKind::Rollback, 26int))
        } else {
            None
        }
    } else {
        None
    }
}

/// The descriptor a JSON byte string parses to, or `None` when it is not
/// exactly one descriptor object with UTF-8 content.
pub open spec fn spec_parse_descriptor(b: Seq<u8>) -> Option<DescriptorModel> {
    match spec_parse_kind(b) {
        None => None,
        Some((kind, p0)) => match spec_unesc(b.skip(p0)) {
            None => None,
            Some((content, q)) => if p0 + q + 2 == b.len() && b[p0 + q + 1] == 0x7d && valid_utf8(
                content,
            ) {
                Some(DescriptorModel { kind, sdp: decode_utf8(content) })
            } else {
                None
            },
        },
    }
}

/// The rendered JSON names exactly the kind it was rendered with.
pub proof fn lemma_parse_kind_of_render(k: DescriptorKind, sdp_bytes: Seq<u8>)
    ensures
        spec_parse_kind(spec_render_descriptor(k, sdp_bytes)) == Some(
            (k, 9 + kind_bytes(k).len() as int + 9),
        ),
{
    let b = spec_render_descriptor(k, sdp_bytes);
    let kl = kind_bytes(k).len() as int;
    assert(b.subrange(0, 9) =~= json_prefix());
    assert(b.subrange(9, 9 + kl + 9) =~= kind_bytes(k) + json_mid());
    assert(bytes_at(b, 9, kind_bytes(k) + json_mid()));
    match k {
        DescriptorKind::Offer => {},
        DescriptorKind::Pranswer => {
            assert(b[9] == 0x70);
            if bytes_at(b, 9, kind_bytes(DescriptorKind::Offer) + json_mid()) {
                assert(b.subrange(9, 23int)[0] == b[9]);
            }
        },
        DescriptorKind::Answer => {
            assert(b[9] == 0x61);
            if bytes_at(b, 9, kind_bytes(DescriptorKind::Offer) + json_mid()) {
                assert(b.subrange(9, 23int)[0] == b[9]);
            }
            if bytes_at(b, 9, kind_bytes(DescriptorKind::Pranswer) + json_mid()) {
                assert(b.subrange(9, 26int)[0] == b[9]);
            }
        },
        DescriptorKind::Rollback => {
            assert(b[9] == 0x72);
            if bytes_at(b, 9, kind_bytes(DescriptorKind::Offer) + json_mid()) {
                assert(b.subrange(9, 23int)[0] == b[9]);
            }
            if bytes_at(b, 9, kind_bytes(DescriptorKind::Pranswer) + json_mid()) {
                assert(b.subrange(9, 26int)[0] == b[9]);
            }
            if bytes_at(b, 9, kind_bytes(DescriptorKind::Answer) + json_mid()) {
                assert(b.subrange(9, 24int)[0] == b[9]);
            }
        },
    }
}

/// Round-trip law of the JSON layer: parsing a rendered descriptor gives
/// back exactly its kind and text.
pub proof fn lemma_descriptor_round_trip(dm: DescriptorModel)
    ensures
        spec_parse_descriptor(spec_render_descriptor(dm.kind, encode_utf8(dm.sdp))) == Some(dm),
{
    let c = encode_utf8(dm.sdp);
    let b = spec_render_descriptor(dm.kind, c);
    let kl = kind_bytes(dm.kind).len() as int;
    let p0 = 9 + kl + 9;
    lemma_parse_kind_of_render(dm.kind, c);
    assert(b.skip(p0) =~= esc_bytes(c) + seq![0x22u8] + seq![0x7du8]);
    lemma_unesc_esc(c, seq![0x7du8]);
    let q = esc_bytes(c).len() as int;
    assert(p0 + q + 2 == b.len());
    assert(b[p0 + q + 1] == b.skip(p0)[q + 1]);
    assert(b.skip(p0)[q + 1] == 0x7d);
    vstd::utf8::encode_utf8_valid_utf8(dm.sdp);
    vstd::utf8::encode_utf8_decode_utf8(dm.sdp);
    assert(spec_parse_descriptor(b) == Some(DescriptorModel { kind: dm.kind, sdp: dm.sdp }));
    assert(DescriptorModel { kind: dm.kind, sdp: dm.sdp } == dm);
}

/// Escaping distributes over concatenation.
pub proof fn lemma_esc_bytes_app(a: Seq<u8>, b: Seq<u8>)
    ensures
        esc_bytes(a + b) == esc_bytes(a) + esc_bytes(b),
    decreases a.len(),
{
    if a.len() == 0 {
        assert(a + b =~= b);
        assert(esc_bytes(a) + esc_bytes(b) =~= esc_bytes(b));
    } else {
        assert((a + b).drop_first() =~= a.drop_first() + b);
        lemma_esc_bytes_app(a.drop_first(), b);
        assert(esc_byte(a[0]) + (esc_bytes(a.drop_first()) + esc_bytes(b)) =~= (esc_byte(a[0])
            + esc_bytes(a.drop_first())) + esc_bytes(b));
    }
}

/// Reading back an escaped string finds exactly the original content and
/// stops at the closing quote.
pub proof fn lemma_unesc_esc(c: Seq<u8>, rest: Seq<u8>)
    ensures
        spec_unesc(esc_bytes(c) + seq![0x22u8] + rest) == Some((c, esc_bytes(c).len() as int)),
    decreases c.len(),
{
    let b = esc_bytes(c) + seq![0x22u8] + rest;
    if c.len() == 0 {
        assert(b[0] == 0x22);
        assert(c =~= Seq::<u8>::empty());
    } else {
        let e = esc_byte(c[0]);
        let k = e.len() as int;
        assert(esc_bytes(c) == e + esc_bytes(c.drop_first()));
        assert(b.skip(k) =~= esc_bytes(c.drop_first()) + seq![0x22u8] + rest);
        lemma_unesc_esc(c.drop_first(), rest);
        let x = c[0];
        if x == 0x22 || x == 0x5c {
            assert(b[0] == 0x5c && b[1] == x);
            assert(seq![x] + c.drop_first() =~= c);
        } else if x == 0x08 || x == 0x09 || x == 0x0a || x == 0x0c || x == 0x0d {
            assert(b[0] == 0x5c);
            assert(seq![x] + c.drop_first() =~= c);
        } else if x < 0x20 {
            assert(b[0] == 0x5c && b[1] == 0x75 && b[2] == 0x30 && b[3] == 0x30);
            assert(b[4] == hex_digit(x / 16) && b[5] == hex_digit(x % 16));
            assert(is_hex(hex_digit(x / 16)) && is_hex(hex_digit(x % 16)));
            assert(hex_val(hex_digit(x / 16)) == x / 16 && hex_val(hex_digit(x % 16)) == x % 16);
            assert((hex_val(b[4]) * 16 + hex_val(b[5])) as u8 == x);
            assert(seq![x] + c.drop_first() =~= c);
        } else {
            assert(b[0] == x && !(x == 0x22) && !(x == 0x5c) && x >= 0x20);
            assert(seq![x] + c.drop_first() =~= c);
        }
    }
}

/// The lowercase hex digit for a value below sixteen, as a byte.
fn hex_digit_exec(v: u8) -> (r: u8)
    requires
        v < 16,
    ensures
        r == hex_digit(v),
{
    if v < 10 {
        0x30 + v
    } else {
        0x57 + v
    }
}

/// The value of a lowercase hex digit byte.
fn hex_val_exec(x: u8) -> (r: u8)
    requires
        is_hex(x),
    ensures
        r == hex_val(x),
{
    if x <= 0x39 {
        x - 0x30
    } else {
        x - 0x57
    }
}

/// True when `pat` occurs in `b` at position `p`.
fn match_bytes_at(b: &[u8], p: usize, pat: &Vec<u8>) -> (r: bool)
    ensures
        r == bytes_at(b@, p as int, pat@),
{
    if p > b.len() || b.len() - p < pat.len() {
        return false;
    }
    let m = pat.len();
    let mut i: usize = 0;
    while i < m
        invariant
            i <= m,
            m == pat@.len(),
            p + m <= b@.len(),
            b@.len() <= usize::MAX,
            forall|t: int| 0 <= t < i ==> b@[p + t] == pat@[t],
        decreases m - i,
    {
        if *slice_index_get(b, p + i) != pat[i] {
            proof {
                if bytes_at(b@, p as int, pat@) {
                    assert(b@.subrange(p as int, p + pat@.len())[i as int] == b@[p + i]);
                }
            }
            return false;
        }
        i = i + 1;
    }
    proof {
        assert(b@.subrange(p as int, p + pat@.len()) =~= pat@);
    }
    true
}

/// One byte of escaped content appended continues the escape of the whole.
proof fn lemma_esc_take_one(s: Seq<u8>, i: int)
    requires
        0 <= i < s.len(),
    ensures
        esc_bytes(s.take(i + 1)) == esc_bytes(s.take(i)) + esc_byte(s[i]),
{
    lemma_esc_bytes_app(s.take(i), seq![s[i]]);
    assert(s.take(i + 1) =~= s.take(i) + seq![s[i]]);
    let one = seq![s[i]];
    assert(one[0] == s[i]);
    assert(one.drop_first() =~= Seq::<u8>::empty());
    assert(esc_bytes(one) == esc_byte(s[i]) + esc_bytes(one.drop_first()));
    assert(esc_byte(s[i]) + Seq::<u8>::empty() =~= esc_byte(s[i]));
}

/// Encodes a descriptor as its portable connection string: base64 of the
/// JSON object naming its kind and its escaped text.
pub fn encode_descriptor(d: &ConnectionDescriptor) -> (r: String)
    ensures
        r@ == spec_encode_descriptor(d@),
{
    let mut out: Vec<u8> = vec![0x7b, 0x22, 0x74, 0x79, 0x70, 0x65, 0x22, 0x3a, 0x22];
    proof {
        assert(out@ =~= json_prefix());
    }
    let mut kb: Vec<u8> = match d.kind {
        DescriptorKind::Offer => vec![0x6f, 0x66, 0x66, 0x65, 0x72],
        DescriptorKind::Pranswer => vec![0x70, 0x72, 0x61, 0x6e, 0x73, 0x77, 0x65, 0x72],
        DescriptorKind::Answer => vec![0x61, 0x6e, 0x73, 0x77, 0x65, 0x72],
        DescriptorKind::Rollback => vec![0x72, 0x6f, 0x6c, 0x6c, 0x62, 0x61, 0x63, 0x6b],
    };
    proof {
        assert(kb@ =~= kind_bytes(d.kind));
    }
    out.append(&mut kb);
    let mut mid: Vec<u8> = vec![0x22, 0x2c, 0x22, 0x73, 0x64, 0x70, 0x22, 0x3a, 0x22];
    proof {
        assert(mid@ =~= json_mid());
    }
    out.append(&mut mid);
    let ghost head = json_prefix() + kind_bytes(d.kind) + json_mid();
    proof {
        assert(out@ =~= head);
    }
    let sb: Vec<u8> = d.sdp.as_str().as_bytes_vec();
    let m = sb.len();
    let mut idx: usize = 0;
    while idx < m
        invariant
            idx <= m,
            m == sb@.len(),
            out@ == head + esc_bytes(sb@.take(idx as int)),
        decreases m - idx,
    {
        let x = sb[idx];
        if x == 0x22 {
            out.push(0x5c);
            out.push(0x22);
        } else if x == 0x5c {
            out.push(0x5c);
            out.push(0x5c);
        } else if x == 0x08 {
            out.push(0x5c);
            out.push(0x62);
        } else if x == 0x09 {
            out.push(0x5c);
            out.push(0x74);
        } else if x == 0x0a {
            out.push(0x5c);
            out.push(0x6e);
        } else if x == 0x0c {
            out.push(0x5c);
            out.push(0x66);
        } else if x == 0x0d {
            out.push(0x5c);
            out.push(0x72);
        } else if x < 0x20 {
            out.push(0x5c);
            out.push(0x75);
            out.push(0x30);
            out.push(0x30);
            out.push(hex_digit_exec(x / 16));
            out.push(hex_digit_exec(x % 16));
        } else {
            out.push(x);
        }
        proof {
            lemma_esc_take_one(sb@, idx as int);
            assert(out@ =~= head + esc_bytes(sb@.take(idx as int + 1)));
        }
        idx = idx + 1;
    }
    out.push(0x22);
    out.push(0x7d);
    proof {
        assert(sb@.take(m as int) =~= sb@);
        assert(out@ =~= spec_render_descriptor(d.kind, encode_utf8(d.sdp@)));
    }
    b64_encode(&out)
}

/// Parses the JSON bytes of a descriptor; returns `None` exactly when
/// they are not one descriptor object with UTF-8 content.
pub fn parse_descriptor_bytes(b: &[u8]) -> (r: Option<ConnectionDescriptor>)
    ensures
        r is Some <==> spec_parse_descriptor(b@) is Some,
        r matches Some(d) ==> spec_parse_descriptor(b@) == Some(d@),
{
    let prefix: Vec<u8> = vec![0x7b, 0x22, 0x74, 0x79, 0x70, 0x65, 0x22, 0x3a, 0x22];
    proof {
        assert(prefix@ =~= json_prefix());
    }
    if !match_bytes_at(b, 0, &prefix) {
        return None;
    }
    let offer_pat: Vec<u8> = vec![
        0x6f, 0x66, 0x66, 0x65, 0x72, 0x22, 0x2c, 0x22, 0x73, 0x64, 0x70, 0x22, 0x3a, 0x22,
    ];
    let pranswer_pat: Vec<u8> = vec![
        0x70, 0x72, 0x61, 0x6e, 0x73, 0x77, 0x65, 0x72, 0x22, 0x2c, 0x22, 0x73, 0x64, 0x70, 0x22,
        0x3a, 0x22,
    ];
    let answer_pat: Vec<u8> = vec![
        0x61, 0x6e, 0x73, 0x77, 0x65, 0x72, 0x22, 0x2c, 0x22, 0x73, 0x64, 0x70, 0x22, 0x3a, 0x22,
    ];
    let rollback_pat: Vec<u8> = vec![
        0x72, 0x6f, 0x6c, 0x6c, 0x62, 0x61, 0x63, 0x6b, 0x22, 0x2c, 0x22, 0x73, 0x64, 0x70, 0x22,
        0x3a, 0x22,
    ];
    proof {
        assert(offer_pat@ =~= kind_bytes(DescriptorKind::Offer) + json_mid());
        assert(pranswer_pat@ =~= kind_bytes(DescriptorKind::Pranswer) + json_mid());
        assert(answer_pat@ =~= kind_bytes(DescriptorKind::Answer) + json_mid());
        assert(rollback_pat@ =~= kind_bytes(DescriptorKind::Rollback) + json_mid());
    }
    let kind: DescriptorKind;
    let p0: usize;
    if match_bytes_at(b, 9, &offer_pat) {
        kind = DescriptorKind::Offer;
        p0 = 23;
    } else if match_bytes_at(b, 9, &pranswer_pat) {
        kind = DescriptorKind::Pranswer;
        p0 = 26;
    } else if match_bytes_at(b, 9, &answer_pat) {
        kind = DescriptorKind::Answer;
        p0 = 24;
    } else if match_bytes_at(b, 9, &rollback_pat) {
        kind = DescriptorKind::Rollback;
        p0 = 26;
    } else {
        return None;
    }
    proof {
        assert(spec_parse_kind(b@) == Some((kind, p0 as int)));
    }
    let ghost tail0 = b@.skip(p0 as int);
    let mut acc: Vec<u8> = Vec::new();
    let mut p: usize = p0;
    loop
        invariant_except_break
            p0 <= p <= b@.len(),
            spec_parse_kind(b@) == Some((kind, p0 as int)),
            tail0 == b@.skip(p0 as int),
            (match spec_unesc(b@.skip(p as int)) {
                Some((t, q)) => spec_unesc(tail0) == Some((acc@ + t, p - p0 + q)),
                None => spec_unesc(tail0) is None,
            }),
        ensures
            p0 <= p <= b@.len(),
            spec_parse_kind(b@) == Some((kind, p0 as int)),
            tail0 == b@.skip(p0 as int),
            spec_unesc(tail0) == Some((acc@, p - p0)),
        decreases b@.len() - p,
    {
        if p >= b.len() {
            proof {
                assert(b@.skip(p as int).len() == 0);
            }
            return None;
        }
        let x = *slice_index_get(b, p);
        proof {
            assert(b@.skip(p as int)[0] == b@[p as int]);
        }
        if x == 0x22 {
            proof {
                assert(acc@ + Seq::<u8>::empty() =~= acc@);
            }
            break;
        }
        let k: usize;
        let v: u8;
        if x == 0x5c {
            if p + 1 >= b.len() {
                proof {
                    assert(b@.skip(p as int).len() < 2);
                }
                return None;
            }
            let e = *slice_index_get(b, p + 1);
            proof {
                assert(b@.skip(p as int)[1] == b@[p as int + 1]);
            }
            if e == 0x22 || e == 0x5c {
                k = 2;
                v = e;
            } else if e == 0x62 {
                k = 2;
                v = 0x08;
            } else if e == 0x74 {
                k = 2;
                v = 0x09;
            } else if e == 0x6e {
                k = 2;
                v = 0x0a;
            } else if e == 0x66 {
                k = 2;
                v = 0x0c;
            } else if e == 0x72 {
                k = 2;
                v = 0x0d;
            } else if e == 0x75 {
                if b.len() - p < 6 {
                    proof {
                        assert(b@.skip(p as int).len() < 6);
                    }
                    return None;
                }
                let d2 = *slice_index_get(b, p + 2);
                let d3 = *slice_index_get(b, p + 3);
                let d4 = *slice_index_get(b, p + 4);
                let d5 = *slice_index_get(b, p + 5);
                proof {
                    assert(b@.skip(p as int)[2] == b@[p as int + 2]);
                    assert(b@.skip(p as int)[3] == b@[p as int + 3]);
                    assert(b@.skip(p as int)[4] == b@[p as int + 4]);
                    assert(b@.skip(p as int)[5] == b@[p as int + 5]);
                }
                let hex_ok = d2 == 0x30 && d3 == 0x30 && ((0x30 <= d4 && d4 <= 0x39) || (0x61 <= d4
                    && d4 <= 0x66)) && ((0x30 <= d5 && d5 <= 0x39) || (0x61 <= d5 && d5 <= 0x66));
                if !hex_ok {
                    return None;
                }
                k = 6;
                v = hex_val_exec(d4) * 16 + hex_val_exec(d5);
            } else {
                return None;
            }
        } else if x < 0x20 {
            return None;
        } else {
            k = 1;
            v = x;
        }
        proof {
            assert(spec_unesc(b@.skip(p as int)) == spec_unesc_step(
                b@.skip(p as int),
                k as int,
                v,
            ));
            assert(b@.skip(p as int).skip(k as int) =~= b@.skip(p as int + k as int));
            match spec_unesc(b@.skip(p as int + k as int)) {
                Some((t, q)) => {
                    assert(acc@ + (seq![v] + t) =~= (acc@ + seq![v]) + t);
                },
                None => {},
            }
        }
        acc.push(v);
        p = p + k;
    }
    if b.len() - p != 2 {
        return None;
    }
    let closing = *slice_index_get(b, p + 1);
    if closing != 0x7d {
        return None;
    }
    match crate::message::string_from_utf8(acc) {
        Some(sdp) => Some(ConnectionDescriptor { kind, sdp }),
        None => None,
    }
}

/// Decodes a pasted connection string: base64, then the descriptor JSON.
/// Decoding what [`encode_descriptor`] produced always succeeds with the
/// original descriptor — the codec's round-trip law. Text that is not
/// base64 is `InvalidBase64`; bytes that are not one descriptor object
/// are `InvalidDescriptor`.
pub fn decode_descriptor(s: &str) -> (r: Result<ConnectionDescriptor, DescriptorDecodeError>)
    ensures
        forall|dm: DescriptorModel|
            s@ == #[trigger] spec_encode_descriptor(dm) ==> (r matches Ok(d) && d@ == dm),
        r matches Err(e) ==> (e == DescriptorDecodeError::InvalidBase64 || e
            == DescriptorDecodeError::InvalidDescriptor),
{
    match b64_decode(s) {
        None => {
            proof {
                assert forall|dm: DescriptorModel|
                    s@ == #[trigger] spec_encode_descriptor(dm) implies false by {
                    assert(s@ == b64_of(spec_render_descriptor(dm.kind, encode_utf8(dm.sdp))));
                }
            }
            Err(DescriptorDecodeError::InvalidBase64)
        },
        Some(bytes) => {
            let parsed = parse_descriptor_bytes(bytes.as_slice());
            proof {
                assert forall|dm: DescriptorModel|
                    s@ == #[trigger] spec_encode_descriptor(dm) implies (parsed matches Some(d)
                    && d@ == dm) by {
                    assert(s@ == b64_of(spec_render_descriptor(dm.kind, encode_utf8(dm.sdp))));
                    assert(bytes@ == spec_render_descriptor(dm.kind, encode_utf8(dm.sdp)));
                    lemma_descriptor_round_trip(dm);
                }
            }
            match parsed {
                Some(d) => Ok(d),
                None => Err(DescriptorDecodeError::InvalidDescriptor),
            }
        },
    }
}

} // verus!
