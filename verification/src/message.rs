//! The protocol vocabulary and its wire codec.
//!
//! Every payload that crosses the data channel is one `MultiplayerGameMessage`
//! encoded by [`encode_message`]; inbound payloads are recovered by
//! [`decode_message`], which rejects anything malformed instead of failing.
//! The codec is a fixed tagged binary format: a one-byte tag, then the
//! variant's fields, integers little-endian, strings as a byte length
//! followed by UTF-8 bytes.

use vstd::bytes::*;
use vstd::prelude::*;
use vstd::slice::{slice_index_get, slice_subrange, slice_to_vec};
use vstd::string::StrSliceExecFns;
use vstd::utf8::{decode_utf8, encode_utf8, valid_utf8};

use crate::player::PuzzleStatistics;

verus! {

/// The closed set of messages the two peers exchange.
///
/// Durations travel as whole milliseconds; board coordinates as
/// `(row, column)` pairs.
#[derive(Debug, PartialEq)]
pub enum MultiplayerGameMessage {
    /// An encoded connection descriptor, exchanged during signalling.
    ConnectionString(String),
    /// The joiner's greeting once the channel opens.
    Hello { username: String },
    /// Asks the peer's background task to shut the channel down.
    CloseConnection,
    /// The creator removed this cell to form the hole.
    DeleteRandomTile((usize, usize)),
    /// The creator's instruction to enter the shared game.
    StartGame { img_num: usize, num_rows_cols: usize, host_username: String },
    /// One tile slide: the tile at `i2j2` moves into `i1j1`.
    SwapTiles { i1j1: (usize, usize), i2j2: (usize, usize), duration_millis: u32 },
    /// The creator finished scrambling the board.
    ScramblingFinished,
    /// The sending side solved its board, with its measurements.
    GameCompleted(PuzzleStatistics),
}

/// The mathematical shape of a message: strings as character sequences.
pub enum MessageModel {
    ConnectionString { conn: Seq<char> },
    Hello { username: Seq<char> },
    CloseConnection,
    DeleteRandomTile { row: usize, col: usize },
    StartGame { img_num: usize, num_rows_cols: usize, host_username: Seq<char> },
    SwapTiles { from: (usize, usize), to: (usize, usize), duration_millis: u32 },
    ScramblingFinished,
    GameCompleted { stats: PuzzleStatistics },
}

impl View for MultiplayerGameMessage {
    type V = MessageModel;

    open spec fn view(&self) -> MessageModel {
        match self {
            MultiplayerGameMessage::ConnectionString(s) => MessageModel::ConnectionString {
                conn: s@,
            },
            MultiplayerGameMessage::Hello { username } => MessageModel::Hello {
                username: username@,
            },
            MultiplayerGameMessage::CloseConnection => MessageModel::CloseConnection,
            MultiplayerGameMessage::DeleteRandomTile(rc) => MessageModel::DeleteRandomTile {
                row: rc.0,
                col: rc.1,
            },
            MultiplayerGameMessage::StartGame { img_num, num_rows_cols, host_username } => {
                MessageModel::StartGame {
                    img_num: *img_num,
                    num_rows_cols: *num_rows_cols,
                    host_username: host_username@,
                }
            },
            MultiplayerGameMessage::SwapTiles { i1j1, i2j2, duration_millis } => {
                MessageModel::SwapTiles {
                    from: *i1j1,
                    to: *i2j2,
                    duration_millis: *duration_millis,
                }
            },
            MultiplayerGameMessage::ScramblingFinished => MessageModel::ScramblingFinished,
            MultiplayerGameMessage::GameCompleted(stats) => MessageModel::GameCompleted {
                stats: *stats,
            },
        }
    }
}

impl Clone for MultiplayerGameMessage {
    /// A clone carries the same mathematical message.
    fn clone(&self) -> (r: Self)
        ensures
            r@ == self@,
    {
        match self {
            MultiplayerGameMessage::ConnectionString(s) => MultiplayerGameMessage::ConnectionString(
                s.clone(),
            ),
            MultiplayerGameMessage::Hello { username } => MultiplayerGameMessage::Hello {
                username: username.clone(),
            },
            MultiplayerGameMessage::CloseConnection => MultiplayerGameMessage::CloseConnection,
            MultiplayerGameMessage::DeleteRandomTile(rc) => {
                MultiplayerGameMessage::DeleteRandomTile(*rc)
            },
            MultiplayerGameMessage::StartGame { img_num, num_rows_cols, host_username } => {
                MultiplayerGameMessage::StartGame {
                    img_num: *img_num,
                    num_rows_cols: *num_rows_cols,
                    host_username: host_username.clone(),
                }
            },
            MultiplayerGameMessage::SwapTiles { i1j1, i2j2, duration_millis } => {
                MultiplayerGameMessage::SwapTiles {
                    i1j1: *i1j1,
                    i2j2: *i2j2,
                    duration_millis: *duration_millis,
                }
            },
            MultiplayerGameMessage::ScramblingFinished => {
                MultiplayerGameMessage::ScramblingFinished
            },
            MultiplayerGameMessage::GameCompleted(stats) => MultiplayerGameMessage::GameCompleted(
                *stats,
            ),
        }
    }
}

/// True when the string's UTF-8 form fits a machine length, so its byte
/// count survives the length field unchanged. Every string held by a real
/// `String` satisfies this.
pub open spec fn str_len_fits(s: Seq<char>) -> bool {
    encode_utf8(s).len() <= usize::MAX
}

/// True when every string field of the message fits a machine length.
pub open spec fn msg_wf(m: MessageModel) -> bool {
    match m {
        MessageModel::ConnectionString { conn } => str_len_fits(conn),
        MessageModel::Hello { username } => str_len_fits(username),
        MessageModel::StartGame { host_username, .. } => str_len_fits(host_username),
        _ => true,
    }
}

/// A string on the wire: an eight-byte length, then that many UTF-8 bytes.
pub open spec fn spec_encode_str(s: Seq<char>) -> Seq<u8> {
    spec_u64_to_le_bytes(encode_utf8(s).len() as u64) + encode_utf8(s)
}

/// The byte sequence that encodes a message.
pub open spec fn spec_encode_message(m: MessageModel) -> Seq<u8> {
    match m {
        MessageModel::ConnectionString { conn } => seq![0u8] + spec_encode_str(conn),
        MessageModel::Hello { username } => seq![1u8] + spec_encode_str(username),
        MessageModel::CloseConnection => seq![2u8],
        MessageModel::DeleteRandomTile { row, col } => seq![3u8] + spec_u64_to_le_bytes(
            row as u64,
        ) + spec_u64_to_le_bytes(col as u64),
        MessageModel::StartGame { img_num, num_rows_cols, host_username } => seq![4u8]
            + spec_u64_to_le_bytes(img_num as u64) + spec_u64_to_le_bytes(num_rows_cols as u64)
            + spec_encode_str(host_username),
        MessageModel::SwapTiles { from, to, duration_millis } => seq![5u8] + spec_u64_to_le_bytes(
            from.0 as u64,
        ) + spec_u64_to_le_bytes(from.1 as u64) + spec_u64_to_le_bytes(to.0 as u64)
            + spec_u64_to_le_bytes(to.1 as u64) + spec_u32_to_le_bytes(duration_millis),
        MessageModel::ScramblingFinished => seq![6u8],
        MessageModel::GameCompleted { stats } => seq![7u8] + spec_u64_to_le_bytes(
            stats.finish_time as u64,
        ) + spec_u64_to_le_bytes(stats.duration) + spec_u32_to_le_bytes(stats.move_count),
    }
}

/// Reads the eight bytes at `off` as a little-endian integer.
pub open spec fn spec_read_u64(b: Seq<u8>, off: int) -> u64 {
    spec_u64_from_le_bytes(b.subrange(off, off + 8))
}

/// Reads the four bytes at `off` as a little-endian integer.
pub open spec fn spec_read_u32(b: Seq<u8>, off: int) -> u32 {
    spec_u32_from_le_bytes(b.subrange(off, off + 4))
}

/// Decodes a length-prefixed string that must fill `b` exactly.
pub open spec fn spec_decode_str_exact(b: Seq<u8>) -> Option<Seq<char>> {
    if b.len() >= 8 {
        let n = spec_read_u64(b, 0);
        let body = b.subrange(8, b.len() as int);
        if body.len() == n && valid_utf8(body) {
            Some(decode_utf8(body))
        } else {
            None
        }
    } else {
        None
    }
}

/// Decodes the eight bytes at `off` as a board index, refusing values that
/// exceed the machine's index range.
pub open spec fn spec_decode_usize(b: Seq<u8>, off: int) -> Option<usize> {
    let x = spec_read_u64(b, off);
    if x <= usize::MAX as u64 {
        Some(x as usize)
    } else {
        None
    }
}

/// The message a byte sequence decodes to, or `None` when it is malformed.
pub open spec fn spec_decode_message(b: Seq<u8>) -> Option<MessageModel> {
    if b.len() < 1 {
        None
    } else {
        let tag = b[0];
        let rest = b.subrange(1, b.len() as int);
        if tag == 0 {
            match spec_decode_str_exact(rest) {
                Some(s) => Some(MessageModel::ConnectionString { conn: s }),
                None => None,
            }
        } else if tag == 1 {
            match spec_decode_str_exact(rest) {
                Some(s) => Some(MessageModel::Hello { username: s }),
                None => None,
            }
        } else if tag == 2 {
            if rest.len() == 0 {
                Some(MessageModel::CloseConnection)
            } else {
                None
            }
        } else if tag == 3 {
            if rest.len() == 16 {
                match (spec_decode_usize(rest, 0), spec_decode_usize(rest, 8)) {
                    (Some(row), Some(col)) => Some(MessageModel::DeleteRandomTile { row, col }),
                    _ => None,
                }
            } else {
                None
            }
        } else if tag == 4 {
            if rest.len() >= 16 {
                match (
                    spec_decode_usize(rest, 0),
                    spec_decode_usize(rest, 8),
                    spec_decode_str_exact(rest.subrange(16, rest.len() as int)),
                ) {
                    (Some(img_num), Some(num_rows_cols), Some(host_username)) => Some(
                        MessageModel::StartGame { img_num, num_rows_cols, host_username },
                    ),
                    _ => None,
                }
            } else {
                None
            }
        } else if tag == 5 {
            if rest.len() == 36 {
                match (
                    spec_decode_usize(rest, 0),
                    spec_decode_usize(rest, 8),
                    spec_decode_usize(rest, 16),
                    spec_decode_usize(rest, 24),
                ) {
                    (Some(r1), Some(c1), Some(r2), Some(c2)) => Some(
                        MessageModel::SwapTiles {
                            from: (r1, c1),
                            to: (r2, c2),
                            duration_millis: spec_read_u32(rest, 32),
                        },
                    ),
                    _ => None,
                }
            } else {
                None
            }
        } else if tag == 6 {
            if rest.len() == 0 {
                Some(MessageModel::ScramblingFinished)
            } else {
                None
            }
        } else if tag == 7 {
            if rest.len() == 20 {
                Some(
                    MessageModel::GameCompleted {
                        stats: PuzzleStatistics {
                            finish_time: spec_read_u64(rest, 0) as i64,
                            duration: spec_read_u64(rest, 8),
                            move_count: spec_read_u32(rest, 16),
                        },
                    },
                )
            } else {
                None
            }
        } else {
            None
        }
    }
}

} // verus!

verus! {

/// Relies on String::from_utf8: it succeeds exactly on UTF-8 input and
/// keeps the bytes.
#[verifier::external_body]
pub(crate) fn string_from_utf8(v: Vec<u8>) -> (r: Option<String>)
    ensures
        r is Some <==> valid_utf8(v@),
        r matches Some(s) ==> s@ == decode_utf8(v@),
{
    String::from_utf8(v).ok()
}

/// Appends the little-endian bytes of `x`.
fn push_u64(out: &mut Vec<u8>, x: u64)
    ensures
        final(out)@ == old(out)@ + spec_u64_to_le_bytes(x),
{
    let mut v = u64_to_le_bytes(x);
    out.append(&mut v);
}

/// Appends the little-endian bytes of `x`.
fn push_u32(out: &mut Vec<u8>, x: u32)
    ensures
        final(out)@ == old(out)@ + spec_u32_to_le_bytes(x),
{
    let mut v = u32_to_le_bytes(x);
    out.append(&mut v);
}

/// Appends a length-prefixed UTF-8 string.
fn push_string(out: &mut Vec<u8>, s: &String)
    ensures
        final(out)@ == old(out)@ + spec_encode_str(s@),
{
    let bs: Vec<u8> = s.as_str().as_bytes_vec();
    push_u64(out, bs.len() as u64);
    let mut body = bs;
    out.append(&mut body);
    proof {
        assert(final(out)@ =~= old(out)@ + spec_encode_str(s@));
    }
}

/// Encodes a message for the wire.
pub fn encode_message(m: &MultiplayerGameMessage) -> (out: Vec<u8>)
    ensures
        out@ == spec_encode_message(m@),
{
    let mut out: Vec<u8> = Vec::new();
    match m {
        MultiplayerGameMessage::ConnectionString(s) => {
            out.push(0u8);
            push_string(&mut out, s);
        },
        MultiplayerGameMessage::Hello { username } => {
            out.push(1u8);
            push_string(&mut out, username);
        },
        MultiplayerGameMessage::CloseConnection => {
            out.push(2u8);
        },
        MultiplayerGameMessage::DeleteRandomTile(rc) => {
            out.push(3u8);
            push_u64(&mut out, rc.0 as u64);
            push_u64(&mut out, rc.1 as u64);
        },
        MultiplayerGameMessage::StartGame { img_num, num_rows_cols, host_username } => {
            out.push(4u8);
            push_u64(&mut out, *img_num as u64);
            push_u64(&mut out, *num_rows_cols as u64);
            push_string(&mut out, host_username);
        },
        MultiplayerGameMessage::SwapTiles { i1j1, i2j2, duration_millis } => {
            out.push(5u8);
            push_u64(&mut out, i1j1.0 as u64);
            push_u64(&mut out, i1j1.1 as u64);
            push_u64(&mut out, i2j2.0 as u64);
            push_u64(&mut out, i2j2.1 as u64);
            push_u32(&mut out, *duration_millis);
        },
        MultiplayerGameMessage::ScramblingFinished => {
            out.push(6u8);
        },
        MultiplayerGameMessage::GameCompleted(stats) => {
            out.push(7u8);
            push_u64(&mut out, #[verifier::truncate] (stats.finish_time as u64));
            push_u64(&mut out, stats.duration);
            push_u32(&mut out, stats.move_count);
        },
    }
    proof {
        assert(out@ =~= spec_encode_message(m@));
    }
    out
}

/// Decodes the eight bytes at `off` as a board index.
fn decode_usize_at(b: &[u8], off: usize) -> (r: Option<usize>)
    requires
        off + 8 <= b@.len(),
        b@.len() <= usize::MAX,
    ensures
        r == spec_decode_usize(b@, off as int),
{
    let x = u64_from_le_bytes(slice_subrange(b, off, off + 8));
    if x <= usize::MAX as u64 {
        Some(x as usize)
    } else {
        None
    }
}

/// Decodes a length-prefixed string that must fill `b` exactly.
fn decode_str_exact(b: &[u8]) -> (r: Option<String>)
    ensures
        r is Some <==> spec_decode_str_exact(b@) is Some,
        r matches Some(s) ==> Some(s@) == spec_decode_str_exact(b@),
{
    if b.len() < 8 {
        return None;
    }
    let n = u64_from_le_bytes(slice_subrange(b, 0, 8));
    let body_len = b.len() - 8;
    if (body_len as u64) != n {
        return None;
    }
    let body = slice_subrange(b, 8, b.len());
    let v = slice_to_vec(body);
    string_from_utf8(v)
}

/// Decodes one wire payload, or returns `None` when it is malformed.
pub fn decode_message(bytes: &[u8]) -> (r: Option<MultiplayerGameMessage>)
    ensures
        r is Some <==> spec_decode_message(bytes@) is Some,
        r matches Some(m) ==> Some(m@) == spec_decode_message(bytes@),
{
    let n = bytes.len();
    if n < 1 {
        return None;
    }
    let tag = *slice_index_get(bytes, 0);
    let rest = slice_subrange(bytes, 1, n);
    if tag == 0 {
        match decode_str_exact(rest) {
            Some(s) => Some(MultiplayerGameMessage::ConnectionString(s)),
            None => None,
        }
    } else if tag == 1 {
        match decode_str_exact(rest) {
            Some(s) => Some(MultiplayerGameMessage::Hello { username: s }),
            None => None,
        }
    } else if tag == 2 {
        if rest.len() == 0 {
            Some(MultiplayerGameMessage::CloseConnection)
        } else {
            None
        }
    } else if tag == 3 {
        if rest.len() == 16 {
            match (decode_usize_at(rest, 0), decode_usize_at(rest, 8)) {
                (Some(row), Some(col)) => Some(MultiplayerGameMessage::DeleteRandomTile((row, col))),
                _ => None,
            }
        } else {
            None
        }
    } else if tag == 4 {
        if rest.len() >= 16 {
            let tail = slice_subrange(rest, 16, rest.len());
            match (decode_usize_at(rest, 0), decode_usize_at(rest, 8), decode_str_exact(tail)) {
                (Some(img_num), Some(num_rows_cols), Some(host_username)) => Some(
                    MultiplayerGameMessage::StartGame { img_num, num_rows_cols, host_username },
                ),
                _ => None,
            }
        } else {
            None
        }
    } else if tag == 5 {
        if rest.len() == 36 {
            let d = u32_from_le_bytes(slice_subrange(rest, 32, 36));
            match (
                decode_usize_at(rest, 0),
                decode_usize_at(rest, 8),
                decode_usize_at(rest, 16),
                decode_usize_at(rest, 24),
            ) {
                (Some(r1), Some(c1), Some(r2), Some(c2)) => Some(
                    MultiplayerGameMessage::SwapTiles {
                        i1j1: (r1, c1),
                        i2j2: (r2, c2),
                        duration_millis: d,
                    },
                ),
                _ => None,
            }
        } else {
            None
        }
    } else if tag == 6 {
        if rest.len() == 0 {
            Some(MultiplayerGameMessage::ScramblingFinished)
        } else {
            None
        }
    } else if tag == 7 {
        if rest.len() == 20 {
            let ft = u64_from_le_bytes(slice_subrange(rest, 0, 8));
            let dur = u64_from_le_bytes(slice_subrange(rest, 8, 16));
            let mc = u32_from_le_bytes(slice_subrange(rest, 16, 20));
            Some(
                MultiplayerGameMessage::GameCompleted(
                    PuzzleStatistics {
                        finish_time: #[verifier::truncate] (ft as i64),
                        duration: dur,
                        move_count: mc,
                    },
                ),
            )
        } else {
            None
        }
    } else {
        None
    }
}

/// Casting an instant through the wire's unsigned field loses nothing.
proof fn lemma_i64_u64_round(t: i64)
    ensures
        ((t as u64) as i64) == t,
{
    assert(((t as u64) as i64) == t) by (bit_vector);
}

/// A length-prefixed string decodes back to the characters it was built
/// from.
proof fn lemma_str_round_trip(s: Seq<char>)
    requires
        str_len_fits(s),
    ensures
        spec_decode_str_exact(spec_encode_str(s)) == Some(s),
{
    lemma_auto_spec_u64_to_from_le_bytes();
    vstd::utf8::encode_utf8_valid_utf8(s);
    vstd::utf8::encode_utf8_decode_utf8(s);
    let body = encode_utf8(s);
    let b = spec_encode_str(s);
    assert(b.subrange(0, 8) =~= spec_u64_to_le_bytes(body.len() as u64));
    assert(b.subrange(8, b.len() as int) =~= body);
}

/// Round-trip law of the wire codec: decoding an encoded message yields
/// that message, for every message whose strings fit a machine length.
pub proof fn lemma_message_round_trip(m: MessageModel)
    requires
        msg_wf(m),
    ensures
        spec_decode_message(spec_encode_message(m)) == Some(m),
{
    lemma_auto_spec_u64_to_from_le_bytes();
    lemma_auto_spec_u32_to_from_le_bytes();
    let b = spec_encode_message(m);
    let rest = b.subrange(1, b.len() as int);
    match m {
        MessageModel::ConnectionString { conn } => {
            lemma_str_round_trip(conn);
            assert(rest =~= spec_encode_str(conn));
        },
        MessageModel::Hello { username } => {
            lemma_str_round_trip(username);
            assert(rest =~= spec_encode_str(username));
        },
        MessageModel::CloseConnection => {
            assert(rest =~= Seq::<u8>::empty());
        },
        MessageModel::DeleteRandomTile { row, col } => {
            assert(rest =~= spec_u64_to_le_bytes(row as u64) + spec_u64_to_le_bytes(col as u64));
            assert(rest.subrange(0, 8) =~= spec_u64_to_le_bytes(row as u64));
            assert(rest.subrange(8, 16) =~= spec_u64_to_le_bytes(col as u64));
        },
        MessageModel::StartGame { img_num, num_rows_cols, host_username } => {
            lemma_str_round_trip(host_username);
            assert(rest =~= spec_u64_to_le_bytes(img_num as u64) + spec_u64_to_le_bytes(
                num_rows_cols as u64,
            ) + spec_encode_str(host_username));
            assert(rest.subrange(0, 8) =~= spec_u64_to_le_bytes(img_num as u64));
            assert(rest.subrange(8, 16) =~= spec_u64_to_le_bytes(num_rows_cols as u64));
            assert(rest.subrange(16, rest.len() as int) =~= spec_encode_str(host_username));
        },
        MessageModel::SwapTiles { from, to, duration_millis } => {
            assert(rest =~= spec_u64_to_le_bytes(from.0 as u64) + spec_u64_to_le_bytes(
                from.1 as u64,
            ) + spec_u64_to_le_bytes(to.0 as u64) + spec_u64_to_le_bytes(to.1 as u64)
                + spec_u32_to_le_bytes(duration_millis));
            assert(rest.subrange(0, 8) =~= spec_u64_to_le_bytes(from.0 as u64));
            assert(rest.subrange(8, 16) =~= spec_u64_to_le_bytes(from.1 as u64));
            assert(rest.subrange(16, 24) =~= spec_u64_to_le_bytes(to.0 as u64));
            assert(rest.subrange(24, 32) =~= spec_u64_to_le_bytes(to.1 as u64));
            assert(rest.subrange(32, 36) =~= spec_u32_to_le_bytes(duration_millis));
        },
        MessageModel::ScramblingFinished => {
            assert(rest =~= Seq::<u8>::empty());
        },
        MessageModel::GameCompleted { stats } => {
            lemma_i64_u64_round(stats.finish_time);
            assert(rest =~= spec_u64_to_le_bytes(stats.finish_time as u64) + spec_u64_to_le_bytes(
                stats.duration,
            ) + spec_u32_to_le_bytes(stats.move_count));
            assert(rest.subrange(0, 8) =~= spec_u64_to_le_bytes(stats.finish_time as u64));
            assert(rest.subrange(8, 16) =~= spec_u64_to_le_bytes(stats.duration));
            assert(rest.subrange(16, 20) =~= spec_u32_to_le_bytes(stats.move_count));
        },
    }
}

} // verus!
