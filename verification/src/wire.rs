//! Wire format: a four-byte big-endian length, then the message as JSON.

use crate::json::{
    denotes, json_compact, number_as_u64, number_of, reads_back, Json, JsonTree,
};
use crate::text::{dec, decimal};
use vstd::arithmetic::div_mod::lemma_div_denominator;
use vstd::prelude::*;
use vstd::string::*;
use vstd::utf8::{decode_utf8, encode_utf8, encode_utf8_decode_utf8};

verus! {

/// The largest message that is read.
pub const MAX_MESSAGE_SIZE: u32 = 1048576;

/// The big-endian bytes of a number below `2^32`.
pub open spec fn be_bytes(n: int) -> Seq<u8> {
    seq![
        (n / 16777216 % 256) as u8,
        (n / 65536 % 256) as u8,
        (n / 256 % 256) as u8,
        (n % 256) as u8,
    ]
}

/// The number that four big-endian bytes denote.
pub open spec fn be_value(b: Seq<u8>) -> int {
    b[0] * 16777216 + b[1] * 65536 + b[2] * 256 + b[3]
}

/// A message behind its length. The length is counted modulo `2^32`.
pub open spec fn framed(json: Seq<u8>) -> Seq<u8> {
    be_bytes(json.len() as int % 4294967296) + json
}

/// Puts a message behind its length.
pub fn frame(json: &Vec<u8>) -> (buf: Vec<u8>)
    ensures
        buf@ == framed(json@),
{
    let n: u64 = json.len() as u64 % 4294967296;
    let mut buf: Vec<u8> = Vec::new();
    buf.push((n / 16777216 % 256) as u8);
    buf.push((n / 65536 % 256) as u8);
    buf.push((n / 256 % 256) as u8);
    buf.push((n % 256) as u8);
    assert(buf@ =~= be_bytes(n as int));
    let mut i: usize = 0;
    while i < json.len()
        invariant
            i <= json@.len(),
            n == json@.len() % 4294967296,
            buf@ =~= be_bytes(n as int) + json@.take(i as int),
        decreases json@.len() - i,
    {
        buf.push(json[i]);
        i += 1;
    }
    assert(json@.take(json@.len() as int) =~= json@);
    buf
}

/// Reads the length in front of a message; a message that is too large is refused.
pub fn read_length(prefix: [u8; 4]) -> (r: Result<u32, String>)
    ensures
        r is Ok <==> be_value(prefix@) <= MAX_MESSAGE_SIZE,
        r is Ok ==> r->Ok_0 == be_value(prefix@),
        r is Err ==> r->Err_0@ == "Message too large: "@ + dec(be_value(prefix@) as nat)
            + " bytes (max "@ + dec(MAX_MESSAGE_SIZE as nat) + ")"@,
{
    let n: u32 = (prefix[0] as u32) * 16777216 + (prefix[1] as u32) * 65536 + (prefix[2] as u32)
        * 256 + (prefix[3] as u32);
    if n > MAX_MESSAGE_SIZE {
        let mut m = "Message too large: ".to_owned();
        m.append(decimal(n as u64).as_str());
        m.append(" bytes (max ");
        m.append(decimal(MAX_MESSAGE_SIZE as u64).as_str());
        m.append(")");
        Err(m)
    } else {
        Ok(n)
    }
}

/// The number of file descriptors that a message announces.
pub open spec fn announced_fds(t: JsonTree) -> u64 {
    match t.get("fd_count"@) {
        Some(JsonTree::Number(n)) => match number_as_u64(n) {
            Some(c) => c,
            None => 0,
        },
        _ => 0,
    }
}

/// The number of file descriptors that follow a message.
pub fn fd_count(message: &Json) -> (n: u64)
    requires
        message.wf(),
    ensures
        n == announced_fds(message.tree()),
{
    match message.get("fd_count") {
        Some(v) => match v.as_u64() {
            Some(n) => n,
            None => 0,
        },
        None => 0,
    }
}

/// A message that announces file descriptors: as it is where there are none.
pub open spec fn with_fd_count(t: JsonTree, count: u64) -> JsonTree {
    if count > 0 {
        t.set("fd_count"@, JsonTree::Number(number_of(count)))
    } else {
        t
    }
}

/// Announces file descriptors in a message.
pub fn announce_fds(message: &mut Json, count: u64)
    requires
        old(message).wf(),
        old(message).tree() is Object,
    ensures
        final(message).wf(),
        final(message).tree() == with_fd_count(old(message).tree(), count),
        count > 0 ==> announced_fds(final(message).tree()) == count,
{
    if count > 0 {
        message.set("fd_count", Json::number(count));
    }
}

/// A message in its frame, with the announcement of its file descriptors. What
/// stands behind the length reads back as the message.
pub fn frame_message(message: Json, fds: u64) -> (buf: Vec<u8>)
    requires
        message.wf(),
        message.tree() is Object,
    ensures
        buf@ == framed(encode_utf8(json_compact(with_fd_count(message.tree(), fds)))),
        reads_back(with_fd_count(message.tree(), fds)) ==> denotes(
            decode_utf8(buf@.skip(4)),
            with_fd_count(message.tree(), fds),
        ),
{
    broadcast use encode_utf8_decode_utf8;

    let mut m = message;
    announce_fds(&mut m, fds);
    let text = m.compact();
    let buf = frame(&text.as_str().as_bytes_vec());
    assert(buf@.skip(4) =~= encode_utf8(text@));
    buf
}

/// Four big-endian bytes denote the number that they were made of.
proof fn lemma_be_round_trip(n: int)
    requires
        0 <= n < 4294967296,
    ensures
        be_value(be_bytes(n)) == n,
{
    let a = n / 256;
    let b = a / 256;
    let c = b / 256;
    lemma_div_denominator(n, 256, 256);
    lemma_div_denominator(n, 256, 65536);
    lemma_div_denominator(a, 256, 256);
    assert(n / 65536 == b);
    assert(n / 16777216 == c);
    assert(n == 256 * a + n % 256);
    assert(a == 256 * b + a % 256);
    assert(b == 256 * c + b % 256);
    assert(c < 256);
    assert(c % 256 == c);
}

/// A frame is read back as the message that was put into it, as long as the
/// message is not too large.
pub proof fn law_frame_round_trip(json: Seq<u8>)
    requires
        json.len() <= MAX_MESSAGE_SIZE,
    ensures
        framed(json).len() == json.len() + 4,
        be_value(framed(json).take(4)) == json.len(),
        framed(json).skip(4) == json,
{
    let n = json.len() as int;
    lemma_be_round_trip(n);
    assert(framed(json).take(4) =~= be_bytes(n));
    assert(framed(json).skip(4) =~= json);
}

/// The length of a message that is too large is refused before the message is read.
pub proof fn law_large_frames_are_refused(json: Seq<u8>)
    requires
        MAX_MESSAGE_SIZE < json.len() < 4294967296,
    ensures
        be_value(framed(json).take(4)) > MAX_MESSAGE_SIZE,
{
    let n = json.len() as int;
    lemma_be_round_trip(n);
    assert(framed(json).take(4) =~= be_bytes(n));
}

/// A message announces the file descriptors that it says it does, or none, and
/// announcing some changes nothing else in it.
pub proof fn law_announced_descriptors(t: JsonTree, n: serde_json::Number, count: u64, k: Seq<char>)
    requires
        t is Object,
    ensures
        t.get("fd_count"@) is None ==> announced_fds(t) == 0,
        t.get("fd_count"@) == Some(JsonTree::Number(n)) && number_as_u64(n) is Some
            ==> announced_fds(t) == number_as_u64(n)->0,
        with_fd_count(t, 0) == t,
        count > 0 ==> with_fd_count(t, count).get("fd_count"@) == Some(
            JsonTree::Number(number_of(count)),
        ),
        k != "fd_count"@ ==> with_fd_count(t, count).get(k) == t.get(k),
{
}

/// Messages may be as large as a mebibyte.
pub proof fn law_message_size_limit()
    ensures
        MAX_MESSAGE_SIZE == 1024 * 1024,
{
}

/// The length that is read is the one that was written, and one over the limit
/// is refused.
pub proof fn law_lengths_are_read_as_written(prefix: [u8; 4], n: int, r: Result<u32, String>)
    requires
        0 <= n < 4294967296,
        prefix@ == be_bytes(n),
        call_ensures(read_length, (prefix,), r),
    ensures
        r is Ok <==> n <= 1048576,
        r is Ok ==> r->Ok_0 == n,
{
    lemma_be_round_trip(n);
}

} // verus!
