use vstd::prelude::*;

use crate::checksum::{checksum_of, Checksum};
use crate::messages::MessageStruct;

verus! {

/// Marks the start of a frame; never stands escaped.
pub const FRAME_START: u8 = 0x7e;

/// Announces that the next byte is escaped.
pub const ESCAPE: u8 = 0x7d;

/// What an escaped byte is XOR-ed with on the wire.
pub const ESCAPE_XOR: u8 = 0x20;

/// The wire form of one byte: the two reserved values become the escape
/// marker and the byte XOR `0x20`, any other stands as it is.
pub open spec fn escape_byte(b: u8) -> Seq<u8> {
    if b == ESCAPE || b == FRAME_START {
        seq![ESCAPE, b ^ ESCAPE_XOR]
    } else {
        seq![b]
    }
}

/// The wire form of a run of bytes, byte by byte.
pub open spec fn escape_seq(s: Seq<u8>) -> Seq<u8>
    decreases s.len(),
{
    if s.len() == 0 {
        Seq::empty()
    } else {
        escape_seq(s.drop_last()) + escape_byte(s.last())
    }
}

/// The unescaped bytes of a frame: id, payload, then the checksum of both.
pub open spec fn frame_raw(id: u8, payload: Seq<u8>) -> Seq<u8> {
    let body = seq![id] + payload;
    let (a, b) = checksum_of(body);
    body + seq![a, b]
}

/// The bytes that carry a frame: the start marker, then the frame's
/// unescaped bytes in wire form.
pub open spec fn encode_frame(id: u8, payload: Seq<u8>) -> Seq<u8> {
    seq![FRAME_START] + escape_seq(frame_raw(id, payload))
}

/// Escaping one more byte appends its wire form.
pub proof fn lemma_escape_push(s: Seq<u8>, b: u8)
    ensures
        escape_seq(s.push(b)) == escape_seq(s) + escape_byte(b),
{
    assert(s.push(b).drop_last() == s);
}

fn escaped_push(b: u8, buf: &mut Vec<u8>)
    ensures
        final(buf)@ == old(buf)@ + escape_byte(b),
{
    if b == ESCAPE || b == FRAME_START {
        buf.push(ESCAPE);
        buf.push(b ^ ESCAPE_XOR);
    } else {
        buf.push(b);
    }
}

/// The bytes to transmit for a message.
pub fn serialize_msg<T: MessageStruct>(msg: &T) -> (r: Vec<u8>)
    ensures
        r@ == encode_frame(msg@.id(), msg@.payload()),
{
    let id = msg.id();
    let payload: Vec<u8> = msg.payload();
    serialize_raw(id, payload.as_slice())
}

/// The bytes to transmit for a frame with this id and payload.
pub fn serialize_raw(id: u8, payload: &[u8]) -> (r: Vec<u8>)
    ensures
        r@ == encode_frame(id, payload@),
{
    let ghost body = seq![id] + payload@;
    let mut buf: Vec<u8> = Vec::new();
    let mut chk = Checksum::new();
    buf.push(FRAME_START);
    escaped_push(id, &mut buf);
    chk.add_byte(id);
    assert(body.take(1).drop_last() == Seq::<u8>::empty());
    assert(body.take(1).last() == id);
    assert(escape_seq(Seq::<u8>::empty()) + escape_byte(id) =~= escape_byte(id));
    assert(checksum_of(Seq::<u8>::empty()) == (0u8, 0u8));
    let mut i: usize = 0;
    while i < payload.len()
        invariant
            i <= payload@.len(),
            body == seq![id] + payload@,
            buf@ == seq![FRAME_START] + escape_seq(body.take(i + 1)),
            (chk.a, chk.b) == checksum_of(body.take(i + 1)),
        decreases payload@.len() - i,
    {
        let b = payload[i];
        escaped_push(b, &mut buf);
        chk.add_byte(b);
        i += 1;
        assert(body.take(i + 1).drop_last() == body.take(i as int));
    }
    assert(body.take(i + 1) == body);
    let (chk_a, chk_b) = chk.get();
    let ghost raw = body + seq![chk_a, chk_b];
    escaped_push(chk_a, &mut buf);
    escaped_push(chk_b, &mut buf);
    assert(raw.drop_last() == body.push(chk_a));
    assert(body.push(chk_a).drop_last() == body);
    assert(raw.last() == chk_b && body.push(chk_a).last() == chk_a);
    proof {
        lemma_escape_push(body, chk_a);
        lemma_escape_push(body.push(chk_a), chk_b);
    }
    assert(raw == body.push(chk_a).push(chk_b));
    assert(raw == frame_raw(id, payload@));
    assert(buf@ =~= seq![FRAME_START] + escape_seq(raw));
    buf
}

} // verus!
