use vstd::prelude::*;

use crate::buffer::{frame_body, frame_complete, frame_payload, frame_trailer, MAX_MESSAGE_SIZE};
use crate::checksum::checksum_of;
use crate::error::ParseError;
use crate::framing::{
    encode_frame, escape_byte, escape_seq, frame_raw, lemma_escape_push,
    ESCAPE, ESCAPE_XOR, FRAME_START,
};
use crate::messages::{
    decode, hi_byte, le16, le16_bytes, lo_byte, read_le16s, size_probe, MessageModel,
    BULK_CAPACITANCE_ID,
};
use crate::parser::{completion, feed, fresh_state, run, Outcome, ParserState};

verus! {

/// Every outcome in `outs` is "nothing yet".
pub open spec fn quiet(outs: Seq<Outcome>) -> bool {
    forall|i: int| 0 <= i < outs.len() ==> outs[i] == Ok::<Option<MessageModel>, ParseError>(None)
}

/// Feeding `a` then `b` is feeding `a + b`.
pub proof fn lemma_run_append(st: ParserState, a: Seq<u8>, b: Seq<u8>)
    ensures
        run(st, a + b) == (run(run(st, a).0, b).0, run(st, a).1 + run(run(st, a).0, b).1),
    decreases b.len(),
{
    if b.len() == 0 {
        assert(a + b == a);
        assert(run(st, a).1 + run(run(st, a).0, b).1 == run(st, a).1);
    } else {
        lemma_run_append(st, a, b.drop_last());
        assert((a + b).drop_last() == a + b.drop_last());
        assert((a + b).last() == b.last());
        let mid = run(st, a).0;
        assert(run(st, a).1 + run(mid, b).1 == (run(st, a).1 + run(mid, b.drop_last()).1).push(
            feed(run(mid, b.drop_last()).0, b.last()).1,
        ));
    }
}

/// Feeding yields one outcome per byte.
pub proof fn lemma_run_len(st: ParserState, s: Seq<u8>)
    ensures
        run(st, s).1.len() == s.len(),
    decreases s.len(),
{
    if s.len() > 0 {
        lemma_run_len(st, s.drop_last());
    }
}

proof fn lemma_run_one(st: ParserState, x: u8)
    ensures
        run(st, seq![x]) == (feed(st, x).0, seq![feed(st, x).1]),
{
    assert(seq![x].drop_last() == Seq::<u8>::empty());
    assert(seq![x].last() == x);
    assert(run(st, Seq::<u8>::empty()) == (st, Seq::<Outcome>::empty()));
    assert(Seq::<Outcome>::empty().push(feed(st, x).1) == seq![feed(st, x).1]);
}

proof fn lemma_run_two(st: ParserState, x: u8, y: u8)
    ensures
        run(st, seq![x, y]) == (
            feed(feed(st, x).0, y).0,
            seq![feed(st, x).1, feed(feed(st, x).0, y).1],
        ),
{
    lemma_run_one(st, x);
    assert(seq![x, y].drop_last() == seq![x]);
    assert(seq![feed(st, x).1].push(feed(feed(st, x).0, y).1) == seq![
        feed(st, x).1,
        feed(feed(st, x).0, y).1,
    ]);
}

/// From a state with no escape pending, the wire form of one byte puts
/// that byte into the frame.
proof fn lemma_feed_escaped_byte(buf: Seq<u8>, c: u8)
    requires
        buf.len() < MAX_MESSAGE_SIZE,
    ensures
        ({
            let (end, outs) = run((false, buf), escape_byte(c));
            &&& outs.len() >= 1
            &&& quiet(outs.drop_last())
            &&& if frame_complete(buf.push(c)) {
                end == fresh_state() && outs.last() == completion(buf.push(c))
            } else {
                end == (false, buf.push(c)) && outs.last() == Ok::<
                    Option<MessageModel>,
                    ParseError,
                >(None)
            }
        }),
{
    if c == ESCAPE || c == FRAME_START {
        assert((c ^ ESCAPE_XOR) ^ ESCAPE_XOR == c) by (bit_vector);
        lemma_run_two((false, buf), ESCAPE, c ^ ESCAPE_XOR);
        let outs = run((false, buf), escape_byte(c)).1;
        assert(outs.drop_last() == seq![Ok::<Option<MessageModel>, ParseError>(None)]);
    } else {
        lemma_run_one((false, buf), c);
        let outs = run((false, buf), escape_byte(c)).1;
        assert(outs.drop_last() == Seq::<Outcome>::empty());
    }
}

/// From a state with no escape pending, the wire form of bytes that never
/// complete the frame appends them to it, silently.
proof fn lemma_feed_unescaped(buf: Seq<u8>, s: Seq<u8>)
    requires
        buf.len() + s.len() <= MAX_MESSAGE_SIZE,
        forall|k: int| 1 <= k <= s.len() ==> !frame_complete(buf + s.take(k)),
    ensures
        run((false, buf), escape_seq(s)).0 == (false, buf + s),
        quiet(run((false, buf), escape_seq(s)).1),
    decreases s.len(),
{
    if s.len() == 0 {
        assert(buf + s == buf);
    } else {
        let t = s.drop_last();
        assert forall|k: int| 1 <= k <= t.len() implies !frame_complete(buf + t.take(k)) by {
            assert(t.take(k) == s.take(k));
        }
        lemma_feed_unescaped(buf, t);
        lemma_escape_push(t, s.last());
        assert(t.push(s.last()) == s);
        lemma_run_append((false, buf), escape_seq(t), escape_byte(s.last()));
        assert((buf + t).push(s.last()) == buf + s);
        assert(s.take(s.len() as int) == s);
        lemma_feed_escaped_byte(buf + t, s.last());
        let o1 = run((false, buf), escape_seq(t)).1;
        let o2 = run((false, buf + t), escape_byte(s.last())).1;
        assert(o2 == o2.drop_last().push(o2.last()));
        assert forall|i: int| 0 <= i < (o1 + o2).len() implies (o1 + o2)[i] == Ok::<
            Option<MessageModel>,
            ParseError,
        >(None) by {
            if i >= o1.len() && i < (o1 + o2).len() - 1 {
                assert(o2.drop_last()[i - o1.len()] == o2[i - o1.len()]);
            }
        }
    }
}

/// No proper prefix of a whole frame is a whole frame: the size probe of a
/// prefix either cannot tell yet or tells the same length.
pub proof fn lemma_prefix_incomplete(raw: Seq<u8>, k: int)
    requires
        frame_complete(raw),
        1 <= k < raw.len(),
    ensures
        !frame_complete(raw.take(k)),
{
    let p = raw.take(k);
    if frame_complete(p) {
        assert(p[0] == raw[0]);
        if raw[0] == BULK_CAPACITANCE_ID {
            assert(frame_payload(p)[1] == frame_payload(raw)[1]);
        }
        assert(size_probe(p[0], frame_payload(p)) == size_probe(raw[0], frame_payload(raw)));
    }
}

/// From any state with no escape pending, a frame start and the wire form
/// of a whole frame yield nothing until the last byte, which yields what
/// the frame holds, and leave the parser fresh.
pub proof fn lemma_frame_run(st: ParserState, raw: Seq<u8>)
    requires
        !st.0,
        frame_complete(raw),
        raw.len() <= MAX_MESSAGE_SIZE,
    ensures
        ({
            let bytes = seq![FRAME_START] + escape_seq(raw);
            let (end, outs) = run(st, bytes);
            &&& end == fresh_state()
            &&& outs.len() == bytes.len()
            &&& quiet(outs.drop_last())
            &&& outs.last() == completion(raw)
        }),
{
    let t = raw.drop_last();
    let c = raw.last();
    assert(t.push(c) == raw);
    lemma_escape_push(t, c);
    let bytes = seq![FRAME_START] + escape_seq(raw);
    assert(bytes == (seq![FRAME_START] + escape_seq(t)) + escape_byte(c));
    lemma_run_append(st, seq![FRAME_START] + escape_seq(t), escape_byte(c));
    lemma_run_append(st, seq![FRAME_START], escape_seq(t));
    lemma_run_one(st, FRAME_START);
    assert forall|k: int| 1 <= k <= t.len() implies !frame_complete(
        Seq::<u8>::empty() + t.take(k),
    ) by {
        assert(Seq::<u8>::empty() + t.take(k) == raw.take(k));
        lemma_prefix_incomplete(raw, k);
    }
    lemma_feed_unescaped(Seq::empty(), t);
    assert(Seq::<u8>::empty() + t == t);
    lemma_feed_escaped_byte(t, c);
    lemma_run_len(st, bytes);
    let o0 = seq![Ok::<Option<MessageModel>, ParseError>(None)];
    let o1 = run(fresh_state(), escape_seq(t)).1;
    let o2 = run((false, t), escape_byte(c)).1;
    let outs = run(st, bytes).1;
    assert(outs == o0 + o1 + o2);
    assert(o2 == o2.drop_last().push(o2.last()));
    assert forall|i: int| 0 <= i < outs.len() - 1 implies outs[i] == Ok::<
        Option<MessageModel>,
        ParseError,
    >(None) by {
        if i >= o0.len() + o1.len() {
            assert(o2.drop_last()[i - o0.len() - o1.len()] == o2[i - o0.len() - o1.len()]);
        }
    }
}

/// What a decoding yields as a parser outcome.
pub open spec fn decoded_outcome(r: Result<MessageModel, ParseError>) -> Outcome {
    match r {
        Ok(m) => Ok(Some(m)),
        Err(e) => Err(e),
    }
}

/// The unescaped bytes of the frame that carries `m`.
pub open spec fn message_raw(m: MessageModel) -> Seq<u8> {
    frame_raw(m.id(), m.payload())
}

/// The bytes that carry `m` on the wire.
pub open spec fn message_frame(m: MessageModel) -> Seq<u8> {
    encode_frame(m.id(), m.payload())
}

/// A frame that its own encoder built passes the checksum test, so what it
/// yields is the decoding of its payload.
pub proof fn lemma_encoded_completion(id: u8, payload: Seq<u8>)
    ensures
        completion(frame_raw(id, payload)) == decoded_outcome(decode(id, payload)),
{
    let body = seq![id] + payload;
    let raw = frame_raw(id, payload);
    let (a, b) = checksum_of(body);
    assert(raw == body + seq![a, b]);
    assert(frame_body(raw) == body);
    assert(frame_payload(raw) == payload);
    assert(frame_trailer(raw) == (a, b));
}

/// A 16-bit value read back from its two bytes.
pub proof fn lemma_le16_bytes(x: u16)
    ensures
        le16(lo_byte(x), hi_byte(x)) == x,
{
    assert(x == (x % 256) + (x / 256) * 256);
}

/// A message decodes from its own payload.
pub proof fn lemma_decode_payload(m: MessageModel)
    requires
        m.fits_frame(),
    ensures
        decode(m.id(), m.payload()) == Ok::<MessageModel, ParseError>(m),
{
    match m {
        MessageModel::ElectrodeEnable { values } => {},
        MessageModel::BulkCapacitance { start_index, values } => {
            let p = m.payload();
            let n = values.len();
            assert(p[1] == n);
            assert forall|i: int| 0 <= i < n implies read_le16s(p, 2, n)[i] == values[i] by {
                assert(p[2 + 2 * i] == le16_bytes(values)[2 * i]);
                assert(p[2 + 2 * i + 1] == le16_bytes(values)[2 * i + 1]);
                assert((2 * i) % 2 == 0 && (2 * i) / 2 == i);
                assert((2 * i + 1) % 2 == 1 && (2 * i + 1) / 2 == i);
                lemma_le16_bytes(values[i]);
            }
            assert(read_le16s(p, 2, n) =~= values);
        },
        MessageModel::ActiveCapacitance { baseline, measurement } => {
            lemma_le16_bytes(baseline);
            lemma_le16_bytes(measurement);
        },
        MessageModel::CommandAck { acked_id } => {},
        MessageModel::MoveStepper { steps, period } => {
            lemma_le16_bytes(steps as u16);
            lemma_le16_bytes(period);
            assert((steps as u16) as i16 == steps) by (bit_vector);
        },
    }
}

/// The frame that carries a message is whole exactly at its last byte, and
/// fits the receive buffer.
pub proof fn lemma_message_frame_complete(m: MessageModel)
    requires
        m.fits_frame(),
    ensures
        frame_complete(message_raw(m)),
        message_raw(m).len() <= MAX_MESSAGE_SIZE,
{
    let raw = message_raw(m);
    let body = seq![m.id()] + m.payload();
    assert(raw.len() == m.payload().len() + 3);
    assert(raw[0] == m.id());
    assert(frame_payload(raw) == m.payload());
    if let MessageModel::BulkCapacitance { start_index, values } = m {
        assert(m.payload()[1] == values.len());
    }
}

/// Round trip: from any state with no escape pending, feeding the bytes
/// that carry a message yields nothing until the last byte, which yields
/// that very message, and leaves the parser fresh.
pub proof fn lemma_round_trip(m: MessageModel, st: ParserState)
    requires
        m.fits_frame(),
        !st.0,
    ensures
        ({
            let (end, outs) = run(st, message_frame(m));
            &&& end == fresh_state()
            &&& outs.len() == message_frame(m).len()
            &&& quiet(outs.drop_last())
            &&& outs.last() == Ok::<Option<MessageModel>, ParseError>(Some(m))
        }),
{
    lemma_message_frame_complete(m);
    lemma_frame_run(st, message_raw(m));
    lemma_encoded_completion(m.id(), m.payload());
    lemma_decode_payload(m);
}

/// Escaping: whatever the id, payload and checksum bytes are, reserved
/// values included, feeding an encoded frame that the size probe finds
/// whole at its last byte yields the decoding of the original payload.
pub proof fn lemma_escaping_round_trip(id: u8, payload: Seq<u8>, st: ParserState)
    requires
        frame_complete(frame_raw(id, payload)),
        payload.len() + 3 <= MAX_MESSAGE_SIZE,
        !st.0,
    ensures
        ({
            let (end, outs) = run(st, encode_frame(id, payload));
            &&& end == fresh_state()
            &&& outs.len() == encode_frame(id, payload).len()
            &&& quiet(outs.drop_last())
            &&& outs.last() == decoded_outcome(decode(id, payload))
        }),
{
    lemma_frame_run(st, frame_raw(id, payload));
    lemma_encoded_completion(id, payload);
}

/// Feeding the wire form of any bytes from a state with no escape pending
/// leaves no escape pending.
pub proof fn lemma_escaped_ends_unescaped(st: ParserState, s: Seq<u8>)
    requires
        !st.0,
    ensures
        !run(st, escape_seq(s)).0.0,
    decreases s.len(),
{
    if s.len() > 0 {
        let t = s.drop_last();
        let c = s.last();
        lemma_escaped_ends_unescaped(st, t);
        lemma_escape_push(t, c);
        assert(t.push(c) == s);
        lemma_run_append(st, escape_seq(t), escape_byte(c));
        let mid = run(st, escape_seq(t)).0;
        if c == ESCAPE || c == FRAME_START {
            lemma_run_two(mid, ESCAPE, c ^ ESCAPE_XOR);
        } else {
            lemma_run_one(mid, c);
        }
    }
}

/// Resynchronization: a frame start injected into a frame after any of its
/// bytes (never between an escape marker and the byte it escapes) drops
/// the partial frame; whatever the rest of that frame yields, the next
/// well-formed frame is still received.
pub proof fn lemma_resync(m1: MessageModel, m2: MessageModel, j: int, st: ParserState)
    requires
        m1.fits_frame(),
        m2.fits_frame(),
        0 <= j <= message_raw(m1).len(),
        !st.0,
    ensures
        ({
            let raw = message_raw(m1);
            let partial = seq![FRAME_START] + escape_seq(raw.take(j));
            let rest = escape_seq(raw.skip(j)) + message_frame(m2);
            let (mid, _) = run(st, partial + seq![FRAME_START]);
            let (end, outs) = run(mid, rest);
            &&& mid == fresh_state()
            &&& end == fresh_state()
            &&& outs.last() == Ok::<Option<MessageModel>, ParseError>(Some(m2))
        }),
{
    let raw = message_raw(m1);
    let partial = seq![FRAME_START] + escape_seq(raw.take(j));
    lemma_run_append(st, seq![FRAME_START], escape_seq(raw.take(j)));
    lemma_run_one(st, FRAME_START);
    lemma_escaped_ends_unescaped(fresh_state(), raw.take(j));
    lemma_run_append(st, partial, seq![FRAME_START]);
    let p = run(st, partial).0;
    lemma_run_one(p, FRAME_START);
    lemma_run_append(fresh_state(), escape_seq(raw.skip(j)), message_frame(m2));
    lemma_escaped_ends_unescaped(fresh_state(), raw.skip(j));
    let q = run(fresh_state(), escape_seq(raw.skip(j))).0;
    lemma_round_trip(m2, q);
    let o2 = run(q, message_frame(m2)).1;
    assert(o2.len() > 0);
    let o1 = run(fresh_state(), escape_seq(raw.skip(j))).1;
    assert((o1 + o2).last() == o2.last());
}

/// Feeding a byte never takes the frame past the buffer's capacity.
pub proof fn lemma_feed_bounded(st: ParserState, byte: u8)
    requires
        st.1.len() <= MAX_MESSAGE_SIZE,
    ensures
        feed(st, byte).0.1.len() <= MAX_MESSAGE_SIZE,
{
}

/// Overflow: data bytes that never complete a frame fill the buffer, the
/// one after that drops the frame with no message and no error, and a
/// frame sent next is received.
pub proof fn lemma_overflow_recovers(s: Seq<u8>, m: MessageModel)
    requires
        s.len() == MAX_MESSAGE_SIZE + 1,
        forall|i: int| 0 <= i < s.len() ==> s[i] != ESCAPE && s[i] != FRAME_START,
        forall|k: int| 1 <= k <= MAX_MESSAGE_SIZE ==> !frame_complete(#[trigger] s.take(k)),
        m.fits_frame(),
    ensures
        run(fresh_state(), s).0 == fresh_state(),
        quiet(run(fresh_state(), s).1),
        run(fresh_state(), s + message_frame(m)).1.last() == Ok::<Option<MessageModel>, ParseError>(
            Some(m),
        ),
{
    let t = s.drop_last();
    lemma_plain_escape(t);
    assert forall|k: int| 1 <= k <= t.len() implies !frame_complete(
        Seq::<u8>::empty() + t.take(k),
    ) by {
        assert(Seq::<u8>::empty() + t.take(k) == s.take(k));
    }
    lemma_feed_unescaped(Seq::empty(), t);
    assert(Seq::<u8>::empty() + t == t);
    assert(s == t.push(s.last()));
    let o1 = run(fresh_state(), t).1;
    lemma_run_len(fresh_state(), t);
    assert(run(fresh_state(), s).1 == o1.push(Ok::<Option<MessageModel>, ParseError>(None)));
    lemma_run_append(fresh_state(), s, message_frame(m));
    lemma_round_trip(m, fresh_state());
    let o2 = run(fresh_state(), message_frame(m)).1;
    assert((run(fresh_state(), s).1 + o2).last() == o2.last());
}

/// Bytes with no reserved value stand on the wire as they are.
proof fn lemma_plain_escape(s: Seq<u8>)
    requires
        forall|i: int| 0 <= i < s.len() ==> s[i] != ESCAPE && s[i] != FRAME_START,
    ensures
        escape_seq(s) == s,
    decreases s.len(),
{
    if s.len() > 0 {
        lemma_plain_escape(s.drop_last());
        assert(s.drop_last().push(s.last()) == s);
    }
}

/// The plain sum of the bytes of `s`.
pub open spec fn byte_sum(s: Seq<u8>) -> int
    decreases s.len(),
{
    if s.len() == 0 {
        0
    } else {
        byte_sum(s.drop_last()) + s.last()
    }
}

/// The first half of the checksum is the sum of the bytes modulo 256.
proof fn lemma_checksum_first(s: Seq<u8>)
    ensures
        checksum_of(s).0 == byte_sum(s) % 256,
    decreases s.len(),
{
    if s.len() > 0 {
        lemma_checksum_first(s.drop_last());
        let x = byte_sum(s.drop_last());
        let y = s.last() as int;
        vstd::arithmetic::div_mod::lemma_add_mod_noop(x, y, 256);
        vstd::arithmetic::div_mod::lemma_small_mod(y as nat, 256);
        vstd::arithmetic::div_mod::lemma_mod_twice(x, 256);
    }
}

/// Changing one byte changes the sum by the difference.
proof fn lemma_sum_update(s: Seq<u8>, j: int, v: u8)
    requires
        0 <= j < s.len(),
    ensures
        byte_sum(s.update(j, v)) == byte_sum(s) - s[j] + v,
    decreases s.len(),
{
    let u = s.update(j, v);
    if j == s.len() - 1 {
        assert(u.drop_last() == s.drop_last());
    } else {
        lemma_sum_update(s.drop_last(), j, v);
        assert(u.drop_last() == s.drop_last().update(j, v));
    }
}

/// Two values that differ by less than the modulus, and do differ, have
/// different remainders.
proof fn lemma_mod_differs(a: int, d: int)
    requires
        0 < d < 256 || -256 < d < 0,
    ensures
        (a + d) % 256 != a % 256,
{
    vstd::arithmetic::div_mod::lemma_fundamental_div_mod(a, 256);
    vstd::arithmetic::div_mod::lemma_fundamental_div_mod(a + d, 256);
    let q1 = a / 256;
    let q2 = (a + d) / 256;
    if (a + d) % 256 == a % 256 {
        assert(d == 256 * (q2 - q1));
        if q2 - q1 >= 1 {
            assert(256 * (q2 - q1) >= 256) by (nonlinear_arith)
                requires
                    q2 - q1 >= 1,
            ;
        } else if q2 - q1 <= -1 {
            assert(256 * (q2 - q1) <= -256) by (nonlinear_arith)
                requires
                    q2 - q1 <= -1,
            ;
        }
    }
}

/// Checksum sensitivity: with one bit of one payload byte flipped before
/// the frame is stuffed for the wire (not the count byte of a bulk
/// reading, which sets the frame's length), the frame yields a checksum
/// error whose two checksums differ, and the parser, fresh again,
/// receives the next frame.
pub proof fn lemma_bit_flip_detected(
    m: MessageModel,
    i: int,
    bit: u8,
    next: MessageModel,
    st: ParserState,
)
    requires
        m.fits_frame(),
        next.fits_frame(),
        !st.0,
        0 <= i < m.payload().len(),
        bit < 8,
        !(m.id() == BULK_CAPACITANCE_ID && i == 1),
    ensures
        ({
            let raw = message_raw(m);
            let flipped = raw.update(i + 1, raw[i + 1] ^ (1u8 << bit));
            let (end, outs) = run(st, seq![FRAME_START] + escape_seq(flipped));
            &&& end == fresh_state()
            &&& quiet(outs.drop_last())
            &&& outs.last() matches Err(ParseError::ChecksumError(found, expected)) && found
                != expected
            &&& run(end, message_frame(next)).1.last() == Ok::<Option<MessageModel>, ParseError>(
                Some(next),
            )
        }),
{
    let raw = message_raw(m);
    let x = raw[i + 1];
    let y = x ^ (1u8 << bit);
    assert(y != x) by (bit_vector)
        requires
            y == x ^ (1u8 << bit),
            bit < 8,
    ;
    let flipped = raw.update(i + 1, y);
    lemma_message_frame_complete(m);
    assert(flipped[0] == raw[0]);
    if raw[0] == BULK_CAPACITANCE_ID {
        assert(frame_payload(flipped)[1] == frame_payload(raw)[1]);
    }
    assert(size_probe(flipped[0], frame_payload(flipped)) == size_probe(
        raw[0],
        frame_payload(raw),
    ));
    lemma_frame_run(st, flipped);
    let body = seq![m.id()] + m.payload();
    assert(frame_body(raw) == body);
    assert(frame_body(flipped) == body.update(i + 1, y));
    assert(frame_trailer(flipped) == frame_trailer(raw));
    lemma_encoded_completion(m.id(), m.payload());
    assert(frame_trailer(raw) == checksum_of(body));
    lemma_checksum_first(body);
    lemma_checksum_first(body.update(i + 1, y));
    lemma_sum_update(body, i + 1, y);
    lemma_mod_differs(byte_sum(body), y - x);
    let (fa, fb) = frame_trailer(flipped);
    let (ea, eb) = checksum_of(frame_body(flipped));
    assert(fa != ea);
    assert(le16(fa, fb) != le16(ea, eb)) by {
        assert(le16(fa, fb) == fa + fb * 256);
        assert(le16(ea, eb) == ea + eb * 256);
        lemma_mod_differs(fa + fb * 256, ea - fa);
        vstd::arithmetic::div_mod::lemma_mod_multiples_vanish(fb as int, fa as int, 256);
        vstd::arithmetic::div_mod::lemma_mod_multiples_vanish(eb as int, ea as int, 256);
        vstd::arithmetic::div_mod::lemma_small_mod(fa as nat, 256);
        vstd::arithmetic::div_mod::lemma_small_mod(ea as nat, 256);
    }
    lemma_round_trip(next, fresh_state());
}

} // verus!
