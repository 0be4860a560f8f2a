use vstd::prelude::*;

use crate::buffer::{
    frame_body, frame_complete, frame_payload, frame_trailer, WorkingBuffer, MAX_MESSAGE_SIZE,
};
use crate::checksum::checksum_of;
use crate::error::ParseError;
use crate::framing::{ESCAPE, ESCAPE_XOR, FRAME_START};
use crate::messages::{decode, le16, Message, MessageModel};

verus! {

/// The state of a parser: whether an escaped byte is pending, and the raw
/// bytes of the frame received so far.
pub type ParserState = (bool, Seq<u8>);

/// What one byte fed to a parser yields: nothing, a message, or an error.
pub type Outcome = Result<Option<MessageModel>, ParseError>;

/// The state of a new parser, and of one after a reset.
pub open spec fn fresh_state() -> ParserState {
    (false, Seq::empty())
}

/// What a whole frame yields: its decoded message when the trailer matches
/// the checksum of its id and payload, else a checksum error with both
/// checksums packed low byte first.
pub open spec fn completion(s: Seq<u8>) -> Outcome {
    let (fa, fb) = frame_trailer(s);
    let (ea, eb) = checksum_of(frame_body(s));
    if fa == ea && fb == eb {
        match decode(s[0], frame_payload(s)) {
            Ok(m) => Ok(Some(m)),
            Err(e) => Err(e),
        }
    } else {
        Err(ParseError::ChecksumError(le16(fa, fb), le16(ea, eb)))
    }
}

/// One step of the parser on one input byte: the next state and what the
/// byte yields.
pub open spec fn feed(st: ParserState, byte: u8) -> (ParserState, Outcome) {
    let (escaping, buf) = st;
    if !escaping && byte == ESCAPE {
        ((true, buf), Ok(None))
    } else if !escaping && byte == FRAME_START {
        (fresh_state(), Ok(None))
    } else {
        let c = if escaping {
            byte ^ ESCAPE_XOR
        } else {
            byte
        };
        if buf.len() >= MAX_MESSAGE_SIZE {
            (fresh_state(), Ok(None))
        } else if !frame_complete(buf.push(c)) {
            ((false, buf.push(c)), Ok(None))
        } else {
            (fresh_state(), completion(buf.push(c)))
        }
    }
}

/// The parser fed `bytes` one by one from `st`: the final state and what
/// each byte yielded, in order.
pub open spec fn run(st: ParserState, bytes: Seq<u8>) -> (ParserState, Seq<Outcome>)
    decreases bytes.len(),
{
    if bytes.len() == 0 {
        (st, Seq::empty())
    } else {
        let (mid, outs) = run(st, bytes.drop_last());
        let (last, o) = feed(mid, bytes.last());
        (last, outs.push(o))
    }
}

/// An outcome of the parser, with the message taken to its model.
pub open spec fn outcome_model(r: Result<Option<Message>, ParseError>) -> Outcome {
    match r {
        Ok(Some(m)) => Ok(Some(m@)),
        Ok(None) => Ok(None),
        Err(e) => Err(e),
    }
}

/// Incremental parser of the byte stream of one link.
pub struct Parser {
    escaping: bool,
    buffer: WorkingBuffer,
}

impl View for Parser {
    type V = ParserState;

    closed spec fn view(&self) -> ParserState {
        (self.escaping, self.buffer@)
    }
}

impl Parser {
    /// A parser with no frame in progress.
    pub fn new() -> (r: Parser)
        ensures
            r@ == fresh_state(),
    {
        Parser { buffer: WorkingBuffer::new(), escaping: false }
    }

    /// Drops the frame in progress and any pending escape.
    pub fn reset(&mut self)
        ensures
            final(self)@ == fresh_state(),
    {
        self.escaping = false;
        self.buffer.reset();
    }

    /// Consumes one byte of the stream.
    pub fn parse(&mut self, byte: u8) -> (r: Result<Option<Message>, ParseError>)
        ensures
            (final(self)@, outcome_model(r)) == feed(old(self)@, byte),
    {
        let mut byte = byte;
        if self.escaping {
            byte = byte ^ ESCAPE_XOR;
            self.escaping = false;
        } else if byte == ESCAPE {
            self.escaping = true;
            return Ok(None);
        } else if byte == FRAME_START {
            self.reset();
            return Ok(None);
        }
        match self.buffer.push(byte) {
            Ok(()) => {},
            Err(_) => {
                self.reset();
                return Ok(None);
            },
        }
        if !self.buffer.is_complete() {
            return Ok(None);
        }
        let (found_a, found_b) = self.buffer.checksum();
        let (exp_a, exp_b) = self.buffer.calc_checksum();
        if found_a == exp_a && found_b == exp_b {
            let msg_id = self.buffer.msg_id().unwrap();
            let result = Message::from_payload(msg_id, self.buffer.payload());
            self.reset();
            match result {
                Ok(m) => Ok(Some(m)),
                Err(e) => Err(e),
            }
        } else {
            let found = found_a as u16 + found_b as u16 * 256;
            let exp = exp_a as u16 + exp_b as u16 * 256;
            self.reset();
            Err(ParseError::ChecksumError(found, exp))
        }
    }
}

} // verus!
