use vstd::prelude::*;
use vstd::slice::slice_to_vec;

use crate::error::ParseError;

verus! {

pub const ELECTRODE_ENABLE_ID: u8 = 0;
pub const DRIVE_ENABLE_ID: u8 = 1;
pub const BULK_CAPACITANCE_ID: u8 = 2;
pub const ACTIVE_CAPACITANCE_ID: u8 = 3;
pub const COMMAND_ACK_ID: u8 = 4;
pub const MOVE_STEPPER_ID: u8 = 5;

/// The 16-bit value whose little-endian bytes are `lo`, `hi`.
pub open spec fn le16(lo: u8, hi: u8) -> u16 {
    (lo + hi * 256) as u16
}

/// Low byte of `x`.
pub open spec fn lo_byte(x: u16) -> u8 {
    (x % 256) as u8
}

/// High byte of `x`.
pub open spec fn hi_byte(x: u16) -> u8 {
    (x / 256) as u8
}

/// The little-endian bytes of each of `values`, in order.
pub open spec fn le16_bytes(values: Seq<u16>) -> Seq<u8> {
    Seq::new(
        2 * values.len(),
        |i: int|
            if i % 2 == 0 {
                lo_byte(values[i / 2])
            } else {
                hi_byte(values[i / 2])
            },
    )
}

/// The values read as little-endian pairs from `count` pairs of `data`
/// starting at `offset`.
pub open spec fn read_le16s(data: Seq<u8>, offset: int, count: nat) -> Seq<u16> {
    Seq::new(count, |i: int| le16(data[offset + 2 * i], data[offset + 2 * i + 1]))
}

/// What a message holds, as mathematical values.
pub enum MessageModel {
    ElectrodeEnable { values: Seq<u8> },
    BulkCapacitance { start_index: u8, values: Seq<u16> },
    ActiveCapacitance { baseline: u16, measurement: u16 },
    CommandAck { acked_id: u8 },
    MoveStepper { steps: i16, period: u16 },
}

impl MessageModel {
    /// The wire id of the message's kind.
    pub open spec fn id(self) -> u8 {
        match self {
            MessageModel::ElectrodeEnable { .. } => ELECTRODE_ENABLE_ID,
            MessageModel::BulkCapacitance { .. } => BULK_CAPACITANCE_ID,
            MessageModel::ActiveCapacitance { .. } => ACTIVE_CAPACITANCE_ID,
            MessageModel::CommandAck { .. } => COMMAND_ACK_ID,
            MessageModel::MoveStepper { .. } => MOVE_STEPPER_ID,
        }
    }

    /// The payload bytes of the message: its fields in declared order,
    /// integers little-endian, no padding.
    pub open spec fn payload(self) -> Seq<u8> {
        match self {
            MessageModel::ElectrodeEnable { values } => values,
            MessageModel::BulkCapacitance { start_index, values } => seq![
                start_index,
                (values.len() % 256) as u8,
            ] + le16_bytes(values),
            MessageModel::ActiveCapacitance { baseline, measurement } => seq![
                lo_byte(baseline),
                hi_byte(baseline),
                lo_byte(measurement),
                hi_byte(measurement),
            ],
            MessageModel::CommandAck { acked_id } => seq![acked_id],
            MessageModel::MoveStepper { steps, period } => seq![
                lo_byte(steps as u16),
                hi_byte(steps as u16),
                lo_byte(period),
                hi_byte(period),
            ],
        }
    }

    /// The message is one that a frame can carry: an electrode mask of
    /// 16 bytes, and a reading count that fits its one-byte field and the
    /// receive buffer.
    pub open spec fn fits_frame(self) -> bool {
        match self {
            MessageModel::ElectrodeEnable { values } => values.len() == 16,
            MessageModel::BulkCapacitance { values, .. } => values.len() <= 61,
            _ => true,
        }
    }
}

/// Payload length that a frame with this id and these first payload bytes
/// will have, or `None` while that cannot be told yet.
pub open spec fn size_probe(id: u8, data: Seq<u8>) -> Option<usize> {
    if id == ELECTRODE_ENABLE_ID {
        Some(16)
    } else if id == BULK_CAPACITANCE_ID {
        if data.len() < 2 {
            None
        } else {
            Some((2 * data[1] + 2) as usize)
        }
    } else if id == ACTIVE_CAPACITANCE_ID {
        Some(4)
    } else if id == COMMAND_ACK_ID {
        Some(1)
    } else if id == MOVE_STEPPER_ID {
        Some(4)
    } else {
        Some(0)
    }
}

/// The message that a payload under this id decodes to.
pub open spec fn decode(id: u8, data: Seq<u8>) -> Result<MessageModel, ParseError> {
    if id == ELECTRODE_ENABLE_ID {
        if data.len() == 16 {
            Ok(MessageModel::ElectrodeEnable { values: data })
        } else {
            Err(ParseError::DeserializationError)
        }
    } else if id == BULK_CAPACITANCE_ID {
        if data.len() >= 2 && data.len() >= 2 + 2 * data[1] {
            Ok(
                MessageModel::BulkCapacitance {
                    start_index: data[0],
                    values: read_le16s(data, 2, data[1] as nat),
                },
            )
        } else {
            Err(ParseError::DeserializationError)
        }
    } else if id == ACTIVE_CAPACITANCE_ID {
        if data.len() >= 4 {
            Ok(
                MessageModel::ActiveCapacitance {
                    baseline: le16(data[0], data[1]),
                    measurement: le16(data[2], data[3]),
                },
            )
        } else {
            Err(ParseError::DeserializationError)
        }
    } else if id == COMMAND_ACK_ID {
        if data.len() >= 1 {
            Ok(MessageModel::CommandAck { acked_id: data[0] })
        } else {
            Err(ParseError::DeserializationError)
        }
    } else if id == MOVE_STEPPER_ID {
        if data.len() >= 4 {
            Ok(
                MessageModel::MoveStepper {
                    steps: le16(data[0], data[1]) as i16,
                    period: le16(data[2], data[3]),
                },
            )
        } else {
            Err(ParseError::DeserializationError)
        }
    } else {
        Err(ParseError::UnknownPacketId(id))
    }
}

fn read_le16(data: &[u8], i: usize) -> (r: u16)
    requires
        i + 1 < data@.len(),
    ensures
        r == le16(data@[i as int], data@[i + 1]),
{
    data[i] as u16 + (data[i + 1] as u16) * 256
}

fn push_le16(buf: &mut Vec<u8>, x: u16)
    ensures
        final(buf)@ == old(buf)@ + seq![lo_byte(x), hi_byte(x)],
{
    buf.push((x % 256) as u8);
    buf.push((x / 256) as u8);
}

/// A message of any kind in the catalog.
#[derive(Clone, Debug, PartialEq, Eq)]
pub enum Message {
    ElectrodeEnableMsg(ElectrodeEnableStruct),
    BulkCapacitanceMsg(BulkCapacitanceStruct),
    ActiveCapacitanceMsg(ActiveCapacitanceStruct),
    CommandAckMsg(CommandAckStruct),
    MoveStepperMsg(MoveStepperStruct),
}

impl View for Message {
    type V = MessageModel;

    open spec fn view(&self) -> MessageModel {
        match self {
            Message::ElectrodeEnableMsg(m) => m@,
            Message::BulkCapacitanceMsg(m) => m@,
            Message::ActiveCapacitanceMsg(m) => m@,
            Message::CommandAckMsg(m) => m@,
            Message::MoveStepperMsg(m) => m@,
        }
    }
}

/// A decoding outcome, with the message taken to its model.
pub open spec fn decoded_model(r: Result<Message, ParseError>) -> Result<MessageModel, ParseError> {
    match r {
        Ok(m) => Ok(m@),
        Err(e) => Err(e),
    }
}

impl Message {
    /// The payload length implied by the id and the payload bytes received
    /// so far, or `None` while more are needed to tell. An id outside the
    /// catalog implies an empty payload.
    pub fn message_size(id: u8, data: &[u8]) -> (r: Option<usize>)
        ensures
            r == size_probe(id, data@),
    {
        if id == ELECTRODE_ENABLE_ID {
            ElectrodeEnableStruct::message_size(data)
        } else if id == BULK_CAPACITANCE_ID {
            BulkCapacitanceStruct::message_size(data)
        } else if id == ACTIVE_CAPACITANCE_ID {
            ActiveCapacitanceStruct::message_size(data)
        } else if id == COMMAND_ACK_ID {
            CommandAckStruct::message_size(data)
        } else if id == MOVE_STEPPER_ID {
            MoveStepperStruct::message_size(data)
        } else {
            Some(0)
        }
    }

    /// Decodes the payload of a frame with this id.
    pub fn from_payload(id: u8, data: &[u8]) -> (r: Result<Message, ParseError>)
        ensures
            decoded_model(r) == decode(id, data@),
    {
        if id == ELECTRODE_ENABLE_ID {
            match ElectrodeEnableStruct::from_bytes(data) {
                Ok(m) => Ok(Message::ElectrodeEnableMsg(m)),
                Err(e) => Err(e),
            }
        } else if id == BULK_CAPACITANCE_ID {
            match BulkCapacitanceStruct::from_bytes(data) {
                Ok(m) => Ok(Message::BulkCapacitanceMsg(m)),
                Err(e) => Err(e),
            }
        } else if id == ACTIVE_CAPACITANCE_ID {
            match ActiveCapacitanceStruct::from_bytes(data) {
                Ok(m) => Ok(Message::ActiveCapacitanceMsg(m)),
                Err(e) => Err(e),
            }
        } else if id == COMMAND_ACK_ID {
            match CommandAckStruct::from_bytes(data) {
                Ok(m) => Ok(Message::CommandAckMsg(m)),
                Err(e) => Err(e),
            }
        } else if id == MOVE_STEPPER_ID {
            match MoveStepperStruct::from_bytes(data) {
                Ok(m) => Ok(Message::MoveStepperMsg(m)),
                Err(e) => Err(e),
            }
        } else {
            Err(ParseError::UnknownPacketId(id))
        }
    }

    /// The wire id of the message.
    pub fn id(&self) -> (r: u8)
        ensures
            r == self@.id(),
    {
        match self {
            Message::ElectrodeEnableMsg(m) => m.id(),
            Message::BulkCapacitanceMsg(m) => m.id(),
            Message::ActiveCapacitanceMsg(m) => m.id(),
            Message::CommandAckMsg(m) => m.id(),
            Message::MoveStepperMsg(m) => m.id(),
        }
    }

    /// The payload bytes of the message.
    pub fn payload(&self) -> (r: Vec<u8>)
        ensures
            r@ == self@.payload(),
    {
        match self {
            Message::ElectrodeEnableMsg(m) => m.payload(),
            Message::BulkCapacitanceMsg(m) => m.payload(),
            Message::ActiveCapacitanceMsg(m) => m.payload(),
            Message::CommandAckMsg(m) => m.payload(),
            Message::MoveStepperMsg(m) => m.payload(),
        }
    }
}

/// Operations shared by every message kind of the catalog.
pub trait MessageStruct: View<V = MessageModel> + Sized {
    /// The wire id of this kind.
    spec fn kind_id() -> u8;

    /// The wire id of the message.
    fn id(&self) -> (r: u8)
        ensures
            r == Self::kind_id(),
            r == self@.id(),
    ;

    /// The payload bytes of the message.
    fn payload(&self) -> (r: Vec<u8>)
        ensures
            r@ == self@.payload(),
    ;

    /// The payload length implied by the payload bytes received so far,
    /// or `None` while more are needed to tell.
    fn message_size(data: &[u8]) -> (r: Option<usize>)
        ensures
            r == size_probe(Self::kind_id(), data@),
    ;
}

/// Acknowledges the command with id `acked_id`.
#[derive(Clone, Debug, PartialEq, Eq, Structural)]
pub struct CommandAckStruct {
    pub acked_id: u8,
}

impl View for CommandAckStruct {
    type V = MessageModel;

    open spec fn view(&self) -> MessageModel {
        MessageModel::CommandAck { acked_id: self.acked_id }
    }
}

impl MessageStruct for CommandAckStruct {
    open spec fn kind_id() -> u8 {
        COMMAND_ACK_ID
    }

    fn id(&self) -> (r: u8) {
        COMMAND_ACK_ID
    }

    fn payload(&self) -> (r: Vec<u8>) {
        let mut buf = Vec::new();
        buf.push(self.acked_id);
        buf
    }

    fn message_size(data: &[u8]) -> (r: Option<usize>) {
        Some(1)
    }
}

impl CommandAckStruct {
    /// Reads the message from its payload bytes.
    pub fn from_bytes(data: &[u8]) -> (r: Result<CommandAckStruct, ParseError>)
        ensures
            r matches Ok(m) ==> decode(COMMAND_ACK_ID, data@) == Ok::<MessageModel, ParseError>(m@),
            r matches Err(e) ==> decode(COMMAND_ACK_ID, data@) == Err::<MessageModel, ParseError>(e),
    {
        if data.len() < 1 {
            return Err(ParseError::DeserializationError);
        }
        Ok(CommandAckStruct { acked_id: data[0] })
    }
}

/// Electrode enable bitmask: one bit per electrode, 16 bytes.
#[derive(Clone, Debug, PartialEq, Eq)]
pub struct ElectrodeEnableStruct {
    pub values: [u8; 16],
}

impl View for ElectrodeEnableStruct {
    type V = MessageModel;

    open spec fn view(&self) -> MessageModel {
        MessageModel::ElectrodeEnable { values: self.values@ }
    }
}

impl MessageStruct for ElectrodeEnableStruct {
    open spec fn kind_id() -> u8 {
        ELECTRODE_ENABLE_ID
    }

    fn id(&self) -> (r: u8) {
        ELECTRODE_ENABLE_ID
    }

    fn payload(&self) -> (r: Vec<u8>) {
        slice_to_vec(self.values.as_slice())
    }

    fn message_size(data: &[u8]) -> (r: Option<usize>) {
        Some(16)
    }
}

impl ElectrodeEnableStruct {
    /// Reads the message from its payload bytes, which must be exactly 16.
    pub fn from_bytes(data: &[u8]) -> (r: Result<ElectrodeEnableStruct, ParseError>)
        ensures
            r matches Ok(m) ==> decode(ELECTRODE_ENABLE_ID, data@) == Ok::<MessageModel, ParseError>(m@),
            r matches Err(e) ==> decode(ELECTRODE_ENABLE_ID, data@) == Err::<MessageModel, ParseError>(e),
    {
        if data.len() != 16 {
            return Err(ParseError::DeserializationError);
        }
        let mut values = [0u8; 16];
        let mut i: usize = 0;
        while i < 16
            invariant
                data@.len() == 16,
                values@.len() == 16,
                0 <= i <= 16,
                forall|j: int| 0 <= j < i ==> values@[j] == data@[j],
            decreases 16 - i,
        {
            values[i] = data[i];
            i += 1;
        }
        assert(values@ == data@);
        Ok(ElectrodeEnableStruct { values })
    }
}

/// A run of capacitance readings for consecutive electrodes from
/// `start_index` on.
#[derive(Clone, Debug, PartialEq, Eq)]
pub struct BulkCapacitanceStruct {
    pub start_index: u8,
    pub values: Vec<u16>,
}

impl View for BulkCapacitanceStruct {
    type V = MessageModel;

    open spec fn view(&self) -> MessageModel {
        MessageModel::BulkCapacitance { start_index: self.start_index, values: self.values@ }
    }
}

impl MessageStruct for BulkCapacitanceStruct {
    open spec fn kind_id() -> u8 {
        BULK_CAPACITANCE_ID
    }

    fn id(&self) -> (r: u8) {
        BULK_CAPACITANCE_ID
    }

    fn payload(&self) -> (r: Vec<u8>) {
        let mut buf: Vec<u8> = Vec::new();
        buf.push(self.start_index);
        buf.push((self.values.len() % 256) as u8);
        let mut i: usize = 0;
        while i < self.values.len()
            invariant
                0 <= i <= self.values@.len(),
                buf@ == seq![self.start_index, (self.values@.len() % 256) as u8] + le16_bytes(
                    self.values@.take(i as int),
                ),
            decreases self.values@.len() - i,
        {
            push_le16(&mut buf, self.values[i]);
            i += 1;
            assert(le16_bytes(self.values@.take(i as int)) =~= le16_bytes(
                self.values@.take(i - 1),
            ) + seq![lo_byte(self.values@[i - 1]), hi_byte(self.values@[i - 1])]);
        }
        assert(self.values@.take(i as int) == self.values@);
        buf
    }

    fn message_size(data: &[u8]) -> (r: Option<usize>) {
        if data.len() < 2 {
            None
        } else {
            Some(data[1] as usize * 2 + 2)
        }
    }
}

impl BulkCapacitanceStruct {
    /// Reads the message from its payload bytes: the start index, the
    /// count, then that many little-endian readings.
    pub fn from_bytes(data: &[u8]) -> (r: Result<BulkCapacitanceStruct, ParseError>)
        ensures
            r matches Ok(m) ==> decode(BULK_CAPACITANCE_ID, data@) == Ok::<MessageModel, ParseError>(m@),
            r matches Err(e) ==> decode(BULK_CAPACITANCE_ID, data@) == Err::<MessageModel, ParseError>(e),
    {
        if data.len() < 2 {
            return Err(ParseError::DeserializationError);
        }
        let start_index = data[0];
        let count = data[1] as usize;
        if data.len() < 2 + count * 2 {
            return Err(ParseError::DeserializationError);
        }
        let mut values: Vec<u16> = Vec::new();
        let mut i: usize = 0;
        while i < count
            invariant
                count == data@[1],
                2 + count * 2 <= data@.len(),
                0 <= i <= count,
                values@ == read_le16s(data@, 2, i as nat),
            decreases count - i,
        {
            values.push(read_le16(data, 2 * i + 2));
            i += 1;
            assert(values@ =~= read_le16s(data@, 2, i as nat));
        }
        Ok(BulkCapacitanceStruct { start_index, values })
    }
}

/// One active capacitance measurement against its baseline.
#[derive(Clone, Debug, PartialEq, Eq, Structural)]
pub struct ActiveCapacitanceStruct {
    pub baseline: u16,
    pub measurement: u16,
}

impl View for ActiveCapacitanceStruct {
    type V = MessageModel;

    open spec fn view(&self) -> MessageModel {
        MessageModel::ActiveCapacitance { baseline: self.baseline, measurement: self.measurement }
    }
}

impl MessageStruct for ActiveCapacitanceStruct {
    open spec fn kind_id() -> u8 {
        ACTIVE_CAPACITANCE_ID
    }

    fn id(&self) -> (r: u8) {
        ACTIVE_CAPACITANCE_ID
    }

    fn payload(&self) -> (r: Vec<u8>) {
        let mut buf: Vec<u8> = Vec::new();
        push_le16(&mut buf, self.baseline);
        push_le16(&mut buf, self.measurement);
        assert(buf@ =~= self@.payload());
        buf
    }

    fn message_size(data: &[u8]) -> (r: Option<usize>) {
        Some(4)
    }
}

impl ActiveCapacitanceStruct {
    /// Reads the message from its payload bytes: baseline, then
    /// measurement, each little-endian.
    pub fn from_bytes(data: &[u8]) -> (r: Result<ActiveCapacitanceStruct, ParseError>)
        ensures
            r matches Ok(m) ==> decode(ACTIVE_CAPACITANCE_ID, data@) == Ok::<MessageModel, ParseError>(m@),
            r matches Err(e) ==> decode(ACTIVE_CAPACITANCE_ID, data@) == Err::<MessageModel, ParseError>(e),
    {
        if data.len() < 4 {
            return Err(ParseError::DeserializationError);
        }
        let baseline = read_le16(data, 0);
        let measurement = read_le16(data, 2);
        Ok(ActiveCapacitanceStruct { baseline, measurement })
    }
}

/// Moves the stepper by `steps` (signed), one step each `period`.
#[derive(Clone, Debug, PartialEq, Eq, Structural)]
pub struct MoveStepperStruct {
    pub steps: i16,
    pub period: u16,
}

impl View for MoveStepperStruct {
    type V = MessageModel;

    open spec fn view(&self) -> MessageModel {
        MessageModel::MoveStepper { steps: self.steps, period: self.period }
    }
}

impl MessageStruct for MoveStepperStruct {
    open spec fn kind_id() -> u8 {
        MOVE_STEPPER_ID
    }

    fn id(&self) -> (r: u8) {
        MOVE_STEPPER_ID
    }

    fn payload(&self) -> (r: Vec<u8>) {
        let mut buf: Vec<u8> = Vec::new();
        push_le16(&mut buf, self.steps as u16);
        push_le16(&mut buf, self.period);
        assert(buf@ =~= self@.payload());
        buf
    }

    fn message_size(data: &[u8]) -> (r: Option<usize>) {
        Some(4)
    }
}

impl MoveStepperStruct {
    /// Reads the message from its payload bytes: steps (two's complement),
    /// then period, each little-endian.
    pub fn from_bytes(data: &[u8]) -> (r: Result<MoveStepperStruct, ParseError>)
        ensures
            r matches Ok(m) ==> decode(MOVE_STEPPER_ID, data@) == Ok::<MessageModel, ParseError>(m@),
            r matches Err(e) ==> decode(MOVE_STEPPER_ID, data@) == Err::<MessageModel, ParseError>(e),
    {
        if data.len() < 4 {
            return Err(ParseError::DeserializationError);
        }
        let steps = read_le16(data, 0) as i16;
        let period = read_le16(data, 2);
        Ok(MoveStepperStruct { steps, period })
    }
}

} // verus!
