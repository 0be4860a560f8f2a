use frame_codec::{
    checksum, serialize_msg, serialize_raw, ActiveCapacitanceStruct, BulkCapacitanceStruct,
    Checksum, CommandAckStruct, ElectrodeEnableStruct, Message, MessageStruct, MoveStepperStruct,
    ParseError, Parser, WorkingBuffer, ACTIVE_CAPACITANCE_ID, BULK_CAPACITANCE_ID, COMMAND_ACK_ID,
    ELECTRODE_ENABLE_ID, MAX_MESSAGE_SIZE, MOVE_STEPPER_ID,
};

/// Feeds every byte; returns what each yielded.
fn feed_all(parser: &mut Parser, bytes: &[u8]) -> Vec<Result<Option<Message>, ParseError>> {
    bytes.iter().map(|b| parser.parse(*b)).collect()
}

/// Checks that only the last outcome is a message, and returns it.
fn single_message(outs: Vec<Result<Option<Message>, ParseError>>) -> Message {
    let n = outs.len();
    for o in &outs[..n - 1] {
        assert!(matches!(o, Ok(None)), "unexpected outcome {:?}", o);
    }
    match &outs[n - 1] {
        Ok(Some(m)) => m.clone(),
        other => panic!("no message at the end: {:?}", other),
    }
}

fn round_trip<T: MessageStruct>(msg: &T) -> Message {
    let bytes = serialize_msg(msg);
    let mut parser = Parser::new();
    single_message(feed_all(&mut parser, &bytes))
}

#[test]
fn checksum_exact_values() {
    assert_eq!(checksum(&[]), (0, 0));
    assert_eq!(checksum(&[1, 2, 3]), (6, 10));
    assert_eq!(checksum(&[0xff, 0x02]), (0x01, 0x00));
}

#[test]
fn checksum_accumulator_wraps() {
    let mut c = Checksum::default();
    c.add_byte(200);
    c.add_byte(100);
    assert_eq!(c.get(), (44, 244));
    c.add_byte(0);
    assert_eq!(c.get(), (44, 32));
}

#[test]
fn serialize_raw_stuffs_reserved_bytes() {
    assert_eq!(
        serialize_raw(3, &[0x7d, 1]),
        vec![0x7e, 0x03, 0x7d, 0x5d, 0x01, 0x81, 0x04]
    );
    assert_eq!(serialize_raw(4, &[0x7e]), vec![0x7e, 0x04, 0x7d, 0x5e, 0x82, 0x86]);
}

#[test]
fn round_trip_every_variant() {
    let e = ElectrodeEnableStruct { values: [0xff, 0, 0x7e, 0x7d, 5, 6, 7, 8, 9, 10, 11, 12, 13, 14, 15, 16] };
    assert_eq!(round_trip(&e), Message::ElectrodeEnableMsg(e.clone()));
    let b = BulkCapacitanceStruct { start_index: 7, values: vec![0x7d7e, 0, 65535] };
    assert_eq!(round_trip(&b), Message::BulkCapacitanceMsg(b.clone()));
    let a = ActiveCapacitanceStruct { baseline: 0x7e7d, measurement: 1 };
    assert_eq!(round_trip(&a), Message::ActiveCapacitanceMsg(a.clone()));
    let k = CommandAckStruct { acked_id: 0x7e };
    assert_eq!(round_trip(&k), Message::CommandAckMsg(k.clone()));
    let s = MoveStepperStruct { steps: -300, period: 1000 };
    assert_eq!(round_trip(&s), Message::MoveStepperMsg(s.clone()));
}

#[test]
fn round_trip_bulk_sizes() {
    let empty = BulkCapacitanceStruct { start_index: 0, values: vec![] };
    assert_eq!(round_trip(&empty), Message::BulkCapacitanceMsg(empty.clone()));
    let largest = BulkCapacitanceStruct { start_index: 1, values: (0..61u16).map(|i| i * 1000).collect() };
    assert_eq!(round_trip(&largest), Message::BulkCapacitanceMsg(largest.clone()));
}

#[test]
fn move_stepper_wire_layout() {
    let s = MoveStepperStruct { steps: -2, period: 0x0102 };
    assert_eq!(s.payload(), vec![0xfe, 0xff, 0x02, 0x01]);
    assert_eq!(s.id(), MOVE_STEPPER_ID);
    match Message::from_payload(MOVE_STEPPER_ID, &[0xfe, 0xff, 0x02, 0x01]) {
        Ok(Message::MoveStepperMsg(m)) => assert_eq!(m, s),
        other => panic!("unexpected {:?}", other),
    }
}

#[test]
fn escaped_checksum_bytes_round_trip() {
    // pick the last payload byte so that a checksum byte is reserved
    let mut found = 0;
    for v in 0..=255u8 {
        let mut values = [1u8; 16];
        values[15] = v;
        let mut body = vec![ELECTRODE_ENABLE_ID];
        body.extend_from_slice(&values);
        let (a, b) = checksum(&body);
        if a == 0x7e || a == 0x7d || b == 0x7e || b == 0x7d {
            let e = ElectrodeEnableStruct { values };
            let bytes = serialize_msg(&e);
            assert!(bytes.len() > 20);
            assert_eq!(round_trip(&e), Message::ElectrodeEnableMsg(e));
            found += 1;
        }
    }
    assert!(found > 0);
}

#[test]
fn frame_start_resynchronizes() {
    let first = serialize_msg(&ActiveCapacitanceStruct { baseline: 1, measurement: 2 });
    let second = CommandAckStruct { acked_id: 9 };
    let mut stream = first[..3].to_vec();
    stream.push(0x7e);
    stream.extend_from_slice(&serialize_msg(&second));
    let mut parser = Parser::new();
    assert_eq!(single_message(feed_all(&mut parser, &stream)), Message::CommandAckMsg(second));
}

#[test]
fn overflow_drops_frame_silently_and_recovers() {
    let mut parser = Parser::new();
    // a bulk frame announcing 100 readings never fits the buffer
    let mut stream = vec![0x7e, BULK_CAPACITANCE_ID, 0, 100];
    // three bytes held, 125 more fill the buffer, one more overflows it
    stream.extend(std::iter::repeat(1u8).take(126));
    for o in feed_all(&mut parser, &stream) {
        assert!(matches!(o, Ok(None)));
    }
    // the buffer starts empty again: an unknown id and its checksum
    let outs = feed_all(&mut parser, &[1, 1, 1]);
    assert_eq!(outs[2], Err(ParseError::UnknownPacketId(1)));
    let ack = CommandAckStruct { acked_id: 3 };
    let outs = feed_all(&mut parser, &serialize_msg(&ack));
    assert_eq!(single_message(outs), Message::CommandAckMsg(ack));
}

#[test]
fn flipped_bit_gives_checksum_error() {
    let raw_payload = [0x10u8, 0x11, 0x12, 0x13];
    let mut frame = serialize_raw(ACTIVE_CAPACITANCE_ID, &raw_payload);
    assert_eq!(frame.len(), 8);
    frame[3] ^= 0x08;
    let mut parser = Parser::new();
    let outs = feed_all(&mut parser, &frame);
    for o in &outs[..7] {
        assert!(matches!(o, Ok(None)));
    }
    let (a, b) = checksum(&[ACTIVE_CAPACITANCE_ID, 0x10, 0x11, 0x12, 0x13]);
    let (ea, eb) = checksum(&[ACTIVE_CAPACITANCE_ID, 0x10, 0x19, 0x12, 0x13]);
    let found = a as u16 + b as u16 * 256;
    let expected = ea as u16 + eb as u16 * 256;
    assert_ne!(found, expected);
    assert_eq!(outs[7], Err(ParseError::ChecksumError(found, expected)));
    let next = ActiveCapacitanceStruct { baseline: 5, measurement: 6 };
    let outs = feed_all(&mut parser, &serialize_msg(&next));
    assert_eq!(single_message(outs), Message::ActiveCapacitanceMsg(next));
}

#[test]
fn unknown_id_is_reported_after_its_trailer() {
    let mut parser = Parser::new();
    let outs = feed_all(&mut parser, &serialize_raw(9, &[]));
    assert_eq!(outs.len(), 4);
    assert!(matches!(outs[2], Ok(None)));
    assert_eq!(outs[3], Err(ParseError::UnknownPacketId(9)));
    assert_eq!(Message::from_payload(200, &[1, 2]), Err(ParseError::UnknownPacketId(200)));
}

#[test]
fn short_payloads_fail_to_decode() {
    assert_eq!(Message::from_payload(ACTIVE_CAPACITANCE_ID, &[1, 2, 3]), Err(ParseError::DeserializationError));
    assert_eq!(Message::from_payload(COMMAND_ACK_ID, &[]), Err(ParseError::DeserializationError));
    assert_eq!(Message::from_payload(MOVE_STEPPER_ID, &[1]), Err(ParseError::DeserializationError));
    assert_eq!(Message::from_payload(BULK_CAPACITANCE_ID, &[0, 2, 1, 0, 2]), Err(ParseError::DeserializationError));
    assert_eq!(Message::from_payload(ELECTRODE_ENABLE_ID, &[0; 15]), Err(ParseError::DeserializationError));
    assert_eq!(Message::from_payload(ELECTRODE_ENABLE_ID, &[0; 17]), Err(ParseError::DeserializationError));
}

#[test]
fn decode_error_is_emitted_by_parser() {
    // an electrode frame is whole at 16 payload bytes; a valid frame of
    // another shape under a known id still decodes normally
    let mut parser = Parser::new();
    let outs = feed_all(&mut parser, &serialize_raw(COMMAND_ACK_ID, &[5]));
    assert_eq!(single_message(outs), Message::CommandAckMsg(CommandAckStruct { acked_id: 5 }));
}

#[test]
fn size_probe_values() {
    assert_eq!(Message::message_size(BULK_CAPACITANCE_ID, &[0]), None);
    assert_eq!(Message::message_size(BULK_CAPACITANCE_ID, &[0, 3]), Some(8));
    assert_eq!(Message::message_size(BULK_CAPACITANCE_ID, &[0, 255, 1]), Some(512));
    assert_eq!(Message::message_size(ELECTRODE_ENABLE_ID, &[]), Some(16));
    assert_eq!(Message::message_size(ACTIVE_CAPACITANCE_ID, &[9]), Some(4));
    assert_eq!(Message::message_size(COMMAND_ACK_ID, &[]), Some(1));
    assert_eq!(Message::message_size(MOVE_STEPPER_ID, &[]), Some(4));
    assert_eq!(Message::message_size(77, &[1, 2, 3]), Some(0));
    assert_eq!(BulkCapacitanceStruct::message_size(&[4, 1]), Some(4));
}

#[test]
fn working_buffer_reports_parts() {
    let mut buf = WorkingBuffer::new();
    assert_eq!(buf.msg_id(), None);
    assert!(!buf.is_complete());
    assert_eq!(buf.checksum(), (0, 0));
    assert_eq!(buf.calc_checksum(), (0, 0));
    for b in [ACTIVE_CAPACITANCE_ID, 1, 2, 3, 4] {
        assert!(buf.push(b).is_ok());
    }
    assert_eq!(buf.msg_id(), Some(ACTIVE_CAPACITANCE_ID));
    assert_eq!(buf.payload(), &[1, 2]);
    assert_eq!(buf.checksum(), (3, 4));
    assert!(!buf.is_complete());
    buf.push(0).unwrap();
    buf.push(0).unwrap();
    assert!(buf.is_complete());
    assert_eq!(buf.payload(), &[1, 2, 3, 4]);
    assert_eq!(buf.calc_checksum(), checksum(&[ACTIVE_CAPACITANCE_ID, 1, 2, 3, 4]));
    buf.reset();
    assert_eq!(buf.msg_id(), None);
}

#[test]
fn working_buffer_overrun() {
    let mut buf = WorkingBuffer::new();
    for _ in 0..MAX_MESSAGE_SIZE {
        assert!(buf.push(1).is_ok());
    }
    assert_eq!(buf.push(1), Err(ParseError::SizeOverrun));
    assert_eq!(buf.checksum(), (1, 1));
}

#[test]
fn pending_escape_turns_frame_start_into_data() {
    let mut parser = Parser::new();
    assert!(matches!(parser.parse(0x7d), Ok(None)));
    // 0x7e after an escape is the data byte 0x5e, an unknown id
    assert!(matches!(parser.parse(0x7e), Ok(None)));
    let (a, b) = checksum(&[0x5e]);
    assert!(matches!(parser.parse(a), Ok(None)));
    assert_eq!(parser.parse(b), Err(ParseError::UnknownPacketId(0x5e)));
    parser.reset();
    let ack = CommandAckStruct { acked_id: 1 };
    assert_eq!(single_message(feed_all(&mut parser, &serialize_msg(&ack))), Message::CommandAckMsg(ack));
}

#[test]
fn scenario_a_through_parser() {
    let mut parser = Parser::new();
    let outs = feed_all(&mut parser, &serialize_raw(ACTIVE_CAPACITANCE_ID, &[0x10, 0x11, 0x12, 0x13]));
    assert_eq!(
        single_message(outs),
        Message::ActiveCapacitanceMsg(ActiveCapacitanceStruct { baseline: 0x1110, measurement: 0x1312 })
    );
}

#[test]
fn scenario_b_through_parser() {
    let mut parser = Parser::new();
    let outs = feed_all(&mut parser, &serialize_raw(BULK_CAPACITANCE_ID, &[0, 2, 4, 0, 5, 0]));
    assert_eq!(
        single_message(outs),
        Message::BulkCapacitanceMsg(BulkCapacitanceStruct { start_index: 0, values: vec![4, 5] })
    );
}

#[test]
fn message_id_and_payload() {
    let m = Message::ActiveCapacitanceMsg(ActiveCapacitanceStruct { baseline: 0x0201, measurement: 0x0403 });
    assert_eq!(m.id(), ACTIVE_CAPACITANCE_ID);
    assert_eq!(m.payload(), vec![1, 2, 3, 4]);
    assert_eq!(CommandAckStruct { acked_id: 6 }.payload(), vec![6]);
}

#[test]
fn error_descriptions() {
    assert_eq!(ParseError::SizeOverrun.describe(), "Tried to parse packet longer than max length");
    assert_eq!(
        ParseError::ChecksumError(0x1234, 0xab).describe(),
        "Mismatched checksum. Found 1234, expected ab"
    );
    assert_eq!(ParseError::ChecksumError(0, 0xffff).describe(), "Mismatched checksum. Found 0, expected ffff");
    assert_eq!(ParseError::UnknownPacketId(0x1f).describe(), "Found unrecognized packet id 0x1f");
    assert_eq!(ParseError::DeserializationError.describe(), "Failed parsing payload into packet struct");
}
