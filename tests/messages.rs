use frame_codec::{BulkCapacitanceStruct, ElectrodeEnableStruct, Message, MessageStruct,
    ACTIVE_CAPACITANCE_ID, BULK_CAPACITANCE_ID, ELECTRODE_ENABLE_ID};

#[test]
fn active_capacitance_deser() {
    let bytes = &[0x10, 0x11, 0x12, 0x13];
    let message = Message::from_payload(ACTIVE_CAPACITANCE_ID, bytes);
    assert!(message.is_ok());
    let message = message.unwrap();
    match message {
        Message::ActiveCapacitanceMsg(msg) => {
            assert_eq!(0x1110, msg.baseline);
            assert_eq!(0x1312, msg.measurement);
        },
        _ => panic!("Wrong kind of message"),
    }
}

#[test]
fn test_bulk_capacitance_deser() {
    let bytes = &[0, 2, 4, 0, 5, 0];
    let message = Message::from_payload(BULK_CAPACITANCE_ID, bytes);
    assert!(message.is_ok());
    let message = message.unwrap();
    match message {
        Message::BulkCapacitanceMsg(msg) => {
            assert_eq!(msg.start_index, 0);
            assert_eq!(msg.values.len(), 2);
            assert_eq!(msg.values[0], 4);
            assert_eq!(msg.values[1], 5);
        },
        _ => panic!("Wrong kind of message"),
    }
}

#[test]
fn test_bulk_capacitance_ser() {
    let expected_bytes = &[8, 2, 4, 0, 5, 0];
    let message = BulkCapacitanceStruct { start_index: 8, values: vec![4, 5] };
    let bytes: Vec<u8> = message.payload();
    assert_eq!(bytes, expected_bytes);
}

#[test]
fn test_electrode_enable_deser() {
    let bytes = &[0, 1, 2, 3, 4, 5, 6, 7, 8, 9, 10, 11, 12, 13, 14, 15];
    let message = Message::from_payload(ELECTRODE_ENABLE_ID, bytes);
    assert!(message.is_ok());
    let message = message.unwrap();
    match message {
        Message::ElectrodeEnableMsg(msg) => {
            for i in 0..16 {
                assert_eq!(msg.values[i], i as u8);
            }
        },
        _ => panic!("Wrong kind of message"),
    }
}

#[test]
fn test_electrode_en_ser() {
    let expected_bytes = &[0, 1, 2, 3, 4, 5, 6, 7, 8, 9, 10, 11, 12, 13, 14, 15];
    let message = ElectrodeEnableStruct { values: *expected_bytes };
    let bytes: Vec<u8> = message.payload();
    assert_eq!(bytes, expected_bytes);
}
