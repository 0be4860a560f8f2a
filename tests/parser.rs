use frame_codec::{checksum, Message, ParseError, Parser, ElectrodeEnableStruct, MessageStruct,
    serialize_raw, ACTIVE_CAPACITANCE_ID, BULK_CAPACITANCE_ID, ELECTRODE_ENABLE_ID};

fn append_checksum(data: &mut Vec<u8>) {
    let (chk_a, chk_b) = checksum(&data[1..data.len()]);
    data.append(&mut vec![chk_a, chk_b]);
}

fn parse_message(parser: &mut Parser, data: &[u8]) -> Result<Option<Message>, ParseError> {
    for b in data {
        let result = parser.parse(*b)?;
        match result {
            Some(msg) => return Ok(Some(msg)),
            None => (),
        }
    }
    Ok(None)
}

#[test]
fn test_bulk_capacitance_parse() {
    let mut bytes = vec![0x7e, BULK_CAPACITANCE_ID, 0, 2, 04, 0, 05, 0];
    append_checksum(&mut bytes);
    let mut rxmsg = None;
    let mut parser = Parser::new();
    let result = parse_message(&mut parser, &bytes);
    if result.is_err() {
        panic!("Error while parsing: {}", result.err().unwrap().describe());
    }
    let result = result.unwrap();
    if let Some(msg) = result {
        match msg {
            Message::BulkCapacitanceMsg(msg) => rxmsg = Some(msg),
            _ => panic!("Got unexpected  messaged: {:?}", msg),
        }
    }
    assert!(rxmsg.is_some());
    let rxmsg = rxmsg.unwrap();
    assert_eq!(rxmsg.values.len(), 2);
    assert_eq!(rxmsg.values[0], 4);
    assert_eq!(rxmsg.values[1], 5);
}

#[test]
fn test_active_capacitance_parse() {
    let mut bytes = vec![0x7e, ACTIVE_CAPACITANCE_ID, 2, 3, 4, 5];
    append_checksum(&mut bytes);
    let mut parser = Parser::new();
    let result = parse_message(&mut parser, &bytes);
    if result.is_err() {
        panic!("Error while parsing: {}", result.err().unwrap().describe());
    }
    let result = result.unwrap();
    if let Some(msg) = result {
        match msg {
            Message::ActiveCapacitanceMsg(msg) => {
                assert_eq!(msg.baseline, 0x302);
                assert_eq!(msg.measurement, 0x504);
            },
            _ => panic!("Invalid message type found"),
        }
    } else {
        panic!("No message parsed");
    }
}

#[test]
fn test_electrode_enable_roundtrip() {
    let values: [u8; 16] = [0, 1, 2, 3, 4, 5, 6, 7, 8, 9, 10, 11, 12, 13, 0x7d, 0x7e];
    let tx_msg = ElectrodeEnableStruct { values };
    let payload: Vec<u8> = tx_msg.payload();
    let tx_bytes = serialize_raw(ELECTRODE_ENABLE_ID, &payload);
    let mut parser = Parser::new();
    let result = parse_message(&mut parser, &tx_bytes);
    if result.is_err() {
        panic!("Error while parsing: {}", result.err().unwrap().describe());
    }
    let rx_msg = result.unwrap();
    assert!(rx_msg.is_some());
    let rx_msg = rx_msg.unwrap();
    if let Message::ElectrodeEnableMsg(msg) = rx_msg {
        assert_eq!(msg.values, values);
    } else {
        panic!("Did not parse expected message");
    }
}
