use mssql_browser::decoder::decode;
use mssql_browser::utf8::text_at;
use mssql_browser::{
    BrowserProtocolError, BrowserProtocolField, BrowserProtocolToken, FieldValue, InstanceRecord,
    TextDecodeError,
};

/// A datagram with the header of a reply in front of `body`.
fn reply_with(body: &[u8]) -> Vec<u8> {
    let mut datagram = vec![0x05, (body.len() % 256) as u8, (body.len() / 256) as u8];
    datagram.extend_from_slice(body);
    datagram
}

fn text(s: &str) -> FieldValue {
    FieldValue::Text(s.to_string())
}

fn unexpected(
    expected: BrowserProtocolToken,
    found: BrowserProtocolToken,
) -> BrowserProtocolError {
    BrowserProtocolError::UnexpectedToken { expected, found }
}

#[test]
fn single_instance_reply_gives_one_record() {
    let mut body = Vec::new();
    body.extend_from_slice(b"SQLHOST;");
    body.push(0x02);
    body.extend_from_slice(b"SQLEXPRESS;");
    body.extend_from_slice(&[0x06, 0x99, 0x05]);
    body.push(0x00);
    let records = decode(&reply_with(&body)).unwrap();

    let mut expected = InstanceRecord::new();
    expected.insert(BrowserProtocolField::ServerName, text("SQLHOST"));
    expected.insert(BrowserProtocolField::InstanceName, text("SQLEXPRESS"));
    expected.insert(BrowserProtocolField::TcpPort, FieldValue::Number(1433));
    assert_eq!(records, vec![expected]);

    let record = &records[0];
    assert_eq!(record.text(BrowserProtocolField::ServerName), Some("SQLHOST"));
    assert_eq!(record.text(BrowserProtocolField::InstanceName), Some("SQLEXPRESS"));
    assert_eq!(record.number(BrowserProtocolField::TcpPort), Some(1433));
    assert_eq!(record.get(BrowserProtocolField::Version), None);
    assert!(!record.contains(BrowserProtocolField::IsClustered));
    assert_eq!(record.number(BrowserProtocolField::ServerName), None);
    assert_eq!(record.text(BrowserProtocolField::TcpPort), None);
}

#[test]
fn the_exact_bytes_of_a_reply_decode() {
    let datagram = [
        0x05, 0x0A, 0x00, b'H', b';', 0x04, b'1', b'5', b';', 0x06, 0x9A, 0x05, 0x00,
    ];
    let records = decode(&datagram).unwrap();
    assert_eq!(records.len(), 1);
    assert_eq!(records[0].text(BrowserProtocolField::ServerName), Some("H"));
    assert_eq!(records[0].text(BrowserProtocolField::Version), Some("15"));
    assert_eq!(records[0].number(BrowserProtocolField::TcpPort), Some(0x059A));
}

#[test]
fn tcp_port_is_read_low_byte_first() {
    let records = decode(&reply_with(&[b';', 0x06, 0x01, 0x02, 0x00])).unwrap();
    assert_eq!(records[0].number(BrowserProtocolField::TcpPort), Some(0x0201));
    let records = decode(&reply_with(&[b';', 0x06, 0xFF, 0xFF, 0x00])).unwrap();
    assert_eq!(records[0].number(BrowserProtocolField::TcpPort), Some(65535));
}

#[test]
fn a_port_may_hold_the_bytes_of_a_terminator_or_an_end_marker() {
    let records = decode(&reply_with(&[b'A', b';', 0x06, 0x3B, 0x00, 0x00])).unwrap();
    assert_eq!(records.len(), 1);
    assert_eq!(records[0].number(BrowserProtocolField::TcpPort), Some(0x003B));
}

#[test]
fn every_field_has_its_identifier() {
    let names = [
        BrowserProtocolField::ServerName,
        BrowserProtocolField::InstanceName,
        BrowserProtocolField::IsClustered,
        BrowserProtocolField::Version,
        BrowserProtocolField::NamedPipeName,
        BrowserProtocolField::TcpPort,
        BrowserProtocolField::ViaMachineName,
        BrowserProtocolField::RpcComputerName,
        BrowserProtocolField::SpxServiceName,
        BrowserProtocolField::AppleTalkObjectName,
        BrowserProtocolField::BvItemName,
        BrowserProtocolField::BvGroupName,
        BrowserProtocolField::BvOrgName,
    ];
    for (i, field) in names.iter().enumerate() {
        let mut body = vec![b'S', b';', (i + 1) as u8];
        if *field == BrowserProtocolField::TcpPort {
            body.extend_from_slice(&[7, 0]);
        } else {
            body.extend_from_slice(b"v;");
        }
        body.push(0x00);
        let records = decode(&reply_with(&body)).unwrap();
        assert_eq!(records.len(), 1);
        let mut expected = InstanceRecord::new();
        expected.insert(BrowserProtocolField::ServerName, text("S"));
        if *field == BrowserProtocolField::TcpPort {
            expected.insert(*field, FieldValue::Number(7));
        } else {
            expected.insert(*field, text("v"));
        }
        assert_eq!(records[0], expected);
    }
}

#[test]
fn header_length_that_differs_is_a_length_mismatch() {
    assert_eq!(
        decode(&[0x05, 0x07, 0x00, b'A']),
        Err(BrowserProtocolError::LengthMismatch { datagram: 1, header: 7 })
    );
    assert_eq!(
        decode(&[0x05, 0x00, 0x00, b'A', b';', 0x00]),
        Err(BrowserProtocolError::LengthMismatch { datagram: 3, header: 0 })
    );
    assert_eq!(
        decode(&[0x05, 0x00, 0x01]),
        Err(BrowserProtocolError::LengthMismatch { datagram: 0, header: 256 })
    );
    assert_eq!(
        decode(&[0x05, 0x03, 0x02, b'A', b';', 0x00]),
        Err(BrowserProtocolError::LengthMismatch { datagram: 3, header: 515 })
    );
}

#[test]
fn length_is_checked_before_the_body_is_read() {
    // the body is no reply at all, and the length is wrong too
    assert_eq!(
        decode(&[0x05, 0x02, 0x00, 0xFF, 0xFF, 0xFF]),
        Err(BrowserProtocolError::LengthMismatch { datagram: 3, header: 2 })
    );
}

#[test]
fn empty_buffer_is_an_unexpected_end() {
    assert_eq!(
        decode(&[]),
        Err(unexpected(
            BrowserProtocolToken::MessageIdentifier(0x05),
            BrowserProtocolToken::EndOfMessage
        ))
    );
}

#[test]
fn another_message_identifier_is_refused() {
    assert_eq!(
        decode(&[0x04, 0x00, 0x00]),
        Err(unexpected(
            BrowserProtocolToken::MessageIdentifier(0x05),
            BrowserProtocolToken::MessageIdentifier(0x04)
        ))
    );
    // the identifier is looked at before the length
    assert_eq!(
        decode(&[0x0F, 0x09, 0x00, 0x01]),
        Err(unexpected(
            BrowserProtocolToken::MessageIdentifier(0x05),
            BrowserProtocolToken::MessageIdentifier(0x0F)
        ))
    );
}

#[test]
fn a_header_cut_short_lacks_its_length() {
    let expected = Err(unexpected(
        BrowserProtocolToken::MessageLength,
        BrowserProtocolToken::EndOfMessage,
    ));
    assert_eq!(decode(&[0x05]), expected);
    assert_eq!(decode(&[0x05, 0x00]), expected);
}

#[test]
fn an_empty_body_lacks_the_server_name() {
    assert_eq!(
        decode(&[0x05, 0x00, 0x00]),
        Err(unexpected(
            BrowserProtocolToken::ValueOf(BrowserProtocolField::ServerName),
            BrowserProtocolToken::EndOfMessage
        ))
    );
}

#[test]
fn a_server_name_without_terminator_is_refused() {
    assert_eq!(
        decode(&reply_with(b"SQLHOST")),
        Err(unexpected(
            BrowserProtocolToken::ValueOf(BrowserProtocolField::ServerName),
            BrowserProtocolToken::EndOfMessage
        ))
    );
}

#[test]
fn unknown_identifier_byte_is_an_unexpected_token() {
    assert_eq!(
        decode(&reply_with(&[b'A', b';', 0x7F, 0x00])),
        Err(unexpected(
            BrowserProtocolToken::Identifier(BrowserProtocolField::InstanceName),
            BrowserProtocolToken::MessageIdentifier(0x7F)
        ))
    );
    assert_eq!(
        decode(&reply_with(&[b'A', b';', 0x0E, b'x', b';', 0x00])),
        Err(unexpected(
            BrowserProtocolToken::Identifier(BrowserProtocolField::InstanceName),
            BrowserProtocolToken::MessageIdentifier(0x0E)
        ))
    );
}

#[test]
fn the_expected_identifier_follows_the_last_field() {
    // after the value of Version, the vocabulary goes on with NamedPipeName
    assert_eq!(
        decode(&reply_with(&[b'A', b';', 0x04, b'9', b';', 0xEE])),
        Err(unexpected(
            BrowserProtocolToken::Identifier(BrowserProtocolField::NamedPipeName),
            BrowserProtocolToken::MessageIdentifier(0xEE)
        ))
    );
    // after the last field the vocabulary starts again
    assert_eq!(
        decode(&reply_with(&[b'A', b';', 0x0D, b'o', b';', 0x41])),
        Err(unexpected(
            BrowserProtocolToken::Identifier(BrowserProtocolField::ServerName),
            BrowserProtocolToken::MessageIdentifier(0x41)
        ))
    );
    // in a second record the count starts at the server name again
    assert_eq!(
        decode(&reply_with(&[b'A', b';', 0x04, b'9', b';', b';', b'B', b';', 0x80])),
        Err(unexpected(
            BrowserProtocolToken::Identifier(BrowserProtocolField::InstanceName),
            BrowserProtocolToken::MessageIdentifier(0x80)
        ))
    );
}

#[test]
fn a_body_that_ends_before_the_end_marker_is_refused() {
    assert_eq!(
        decode(&reply_with(b"A;")),
        Err(unexpected(
            BrowserProtocolToken::Identifier(BrowserProtocolField::InstanceName),
            BrowserProtocolToken::EndOfMessage
        ))
    );
    assert_eq!(
        decode(&reply_with(&[b'A', b';', 0x06, 0x01, 0x02])),
        Err(unexpected(
            BrowserProtocolToken::Identifier(BrowserProtocolField::ViaMachineName),
            BrowserProtocolToken::EndOfMessage
        ))
    );
}

#[test]
fn a_value_cut_short_is_refused() {
    assert_eq!(
        decode(&reply_with(&[b'A', b';', 0x02, b'X', b'Y'])),
        Err(unexpected(
            BrowserProtocolToken::ValueOf(BrowserProtocolField::InstanceName),
            BrowserProtocolToken::EndOfMessage
        ))
    );
    assert_eq!(
        decode(&reply_with(&[b'A', b';', 0x06, 0x99])),
        Err(unexpected(
            BrowserProtocolToken::ValueOf(BrowserProtocolField::TcpPort),
            BrowserProtocolToken::EndOfMessage
        ))
    );
    assert_eq!(
        decode(&reply_with(&[b'A', b';', 0x06])),
        Err(unexpected(
            BrowserProtocolToken::ValueOf(BrowserProtocolField::TcpPort),
            BrowserProtocolToken::EndOfMessage
        ))
    );
}

#[test]
fn a_record_separator_must_be_followed_by_a_record() {
    assert_eq!(
        decode(&reply_with(&[b'A', b';', b';'])),
        Err(unexpected(
            BrowserProtocolToken::ValueOf(BrowserProtocolField::ServerName),
            BrowserProtocolToken::EndOfMessage
        ))
    );
}

#[test]
fn trailing_bytes_are_extraneous_data() {
    assert_eq!(
        decode(&reply_with(&[b'A', b';', 0x00, 0xDE, 0xAD])),
        Err(BrowserProtocolError::ExtraneousData(vec![0xDE, 0xAD]))
    );
    assert_eq!(
        decode(&reply_with(&[b'A', b';', 0x02, b'I', b';', 0x00, 0x00])),
        Err(BrowserProtocolError::ExtraneousData(vec![0x00]))
    );
    let mut body = vec![b'A', b';', 0x00];
    body.extend_from_slice(b"B;");
    assert_eq!(
        decode(&reply_with(&body)),
        Err(BrowserProtocolError::ExtraneousData(b"B;".to_vec()))
    );
}

#[test]
fn decoding_twice_gives_the_same_result() {
    let good = reply_with(&[b'A', b';', 0x02, b'I', b';', 0x06, 1, 2, 0x00]);
    assert_eq!(decode(&good), decode(&good));
    assert!(decode(&good).is_ok());
    let bad = reply_with(&[b'A', b';', 0x55]);
    assert_eq!(decode(&bad), decode(&bad));
    assert!(decode(&bad).is_err());
    let first = decode(&good);
    let _ = decode(&bad);
    assert_eq!(decode(&good), first);
}

#[test]
fn a_record_without_fields_holds_only_the_server_name() {
    let records = decode(&reply_with(b"LONELY;\0")).unwrap();
    let mut expected = InstanceRecord::new();
    expected.insert(BrowserProtocolField::ServerName, text("LONELY"));
    assert_eq!(records, vec![expected]);
    assert_eq!(records[0].fields(), vec![BrowserProtocolField::ServerName]);
}

#[test]
fn an_empty_server_name_is_a_name() {
    let records = decode(&reply_with(&[b';', 0x00])).unwrap();
    assert_eq!(records.len(), 1);
    assert_eq!(records[0].text(BrowserProtocolField::ServerName), Some(""));
}

#[test]
fn a_repeated_field_keeps_its_last_value() {
    let mut body = Vec::new();
    body.extend_from_slice(b"H;");
    body.push(0x02);
    body.extend_from_slice(b"FIRST;");
    body.extend_from_slice(&[0x06, 1, 0]);
    body.push(0x02);
    body.extend_from_slice(b"SECOND;");
    body.extend_from_slice(&[0x06, 2, 0]);
    body.push(0x00);
    let records = decode(&reply_with(&body)).unwrap();
    assert_eq!(records.len(), 1);
    assert_eq!(records[0].text(BrowserProtocolField::InstanceName), Some("SECOND"));
    assert_eq!(records[0].number(BrowserProtocolField::TcpPort), Some(2));
}

#[test]
fn the_server_name_can_be_given_again_as_a_field() {
    let records = decode(&reply_with(&[b'A', b';', 0x01, b'B', b';', 0x00])).unwrap();
    assert_eq!(records[0].text(BrowserProtocolField::ServerName), Some("B"));
}

#[test]
fn records_come_in_the_order_of_the_datagram() {
    let mut body = Vec::new();
    body.extend_from_slice(b"ZULU;");
    body.push(0x02);
    body.extend_from_slice(b"Z1;");
    body.push(b';');
    body.extend_from_slice(b"ALPHA;");
    body.push(b';');
    body.extend_from_slice(b"MIKE;");
    body.extend_from_slice(&[0x06, 0x9A, 0x05]);
    body.push(0x00);
    let records = decode(&reply_with(&body)).unwrap();
    assert_eq!(records.len(), 3);
    assert_eq!(records[0].text(BrowserProtocolField::ServerName), Some("ZULU"));
    assert_eq!(records[0].text(BrowserProtocolField::InstanceName), Some("Z1"));
    assert_eq!(records[1].text(BrowserProtocolField::ServerName), Some("ALPHA"));
    assert!(!records[1].contains(BrowserProtocolField::InstanceName));
    assert_eq!(records[2].text(BrowserProtocolField::ServerName), Some("MIKE"));
    assert_eq!(records[2].number(BrowserProtocolField::TcpPort), Some(1434));
    assert!(!records[2].contains(BrowserProtocolField::InstanceName));
}

#[test]
fn text_of_more_than_one_byte_per_character_is_decoded() {
    let mut body = Vec::new();
    body.extend_from_slice("Zoë;".as_bytes());
    body.push(0x02);
    body.extend_from_slice("données€;".as_bytes());
    body.push(0x00);
    let records = decode(&reply_with(&body)).unwrap();
    assert_eq!(records[0].text(BrowserProtocolField::ServerName), Some("Zoë"));
    assert_eq!(records[0].text(BrowserProtocolField::InstanceName), Some("données€"));
    assert_eq!(records[0].text(BrowserProtocolField::ServerName).unwrap().chars().count(), 3);
}

#[test]
fn bytes_that_are_no_text_give_their_place_in_the_datagram() {
    // 'A' at 3, ';' at 4, identifier at 5, value from 6: "ab", then 0xFF
    assert_eq!(
        decode(&reply_with(&[b'A', b';', 0x02, b'a', b'b', 0xFF, b'c', b';', 0x00])),
        Err(BrowserProtocolError::InvalidUtf8(TextDecodeError { offset: 8, invalid_len: Some(1) }))
    );
    // the server name itself
    assert_eq!(
        decode(&reply_with(&[0xC0, b';', 0x00])),
        Err(BrowserProtocolError::InvalidUtf8(TextDecodeError { offset: 3, invalid_len: Some(1) }))
    );
    // a character of three bytes that the terminator cuts short
    assert_eq!(
        decode(&reply_with(&[b'A', b';', 0x04, b'x', 0xE2, 0x82, b';', 0x00])),
        Err(BrowserProtocolError::InvalidUtf8(TextDecodeError { offset: 7, invalid_len: None }))
    );
}

#[test]
fn the_failure_is_what_the_standard_decoder_reports() {
    let value = [b'o', b'k', 0xF0, 0x9F, 0x28, b'z'];
    let std_error = std::str::from_utf8(&value).unwrap_err();
    let mut body = vec![b'A', b';', 0x03];
    body.extend_from_slice(&value);
    body.extend_from_slice(&[b';', 0x00]);
    let error = decode(&reply_with(&body)).unwrap_err();
    assert_eq!(
        error,
        BrowserProtocolError::InvalidUtf8(TextDecodeError {
            offset: 6 + std_error.valid_up_to(),
            invalid_len: std_error.error_len(),
        })
    );
    assert_eq!(error.cause(), Some(&TextDecodeError { offset: 8, invalid_len: Some(2) }));
}

#[test]
fn a_missing_terminator_is_reported_before_bad_text() {
    assert_eq!(
        decode(&reply_with(&[b'A', b';', 0x02, 0xFF, 0xFF])),
        Err(unexpected(
            BrowserProtocolToken::ValueOf(BrowserProtocolField::InstanceName),
            BrowserProtocolToken::EndOfMessage
        ))
    );
}

#[test]
fn the_first_error_wins() {
    // an unknown identifier in the first record, bad text in the second
    assert_eq!(
        decode(&reply_with(&[b'A', b';', 0x99, b';', 0xFF, b';', 0x00])),
        Err(unexpected(
            BrowserProtocolToken::Identifier(BrowserProtocolField::InstanceName),
            BrowserProtocolToken::MessageIdentifier(0x99)
        ))
    );
}

#[test]
fn a_body_of_the_greatest_length_decodes() {
    let mut body = vec![b'n'; 65533];
    body.push(b';');
    body.push(0x00);
    assert_eq!(body.len(), 65535);
    let records = decode(&reply_with(&body)).unwrap();
    assert_eq!(records.len(), 1);
    assert_eq!(records[0].text(BrowserProtocolField::ServerName).unwrap().len(), 65533);
    // one byte more cannot be declared
    body.insert(0, b'n');
    let mut datagram = vec![0x05, 0xFF, 0xFF];
    datagram.extend_from_slice(&body);
    assert_eq!(
        decode(&datagram),
        Err(BrowserProtocolError::LengthMismatch { datagram: 65536, header: 65535 })
    );
}

#[test]
fn the_place_of_a_text_failure_is_counted_from_the_start_of_the_datagram() {
    assert_eq!(text_at(Ok("abc"), 10), Ok("abc".to_string()));
    assert_eq!(text_at(Ok(""), 0), Ok(String::new()));
    assert_eq!(
        text_at(Err(TextDecodeError { offset: 2, invalid_len: Some(1) }), 10),
        Err(BrowserProtocolError::InvalidUtf8(TextDecodeError {
            offset: 12,
            invalid_len: Some(1)
        }))
    );
    assert_eq!(
        text_at(Err(TextDecodeError { offset: 0, invalid_len: None }), 65537),
        Err(BrowserProtocolError::InvalidUtf8(TextDecodeError { offset: 65537, invalid_len: None }))
    );
}
