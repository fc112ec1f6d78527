use mssql_browser::record::{FieldValue, InstanceRecord};
use mssql_browser::BrowserProtocolField;

fn all_fields() -> [BrowserProtocolField; 13] {
    [
        BrowserProtocolField::ServerName,
        BrowserProtocolField::InstanceName,
        BrowserProtocolField::IsClustered,
        BrowserProtocolField::Version,
        BrowserProtocolField::NamedPipeName,
        BrowserProtocolField::TcpPort,
        BrowserProtocolField::ViaMachineName,
        BrowserProtocolField::RpcComputerName,
        BrowserProtocolField::SpxServiceName,
        BrowserProtocolField::AppleTalkObjectName,
        BrowserProtocolField::BvItemName,
        BrowserProtocolField::BvGroupName,
        BrowserProtocolField::BvOrgName,
    ]
}

#[test]
fn fields_stand_at_their_positions() {
    for (i, field) in all_fields().iter().enumerate() {
        assert_eq!(field.index(), i);
        assert_eq!(BrowserProtocolField::from_index(i), Some(*field));
    }
    assert_eq!(BrowserProtocolField::from_index(13), None);
    assert_eq!(BrowserProtocolField::from_index(usize::MAX), None);
}

#[test]
fn each_field_is_followed_by_the_next() {
    let fields = all_fields();
    for i in 0..12 {
        assert_eq!(fields[i].next(), fields[i + 1]);
    }
    assert_eq!(BrowserProtocolField::BvOrgName.next(), BrowserProtocolField::ServerName);
}

#[test]
fn field_names_are_their_debug_names() {
    for field in all_fields().iter() {
        assert_eq!(field.name(), format!("{:?}", field));
    }
    assert_eq!(BrowserProtocolField::TcpPort.name(), "TcpPort");
    assert_eq!(BrowserProtocolField::AppleTalkObjectName.name(), "AppleTalkObjectName");
}

#[test]
fn fields_are_equal_to_themselves_only() {
    let fields = all_fields();
    for i in 0..13 {
        for j in 0..13 {
            assert_eq!(fields[i] == fields[j], i == j);
        }
    }
}

#[test]
fn a_new_record_is_empty() {
    let record = InstanceRecord::new();
    for field in all_fields().iter() {
        assert!(!record.contains(*field));
        assert_eq!(record.get(*field), None);
    }
}

#[test]
fn insert_sets_one_field_and_keeps_the_others() {
    let mut record = InstanceRecord::new();
    record.insert(BrowserProtocolField::Version, FieldValue::Text("10.0.1600.22".to_string()));
    record.insert(BrowserProtocolField::TcpPort, FieldValue::Number(1433));
    assert_eq!(
        record.get(BrowserProtocolField::Version),
        Some(&FieldValue::Text("10.0.1600.22".to_string()))
    );
    assert_eq!(record.get(BrowserProtocolField::TcpPort), Some(&FieldValue::Number(1433)));
    for field in all_fields().iter() {
        let expected =
            *field == BrowserProtocolField::Version || *field == BrowserProtocolField::TcpPort;
        assert_eq!(record.contains(*field), expected);
    }
    record.insert(BrowserProtocolField::TcpPort, FieldValue::Number(1434));
    assert_eq!(record.number(BrowserProtocolField::TcpPort), Some(1434));
    assert_eq!(record.text(BrowserProtocolField::Version), Some("10.0.1600.22"));
    record.insert(BrowserProtocolField::Version, FieldValue::Number(3));
    assert_eq!(record.text(BrowserProtocolField::Version), None);
    assert_eq!(record.number(BrowserProtocolField::Version), Some(3));
}

#[test]
fn the_fields_of_a_record_are_listed_in_the_order_of_the_vocabulary() {
    let mut record = InstanceRecord::new();
    assert_eq!(record.fields(), vec![]);
    record.insert(BrowserProtocolField::BvOrgName, FieldValue::Text("org".to_string()));
    record.insert(BrowserProtocolField::TcpPort, FieldValue::Number(1433));
    record.insert(BrowserProtocolField::ServerName, FieldValue::Text("host".to_string()));
    record.insert(BrowserProtocolField::TcpPort, FieldValue::Number(1434));
    assert_eq!(
        record.fields(),
        vec![
            BrowserProtocolField::ServerName,
            BrowserProtocolField::TcpPort,
            BrowserProtocolField::BvOrgName,
        ]
    );
    let mut full = InstanceRecord::new();
    for field in all_fields().iter() {
        full.insert(*field, FieldValue::Number(0));
    }
    assert_eq!(full.fields(), all_fields().to_vec());
}
