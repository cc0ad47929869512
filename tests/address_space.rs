use opcua_server::address_space::{AttributeId, Base, NodeClass, NodeType, ObjectType};
use opcua_server::basic::LocalizedText;
use opcua_server::date_time::{date_time_now, ticks_from_unix};
use opcua_server::node_id::NodeId;
use opcua_server::status::StatusCode;
use opcua_server::string::UaString;
use opcua_server::variant::{ArrayItem, DataValue, Variant};

fn object_type() -> ObjectType {
    ObjectType::new(&NodeId::new_numeric(1, 1000), "Pump", "Pump", "A pump", true)
}

#[test]
fn set_then_get() {
    let mut n = object_type();
    let v = DataValue::new_at(Variant::Boolean(false), 42);
    assert_eq!(n.set_attribute(AttributeId::IsAbstract, v.clone()), Ok(()));
    assert_eq!(n.base().find_attribute(AttributeId::IsAbstract), Some(&v));
    assert!(!n.is_abstract());
    assert_eq!(n.set_attribute(AttributeId::IsAbstract, v.clone()), Ok(()));
    assert_eq!(n.base().find_attribute(AttributeId::IsAbstract), Some(&v));
}

#[test]
fn type_mismatched_write_changes_nothing() {
    let mut n = object_type();
    let before = n.base().find_attribute(AttributeId::IsAbstract).cloned();
    let v = DataValue::new_at(Variant::String(UaString::from_str("yes")), 1);
    assert_eq!(n.set_attribute(AttributeId::IsAbstract, v), Err(StatusCode::BadTypeMismatch));
    assert_eq!(n.base().find_attribute(AttributeId::IsAbstract).cloned(), before);
    assert!(n.is_abstract());
}

#[test]
fn node_id_is_not_writable() {
    let mut n = object_type();
    let v = DataValue::new_at(Variant::NodeId(NodeId::new_numeric(0, 1)), 1);
    assert_eq!(n.set_attribute(AttributeId::NodeId, v), Err(StatusCode::BadNotWritable));
    let v = DataValue::new_at(Variant::Int32(1), 1);
    assert_eq!(n.set_attribute(AttributeId::NodeClass, v), Err(StatusCode::BadNotWritable));
}

#[test]
fn array_dimensions_need_uint32_items() {
    let mut b = Base::new_at(NodeClass::Variable, &NodeId::new_numeric(0, 7), "v", "v", "", vec![], 0);
    let good = DataValue::new_at(Variant::Array(vec![ArrayItem::UInt32(2), ArrayItem::UInt32(3)]), 0);
    assert_eq!(b.set_attribute(AttributeId::ArrayDimensions, good), Ok(()));
    let bad = DataValue::new_at(Variant::Array(vec![ArrayItem::UInt32(2), ArrayItem::Int32(3)]), 0);
    assert_eq!(b.set_attribute(AttributeId::ArrayDimensions, bad), Err(StatusCode::BadTypeMismatch));
    let none = DataValue { value: None, status: None, server_timestamp: None, server_picoseconds: None, source_timestamp: None, source_picoseconds: None };
    assert_eq!(b.set_attribute(AttributeId::ValueRank, none), Err(StatusCode::BadTypeMismatch));
}

#[test]
fn value_accepts_any_variant() {
    let mut b = Base::new_at(NodeClass::Variable, &NodeId::new_numeric(0, 7), "v", "v", "", vec![], 0);
    assert_eq!(b.set_attribute_value(AttributeId::Value, Variant::Double(0x4000_0000_0000_0000), 5, 6), Ok(()));
    let dv = b.find_attribute(AttributeId::Value).unwrap();
    assert_eq!(dv.value, Some(Variant::Double(0x4000_0000_0000_0000)));
    assert_eq!(dv.server_timestamp, Some(5));
    assert_eq!(dv.source_timestamp, Some(6));
    assert_eq!(dv.status, Some(StatusCode::Good));
}

#[test]
fn mandatory_attributes_are_present() {
    let n = NodeType::ObjectType(object_type());
    let base = n.as_node();
    for a in [AttributeId::NodeClass, AttributeId::NodeId, AttributeId::BrowseName, AttributeId::DisplayName, AttributeId::IsAbstract] {
        assert!(base.find_attribute(a).is_some());
    }
    assert_eq!(base.node_class(), NodeClass::ObjectType);
    assert_eq!(n.node_id(), NodeId::new_numeric(1, 1000));
    assert_eq!(base.write_mask(), Some(0));
    assert!(base.find_attribute(AttributeId::Symmetric).is_none());
}

#[test]
fn construction_values() {
    let b = Base::new_at(NodeClass::Object, &NodeId::new_numeric(0, 85), "Objects", "Objects", "Root", vec![(AttributeId::EventNotifier, Variant::Byte(1))], 99);
    let dv = b.find_attribute(AttributeId::DisplayName).unwrap();
    assert_eq!(dv.value, Some(Variant::LocalizedText(LocalizedText { locale: UaString::null(), text: UaString::from_str("Objects") })));
    assert_eq!(dv.server_timestamp, Some(99));
    assert_eq!(b.find_attribute(AttributeId::EventNotifier).unwrap().value, Some(Variant::Byte(1)));
}

#[test]
fn write_mask_is_always_writable() {
    let mut b = Base::new_at(NodeClass::Object, &NodeId::new_numeric(0, 85), "o", "o", "", vec![], 0);
    b.set_write_mask(0x10, 3);
    assert_eq!(b.write_mask(), Some(0x10));
}

#[test]
fn attribute_numbers() {
    assert_eq!(AttributeId::from_u32(13), Ok(AttributeId::Value));
    assert_eq!(AttributeId::Value.attribute_idx(), 12);
    assert_eq!(AttributeId::from_u32(0), Err(StatusCode::BadAttributeIdInvalid));
    assert_eq!(AttributeId::from_u32(23), Err(StatusCode::BadAttributeIdInvalid));
}

#[test]
fn read_current_time() {
    let now = date_time_now();
    let b = Base::new(NodeClass::Variable, &NodeId::new_numeric(0, 2258), "CurrentTime", "CurrentTime", "", vec![(AttributeId::Value, Variant::DateTime(now))]);
    let dv = b.find_attribute(AttributeId::Value).unwrap();
    let wall = std::time::SystemTime::now().duration_since(std::time::UNIX_EPOCH).unwrap();
    let wall_ticks = ticks_from_unix(wall.as_secs() as i64, wall.subsec_nanos());
    match dv.value {
        Some(Variant::DateTime(t)) => assert!((wall_ticks - t).abs() <= 20_000_000),
        _ => panic!("not a DateTime"),
    }
    assert_eq!(dv.status, Some(StatusCode::Good));
}

#[test]
fn ticks_of_unix_epoch() {
    assert_eq!(ticks_from_unix(0, 0), 116_444_736_000_000_000);
    assert_eq!(ticks_from_unix(1, 250), 116_444_736_010_000_002);
    assert_eq!(ticks_from_unix(-20_000_000_000, 0), 0);
}
