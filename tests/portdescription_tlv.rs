use lldp::tlv::portdescription_tlv::PortDescriptionTLV;
use lldp::tlv::TlvType;

fn set_up() -> (PortDescriptionTLV, String) {
    let string = String::from("Unittest");
    (PortDescriptionTLV::new(string.clone()).unwrap(), string)
}

#[test]
fn portdescription_tlv_test_type() {
    let (tlv, _) = set_up();
    assert_eq!(tlv.tlv_type().code(), TlvType::PortDescription.code());
    assert_eq!(tlv.tlv_type().code(), 4);
}

#[test]
fn portdescription_tlv_test_length() {
    let (tlv, _) = set_up();
    assert_eq!(tlv.len(), 8);
}

#[test]
fn portdescription_tlv_test_value() {
    let (tlv, s) = set_up();
    assert_eq!(tlv.value, s);
}

#[test]
fn portdescription_tlv_test_dump() {
    let (tlv, _) = set_up();
    assert_eq!(tlv.bytes(), b"\x08\x08Unittest".to_vec());
}

#[test]
fn portdescription_tlv_test_load() {
    let tlv = PortDescriptionTLV::new_from_bytes(b"\x08\x0FAnotherUnittest".as_ref()).unwrap();
    assert_eq!(tlv.len(), 15);
    assert_eq!(tlv.value, String::from("AnotherUnittest"));
}

#[test]
fn portdescription_tlv_test_display() {
    let (tlv, _) = set_up();
    assert_eq!(tlv.render(), "PortDescriptionTLV(\"Unittest\")");
}
