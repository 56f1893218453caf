use lldp::tlv::systemcapabilities_tlv::{SystemCapabilitiesTLV, SystemCapability};
use lldp::tlv::TlvType;

fn set_up() -> SystemCapabilitiesTLV {
    let supported = SystemCapability::WlanAP.bit()
        | SystemCapability::Bridge.bit()
        | SystemCapability::Router.bit()
        | SystemCapability::DocsisDevice.bit();
    let enabled = SystemCapability::Bridge.bit()
        | SystemCapability::Router.bit()
        | SystemCapability::DocsisDevice.bit();
    SystemCapabilitiesTLV::new(supported, enabled).unwrap()
}

#[test]
fn systemcapabilities_tlv_test_type() {
    let tlv = set_up();
    assert_eq!(tlv.tlv_type().code(), TlvType::SystemCapabilities.code());
}

#[test]
fn systemcapabilities_tlv_test_length() {
    let tlv = set_up();
    assert_eq!(tlv.len() as u8, 4);
}

#[test]
fn systemcapabilities_tlv_test_value() {
    let tlv = set_up();
    assert_eq!(tlv.value, 0x005c0054);
}

#[test]
fn systemcapabilities_tlv_test_dump() {
    let tlv = set_up();
    assert_eq!(tlv.bytes(), b"\x0e\x04\x00\x5C\x00\x54".to_vec());
}

#[test]
fn systemcapabilities_tlv_test_load() {
    let tlv = SystemCapabilitiesTLV::new_from_bytes(b"\x0e\x04\x00\x14\x00\x04".as_ref()).unwrap();
    assert_eq!(tlv.tlv_type().code(), TlvType::SystemCapabilities.code());
    assert_eq!(tlv.len() as u8, 4);
    assert_eq!(
        (tlv.value & 0xFFFF0000) >> 16,
        20,
        "Expected only BRIDGE and ROUTER capabilities to be supported."
    );
    assert_eq!(
        tlv.value & 0xFFFF,
        4,
        "Expected only BRIDGE capability to be enabled."
    );
}

#[test]
fn test_supports() {
    let tlv = set_up();
    assert!(tlv.supports(
        SystemCapability::WlanAP.bit()
            | SystemCapability::Bridge.bit()
            | SystemCapability::Router.bit()
            | SystemCapability::DocsisDevice.bit()
    ));
    for cap in [SystemCapability::WlanAP.bit()
        | SystemCapability::Bridge.bit()
        | SystemCapability::Router.bit()
        | SystemCapability::DocsisDevice.bit()]
    {
        assert!(tlv.supports(cap));
    }
    for cap in [SystemCapability::Other.bit()
        | SystemCapability::Repeater.bit()
        | SystemCapability::Telephone.bit()
        | SystemCapability::StationOnly.bit()
        | SystemCapability::CVlanComponent.bit()
        | SystemCapability::SVlanComponent.bit()
        | SystemCapability::TwoPortMacRelay.bit()]
    {
        assert!(!tlv.supports(cap));
    }
    // Reserved bits should not be used
    assert!(!tlv.supports(0xF800));
}

#[test]
fn test_enabled() {
    let tlv = set_up();
    assert!(tlv.supports(
        SystemCapability::Bridge.bit()
            | SystemCapability::Router.bit()
            | SystemCapability::DocsisDevice.bit()
    ));
    for cap in [SystemCapability::Bridge.bit()
        | SystemCapability::Router.bit()
        | SystemCapability::DocsisDevice.bit()]
    {
        assert!(tlv.supports(cap));
    }
    for cap in [SystemCapability::Other.bit()
        | SystemCapability::Repeater.bit()
        | SystemCapability::WlanAP.bit()
        | SystemCapability::Telephone.bit()
        | SystemCapability::StationOnly.bit()
        | SystemCapability::CVlanComponent.bit()
        | SystemCapability::SVlanComponent.bit()
        | SystemCapability::TwoPortMacRelay.bit()]
    {
        assert!(!tlv.supports(cap));
    }
    // Reserved bits should not be used
    assert!(!tlv.supports(0xF800));
}

#[test]
#[should_panic]
fn test_capability_mismatch() {
    SystemCapabilitiesTLV::new(
        SystemCapability::StationOnly.bit(),
        SystemCapability::WlanAP.bit(),
    )
    .unwrap();
}

#[test]
#[should_panic]
fn test_load_capability_mismatch() {
    SystemCapabilitiesTLV::new_from_bytes(b"\x0e\x04\x00\x00\x00\x14".as_ref()).unwrap();
}

#[test]
fn systemcapabilities_tlv_test_display() {
    let tlv = set_up();
    assert_eq!(tlv.render(), "SystemCapabilitiesTLV(92, 84)")
}
