use lldp::ip::IpAddress;
use lldp::tlv::chassisid_tlv::{ChassisIdSubType, ChassisIdTLV, ChassisIdValue};
use lldp::tlv::TlvType;

/// The sixteen octets of an IPv6 address given as its eight groups.
fn v6(groups: [u16; 8]) -> [u8; 16] {
    let mut out = [0u8; 16];
    for (i, g) in groups.iter().enumerate() {
        out[2 * i] = (g >> 8) as u8;
        out[2 * i + 1] = (g & 0xff) as u8;
    }
    out
}

fn set_up() -> (ChassisIdTLV, ChassisIdSubType, ChassisIdValue) {
    let value: ChassisIdValue = ChassisIdValue::Other(String::from("Terok Nor"));
    let subtype: ChassisIdSubType = ChassisIdSubType::Local;
    (
        ChassisIdTLV::new(subtype.clone(), value.clone()).unwrap(),
        subtype,
        value,
    )
}

#[test]
fn chassisid_tlv_test_type() {
    let (cidtlv, _, _) = set_up();
    assert_eq!(cidtlv.tlv_type().code(), TlvType::ChassisId.code());
    assert_eq!(cidtlv.tlv_type().code(), 1);
}

#[test]
fn chassisid_tlv_test_length() {
    let (cidtlv, _, value) = set_up();
    match value {
        ChassisIdValue::Other(s) => assert_eq!(cidtlv.len(), s.len() + 1),
        _ => unreachable!(),
    }
}

#[test]
fn chassisid_tlv_test_value() {
    let (cidtlv, _, value) = set_up();

    let value_str = match value {
        ChassisIdValue::Other(s) => s,
        _ => unreachable!(),
    };

    match cidtlv.value {
        ChassisIdValue::Other(cidtlv_value) => {
            assert_eq!(cidtlv_value, value_str)
        }
        v => panic!("expected OTHER, got {:?}", v),
    }
}

#[test]
fn chassisid_tlv_test_subtype() {
    let (cidtlv, subtype, _) = set_up();
    assert_eq!(cidtlv.subtype.code(), subtype.code());
}

#[test]
fn chassisid_tlv_test_generic_subtypes() {
    let value_string = "Terok Nor";
    let value = ChassisIdValue::Other(String::from(value_string));
    for subtype in [
        ChassisIdSubType::ChassisComponent,
        ChassisIdSubType::InterfaceAlias,
        ChassisIdSubType::PortComponent,
        ChassisIdSubType::InterfaceName,
        ChassisIdSubType::Local,
    ] {
        let tlv = ChassisIdTLV::new(subtype.clone(), value.clone()).unwrap();
        assert_eq!(tlv.subtype.code(), subtype.code());
        match tlv.value {
            ChassisIdValue::Other(s) => assert_eq!(s, value_string),
            v => panic!("expected OTHER, got {:?}", v),
        }
    }
}

#[test]
fn test_mac_subtype_dump() {
    let tlv = ChassisIdTLV::new(
        ChassisIdSubType::MacAddress,
        ChassisIdValue::Mac(b"\x00\x22\x12\xAA\xBB\xCC".to_vec()),
    )
    .unwrap();
    assert_eq!(
        tlv.bytes(),
        b"\x02\x07\x04\x00\x22\x12\xAA\xBB\xCC".to_vec()
    );
}

#[test]
fn test_mac_subtype_load() {
    let tlv = ChassisIdTLV::new_from_bytes(b"\x02\x07\x04\x00\x22\x12\xAA\xBB\xCC".as_ref()).unwrap();
    assert_eq!(tlv.subtype.code(), ChassisIdSubType::MacAddress.code());
    match tlv.value {
        ChassisIdValue::Mac(mac) => assert_eq!(mac, b"\x00\x22\x12\xAA\xBB\xCC".to_vec()),
        v => panic!("expected MAC, got {:?}", v),
    }
}

#[test]
fn chassisid_tlv_test_address_subtype_ipv4_dump() {
    let value: [u8; 4] = [192, 0, 2, 100];
    let tlv = ChassisIdTLV::new(
        ChassisIdSubType::NetworkAddress,
        ChassisIdValue::IpAddress(IpAddress::V4(value)),
    )
    .unwrap();

    assert_eq!(tlv.bytes(), b"\x02\x06\x05\x01\xc0\x00\x02\x64".to_vec());
}

#[test]
fn chassisid_tlv_test_address_subtype_ipv6_dump() {
    let value = v6([0x20db, 0, 0, 0, 0, 0, 0, 1]);
    let tlv = ChassisIdTLV::new(
        ChassisIdSubType::NetworkAddress,
        ChassisIdValue::IpAddress(IpAddress::V6(value)),
    )
    .unwrap();
    assert_eq!(
        tlv.bytes(),
        b"\x02\x12\x05\x02\x20\xdb\x00\x00\x00\x00\x00\x00\x00\x00\x00\x00\x00\x00\x00\x01"
            .to_vec()
    );
}

#[test]
fn test_load_generic() {
    let tlv = ChassisIdTLV::new_from_bytes(b"\x02\x09\x07Unittest".as_ref()).unwrap();
    assert_eq!(tlv.subtype.code(), ChassisIdSubType::Local.code());
    match tlv.value {
        ChassisIdValue::Other(s) => assert_eq!(s, String::from("Unittest")),
        v => panic!("expected OTHER, got {:?}", v),
    }
}

#[test]
fn test_load_generic_unicode() {
    let tlv = ChassisIdTLV::new_from_bytes(
        b"\x02\x0d\x07\xe5\x8d\x95\xe5\x85\x83\xe6\xb5\x8b\xe8\xaf\x95".as_ref(),
    )
    .unwrap();
    assert_eq!(tlv.subtype.code(), ChassisIdSubType::Local.code());
    match tlv.value {
        ChassisIdValue::Other(s) => assert_eq!(s, String::from("单元测试")),
        v => panic!("expected OTHER, got {:?}", v),
    }
}

#[test]
fn test_load_mac() {
    let tlv = ChassisIdTLV::new_from_bytes(b"\x02\x07\x04\xc8\xbc\xc8\x94\x92\xca".as_ref()).unwrap();
    assert_eq!(tlv.subtype.code(), ChassisIdSubType::MacAddress.code());
    match tlv.value {
        ChassisIdValue::Mac(mac) => assert_eq!(mac, b"\xc8\xbc\xc8\x94\x92\xca".to_vec()),
        v => panic!("expected MAC, got {:?}", v),
    }
}

#[test]
fn chassisid_tlv_test_load_ipv4() {
    let tlv = ChassisIdTLV::new_from_bytes(b"\x02\x06\x05\x01\xc0\x00\x02\x0e".as_ref()).unwrap();
    assert_eq!(tlv.subtype.code(), ChassisIdSubType::NetworkAddress.code());
    match tlv.value {
        ChassisIdValue::IpAddress(ip) => match ip {
            IpAddress::V4(ip) => {
                assert_eq!(ip, [192, 0, 2, 14]);
            }
            addr => panic!("expected Ipv4 address, got {:?}", addr),
        },
        v => panic!("expected IPADDRESS, got {:?}", v),
    };
}

#[test]
fn chassisid_tlv_test_load_ipv6() {
    let tlv = ChassisIdTLV::new_from_bytes(
        b"\x02\x12\x05\x02\x20\x01\x00\xdb\x00\x00\x00\x00\x00\x00\x00\x00\x00\xff\x00\x12"
            .as_ref(),
    )
    .unwrap();
    assert_eq!(tlv.subtype.code(), ChassisIdSubType::NetworkAddress.code());
    match tlv.value {
        ChassisIdValue::IpAddress(ip) => match ip {
            IpAddress::V6(ip) => {
                let parsed = v6([0x2001, 0xdb, 0, 0, 0, 0, 0xff, 0x12]);
                assert_eq!(ip, parsed);
            }
            addr => panic!("expected Ipv4 address, got {:?}", addr),
        },
        v => panic!("expected IPADDRESS, got {:?}", v),
    };
}

#[test]
#[should_panic]
fn test_load_invalid_generic() {
    ChassisIdTLV::new_from_bytes(b"\x02\x0a\x07\x55\x6e\x69\x74\x74\x65\x73\x74".as_ref()).unwrap();
}

#[test]
#[should_panic]
fn test_load_invalid_mac() {
    ChassisIdTLV::new_from_bytes(b"\x02\x08\x04\xc8\xbc\xc8\x94\x92\xca\x11".as_ref()).unwrap();
}

#[test]
#[should_panic]
fn chassisid_tlv_test_load_invalid_ipv4() {
    ChassisIdTLV::new_from_bytes(b"\x02\x04\x05\xc0\x00\x02".as_ref()).unwrap();
}

#[test]
#[should_panic]
fn chassisid_tlv_test_load_invalid_ipv6() {
    ChassisIdTLV::new_from_bytes(
        b"\x02\x10\x05\x20\x01\x00\xdb\x00\x00\x00\x00\x00\x00\x00\x00\x00\xff\x00".as_ref(),
    )
    .unwrap();
}

#[test]
fn chassisid_tlv_test_display1() {
    let tlv = ChassisIdTLV::new(
        ChassisIdSubType::Local,
        ChassisIdValue::Other("Pablo's Computer".into()),
    )
    .unwrap();

    assert_eq!(tlv.render(), "ChassisIdTLV(7, \"Pablo's Computer\")")
}

#[test]
fn test_display2() {
    let tlv = ChassisIdTLV::new(
        ChassisIdSubType::MacAddress,
        ChassisIdValue::Mac(vec![0x66, 0x6F, 0x6F, 0x62, 0x61, 0x72]),
    )
    .unwrap();

    let s = tlv.render();
    let addr = s.get(17..34).unwrap();

    assert_eq!(addr.to_lowercase(), "66:6f:6f:62:61:72");
}

#[test]
fn test_display3() {
    let tlv = ChassisIdTLV::new(
        ChassisIdSubType::NetworkAddress,
        ChassisIdValue::IpAddress(IpAddress::V4([127, 0, 0, 1])),
    )
    .unwrap();

    assert_eq!(tlv.render(), "ChassisIdTLV(5, \"127.0.0.1\")")
}
