use bytes::BufMut;
use lldp::ip::IpAddress;
use lldp::tlv::managementaddress_tlv::{IFNumberingSubtype, ManagementAddressTLV};
use lldp::tlv::TlvType;

/// The sixteen octets of an IPv6 address given as its eight groups.
fn v6(groups: [u16; 8]) -> [u8; 16] {
    let mut out = [0u8; 16];
    for (i, g) in groups.iter().enumerate() {
        out[2 * i] = (g >> 8) as u8;
        out[2 * i + 1] = (g & 0xff) as u8;
    }
    out
}

fn set_up() -> (ManagementAddressTLV, ManagementAddressTLV) {
    let ipv4: [u8; 4] = [192, 0, 2, 100];
    let ipv6 = v6([0x2001, 0xdb, 0, 0, 0, 0, 0, 4]);
    let ifnum = 5;
    let oid = b"\x2b\x06\x01\x04\x01\x82\x37\x15\x14".to_vec();
    let tlv4 = ManagementAddressTLV::new(
        IpAddress::V4(ipv4),
        ifnum,
        IFNumberingSubtype::Unknown,
        oid.clone(),
    )
    .unwrap();
    let tlv6 = ManagementAddressTLV::new(
        IpAddress::V6(ipv6),
        ifnum,
        IFNumberingSubtype::Unknown,
        oid,
    )
    .unwrap();
    (tlv4, tlv6)
}

#[test]
fn test_chassisid_type() {
    let (tlv4, tlv6) = set_up();
    assert_eq!(tlv4.tlv_type().code(), TlvType::ManagementAddress.code());
    assert_eq!(tlv6.tlv_type().code(), TlvType::ManagementAddress.code());
}

#[test]
fn test_length_v4() {
    let (tlv4, _) = set_up();
    assert_eq!(
        tlv4.len(),
        12 + b"\x2b\x06\x01\x04\x01\x82\x37\x15\x14".to_vec().len()
    );
}

#[test]
fn test_length_v6() {
    let (_, tlv6) = set_up();
    assert_eq!(
        tlv6.len(),
        24 + b"\x2b\x06\x01\x04\x01\x82\x37\x15\x14".to_vec().len()
    );
}

#[test]
fn managementaddress_tlv_test_value() {
    let (tlv4, tlv6) = set_up();
    match tlv4.value {
        IpAddress::V4(ip) => {
            assert_eq!(ip, [192, 0, 2, 100]);
        }
        IpAddress::V6(_) => {
            panic!("Expected IPv4, got IPv6 address");
        }
    }
    match tlv6.value {
        IpAddress::V4(_) => {
            panic!("Expected IPv6, got IPv4 address");
        }
        IpAddress::V6(ip) => {
            let parsed = v6([0x2001, 0xdb, 0, 0, 0, 0, 0, 4]);
            assert_eq!(ip, parsed);
        }
    }
}

#[test]
fn test_oid() {
    let (tlv4, tlv6) = set_up();
    assert_eq!(tlv4.oid, b"\x2b\x06\x01\x04\x01\x82\x37\x15\x14".to_vec());
    assert_eq!(tlv6.oid, b"\x2b\x06\x01\x04\x01\x82\x37\x15\x14".to_vec());
}

#[test]
fn test_none_oid() {
    let (tlv4, tlv6) = set_up();
    let t1 = ManagementAddressTLV::new(tlv4.value, 5, IFNumberingSubtype::Unknown, vec![]).unwrap();
    let t2 = ManagementAddressTLV::new(tlv6.value, 5, IFNumberingSubtype::Unknown, vec![]).unwrap();
    assert_eq!(t1.oid, Vec::<u8>::new());
    assert_eq!(t2.oid, Vec::<u8>::new());
}

#[test]
fn test_dump_v4() {
    let (tlv4, _) = set_up();
    let oid = b"\x2b\x06\x01\x04\x01\x82\x37\x15\x14";
    let ipv4: [u8; 4] = [192, 0, 2, 100];

    let mut bytes = b"\x10".to_vec();
    bytes.put_u8(12 + oid.len() as u8);
    bytes.put(&b"\x05\x01"[..]);
    bytes.put(&ipv4[..]);
    bytes.put(&b"\x01"[..]);
    bytes.put_u32(5);
    bytes.put_u8(oid.len() as u8);
    bytes.put(&oid[..]);
    assert_eq!(tlv4.bytes(), bytes);

    assert_eq!(
        tlv4.bytes(),
        [16, 21, 5, 1, 192, 0, 2, 100, 1, 0, 0, 0, 5, 9, 43, 6, 1, 4, 1, 130, 55, 21, 20].to_vec()
    );
}

#[test]
fn test_dump_v6() {
    let (_, tlv6) = set_up();
    let oid = b"\x2b\x06\x01\x04\x01\x82\x37\x15\x14";
    let ipv6 = v6([0x2001, 0xdb, 0, 0, 0, 0, 0, 4]);

    let mut bytes = b"\x10".to_vec();
    bytes.put_u8(24 + oid.len() as u8);
    bytes.put(&b"\x11\x02"[..]);
    bytes.put(&ipv6[..]);
    bytes.put(&b"\x01"[..]);
    bytes.put_u32(5);
    bytes.put_u8(oid.len() as u8);
    bytes.put(&oid[..]);
    assert_eq!(tlv6.bytes(), bytes);

    assert_eq!(
        tlv6.bytes(),
        [
            16, 33, 17, 2, 32, 1, 0, 219, 0, 0, 0, 0, 0, 0, 0, 0, 0, 0, 0, 4, 1, 0, 0, 0, 5, 9,
            43, 6, 1, 4, 1, 130, 55, 21, 20
        ]
        .to_vec()
    );
}

#[test]
fn test_dump_zero_oid() {
    let ipv4: [u8; 4] = [192, 0, 2, 42];
    let tlv = ManagementAddressTLV::new(
        IpAddress::V4(ipv4),
        1,
        IFNumberingSubtype::SystemPort,
        vec![],
    )
    .unwrap();
    assert_eq!(
        tlv.bytes(),
        b"\x10\x0C\x05\x01\xC0\x00\x02*\x03\x00\x00\x00\x01\x00".to_vec()
    );
}

#[test]
fn test_load_v4() {
    let ipv4: [u8; 4] = [192, 0, 2, 42];

    let tlv = ManagementAddressTLV::new_from_bytes(
        b"\x10\x0D\x05\x01\xC0\x00\x02*\x02\x00\x00\x00\x01\x01\x0A",
    )
    .unwrap();
    assert_eq!(tlv.tlv_type().code(), TlvType::ManagementAddress.code());
    assert_eq!(tlv.subtype.code(), IFNumberingSubtype::IfIndex.code());
    match tlv.value {
        IpAddress::V4(ip) => {
            assert_eq!(ip, ipv4);
        }
        IpAddress::V6(_) => {
            panic!("Expected IPv4, got IPv6 address");
        }
    };
    assert_eq!(tlv.oid, b"\x0A".to_vec());
}

#[test]
fn test_load_v6() {
    let ipv6 = v6([0x2001, 0xdb, 0, 0, 0, 0, 0, 0x42]);

    let tlv = ManagementAddressTLV::new_from_bytes(
        b"\x10\x19\x11\x02 \x01\x00\xdb\x00\x00\x00\x00\x00\x00\x00\x00\x00\x00\x00B\x02\x00\x00\x00\x01\x01\x0A",
    )
    .unwrap();
    assert_eq!(tlv.tlv_type().code(), TlvType::ManagementAddress.code());
    assert_eq!(tlv.subtype.code(), IFNumberingSubtype::IfIndex.code());
    match tlv.value {
        IpAddress::V4(_) => {
            panic!("Expected IPv6, got IPv4 address");
        }
        IpAddress::V6(ip) => {
            assert_eq!(ip, ipv6);
        }
    };
    assert_eq!(tlv.oid, b"\x0A".to_vec());
}

#[test]
fn test_load_zero_oid() {
    let tlv = ManagementAddressTLV::new_from_bytes(
        b"\x10\x0C\x05\x01\xC0\x00\x02*\x03\x00\x00\x00\x01\x00",
    )
    .unwrap();
    assert_eq!(tlv.oid, Vec::<u8>::new());
}

#[test]
fn test_display_v4() {
    let (tlv, _) = set_up();
    assert_eq!(
        tlv.render(),
        "ManagementAddressTLV(\"192.0.2.100\", 5, \"2B0601040182371514\")"
    )
}

#[test]
fn test_display_v6() {
    let (_, tlv) = set_up();
    assert_eq!(
        tlv.render(),
        "ManagementAddressTLV(\"2001:db::4\", 5, \"2B0601040182371514\")"
    )
}
