use lldp::error::LldpError;
use lldp::ip::IpAddress;
use lldp::lldpdu::Lldpdu;
use lldp::tlv::chassisid_tlv::{ChassisIdSubType, ChassisIdTLV, ChassisIdValue};
use lldp::tlv::eolldpdu_tlv::EndOfLLDPDUTLV;
use lldp::tlv::managementaddress_tlv::{IFNumberingSubtype, ManagementAddressTLV};
use lldp::tlv::organizationallyspecific_tlv::OrganizationallySpecificTLV;
use lldp::tlv::portdescription_tlv::PortDescriptionTLV;
use lldp::tlv::portid_tlv::{PortIdSubtype, PortIdTLV, PortIdValue};
use lldp::tlv::systemcapabilities_tlv::SystemCapabilitiesTLV;
use lldp::tlv::systemdescription_tlv::SystemDescriptionTLV;
use lldp::tlv::systemname_tlv::SystemNameTLV;
use lldp::tlv::ttl_tlv::TtlTLV;
use lldp::tlv::{Tlv, TlvType};

fn one_of_each_kind() -> Vec<Tlv> {
    vec![
        Tlv::ChassisId(
            ChassisIdTLV::new(ChassisIdSubType::MacAddress, ChassisIdValue::Mac(vec![2, 4, 0xdf, 0x88, 0xa2, 0xb4]))
                .unwrap(),
        ),
        Tlv::ChassisId(
            ChassisIdTLV::new(
                ChassisIdSubType::NetworkAddress,
                ChassisIdValue::IpAddress(IpAddress::V6([0x20, 1, 0, 0xdb, 0, 0, 0, 0, 0, 0, 0, 0, 0, 0, 0, 7])),
            )
            .unwrap(),
        ),
        Tlv::PortId(PortIdTLV::new(PortIdSubtype::InterfaceName, PortIdValue::Other("eth0".into())).unwrap()),
        Tlv::PortId(
            PortIdTLV::new(PortIdSubtype::NetworkAddress, PortIdValue::IpAddress(IpAddress::V4([10, 0, 0, 1])))
                .unwrap(),
        ),
        Tlv::Ttl(TtlTLV::new(65535)),
        Tlv::EndOfLldpdu(EndOfLLDPDUTLV::new()),
        Tlv::PortDescription(PortDescriptionTLV::new("Uplink".into()).unwrap()),
        Tlv::SystemName(SystemNameTLV::new(String::new()).unwrap()),
        Tlv::SystemDescription(SystemDescriptionTLV::new("ünïcödé".into()).unwrap()),
        Tlv::SystemCapabilities(SystemCapabilitiesTLV::new(0x0014, 0x0004).unwrap()),
        Tlv::ManagementAddress(
            ManagementAddressTLV::new(IpAddress::V4([192, 0, 2, 1]), 0xdeadbeef, IFNumberingSubtype::SystemPort, vec![1, 2, 3])
                .unwrap(),
        ),
        Tlv::OrganizationallySpecific(OrganizationallySpecificTLV::new(vec![0, 0x12, 0x0f], 1, vec![9; 300]).unwrap()),
    ]
}

#[test]
fn round_trip_every_kind() {
    for tlv in one_of_each_kind() {
        let bytes = tlv.bytes();
        let decoded = Tlv::from_bytes(&bytes).unwrap();
        assert_eq!(decoded.get_type(), tlv.get_type());
        assert_eq!(decoded.bytes(), bytes);
        assert_eq!(decoded.render(), tlv.render());
    }
}

#[test]
fn round_trip_well_formed_bytes() {
    let buffers: Vec<&[u8]> = vec![
        b"\x02\x07\x04\x00\x22\x12\xAA\xBB\xCC",
        b"\x04\x06\x04\x01\xC0\x02\x00\x01",
        b"\x06\x02\x00\x78",
        b"\x00\x00",
        b"\x0e\x04\x00\x14\x00\x04",
        b"\x10\x0D\x05\x01\xC0\x00\x02*\x02\x00\x00\x00\x01\x01\x0A",
        b"\xFE\x1D\xAA\xBB\xCC\x1A0118 999 88199 9119 725 3",
        b"\x0A\x00",
    ];
    for b in buffers {
        assert_eq!(Tlv::from_bytes(b).unwrap().bytes(), b.to_vec());
    }
}

#[test]
fn header_law_every_kind() {
    for tlv in one_of_each_kind() {
        assert_eq!(tlv.bytes().len(), 2 + tlv.len());
        assert_eq!(Tlv::get_length(&tlv.bytes()), Some(tlv.len() as u16));
    }
}

#[test]
fn nine_bit_length_field() {
    let tlv = OrganizationallySpecificTLV::new(vec![0xaa, 0xbb, 0xcc], 7, vec![0x55; 300]).unwrap();
    let bytes = tlv.bytes();
    assert_eq!(tlv.len(), 304);
    assert_eq!(bytes[0], 0xFF);
    assert_eq!(bytes[1], 0x30);
    assert_eq!(bytes.len(), 306);
    let back = OrganizationallySpecificTLV::new_from_bytes(&bytes).unwrap();
    assert_eq!(back.value, vec![0x55; 300]);
    assert_eq!(Tlv::get_length(&bytes), Some(304));
}

#[test]
fn largest_organizationally_specific_value() {
    assert!(OrganizationallySpecificTLV::new(vec![1, 2, 3], 0, vec![0; 507]).is_ok());
    assert_eq!(
        OrganizationallySpecificTLV::new(vec![1, 2, 3], 0, vec![0; 508]).unwrap_err(),
        LldpError::InvalidEncoding
    );
    assert_eq!(
        OrganizationallySpecificTLV::new(vec![1, 2], 0, vec![]).unwrap_err(),
        LldpError::InvalidEncoding
    );
}

fn mandatory() -> Vec<Tlv> {
    vec![
        Tlv::ChassisId(ChassisIdTLV::new(ChassisIdSubType::Local, ChassisIdValue::Other("unittest".into())).unwrap()),
        Tlv::PortId(PortIdTLV::new(PortIdSubtype::Local, PortIdValue::Other("port(12)".into())).unwrap()),
        Tlv::Ttl(TtlTLV::new(120)),
    ]
}

#[test]
fn ordering_invariant_errors() {
    let m = mandatory();
    let mut l = Lldpdu::new(vec![]).unwrap();
    assert_eq!(l.append(m[1].clone()), Err(LldpError::OrderingViolation));
    assert_eq!(l.append(Tlv::EndOfLldpdu(EndOfLLDPDUTLV::new())), Err(LldpError::OrderingViolation));
    assert!(l.is_empty());
    l.append(m[0].clone()).unwrap();
    assert_eq!(l.append(m[2].clone()), Err(LldpError::OrderingViolation));
    l.append(m[1].clone()).unwrap();
    assert_eq!(l.append(m[0].clone()), Err(LldpError::OrderingViolation));
    l.append(m[2].clone()).unwrap();
    for t in &m {
        assert_eq!(l.append(t.clone()), Err(LldpError::DuplicateMandatory));
    }
    l.append(Tlv::PortDescription(PortDescriptionTLV::new("x".into()).unwrap())).unwrap();
    l.append(Tlv::EndOfLldpdu(EndOfLLDPDUTLV::new())).unwrap();
    assert_eq!(
        l.append(Tlv::PortDescription(PortDescriptionTLV::new("y".into()).unwrap())),
        Err(LldpError::TerminatorAlreadyPresent)
    );
    assert_eq!(l.len(), 5);
    let kinds: Vec<u8> = (0..l.len()).map(|i| l.getitem(i).get_type().code()).collect();
    assert_eq!(kinds, vec![1, 2, 3, 4, 0]);
    assert!(l.complete());
}

#[test]
fn size_boundary_exact() {
    // The three mandatory records take 11 + 11 + 4 = 26 bytes.
    let mut l = Lldpdu::new(mandatory()).unwrap();
    assert_eq!(l.bytes().len(), 26);
    let big = Tlv::OrganizationallySpecific(OrganizationallySpecificTLV::new(vec![1, 2, 3], 0, vec![0; 507]).unwrap());
    l.append(big.clone()).unwrap();
    l.append(big).unwrap();
    // 26 + 2 * 513 = 1052; 448 more bytes reach 1500 exactly.
    let fill = Tlv::OrganizationallySpecific(OrganizationallySpecificTLV::new(vec![1, 2, 3], 0, vec![0; 442]).unwrap());
    l.append(fill).unwrap();
    assert_eq!(l.bytes().len(), 1500);
    assert_eq!(l.append(Tlv::EndOfLldpdu(EndOfLLDPDUTLV::new())), Err(LldpError::SizeExceeded));
    assert_eq!(l.len(), 6);
    assert!(!l.complete());
}

#[test]
fn size_boundary_crossing_append() {
    let description = Tlv::SystemDescription(SystemDescriptionTLV::new("d".repeat(113)).unwrap());
    let mut l = Lldpdu::new(mandatory()).unwrap();
    // 26 + 12 * 115 = 1406 fits; the 13th would make 1521.
    for _ in 0..12 {
        l.append(description.clone()).unwrap();
    }
    assert_eq!(l.append(description.clone()), Err(LldpError::SizeExceeded));
    assert_eq!(l.bytes().len(), 1406);
}

#[test]
fn capability_law() {
    for (supported, enabled) in [(0u16, 0u16), (0x00ff, 0x000f), (0xffff, 0xffff), (0x0014, 0x0004)] {
        let tlv = SystemCapabilitiesTLV::new(supported, enabled).unwrap();
        assert_eq!(tlv.value, (supported as u32) << 16 | enabled as u32);
        assert!(tlv.enabled(enabled));
    }
    for (supported, enabled) in [(0u16, 1u16), (0x0080, 0x0008), (0x00f0, 0x00f1)] {
        assert_eq!(SystemCapabilitiesTLV::new(supported, enabled).unwrap_err(), LldpError::CapabilityMismatch);
    }
}

#[test]
fn encode_terminated_lldpdu() {
    let mut tlvs = mandatory();
    tlvs[2] = Tlv::Ttl(TtlTLV::new(400));
    tlvs.push(Tlv::EndOfLldpdu(EndOfLLDPDUTLV::new()));
    let l = Lldpdu::new(tlvs).unwrap();
    assert_eq!(l.bytes(), b"\x02\x09\x07unittest\x04\x09\x07port(12)\x06\x02\x01\x90\x00\x00".to_vec());
}

#[test]
fn decode_five_records() {
    let l = Lldpdu::from_bytes(b"\x02\x08\x07Voyager\x04\x06\x0710743\x06\x02\x00\xff\x08\x0bEngineering\x00\x00").unwrap();
    let kinds: Vec<TlvType> = (0..l.len()).map(|i| l.getitem(i).get_type()).collect();
    assert_eq!(
        kinds,
        vec![TlvType::ChassisId, TlvType::PortId, TlvType::Ttl, TlvType::PortDescription, TlvType::EndOfLLDPDU]
    );
    assert_eq!(
        l.render(),
        "LLDPDU(ChassisIdTLV(7, \"Voyager\"), PortIdTLV(7, \"10743\"), TtlTLV(255), PortDescriptionTLV(\"Engineering\"), EndOfLLDPDUTLV)"
    );
}

#[test]
fn decode_errors() {
    assert_eq!(Tlv::from_bytes(b"\x02").unwrap_err(), LldpError::MalformedHeader);
    assert_eq!(Tlv::from_bytes(b"\x06\x02\x00").unwrap_err(), LldpError::MalformedHeader);
    assert_eq!(Tlv::from_bytes(b"\x12\x00").unwrap_err(), LldpError::UnknownTlvType);
    assert_eq!(TtlTLV::new_from_bytes(b"\x08\x02\x00\x01").unwrap_err(), LldpError::UnknownTlvType);
    assert_eq!(Tlv::from_bytes(b"\x02\x02\x00\x41").unwrap_err(), LldpError::InvalidSubtype);
    assert_eq!(Tlv::from_bytes(b"\x04\x02\x08\x41").unwrap_err(), LldpError::InvalidSubtype);
    assert_eq!(Tlv::from_bytes(b"\x08\x01\xff").unwrap_err(), LldpError::InvalidEncoding);
    assert_eq!(Tlv::from_bytes(b"\x02\x03\x05\x03\x01").unwrap_err(), LldpError::InvalidEncoding);
    assert_eq!(Tlv::from_bytes(b"\x0e\x04\x00\x00\x00\x14").unwrap_err(), LldpError::CapabilityMismatch);
    assert_eq!(Tlv::from_bytes(b"\x00\x01\x00").unwrap_err(), LldpError::MalformedHeader);
    // Management address whose OID length byte disagrees with the record.
    assert_eq!(
        Tlv::from_bytes(b"\x10\x0D\x05\x01\xC0\x00\x02*\x02\x00\x00\x00\x01\x02\x0A").unwrap_err(),
        LldpError::MalformedHeader
    );
    // Management address with an interface numbering subtype of 4.
    assert_eq!(
        Tlv::from_bytes(b"\x10\x0C\x05\x01\xC0\x00\x02*\x04\x00\x00\x00\x01\x00").unwrap_err(),
        LldpError::InvalidSubtype
    );
    assert_eq!(Lldpdu::from_bytes(b"\x02\x08\x07Voyager\x04").unwrap_err(), LldpError::MalformedHeader);
    assert_eq!(Lldpdu::from_bytes(b"\x06\x02\x00\x78").unwrap_err(), LldpError::OrderingViolation);
    assert_eq!(Tlv::get_length(b"\x02"), None);
}

#[test]
fn construction_errors() {
    assert_eq!(
        ChassisIdTLV::new(ChassisIdSubType::MacAddress, ChassisIdValue::Other("x".into())).unwrap_err(),
        LldpError::InvalidSubtype
    );
    assert_eq!(
        ChassisIdTLV::new(ChassisIdSubType::MacAddress, ChassisIdValue::Mac(vec![1, 2, 3])).unwrap_err(),
        LldpError::InvalidEncoding
    );
    assert_eq!(
        PortIdTLV::new(PortIdSubtype::Local, PortIdValue::IpAddress(IpAddress::V4([1, 2, 3, 4]))).unwrap_err(),
        LldpError::InvalidSubtype
    );
    assert_eq!(
        PortIdTLV::new(PortIdSubtype::Local, PortIdValue::Other("p".repeat(256))).unwrap_err(),
        LldpError::InvalidEncoding
    );
    assert!(PortIdTLV::new(PortIdSubtype::Local, PortIdValue::Other("p".repeat(255))).is_ok());
    assert_eq!(SystemNameTLV::new("n".repeat(256)).unwrap_err(), LldpError::InvalidEncoding);
    assert!(SystemNameTLV::new("n".repeat(255)).is_ok());
    assert_eq!(
        ManagementAddressTLV::new(IpAddress::V4([1, 2, 3, 4]), 1, IFNumberingSubtype::IfIndex, vec![0; 129]).unwrap_err(),
        LldpError::InvalidEncoding
    );
}

#[test]
fn ipv6_text_forms() {
    let cases: Vec<([u8; 16], &str)> = vec![
        ([0; 16], "::"),
        ([0, 0, 0, 0, 0, 0, 0, 0, 0, 0, 0, 0, 0, 0, 0, 1], "::1"),
        ([0, 1, 0, 0, 0, 0, 0, 0, 0, 0, 0, 0, 0, 0, 0, 0], "1::"),
        ([0x20, 0x01, 0x0d, 0xb8, 0, 0, 0, 0, 0, 1, 0, 0, 0, 0, 0, 1], "2001:db8::1:0:0:1"),
        ([0x20, 0x01, 0x0d, 0xb8, 0, 0, 0, 1, 0, 1, 0, 1, 0, 1, 0, 1], "2001:db8:0:1:1:1:1:1"),
        ([0x20, 0x01, 0, 0, 0, 0, 0, 1, 0, 0, 0, 0, 0, 0, 0, 1], "2001:0:0:1::1"),
        ([0, 0, 0, 0, 0, 0, 0, 0, 0, 0, 0xff, 0xff, 192, 0, 2, 1], "::ffff:192.0.2.1"),
        ([0xfe, 0x80, 0, 0, 0, 0, 0, 0, 0xab, 0xcd, 0, 0x12, 0x0f, 0xff, 0xf0, 0], "fe80::abcd:12:fff:f000"),
    ];
    for (octets, text) in cases {
        let tlv = ManagementAddressTLV::new(IpAddress::V6(octets), 7, IFNumberingSubtype::Unknown, vec![]).unwrap();
        assert_eq!(tlv.render(), format!("ManagementAddressTLV(\"{}\", 7, \"\")", text));
    }
}

#[test]
fn mac_text_pads_octets() {
    let tlv = ChassisIdTLV::new(ChassisIdSubType::MacAddress, ChassisIdValue::Mac(vec![2, 4, 0xdf, 0x88, 0xa2, 0x0b])).unwrap();
    assert_eq!(tlv.render(), "ChassisIdTLV(4, \"02:04:DF:88:A2:0B\")");
    let v4 = PortIdTLV::new(PortIdSubtype::NetworkAddress, PortIdValue::IpAddress(IpAddress::V4([0, 10, 100, 255]))).unwrap();
    assert_eq!(v4.render(), "PortIdTLV(4, \"0.10.100.255\")");
}

#[test]
fn lldpdu_round_trip() {
    let input: &[u8] = b"\x02\x08\x07Voyager\x04\x06\x0710743\x06\x02\x00\xff\x08\x0bEngineering\x10\x0C\x05\x01\xC0\x00\x02*\x03\x00\x00\x00\x01\x00\x00\x00";
    let l = Lldpdu::from_bytes(input).unwrap();
    assert_eq!(l.bytes(), input.to_vec());
    let again = Lldpdu::from_bytes(&l.bytes()).unwrap();
    assert_eq!(again.render(), l.render());
    assert_eq!(again.len(), 6);
}
