//! The registry of record kinds, the model every record is specified
//! against, and the tagged union that dispatches to the per-kind codecs.
use vstd::prelude::*;
use vstd::utf8::*;
use crate::codec::{
    MAX_VALUE_LEN, be16, be32, from_be16, from_be32, header_bytes, header_code, header_len, lemma_be16_round_trip,
    lemma_be32_round_trip, lemma_from_be16_round_trip, lemma_from_be32_round_trip,
    lemma_header_round_trip,
};
use crate::error::LldpError;
use crate::ip::{family_of_len, is_address};
use crate::text::{address_text, decimal, hex_string, mac_text};
use crate::tlv::chassisid_tlv::ChassisIdSubType;
use crate::tlv::ident::{
    decode_id_value, id_value_bytes, id_value_len, id_value_wf, lemma_id_value_decode_encode,
    lemma_id_value_round_trip, IdValue,
};
use crate::tlv::chassisid_tlv::lemma_chassis_subtype_code;
use crate::tlv::managementaddress_tlv::IFNumberingSubtype;
use crate::tlv::chassisid_tlv::ChassisIdTLV;
use crate::tlv::eolldpdu_tlv::EndOfLLDPDUTLV;
use crate::tlv::managementaddress_tlv::ManagementAddressTLV;
use crate::tlv::organizationallyspecific_tlv::OrganizationallySpecificTLV;
use crate::tlv::portdescription_tlv::PortDescriptionTLV;
use crate::tlv::portid_tlv::{lemma_port_subtype_code, PortIdSubtype, PortIdTLV};
use crate::tlv::systemcapabilities_tlv::SystemCapabilitiesTLV;
use crate::tlv::systemdescription_tlv::SystemDescriptionTLV;
use crate::tlv::systemname_tlv::SystemNameTLV;
use crate::tlv::ttl_tlv::TtlTLV;

pub mod chassisid_tlv;
pub mod eolldpdu_tlv;
pub mod ident;
pub mod managementaddress_tlv;
pub mod organizationallyspecific_tlv;
pub mod portdescription_tlv;
pub mod portid_tlv;
pub mod systemcapabilities_tlv;
pub mod systemdescription_tlv;
pub mod systemname_tlv;
pub mod ttl_tlv;

verus! {

/// The kinds of record, each with a fixed 7-bit code on the wire.
#[derive(Debug, Clone, Copy, PartialEq, Eq, Structural, Hash)]
pub enum TlvType {
    EndOfLLDPDU,
    ChassisId,
    PortId,
    Ttl,
    PortDescription,
    SystemName,
    SystemDescription,
    SystemCapabilities,
    ManagementAddress,
    OrganizationallySpecific,
}

impl TlvType {
    pub open spec fn spec_code(&self) -> u8 {
        match *self {
            TlvType::EndOfLLDPDU => 0,
            TlvType::ChassisId => 1,
            TlvType::PortId => 2,
            TlvType::Ttl => 3,
            TlvType::PortDescription => 4,
            TlvType::SystemName => 5,
            TlvType::SystemDescription => 6,
            TlvType::SystemCapabilities => 7,
            TlvType::ManagementAddress => 8,
            TlvType::OrganizationallySpecific => 127,
        }
    }

    /// The kind's code on the wire.
    #[verifier::when_used_as_spec(spec_code)]
    pub fn code(&self) -> (r: u8)
        ensures
            r == self.spec_code(),
            r <= 127,
    {
        match *self {
            TlvType::EndOfLLDPDU => 0,
            TlvType::ChassisId => 1,
            TlvType::PortId => 2,
            TlvType::Ttl => 3,
            TlvType::PortDescription => 4,
            TlvType::SystemName => 5,
            TlvType::SystemDescription => 6,
            TlvType::SystemCapabilities => 7,
            TlvType::ManagementAddress => 8,
            TlvType::OrganizationallySpecific => 127,
        }
    }

    pub open spec fn spec_from_code(c: u8) -> Option<TlvType> {
        if c == 0 {
            Some(TlvType::EndOfLLDPDU)
        } else if c == 1 {
            Some(TlvType::ChassisId)
        } else if c == 2 {
            Some(TlvType::PortId)
        } else if c == 3 {
            Some(TlvType::Ttl)
        } else if c == 4 {
            Some(TlvType::PortDescription)
        } else if c == 5 {
            Some(TlvType::SystemName)
        } else if c == 6 {
            Some(TlvType::SystemDescription)
        } else if c == 7 {
            Some(TlvType::SystemCapabilities)
        } else if c == 8 {
            Some(TlvType::ManagementAddress)
        } else if c == 127 {
            Some(TlvType::OrganizationallySpecific)
        } else {
            None
        }
    }

    /// The kind whose code is `c`, if any.
    pub fn from_code(c: u8) -> (r: Option<TlvType>)
        ensures
            r == Self::spec_from_code(c),
            r matches Some(k) ==> k.spec_code() == c,
    {
        match c {
            0 => Some(TlvType::EndOfLLDPDU),
            1 => Some(TlvType::ChassisId),
            2 => Some(TlvType::PortId),
            3 => Some(TlvType::Ttl),
            4 => Some(TlvType::PortDescription),
            5 => Some(TlvType::SystemName),
            6 => Some(TlvType::SystemDescription),
            7 => Some(TlvType::SystemCapabilities),
            8 => Some(TlvType::ManagementAddress),
            127 => Some(TlvType::OrganizationallySpecific),
            _ => None,
        }
    }

    /// Whether the kind is one of the three records every data unit starts with.
    pub open spec fn is_mandatory(self) -> bool {
        self == TlvType::ChassisId || self == TlvType::PortId || self == TlvType::Ttl
    }
}

pub proof fn lemma_code_round_trip(k: TlvType)
    ensures
        TlvType::spec_from_code(k.spec_code()) == Some(k),
{
}

/// Largest text of the description and name records, in encoded bytes.
pub const MAX_TEXT: usize = 255;

/// Largest object identifier of a management address.
pub const MAX_OID: usize = 128;

/// Largest organizationally defined information.
pub const MAX_ORG_INFO: usize = 507;

/// The model of one record: its kind and the fields that kind carries.
#[allow(inconsistent_fields)]
pub enum TlvView {
    ChassisId { subtype: ChassisIdSubType, value: IdValue },
    PortId { subtype: PortIdSubtype, value: IdValue },
    Ttl { seconds: u16 },
    EndOfLldpdu,
    PortDescription { text: Seq<char> },
    SystemName { text: Seq<char> },
    SystemDescription { text: Seq<char> },
    SystemCapabilities { supported: u16, enabled: u16 },
    ManagementAddress {
        address: Seq<u8>,
        interface_number: u32,
        subtype: IFNumberingSubtype,
        oid: Seq<u8>,
    },
    OrganizationallySpecific { oui: Seq<u8>, subtype: u8, info: Seq<u8> },
}

impl TlvView {
    pub open spec fn kind(self) -> TlvType {
        match self {
            TlvView::ChassisId { .. } => TlvType::ChassisId,
            TlvView::PortId { .. } => TlvType::PortId,
            TlvView::Ttl { .. } => TlvType::Ttl,
            TlvView::EndOfLldpdu => TlvType::EndOfLLDPDU,
            TlvView::PortDescription { .. } => TlvType::PortDescription,
            TlvView::SystemName { .. } => TlvType::SystemName,
            TlvView::SystemDescription { .. } => TlvType::SystemDescription,
            TlvView::SystemCapabilities { .. } => TlvType::SystemCapabilities,
            TlvView::ManagementAddress { .. } => TlvType::ManagementAddress,
            TlvView::OrganizationallySpecific { .. } => TlvType::OrganizationallySpecific,
        }
    }

    /// The field combinations that a record of each kind may carry.
    pub open spec fn wf(self) -> bool {
        match self {
            TlvView::ChassisId { subtype, value } => id_value_wf(subtype.spec_form(), value),
            TlvView::PortId { subtype, value } => id_value_wf(subtype.spec_form(), value),
            TlvView::PortDescription { text } => encode_utf8(text).len() <= MAX_TEXT,
            TlvView::SystemName { text } => encode_utf8(text).len() <= MAX_TEXT,
            TlvView::SystemDescription { text } => encode_utf8(text).len() <= MAX_TEXT,
            TlvView::SystemCapabilities { supported, enabled } => enabled & supported == enabled,
            TlvView::ManagementAddress { address, oid, .. } => is_address(address) && oid.len()
                <= MAX_OID,
            TlvView::OrganizationallySpecific { oui, info, .. } => oui.len() == 3 && info.len()
                <= MAX_ORG_INFO,
            _ => true,
        }
    }

    /// Number of value bytes, the figure the header carries.
    pub open spec fn value_len(self) -> nat {
        match self {
            TlvView::ChassisId { value, .. } => 1 + id_value_len(value),
            TlvView::PortId { value, .. } => 1 + id_value_len(value),
            TlvView::Ttl { .. } => 2,
            TlvView::EndOfLldpdu => 0,
            TlvView::PortDescription { text } => encode_utf8(text).len(),
            TlvView::SystemName { text } => encode_utf8(text).len(),
            TlvView::SystemDescription { text } => encode_utf8(text).len(),
            TlvView::SystemCapabilities { .. } => 4,
            TlvView::ManagementAddress { address, oid, .. } => 8 + address.len() + oid.len(),
            TlvView::OrganizationallySpecific { info, .. } => 4 + info.len(),
        }
    }

    /// The value bytes that follow the header.
    pub open spec fn value_bytes(self) -> Seq<u8> {
        match self {
            TlvView::ChassisId { subtype, value } => seq![subtype.spec_code()] + id_value_bytes(
                value,
            ),
            TlvView::PortId { subtype, value } => seq![subtype.spec_code()] + id_value_bytes(value),
            TlvView::Ttl { seconds } => be16(seconds),
            TlvView::EndOfLldpdu => Seq::empty(),
            TlvView::PortDescription { text } => encode_utf8(text),
            TlvView::SystemName { text } => encode_utf8(text),
            TlvView::SystemDescription { text } => encode_utf8(text),
            TlvView::SystemCapabilities { supported, enabled } => be16(supported) + be16(enabled),
            TlvView::ManagementAddress { address, interface_number, subtype, oid } => seq![
                (1 + address.len()) as u8,
                family_of_len(address.len()),
            ] + address + seq![subtype.spec_code()] + be32(interface_number) + seq![
                oid.len() as u8,
            ] + oid,
            TlvView::OrganizationallySpecific { oui, subtype, info } => oui + seq![subtype] + info,
        }
    }

    /// The record's text form, `KindName(field, ...)`.
    pub open spec fn render(self) -> Seq<char> {
        match self {
            TlvView::ChassisId { subtype, value } => "ChassisIdTLV("@ + decimal(
                subtype.spec_code() as nat,
            ) + ", \""@ + id_text(value) + "\")"@,
            TlvView::PortId { subtype, value } => "PortIdTLV("@ + decimal(subtype.spec_code() as nat)
                + ", \""@ + id_text(value) + "\")"@,
            TlvView::Ttl { seconds } => "TtlTLV("@ + decimal(seconds as nat) + ")"@,
            TlvView::EndOfLldpdu => "EndOfLLDPDUTLV"@,
            TlvView::PortDescription { text } => "PortDescriptionTLV(\""@ + text + "\")"@,
            TlvView::SystemName { text } => "SystemNameTLV(\""@ + text + "\")"@,
            TlvView::SystemDescription { text } => "SystemDescriptionTLV(\""@ + text + "\")"@,
            TlvView::SystemCapabilities { supported, enabled } => "SystemCapabilitiesTLV("@
                + decimal(supported as nat) + ", "@ + decimal(enabled as nat) + ")"@,
            TlvView::ManagementAddress { address, interface_number, oid, .. } =>
                "ManagementAddressTLV(\""@ + address_text(address) + "\", "@ + decimal(
                interface_number as nat,
            ) + ", \""@ + hex_string(oid) + "\")"@,
            TlvView::OrganizationallySpecific { oui, subtype, info } =>
                "OrganizationallySpecificTLV(\""@ + hex_string(oui) + "\", "@ + decimal(
                subtype as nat,
            ) + ", \""@ + hex_string(info) + "\")"@,
        }
    }

    /// The record on the wire: header, then value.
    pub open spec fn encode(self) -> Seq<u8> {
        header_bytes(self.kind().spec_code(), self.value_len()) + self.value_bytes()
    }
}

/// An identifier value in text: a MAC address as colon-joined hexadecimal
/// octets, a network address in its standard form, or the text itself.
pub open spec fn id_text(v: IdValue) -> Seq<char> {
    match v {
        IdValue::Mac(m) => mac_text(m),
        IdValue::Address(a) => address_text(a),
        IdValue::Text(t) => t,
    }
}

/// Reads the value of a Management Address record.
pub open spec fn decode_management_address(v: Seq<u8>) -> Result<TlvView, LldpError> {
    if v.len() < 12 {
        Err(LldpError::MalformedHeader)
    } else if !((v[1] == 1 && v[0] == 5) || (v[1] == 2 && v[0] == 17)) {
        Err(LldpError::InvalidEncoding)
    } else {
        let p = 1 + v[0];
        if v.len() < p + 6 {
            Err(LldpError::MalformedHeader)
        } else {
            match IFNumberingSubtype::spec_from_code(v[p]) {
                None => Err(LldpError::InvalidSubtype),
                Some(subtype) => if v[p + 5] != v.len() - (p + 6) {
                    Err(LldpError::MalformedHeader)
                } else if v[p + 5] > MAX_OID {
                    Err(LldpError::InvalidEncoding)
                } else {
                    Ok(
                        TlvView::ManagementAddress {
                            address: v.subrange(2, p),
                            interface_number: from_be32(v.subrange(p + 1, p + 5)),
                            subtype,
                            oid: v.subrange(p + 6, v.len() as int),
                        },
                    )
                },
            }
        }
    }
}

/// Reads the value of a text record of the given kind.
pub open spec fn decode_text_value(kind: TlvType, v: Seq<u8>) -> Result<TlvView, LldpError> {
    if v.len() > MAX_TEXT {
        Err(LldpError::MalformedHeader)
    } else if !valid_utf8(v) {
        Err(LldpError::InvalidEncoding)
    } else if kind == TlvType::PortDescription {
        Ok(TlvView::PortDescription { text: decode_utf8(v) })
    } else if kind == TlvType::SystemName {
        Ok(TlvView::SystemName { text: decode_utf8(v) })
    } else {
        Ok(TlvView::SystemDescription { text: decode_utf8(v) })
    }
}

/// Reads the value bytes `v` of a record of the given kind.
pub open spec fn decode_value(kind: TlvType, v: Seq<u8>) -> Result<TlvView, LldpError> {
    match kind {
        TlvType::EndOfLLDPDU => if v.len() == 0 {
            Ok(TlvView::EndOfLldpdu)
        } else {
            Err(LldpError::MalformedHeader)
        },
        TlvType::ChassisId => if v.len() < 1 {
            Err(LldpError::MalformedHeader)
        } else {
            match ChassisIdSubType::spec_from_code(v[0]) {
                None => Err(LldpError::InvalidSubtype),
                Some(subtype) => match decode_id_value(
                    subtype.spec_form(),
                    v.subrange(1, v.len() as int),
                ) {
                    Ok(value) => Ok(TlvView::ChassisId { subtype, value }),
                    Err(e) => Err(e),
                },
            }
        },
        TlvType::PortId => if v.len() < 1 {
            Err(LldpError::MalformedHeader)
        } else {
            match PortIdSubtype::spec_from_code(v[0]) {
                None => Err(LldpError::InvalidSubtype),
                Some(subtype) => match decode_id_value(
                    subtype.spec_form(),
                    v.subrange(1, v.len() as int),
                ) {
                    Ok(value) => Ok(TlvView::PortId { subtype, value }),
                    Err(e) => Err(e),
                },
            }
        },
        TlvType::Ttl => if v.len() == 2 {
            Ok(TlvView::Ttl { seconds: from_be16(v) })
        } else {
            Err(LldpError::MalformedHeader)
        },
        TlvType::SystemCapabilities => if v.len() != 4 {
            Err(LldpError::MalformedHeader)
        } else {
            let supported = from_be16(v.subrange(0, 2));
            let enabled = from_be16(v.subrange(2, 4));
            if enabled & supported != enabled {
                Err(LldpError::CapabilityMismatch)
            } else {
                Ok(TlvView::SystemCapabilities { supported, enabled })
            }
        },
        TlvType::ManagementAddress => decode_management_address(v),
        TlvType::OrganizationallySpecific => if v.len() < 4 {
            Err(LldpError::MalformedHeader)
        } else {
            Ok(
                TlvView::OrganizationallySpecific {
                    oui: v.subrange(0, 3),
                    subtype: v[3],
                    info: v.subrange(4, v.len() as int),
                },
            )
        },
        _ => decode_text_value(kind, v),
    }
}

/// What is wrong with the header of `b` as one whole record of the given
/// kind, if anything.
pub open spec fn header_error(kind: TlvType, b: Seq<u8>) -> Option<LldpError> {
    if b.len() < 2 {
        Some(LldpError::MalformedHeader)
    } else if header_code(b[0]) != kind.spec_code() {
        Some(LldpError::UnknownTlvType)
    } else if b.len() != 2 + header_len(b[0], b[1]) {
        Some(LldpError::MalformedHeader)
    } else {
        None
    }
}

/// Reads `b`, which must be exactly one record of the given kind.
pub open spec fn decode_as(kind: TlvType, b: Seq<u8>) -> Result<TlvView, LldpError> {
    match header_error(kind, b) {
        Some(e) => Err(e),
        None => decode_value(kind, b.subrange(2, b.len() as int)),
    }
}

/// Reads `b`, which must be exactly one record of any registered kind.
pub open spec fn decode(b: Seq<u8>) -> Result<TlvView, LldpError> {
    if b.len() < 2 {
        Err(LldpError::MalformedHeader)
    } else {
        match TlvType::spec_from_code(header_code(b[0])) {
            None => Err(LldpError::UnknownTlvType),
            Some(kind) => decode_as(kind, b),
        }
    }
}

/// The value bytes of a well-formed record are `value_len` long, which fits
/// the 9-bit length field.
pub proof fn lemma_value_bytes_len(t: TlvView)
    requires
        t.wf(),
    ensures
        t.value_bytes().len() == t.value_len(),
        t.value_len() <= 511,
{
    match t {
        TlvView::ChassisId { subtype, value } => {
            lemma_id_value_round_trip(subtype.spec_form(), value);
        },
        TlvView::PortId { subtype, value } => {
            lemma_id_value_round_trip(subtype.spec_form(), value);
        },
        TlvView::Ttl { seconds } => {
            lemma_be16_round_trip(seconds);
        },
        TlvView::SystemCapabilities { supported, enabled } => {
            lemma_be16_round_trip(supported);
            lemma_be16_round_trip(enabled);
        },
        TlvView::ManagementAddress { interface_number, .. } => {
            lemma_be32_round_trip(interface_number);
        },
        _ => {},
    }
}

/// Header law: a well-formed record is encoded as its two header bytes and
/// then exactly `value_len` value bytes.
pub proof fn lemma_header_law(t: TlvView)
    requires
        t.wf(),
    ensures
        t.encode().len() == 2 + t.value_len(),
{
    lemma_value_bytes_len(t);
}

#[verifier::spinoff_prover]
proof fn lemma_decode_value_of_encoding(t: TlvView)
    requires
        t.wf(),
    ensures
        decode_value(t.kind(), t.value_bytes()) == Ok::<TlvView, LldpError>(t),
{
    broadcast use encode_utf8_valid_utf8, encode_utf8_decode_utf8;

    let v = t.value_bytes();
    match t {
        TlvView::ChassisId { subtype, value } => {
            lemma_chassis_subtype_code(subtype);
            lemma_id_value_round_trip(subtype.spec_form(), value);
            assert(v.subrange(1, v.len() as int) =~= id_value_bytes(value));
        },
        TlvView::PortId { subtype, value } => {
            lemma_port_subtype_code(subtype);
            lemma_id_value_round_trip(subtype.spec_form(), value);
            assert(v.subrange(1, v.len() as int) =~= id_value_bytes(value));
        },
        TlvView::Ttl { seconds } => {
            lemma_be16_round_trip(seconds);
        },
        TlvView::SystemCapabilities { supported, enabled } => {
            lemma_be16_round_trip(supported);
            lemma_be16_round_trip(enabled);
            assert(v.subrange(0, 2) =~= be16(supported));
            assert(v.subrange(2, 4) =~= be16(enabled));
        },
        TlvView::ManagementAddress { address, interface_number, subtype, oid } => {
            lemma_be32_round_trip(interface_number);
            let p: int = 2 + address.len() as int;
            let pre = seq![(1 + address.len()) as u8, family_of_len(address.len())];
            let tail = seq![subtype.spec_code()] + be32(interface_number) + seq![oid.len() as u8]
                + oid;
            assert(v =~= pre + (address + tail));
            assert((pre + (address + tail)).subrange(2, p) =~= address);
            assert(v[0] == p - 1);
            assert(v[p] == subtype.spec_code());
            assert(v.subrange(p + 1, p + 5) =~= be32(interface_number));
            assert(v[p + 5] == oid.len());
            assert(v.subrange(p + 6, v.len() as int) =~= oid);
        },
        TlvView::OrganizationallySpecific { oui, subtype, info } => {
            assert(v.subrange(0, 3) =~= oui);
            assert(v.subrange(4, v.len() as int) =~= info);
        },
        _ => {},
    }
}

/// Round trip: decoding the encoding of a well-formed record gives that
/// record back.
#[verifier::spinoff_prover]
pub proof fn lemma_decode_encode(t: TlvView)
    requires
        t.wf(),
    ensures
        decode(t.encode()) == Ok::<TlvView, LldpError>(t),
        decode_as(t.kind(), t.encode()) == Ok::<TlvView, LldpError>(t),
{
    let code = t.kind().spec_code();
    lemma_value_bytes_len(t);
    lemma_header_round_trip(code, t.value_len());
    lemma_code_round_trip(t.kind());
    let b = t.encode();
    assert(b.subrange(2, b.len() as int) =~= t.value_bytes());
    lemma_decode_value_of_encoding(t);
}

#[verifier::spinoff_prover]
pub proof fn lemma_value_of_decoding(kind: TlvType, v: Seq<u8>)
    requires
        decode_value(kind, v) is Ok,
        v.len() <= 511,
    ensures
        decode_value(kind, v)->Ok_0.wf(),
        decode_value(kind, v)->Ok_0.kind() == kind,
        decode_value(kind, v)->Ok_0.value_bytes() == v,
{
    broadcast use decode_utf8_encode_utf8;

    let t = decode_value(kind, v)->Ok_0;
    match kind {
        TlvType::ChassisId => {
            let rest = v.subrange(1, v.len() as int);
            lemma_id_value_decode_encode(t->ChassisId_subtype.spec_form(), rest);
            lemma_chassis_subtype_code(t->ChassisId_subtype);
            assert(t.value_bytes() =~= v);
        },
        TlvType::PortId => {
            let rest = v.subrange(1, v.len() as int);
            lemma_id_value_decode_encode(t->PortId_subtype.spec_form(), rest);
            lemma_port_subtype_code(t->PortId_subtype);
            assert(t.value_bytes() =~= v);
        },
        TlvType::Ttl => {
            lemma_from_be16_round_trip(v);
        },
        TlvType::SystemCapabilities => {
            lemma_from_be16_round_trip(v.subrange(0, 2));
            lemma_from_be16_round_trip(v.subrange(2, 4));
            assert(t.value_bytes() =~= v);
        },
        TlvType::ManagementAddress => {
            let p = 1 + v[0];
            lemma_from_be32_round_trip(v.subrange(p + 1, p + 5));
            assert(t.value_bytes() =~= v);
        },
        TlvType::OrganizationallySpecific => {
            assert(t.value_bytes() =~= v);
        },
        TlvType::EndOfLLDPDU => {
            assert(t.value_bytes() =~= v);
        },
        _ => {},
    }
}

/// Round trip: a buffer that decodes as one record is exactly the encoding
/// of what it decodes to, and that record is well formed.
#[verifier::spinoff_prover]
pub proof fn lemma_encode_decode(b: Seq<u8>)
    requires
        decode(b) is Ok,
    ensures
        decode(b)->Ok_0.wf(),
        decode(b)->Ok_0.encode() == b,
{
    let kind = TlvType::spec_from_code(header_code(b[0]))->Some_0;
    let v = b.subrange(2, b.len() as int);
    let t = decode(b)->Ok_0;
    lemma_value_of_decoding(kind, v);
    lemma_value_bytes_len(t);
    assert(header_bytes(t.kind().spec_code(), t.value_len()) =~= b.subrange(0, 2));
    assert(t.encode() =~= b);
}

/// What `decode_as` accepts is a well-formed record of the asked kind whose
/// value bytes are those of the buffer.
pub proof fn lemma_decode_as_wf(kind: TlvType, b: Seq<u8>)
    requires
        decode_as(kind, b) is Ok,
    ensures
        decode_as(kind, b)->Ok_0.wf(),
        decode_as(kind, b)->Ok_0.kind() == kind,
        decode_as(kind, b)->Ok_0.value_bytes() == b.subrange(2, b.len() as int),
{
    lemma_value_of_decoding(kind, b.subrange(2, b.len() as int));
}

/// Checks the header of `b` as one whole record of the given kind.
pub fn check_header(kind: TlvType, b: &[u8]) -> (r: Option<LldpError>)
    ensures
        r == header_error(kind, b@),
{
    let n = b.len();
    if n < 2 {
        return Some(LldpError::MalformedHeader);
    }
    if b[0] / 2 != kind.code() {
        return Some(LldpError::UnknownTlvType);
    }
    let len: usize = (b[0] % 2) as usize * 256 + b[1] as usize;
    if n - 2 != len {
        return Some(LldpError::MalformedHeader);
    }
    None
}

/// One record of any kind.
#[derive(Debug, Clone)]
pub enum Tlv {
    ChassisId(ChassisIdTLV),
    EndOfLldpdu(EndOfLLDPDUTLV),
    ManagementAddress(ManagementAddressTLV),
    OrganizationallySpecific(OrganizationallySpecificTLV),
    PortId(PortIdTLV),
    PortDescription(PortDescriptionTLV),
    SystemDescription(SystemDescriptionTLV),
    SystemName(SystemNameTLV),
    SystemCapabilities(SystemCapabilitiesTLV),
    Ttl(TtlTLV),
}

impl View for Tlv {
    type V = TlvView;

    open spec fn view(&self) -> TlvView {
        match self {
            Tlv::ChassisId(t) => t@,
            Tlv::EndOfLldpdu(t) => t@,
            Tlv::ManagementAddress(t) => t@,
            Tlv::OrganizationallySpecific(t) => t@,
            Tlv::PortId(t) => t@,
            Tlv::PortDescription(t) => t@,
            Tlv::SystemDescription(t) => t@,
            Tlv::SystemName(t) => t@,
            Tlv::SystemCapabilities(t) => t@,
            Tlv::Ttl(t) => t@,
        }
    }
}

impl Tlv {
    pub open spec fn wf(&self) -> bool {
        self@.wf()
    }

    /// The record's kind.
    pub fn get_type(&self) -> (r: TlvType)
        ensures
            r == self@.kind(),
    {
        match self {
            Tlv::ChassisId(t) => t.tlv_type(),
            Tlv::EndOfLldpdu(t) => t.tlv_type(),
            Tlv::ManagementAddress(t) => t.tlv_type(),
            Tlv::OrganizationallySpecific(t) => t.tlv_type(),
            Tlv::PortId(t) => t.tlv_type(),
            Tlv::PortDescription(t) => t.tlv_type(),
            Tlv::SystemDescription(t) => t.tlv_type(),
            Tlv::SystemName(t) => t.tlv_type(),
            Tlv::SystemCapabilities(t) => t.tlv_type(),
            Tlv::Ttl(t) => t.tlv_type(),
        }
    }

    /// Number of value bytes.
    pub fn len(&self) -> (r: usize)
        requires
            self.wf(),
        ensures
            r == self@.value_len(),
            r <= MAX_VALUE_LEN,
    {
        proof {
            lemma_value_bytes_len(self@);
        }
        match self {
            Tlv::ChassisId(t) => t.len(),
            Tlv::EndOfLldpdu(t) => t.len(),
            Tlv::ManagementAddress(t) => t.len(),
            Tlv::OrganizationallySpecific(t) => t.len(),
            Tlv::PortId(t) => t.len(),
            Tlv::PortDescription(t) => t.len(),
            Tlv::SystemDescription(t) => t.len(),
            Tlv::SystemName(t) => t.len(),
            Tlv::SystemCapabilities(t) => t.len(),
            Tlv::Ttl(t) => t.len(),
        }
    }

    /// The record's bytes on the wire.
    pub fn bytes(&self) -> (r: Vec<u8>)
        requires
            self.wf(),
        ensures
            r@ == self@.encode(),
            r@.len() == 2 + self@.value_len(),
    {
        proof {
            lemma_header_law(self@);
        }
        match self {
            Tlv::ChassisId(t) => t.bytes(),
            Tlv::EndOfLldpdu(t) => t.bytes(),
            Tlv::ManagementAddress(t) => t.bytes(),
            Tlv::OrganizationallySpecific(t) => t.bytes(),
            Tlv::PortId(t) => t.bytes(),
            Tlv::PortDescription(t) => t.bytes(),
            Tlv::SystemDescription(t) => t.bytes(),
            Tlv::SystemName(t) => t.bytes(),
            Tlv::SystemCapabilities(t) => t.bytes(),
            Tlv::Ttl(t) => t.bytes(),
        }
    }

    /// The record's text form.
    pub fn render(&self) -> (r: String)
        ensures
            r@ == self@.render(),
    {
        match self {
            Tlv::ChassisId(t) => t.render(),
            Tlv::EndOfLldpdu(t) => t.render(),
            Tlv::ManagementAddress(t) => t.render(),
            Tlv::OrganizationallySpecific(t) => t.render(),
            Tlv::PortId(t) => t.render(),
            Tlv::PortDescription(t) => t.render(),
            Tlv::SystemDescription(t) => t.render(),
            Tlv::SystemName(t) => t.render(),
            Tlv::SystemCapabilities(t) => t.render(),
            Tlv::Ttl(t) => t.render(),
        }
    }

    /// The value length that the header at the start of `bytes` declares, if
    /// there are two header bytes.
    pub fn get_length(bytes: &[u8]) -> (r: Option<u16>)
        ensures
            bytes@.len() < 2 ==> r is None,
            bytes@.len() >= 2 ==> r == Some(header_len(bytes@[0], bytes@[1]) as u16),
    {
        if bytes.len() < 2 {
            return None;
        }
        Some((bytes[0] % 2) as u16 * 256 + bytes[1] as u16)
    }

    /// Reads `bytes`, which must hold exactly one record, by the decoder of
    /// the kind its type code names.
    #[verifier::spinoff_prover]
    pub fn from_bytes(bytes: &[u8]) -> (r: Result<Tlv, LldpError>)
        ensures
            match decode(bytes@) {
                Ok(v) => r matches Ok(t) && t@ == v && t.wf(),
                Err(e) => r == Err::<Tlv, LldpError>(e),
            },
    {
        if bytes.len() < 2 {
            return Err(LldpError::MalformedHeader);
        }
        let kind = match TlvType::from_code(bytes[0] / 2) {
            Some(k) => k,
            None => return Err(LldpError::UnknownTlvType),
        };
        match kind {
            TlvType::ChassisId => match ChassisIdTLV::new_from_bytes(bytes) {
                Ok(t) => Ok(Tlv::ChassisId(t)),
                Err(e) => Err(e),
            },
            TlvType::PortId => match PortIdTLV::new_from_bytes(bytes) {
                Ok(t) => Ok(Tlv::PortId(t)),
                Err(e) => Err(e),
            },
            TlvType::Ttl => match TtlTLV::new_from_bytes(bytes) {
                Ok(t) => Ok(Tlv::Ttl(t)),
                Err(e) => Err(e),
            },
            TlvType::EndOfLLDPDU => match EndOfLLDPDUTLV::new_from_bytes(bytes) {
                Ok(t) => Ok(Tlv::EndOfLldpdu(t)),
                Err(e) => Err(e),
            },
            TlvType::PortDescription => match PortDescriptionTLV::new_from_bytes(bytes) {
                Ok(t) => Ok(Tlv::PortDescription(t)),
                Err(e) => Err(e),
            },
            TlvType::SystemName => match SystemNameTLV::new_from_bytes(bytes) {
                Ok(t) => Ok(Tlv::SystemName(t)),
                Err(e) => Err(e),
            },
            TlvType::SystemDescription => match SystemDescriptionTLV::new_from_bytes(bytes) {
                Ok(t) => Ok(Tlv::SystemDescription(t)),
                Err(e) => Err(e),
            },
            TlvType::SystemCapabilities => match SystemCapabilitiesTLV::new_from_bytes(bytes) {
                Ok(t) => Ok(Tlv::SystemCapabilities(t)),
                Err(e) => Err(e),
            },
            TlvType::ManagementAddress => match ManagementAddressTLV::new_from_bytes(bytes) {
                Ok(t) => Ok(Tlv::ManagementAddress(t)),
                Err(e) => Err(e),
            },
            TlvType::OrganizationallySpecific => match OrganizationallySpecificTLV::new_from_bytes(
                bytes,
            ) {
                Ok(t) => Ok(Tlv::OrganizationallySpecific(t)),
                Err(e) => Err(e),
            },
        }
    }
}

} // verus!
