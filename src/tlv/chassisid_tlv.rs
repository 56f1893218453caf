//! Chassis ID: the mandatory first record, naming the sending device.
use vstd::prelude::*;
use crate::codec::{copy_range, push_all, push_header, push_utf8, utf8_len};
use crate::error::LldpError;
use crate::text::{push_address_text, push_decimal, push_mac, push_str};
use crate::ip::IpAddress;
use crate::tlv::ident::{
    decode_address, decode_text, id_value_error, push_address, IdForm, IdValue, MAX_ID_TEXT,
};
use crate::tlv::{check_header, decode_as, lemma_decode_as_wf, lemma_value_bytes_len, TlvType, TlvView};

verus! {

/// How the chassis is identified.
#[derive(Debug, Clone, Copy, PartialEq, Eq, Structural)]
pub enum ChassisIdSubType {
    ChassisComponent,
    InterfaceAlias,
    PortComponent,
    MacAddress,
    NetworkAddress,
    InterfaceName,
    Local,
}

impl ChassisIdSubType {
    pub open spec fn spec_code(&self) -> u8 {
        match *self {
            ChassisIdSubType::ChassisComponent => 1,
            ChassisIdSubType::InterfaceAlias => 2,
            ChassisIdSubType::PortComponent => 3,
            ChassisIdSubType::MacAddress => 4,
            ChassisIdSubType::NetworkAddress => 5,
            ChassisIdSubType::InterfaceName => 6,
            ChassisIdSubType::Local => 7,
        }
    }

    /// The subtype's code on the wire.
    #[verifier::when_used_as_spec(spec_code)]
    pub fn code(&self) -> (r: u8)
        ensures
            r == self.spec_code(),
    {
        match *self {
            ChassisIdSubType::ChassisComponent => 1,
            ChassisIdSubType::InterfaceAlias => 2,
            ChassisIdSubType::PortComponent => 3,
            ChassisIdSubType::MacAddress => 4,
            ChassisIdSubType::NetworkAddress => 5,
            ChassisIdSubType::InterfaceName => 6,
            ChassisIdSubType::Local => 7,
        }
    }

    pub open spec fn spec_from_code(c: u8) -> Option<ChassisIdSubType> {
        if c == 1 {
            Some(ChassisIdSubType::ChassisComponent)
        } else if c == 2 {
            Some(ChassisIdSubType::InterfaceAlias)
        } else if c == 3 {
            Some(ChassisIdSubType::PortComponent)
        } else if c == 4 {
            Some(ChassisIdSubType::MacAddress)
        } else if c == 5 {
            Some(ChassisIdSubType::NetworkAddress)
        } else if c == 6 {
            Some(ChassisIdSubType::InterfaceName)
        } else if c == 7 {
            Some(ChassisIdSubType::Local)
        } else {
            None
        }
    }

    /// The subtype whose code is `c`, if any.
    pub fn from_code(c: u8) -> (r: Option<ChassisIdSubType>)
        ensures
            r == Self::spec_from_code(c),
    {
        match c {
            1 => Some(ChassisIdSubType::ChassisComponent),
            2 => Some(ChassisIdSubType::InterfaceAlias),
            3 => Some(ChassisIdSubType::PortComponent),
            4 => Some(ChassisIdSubType::MacAddress),
            5 => Some(ChassisIdSubType::NetworkAddress),
            6 => Some(ChassisIdSubType::InterfaceName),
            7 => Some(ChassisIdSubType::Local),
            _ => None,
        }
    }

    pub open spec fn spec_form(&self) -> IdForm {
        match *self {
            ChassisIdSubType::MacAddress => IdForm::Mac,
            ChassisIdSubType::NetworkAddress => IdForm::Network,
            _ => IdForm::Text,
        }
    }

    /// The form of value this subtype calls for.
    #[verifier::when_used_as_spec(spec_form)]
    pub fn form(&self) -> (r: IdForm)
        ensures
            r == self.spec_form(),
    {
        match *self {
            ChassisIdSubType::MacAddress => IdForm::Mac,
            ChassisIdSubType::NetworkAddress => IdForm::Network,
            _ => IdForm::Text,
        }
    }
}

pub proof fn lemma_chassis_subtype_code(s: ChassisIdSubType)
    ensures
        ChassisIdSubType::spec_from_code(s.spec_code()) == Some(s),
{
}

/// A chassis identifier: MAC address octets, a network address, or text.
#[derive(Debug, Clone, PartialEq)]
pub enum ChassisIdValue {
    Mac(Vec<u8>),
    IpAddress(IpAddress),
    Other(String),
}

impl View for ChassisIdValue {
    type V = IdValue;

    open spec fn view(&self) -> IdValue {
        match self {
            ChassisIdValue::Mac(m) => IdValue::Mac(m@),
            ChassisIdValue::IpAddress(a) => IdValue::Address(a@),
            ChassisIdValue::Other(s) => IdValue::Text(s@),
        }
    }
}

/// Chassis ID record. Its subtype decides the form of its value: a MAC
/// address of six octets for `MacAddress`, an IP address for
/// `NetworkAddress`, and text of at most 255 UTF-8 bytes otherwise.
#[derive(Debug, Clone)]
pub struct ChassisIdTLV {
    pub subtype: ChassisIdSubType,
    pub value: ChassisIdValue,
}

impl View for ChassisIdTLV {
    type V = TlvView;

    open spec fn view(&self) -> TlvView {
        TlvView::ChassisId { subtype: self.subtype, value: self.value@ }
    }
}

impl ChassisIdTLV {
    pub open spec fn wf(&self) -> bool {
        self@.wf()
    }

    /// A record with the given subtype and value, if the value has the form
    /// the subtype calls for.
    pub fn new(subtype: ChassisIdSubType, id: ChassisIdValue) -> (r: Result<
        ChassisIdTLV,
        LldpError,
    >)
        ensures
            match id_value_error(subtype.spec_form(), id@) {
                Some(e) => r == Err::<ChassisIdTLV, LldpError>(e),
                None => r matches Ok(t) && t.subtype == subtype && t.value == id && t.wf(),
            },
    {
        let err: Option<LldpError> = match subtype.form() {
            IdForm::Mac => match &id {
                ChassisIdValue::Mac(m) => if m.len() == 6 {
                    None
                } else {
                    Some(LldpError::InvalidEncoding)
                },
                _ => Some(LldpError::InvalidSubtype),
            },
            IdForm::Network => match &id {
                ChassisIdValue::IpAddress(_) => None,
                _ => Some(LldpError::InvalidSubtype),
            },
            IdForm::Text => match &id {
                ChassisIdValue::Other(s) => if utf8_len(s) <= MAX_ID_TEXT {
                    None
                } else {
                    Some(LldpError::InvalidEncoding)
                },
                _ => Some(LldpError::InvalidSubtype),
            },
        };
        match err {
            Some(e) => Err(e),
            None => Ok(ChassisIdTLV { subtype, value: id }),
        }
    }

    /// The record's kind.
    pub fn tlv_type(&self) -> (r: TlvType)
        ensures
            r == TlvType::ChassisId,
    {
        TlvType::ChassisId
    }

    /// Reads a record from `bytes`, which must hold exactly one Chassis ID
    /// record.
    pub fn new_from_bytes(bytes: &[u8]) -> (r: Result<ChassisIdTLV, LldpError>)
        ensures
            match decode_as(TlvType::ChassisId, bytes@) {
                Ok(v) => r matches Ok(t) && t@ == v && t.wf(),
                Err(e) => r == Err::<ChassisIdTLV, LldpError>(e),
            },
    {
        if let Some(e) = check_header(TlvType::ChassisId, bytes) {
            return Err(e);
        }
        let n = bytes.len();
        if n < 3 {
            return Err(LldpError::MalformedHeader);
        }
        let subtype = match ChassisIdSubType::from_code(bytes[2]) {
            Some(s) => s,
            None => return Err(LldpError::InvalidSubtype),
        };
        let ghost v = bytes@.subrange(2, n as int);
        assert(v.subrange(1, v.len() as int) =~= bytes@.subrange(3, n as int));
        let value = match subtype.form() {
            IdForm::Mac => if n - 3 == 6 {
                ChassisIdValue::Mac(copy_range(bytes, 3, n))
            } else {
                return Err(LldpError::InvalidEncoding);
            },
            IdForm::Network => match decode_address(bytes, 3) {
                Ok(ip) => ChassisIdValue::IpAddress(ip),
                Err(e) => return Err(e),
            },
            IdForm::Text => match decode_text(bytes, 3) {
                Ok(s) => ChassisIdValue::Other(s),
                Err(e) => return Err(e),
            },
        };
        let t = ChassisIdTLV { subtype, value };
        proof {
            lemma_decode_as_wf(TlvType::ChassisId, bytes@);
        }
        Ok(t)
    }

    /// Number of value bytes.
    pub fn len(&self) -> (r: usize)
        requires
            self.wf(),
        ensures
            r == self@.value_len(),
    {
        match &self.value {
            ChassisIdValue::Mac(m) => 1 + m.len(),
            ChassisIdValue::IpAddress(ip) => 2 + ip.octet_count(),
            ChassisIdValue::Other(s) => 1 + utf8_len(s),
        }
    }

    /// The record's text form: `ChassisIdTLV(<subtype code>, "<value>")`.
    pub fn render(&self) -> (r: String)
        ensures
            r@ == self@.render(),
    {
        let mut s = String::new();
        push_str(&mut s, "ChassisIdTLV(");
        push_decimal(&mut s, self.subtype.code() as u64);
        push_str(&mut s, ", \"");
        match &self.value {
            ChassisIdValue::Mac(m) => push_mac(&mut s, m.as_slice()),
            ChassisIdValue::IpAddress(ip) => push_address_text(&mut s, ip),
            ChassisIdValue::Other(t) => push_str(&mut s, t.as_str()),
        }
        push_str(&mut s, "\")");
        assert(s@ =~= self@.render());
        s
    }

    /// The record's bytes on the wire.
    pub fn bytes(&self) -> (r: Vec<u8>)
        requires
            self.wf(),
        ensures
            r@ == self@.encode(),
    {
        proof {
            lemma_value_bytes_len(self@);
        }
        let mut out: Vec<u8> = Vec::new();
        push_header(&mut out, TlvType::ChassisId.code(), self.len());
        out.push(self.subtype.code());
        match &self.value {
            ChassisIdValue::Mac(m) => push_all(&mut out, m.as_slice()),
            ChassisIdValue::IpAddress(ip) => push_address(&mut out, ip),
            ChassisIdValue::Other(s) => push_utf8(&mut out, s),
        }
        assert(out@ =~= self@.encode());
        out
    }
}

} // verus!
