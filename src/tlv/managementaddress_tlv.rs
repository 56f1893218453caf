//! Management Address: an address at which the sender can be managed, with
//! the interface it belongs to and an opaque object identifier.
use vstd::prelude::*;
use crate::codec::{copy_range, push_all, push_be32, push_header, read_be32};
use crate::error::LldpError;
use crate::text::{push_address_text, push_decimal, push_hex_string, push_str};
use crate::ip::IpAddress;
use crate::tlv::{
    check_header, decode_as, lemma_decode_as_wf, lemma_value_bytes_len, TlvType, TlvView, MAX_OID,
};

verus! {

/// How the interface number is to be read.
#[derive(Debug, Clone, Copy, PartialEq, Eq, Structural)]
pub enum IFNumberingSubtype {
    Unknown,
    IfIndex,
    SystemPort,
}

impl IFNumberingSubtype {
    pub open spec fn spec_code(&self) -> u8 {
        match *self {
            IFNumberingSubtype::Unknown => 1,
            IFNumberingSubtype::IfIndex => 2,
            IFNumberingSubtype::SystemPort => 3,
        }
    }

    /// The subtype's code on the wire.
    #[verifier::when_used_as_spec(spec_code)]
    pub fn code(&self) -> (r: u8)
        ensures
            r == self.spec_code(),
    {
        match *self {
            IFNumberingSubtype::Unknown => 1,
            IFNumberingSubtype::IfIndex => 2,
            IFNumberingSubtype::SystemPort => 3,
        }
    }

    pub open spec fn spec_from_code(c: u8) -> Option<IFNumberingSubtype> {
        if c == 1 {
            Some(IFNumberingSubtype::Unknown)
        } else if c == 2 {
            Some(IFNumberingSubtype::IfIndex)
        } else if c == 3 {
            Some(IFNumberingSubtype::SystemPort)
        } else {
            None
        }
    }

    /// The subtype whose code is `c`, if any.
    pub fn from_code(c: u8) -> (r: Option<IFNumberingSubtype>)
        ensures
            r == Self::spec_from_code(c),
    {
        match c {
            1 => Some(IFNumberingSubtype::Unknown),
            2 => Some(IFNumberingSubtype::IfIndex),
            3 => Some(IFNumberingSubtype::SystemPort),
            _ => None,
        }
    }
}

/// Management Address record: an IP address, the number of the interface it
/// belongs to and how that number is to be read, and an object identifier of
/// at most 128 bytes that is carried without being interpreted.
#[derive(Debug, Clone)]
pub struct ManagementAddressTLV {
    pub interface_number: u32,
    pub subtype: IFNumberingSubtype,
    pub value: IpAddress,
    pub oid: Vec<u8>,
}

impl View for ManagementAddressTLV {
    type V = TlvView;

    open spec fn view(&self) -> TlvView {
        TlvView::ManagementAddress {
            address: self.value@,
            interface_number: self.interface_number,
            subtype: self.subtype,
            oid: self.oid@,
        }
    }
}

impl ManagementAddressTLV {
    pub open spec fn wf(&self) -> bool {
        self@.wf()
    }

    /// A record with the given fields; fails with `InvalidEncoding` when the
    /// object identifier is longer than 128 bytes.
    pub fn new(
        address: IpAddress,
        interface_number: u32,
        ifsubtype: IFNumberingSubtype,
        oid: Vec<u8>,
    ) -> (r: Result<ManagementAddressTLV, LldpError>)
        ensures
            oid@.len() > MAX_OID ==> r == Err::<ManagementAddressTLV, LldpError>(
                LldpError::InvalidEncoding,
            ),
            oid@.len() <= MAX_OID ==> (r matches Ok(t) && t.value == address && t.interface_number
                == interface_number && t.subtype == ifsubtype && t.oid == oid && t.wf()),
    {
        if oid.len() > MAX_OID {
            return Err(LldpError::InvalidEncoding);
        }
        proof {
            address.lemma_view_is_address();
        }
        Ok(ManagementAddressTLV { interface_number, subtype: ifsubtype, value: address, oid })
    }

    /// The record's kind.
    pub fn tlv_type(&self) -> (r: TlvType)
        ensures
            r == TlvType::ManagementAddress,
    {
        TlvType::ManagementAddress
    }

    /// Reads a record from `bytes`, which must hold exactly one Management
    /// Address record.
    #[verifier::spinoff_prover]
    pub fn new_from_bytes(bytes: &[u8]) -> (r: Result<ManagementAddressTLV, LldpError>)
        ensures
            match decode_as(TlvType::ManagementAddress, bytes@) {
                Ok(v) => r matches Ok(t) && t@ == v && t.wf(),
                Err(e) => r == Err::<ManagementAddressTLV, LldpError>(e),
            },
    {
        if let Some(e) = check_header(TlvType::ManagementAddress, bytes) {
            return Err(e);
        }
        let n = bytes.len();
        if n - 2 < 12 {
            return Err(LldpError::MalformedHeader);
        }
        let string_len = bytes[2];
        let family = bytes[3];
        if !((family == 1 && string_len == 5) || (family == 2 && string_len == 17)) {
            return Err(LldpError::InvalidEncoding);
        }
        let p: usize = 1 + string_len as usize;
        if n - 2 < p + 6 {
            return Err(LldpError::MalformedHeader);
        }
        let subtype = match IFNumberingSubtype::from_code(bytes[2 + p]) {
            Some(s) => s,
            None => return Err(LldpError::InvalidSubtype),
        };
        let oid_len = bytes[2 + p + 5];
        if oid_len as usize != n - 2 - (p + 6) {
            return Err(LldpError::MalformedHeader);
        }
        if oid_len as usize > MAX_OID {
            return Err(LldpError::InvalidEncoding);
        }
        let value = IpAddress::from_octets(bytes, 4, p - 2);
        let interface_number = read_be32(bytes, 2 + p + 1);
        let oid = copy_range(bytes, 2 + p + 6, n);
        let ghost v = bytes@.subrange(2, n as int);
        assert(v.subrange(2, p as int) =~= bytes@.subrange(4, 2 + p));
        assert(v.subrange(p + 1, p + 5) =~= bytes@.subrange(3 + p, 7 + p));
        assert(v.subrange(p + 6, v.len() as int) =~= bytes@.subrange(8 + p, n as int));
        let t = ManagementAddressTLV { interface_number, subtype, value, oid };
        proof {
            lemma_decode_as_wf(TlvType::ManagementAddress, bytes@);
        }
        Ok(t)
    }

    /// Number of value bytes.
    pub fn len(&self) -> (r: usize)
        requires
            self.wf(),
        ensures
            r == self@.value_len(),
    {
        8 + self.value.octet_count() + self.oid.len()
    }

    /// The record's text form:
    /// `ManagementAddressTLV("<address>", <interface number>, "<OID in hex>")`.
    pub fn render(&self) -> (r: String)
        ensures
            r@ == self@.render(),
    {
        let mut s = String::new();
        push_str(&mut s, "ManagementAddressTLV(\"");
        push_address_text(&mut s, &self.value);
        push_str(&mut s, "\", ");
        push_decimal(&mut s, self.interface_number as u64);
        push_str(&mut s, ", \"");
        push_hex_string(&mut s, self.oid.as_slice());
        push_str(&mut s, "\")");
        assert(s@ =~= self@.render());
        s
    }

    /// The record's bytes on the wire.
    pub fn bytes(&self) -> (r: Vec<u8>)
        requires
            self.wf(),
        ensures
            r@ == self@.encode(),
    {
        proof {
            lemma_value_bytes_len(self@);
        }
        let mut out: Vec<u8> = Vec::new();
        push_header(&mut out, TlvType::ManagementAddress.code(), self.len());
        out.push((1 + self.value.octet_count()) as u8);
        out.push(self.value.family());
        self.value.push_octets(&mut out);
        out.push(self.subtype.code());
        push_be32(&mut out, self.interface_number);
        out.push(self.oid.len() as u8);
        push_all(&mut out, self.oid.as_slice());
        assert(out@ =~= self@.encode());
        out
    }
}

} // verus!
