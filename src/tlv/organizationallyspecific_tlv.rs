//! Organizationally Specific: a vendor-defined record, carried as is.
use vstd::prelude::*;
use crate::codec::{copy_range, push_all, push_header};
use crate::error::LldpError;
use crate::text::{push_decimal, push_hex_string, push_str};
use crate::tlv::{
    check_header, decode_as, lemma_decode_as_wf, lemma_value_bytes_len, TlvType, TlvView,
    MAX_ORG_INFO,
};

verus! {

/// Organizationally Specific record: a 3-byte organizationally unique
/// identifier (OUI), a subtype the organization defines, and at most 507
/// bytes of information that is never interpreted.
#[derive(Debug, Clone)]
pub struct OrganizationallySpecificTLV {
    pub oui: Vec<u8>,
    pub subtype: u8,
    pub value: Vec<u8>,
}

impl View for OrganizationallySpecificTLV {
    type V = TlvView;

    open spec fn view(&self) -> TlvView {
        TlvView::OrganizationallySpecific {
            oui: self.oui@,
            subtype: self.subtype,
            info: self.value@,
        }
    }
}

impl OrganizationallySpecificTLV {
    pub open spec fn wf(&self) -> bool {
        self@.wf()
    }

    /// A record with the given fields; fails with `InvalidEncoding` unless
    /// the OUI is three bytes and the information at most 507.
    pub fn new(oui: Vec<u8>, subtype: u8, value: Vec<u8>) -> (r: Result<
        OrganizationallySpecificTLV,
        LldpError,
    >)
        ensures
            (oui@.len() != 3 || value@.len() > MAX_ORG_INFO) ==> r == Err::<
                OrganizationallySpecificTLV,
                LldpError,
            >(LldpError::InvalidEncoding),
            (oui@.len() == 3 && value@.len() <= MAX_ORG_INFO) ==> (r matches Ok(t) && t.oui
                == oui && t.subtype == subtype && t.value == value && t.wf()),
    {
        if oui.len() != 3 || value.len() > MAX_ORG_INFO {
            return Err(LldpError::InvalidEncoding);
        }
        Ok(OrganizationallySpecificTLV { oui, subtype, value })
    }

    /// The record's kind.
    pub fn tlv_type(&self) -> (r: TlvType)
        ensures
            r == TlvType::OrganizationallySpecific,
    {
        TlvType::OrganizationallySpecific
    }

    /// Reads a record from `bytes`, which must hold exactly one
    /// Organizationally Specific record.
    pub fn new_from_bytes(bytes: &[u8]) -> (r: Result<OrganizationallySpecificTLV, LldpError>)
        ensures
            match decode_as(TlvType::OrganizationallySpecific, bytes@) {
                Ok(v) => r matches Ok(t) && t@ == v && t.wf(),
                Err(e) => r == Err::<OrganizationallySpecificTLV, LldpError>(e),
            },
    {
        if let Some(e) = check_header(TlvType::OrganizationallySpecific, bytes) {
            return Err(e);
        }
        let n = bytes.len();
        if n - 2 < 4 {
            return Err(LldpError::MalformedHeader);
        }
        let oui = copy_range(bytes, 2, 5);
        let subtype = bytes[5];
        let value = copy_range(bytes, 6, n);
        let ghost v = bytes@.subrange(2, n as int);
        assert(v.subrange(0, 3) =~= bytes@.subrange(2, 5));
        assert(v.subrange(4, v.len() as int) =~= bytes@.subrange(6, n as int));
        proof {
            lemma_decode_as_wf(TlvType::OrganizationallySpecific, bytes@);
        }
        Ok(OrganizationallySpecificTLV { oui, subtype, value })
    }

    /// Number of value bytes.
    pub fn len(&self) -> (r: usize)
        requires
            self.wf(),
        ensures
            r == self@.value_len(),
    {
        4 + self.value.len()
    }

    /// The record's text form:
    /// `OrganizationallySpecificTLV("<OUI in hex>", <subtype>, "<information in hex>")`.
    pub fn render(&self) -> (r: String)
        ensures
            r@ == self@.render(),
    {
        let mut s = String::new();
        push_str(&mut s, "OrganizationallySpecificTLV(\"");
        push_hex_string(&mut s, self.oui.as_slice());
        push_str(&mut s, "\", ");
        push_decimal(&mut s, self.subtype as u64);
        push_str(&mut s, ", \"");
        push_hex_string(&mut s, self.value.as_slice());
        push_str(&mut s, "\")");
        assert(s@ =~= self@.render());
        s
    }

    /// The record's bytes on the wire.
    pub fn bytes(&self) -> (r: Vec<u8>)
        requires
            self.wf(),
        ensures
            r@ == self@.encode(),
    {
        proof {
            lemma_value_bytes_len(self@);
        }
        let mut out: Vec<u8> = Vec::new();
        push_header(&mut out, TlvType::OrganizationallySpecific.code(), self.len());
        push_all(&mut out, self.oui.as_slice());
        out.push(self.subtype);
        push_all(&mut out, self.value.as_slice());
        assert(out@ =~= self@.encode());
        out
    }
}

} // verus!
