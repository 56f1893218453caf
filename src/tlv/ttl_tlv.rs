//! Time To Live: the mandatory third record, for how many seconds the
//! receiver may keep the sender's information.
use vstd::prelude::*;
use crate::codec::{push_be16, push_header, read_be16};
use crate::error::LldpError;
use crate::text::{push_decimal, push_str};
use crate::tlv::{check_header, decode_as, lemma_decode_as_wf, TlvType, TlvView};

verus! {

/// Time To Live record, in seconds.
#[derive(Debug, Clone)]
pub struct TtlTLV {
    pub value: u16,
}

impl View for TtlTLV {
    type V = TlvView;

    open spec fn view(&self) -> TlvView {
        TlvView::Ttl { seconds: self.value }
    }
}

impl TtlTLV {
    pub open spec fn wf(&self) -> bool {
        self@.wf()
    }

    /// A record for `ttl` seconds.
    pub fn new(ttl: u16) -> (r: TtlTLV)
        ensures
            r.value == ttl,
            r.wf(),
    {
        TtlTLV { value: ttl }
    }

    /// The record's kind.
    pub fn tlv_type(&self) -> (r: TlvType)
        ensures
            r == TlvType::Ttl,
    {
        TlvType::Ttl
    }

    /// Reads a record from `bytes`, which must hold exactly one Time To Live
    /// record.
    pub fn new_from_bytes(bytes: &[u8]) -> (r: Result<TtlTLV, LldpError>)
        ensures
            match decode_as(TlvType::Ttl, bytes@) {
                Ok(v) => r matches Ok(t) && t@ == v && t.wf(),
                Err(e) => r == Err::<TtlTLV, LldpError>(e),
            },
    {
        if let Some(e) = check_header(TlvType::Ttl, bytes) {
            return Err(e);
        }
        if bytes.len() - 2 != 2 {
            return Err(LldpError::MalformedHeader);
        }
        let value = read_be16(bytes, 2);
        proof {
            lemma_decode_as_wf(TlvType::Ttl, bytes@);
        }
        Ok(TtlTLV { value })
    }

    /// Number of value bytes: always 2.
    pub fn len(&self) -> (r: usize)
        ensures
            r == self@.value_len(),
    {
        2
    }

    /// The record's text form: `TtlTLV(<seconds>)`.
    pub fn render(&self) -> (r: String)
        ensures
            r@ == self@.render(),
    {
        let mut s = String::new();
        push_str(&mut s, "TtlTLV(");
        push_decimal(&mut s, self.value as u64);
        push_str(&mut s, ")");
        assert(s@ =~= self@.render());
        s
    }

    /// The record's bytes on the wire.
    pub fn bytes(&self) -> (r: Vec<u8>)
        ensures
            r@ == self@.encode(),
    {
        let mut out: Vec<u8> = Vec::new();
        push_header(&mut out, TlvType::Ttl.code(), 2);
        push_be16(&mut out, self.value);
        assert(out@ =~= self@.encode());
        out
    }
}

} // verus!
