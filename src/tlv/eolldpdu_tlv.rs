//! End of LLDPDU: the optional terminator, with an empty value.
use vstd::prelude::*;
use crate::error::LldpError;
use crate::text::push_str;
use crate::tlv::{check_header, decode_as, lemma_decode_as_wf, TlvType, TlvView};

verus! {

/// End of LLDPDU record. It may appear once, as the last record.
#[derive(Debug, Clone)]
pub struct EndOfLLDPDUTLV {}

impl View for EndOfLLDPDUTLV {
    type V = TlvView;

    open spec fn view(&self) -> TlvView {
        TlvView::EndOfLldpdu
    }
}

impl EndOfLLDPDUTLV {
    pub open spec fn wf(&self) -> bool {
        self@.wf()
    }

    /// The terminator.
    pub fn new() -> (r: EndOfLLDPDUTLV)
        ensures
            r.wf(),
    {
        EndOfLLDPDUTLV {  }
    }

    /// The record's kind.
    pub fn tlv_type(&self) -> (r: TlvType)
        ensures
            r == TlvType::EndOfLLDPDU,
    {
        TlvType::EndOfLLDPDU
    }

    /// Reads a record from `bytes`, which must be exactly `00 00`.
    pub fn new_from_bytes(bytes: &[u8]) -> (r: Result<EndOfLLDPDUTLV, LldpError>)
        ensures
            match decode_as(TlvType::EndOfLLDPDU, bytes@) {
                Ok(v) => r matches Ok(t) && t@ == v,
                Err(e) => r == Err::<EndOfLLDPDUTLV, LldpError>(e),
            },
    {
        if let Some(e) = check_header(TlvType::EndOfLLDPDU, bytes) {
            return Err(e);
        }
        if bytes.len() != 2 {
            return Err(LldpError::MalformedHeader);
        }
        proof {
            lemma_decode_as_wf(TlvType::EndOfLLDPDU, bytes@);
        }
        Ok(EndOfLLDPDUTLV {  })
    }

    /// Number of value bytes: always 0.
    pub fn len(&self) -> (r: usize)
        ensures
            r == self@.value_len(),
    {
        0
    }

    /// The record's text form: `EndOfLLDPDUTLV`.
    pub fn render(&self) -> (r: String)
        ensures
            r@ == self@.render(),
    {
        let mut s = String::new();
        push_str(&mut s, "EndOfLLDPDUTLV");
        assert(s@ =~= self@.render());
        s
    }

    /// The record's bytes on the wire: `00 00`.
    pub fn bytes(&self) -> (r: Vec<u8>)
        ensures
            r@ == self@.encode(),
    {
        let mut out: Vec<u8> = Vec::new();
        out.push(0);
        out.push(0);
        assert(out@ =~= self@.encode());
        out
    }
}

} // verus!
