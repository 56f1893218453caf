//! Port Description: a free-text description of the sending port.
use vstd::prelude::*;
use vstd::utf8::*;
use crate::codec::{push_header, push_utf8, text_from_utf8, utf8_len};
use crate::error::LldpError;
use crate::text::push_str;
use crate::tlv::{
    check_header, decode_as, lemma_decode_as_wf, lemma_value_bytes_len, TlvType, TlvView, MAX_TEXT,
};

verus! {

/// Port Description record: text of at most 255 UTF-8 bytes.
#[derive(Debug, Clone)]
pub struct PortDescriptionTLV {
    pub value: String,
}

impl View for PortDescriptionTLV {
    type V = TlvView;

    open spec fn view(&self) -> TlvView {
        TlvView::PortDescription { text: self.value@ }
    }
}

impl PortDescriptionTLV {
    pub open spec fn wf(&self) -> bool {
        self@.wf()
    }

    /// A record holding `value`; fails with `InvalidEncoding` when its UTF-8
    /// encoding is longer than 255 bytes.
    pub fn new(value: String) -> (r: Result<PortDescriptionTLV, LldpError>)
        ensures
            encode_utf8(value@).len() > MAX_TEXT ==> r == Err::<PortDescriptionTLV, LldpError>(
                LldpError::InvalidEncoding,
            ),
            encode_utf8(value@).len() <= MAX_TEXT ==> (r matches Ok(t) && t.value == value && t.wf()),
    {
        if utf8_len(&value) > MAX_TEXT {
            return Err(LldpError::InvalidEncoding);
        }
        Ok(PortDescriptionTLV { value: value })
    }

    /// The record's kind.
    pub fn tlv_type(&self) -> (r: TlvType)
        ensures
            r == TlvType::PortDescription,
    {
        TlvType::PortDescription
    }

    /// Reads a record from `bytes`, which must hold exactly one Port Description
    /// record.
    pub fn new_from_bytes(bytes: &[u8]) -> (r: Result<PortDescriptionTLV, LldpError>)
        ensures
            match decode_as(TlvType::PortDescription, bytes@) {
                Ok(v) => r matches Ok(t) && t@ == v && t.wf(),
                Err(e) => r == Err::<PortDescriptionTLV, LldpError>(e),
            },
    {
        if let Some(e) = check_header(TlvType::PortDescription, bytes) {
            return Err(e);
        }
        if bytes.len() - 2 > MAX_TEXT {
            return Err(LldpError::MalformedHeader);
        }
        match text_from_utf8(bytes, 2) {
            Some(value) => {
                proof {
                    lemma_decode_as_wf(TlvType::PortDescription, bytes@);
                }
                Ok(PortDescriptionTLV { value })
            },
            None => Err(LldpError::InvalidEncoding),
        }
    }

    /// Number of value bytes.
    pub fn len(&self) -> (r: usize)
        requires
            self.wf(),
        ensures
            r == self@.value_len(),
    {
        utf8_len(&self.value)
    }

    /// The record's text form: `PortDescriptionTLV("<text>")`.
    pub fn render(&self) -> (r: String)
        ensures
            r@ == self@.render(),
    {
        let mut s = String::new();
        push_str(&mut s, "PortDescriptionTLV(\"");
        push_str(&mut s, self.value.as_str());
        push_str(&mut s, "\")");
        assert(s@ =~= self@.render());
        s
    }

    /// The record's bytes on the wire.
    pub fn bytes(&self) -> (r: Vec<u8>)
        requires
            self.wf(),
        ensures
            r@ == self@.encode(),
    {
        proof {
            lemma_value_bytes_len(self@);
        }
        let mut out: Vec<u8> = Vec::new();
        push_header(&mut out, TlvType::PortDescription.code(), self.len());
        push_utf8(&mut out, &self.value);
        assert(out@ =~= self@.encode());
        out
    }
}

} // verus!
