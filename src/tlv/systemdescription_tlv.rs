//! System Description: a free-text description of the system.
use vstd::prelude::*;
use vstd::utf8::*;
use crate::codec::{push_header, push_utf8, text_from_utf8, utf8_len};
use crate::error::LldpError;
use crate::text::push_str;
use crate::tlv::{
    check_header, decode_as, lemma_decode_as_wf, lemma_value_bytes_len, TlvType, TlvView, MAX_TEXT,
};

verus! {

/// System Description record: text of at most 255 UTF-8 bytes.
#[derive(Debug, Clone)]
pub struct SystemDescriptionTLV {
    pub value: String,
}

impl View for SystemDescriptionTLV {
    type V = TlvView;

    open spec fn view(&self) -> TlvView {
        TlvView::SystemDescription { text: self.value@ }
    }
}

impl SystemDescriptionTLV {
    pub open spec fn wf(&self) -> bool {
        self@.wf()
    }

    /// A record holding `description`; fails with `InvalidEncoding` when its UTF-8
    /// encoding is longer than 255 bytes.
    pub fn new(description: String) -> (r: Result<SystemDescriptionTLV, LldpError>)
        ensures
            encode_utf8(description@).len() > MAX_TEXT ==> r == Err::<SystemDescriptionTLV, LldpError>(
                LldpError::InvalidEncoding,
            ),
            encode_utf8(description@).len() <= MAX_TEXT ==> (r matches Ok(t) && t.value == description && t.wf()),
    {
        if utf8_len(&description) > MAX_TEXT {
            return Err(LldpError::InvalidEncoding);
        }
        Ok(SystemDescriptionTLV { value: description })
    }

    /// The record's kind.
    pub fn tlv_type(&self) -> (r: TlvType)
        ensures
            r == TlvType::SystemDescription,
    {
        TlvType::SystemDescription
    }

    /// Reads a record from `bytes`, which must hold exactly one System Description
    /// record.
    pub fn new_from_bytes(bytes: &[u8]) -> (r: Result<SystemDescriptionTLV, LldpError>)
        ensures
            match decode_as(TlvType::SystemDescription, bytes@) {
                Ok(v) => r matches Ok(t) && t@ == v && t.wf(),
                Err(e) => r == Err::<SystemDescriptionTLV, LldpError>(e),
            },
    {
        if let Some(e) = check_header(TlvType::SystemDescription, bytes) {
            return Err(e);
        }
        if bytes.len() - 2 > MAX_TEXT {
            return Err(LldpError::MalformedHeader);
        }
        match text_from_utf8(bytes, 2) {
            Some(value) => {
                proof {
                    lemma_decode_as_wf(TlvType::SystemDescription, bytes@);
                }
                Ok(SystemDescriptionTLV { value })
            },
            None => Err(LldpError::InvalidEncoding),
        }
    }

    /// Number of value bytes.
    pub fn len(&self) -> (r: usize)
        requires
            self.wf(),
        ensures
            r == self@.value_len(),
    {
        utf8_len(&self.value)
    }

    /// The record's text form: `SystemDescriptionTLV("<text>")`.
    pub fn render(&self) -> (r: String)
        ensures
            r@ == self@.render(),
    {
        let mut s = String::new();
        push_str(&mut s, "SystemDescriptionTLV(\"");
        push_str(&mut s, self.value.as_str());
        push_str(&mut s, "\")");
        assert(s@ =~= self@.render());
        s
    }

    /// The record's bytes on the wire.
    pub fn bytes(&self) -> (r: Vec<u8>)
        requires
            self.wf(),
        ensures
            r@ == self@.encode(),
    {
        proof {
            lemma_value_bytes_len(self@);
        }
        let mut out: Vec<u8> = Vec::new();
        push_header(&mut out, TlvType::SystemDescription.code(), self.len());
        push_utf8(&mut out, &self.value);
        assert(out@ =~= self@.encode());
        out
    }
}

} // verus!
