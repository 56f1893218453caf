//! System Name: the name the administrator gave the system.
use vstd::prelude::*;
use vstd::utf8::*;
use crate::codec::{push_header, push_utf8, text_from_utf8, utf8_len};
use crate::error::LldpError;
use crate::text::push_str;
use crate::tlv::{
    check_header, decode_as, lemma_decode_as_wf, lemma_value_bytes_len, TlvType, TlvView, MAX_TEXT,
};

verus! {

/// System Name record: text of at most 255 UTF-8 bytes.
#[derive(Debug, Clone)]
pub struct SystemNameTLV {
    pub value: String,
}

impl View for SystemNameTLV {
    type V = TlvView;

    open spec fn view(&self) -> TlvView {
        TlvView::SystemName { text: self.value@ }
    }
}

impl SystemNameTLV {
    pub open spec fn wf(&self) -> bool {
        self@.wf()
    }

    /// A record holding `name`; fails with `InvalidEncoding` when its UTF-8
    /// encoding is longer than 255 bytes.
    pub fn new(name: String) -> (r: Result<SystemNameTLV, LldpError>)
        ensures
            encode_utf8(name@).len() > MAX_TEXT ==> r == Err::<SystemNameTLV, LldpError>(
                LldpError::InvalidEncoding,
            ),
            encode_utf8(name@).len() <= MAX_TEXT ==> (r matches Ok(t) && t.value == name && t.wf()),
    {
        if utf8_len(&name) > MAX_TEXT {
            return Err(LldpError::InvalidEncoding);
        }
        Ok(SystemNameTLV { value: name })
    }

    /// The record's kind.
    pub fn tlv_type(&self) -> (r: TlvType)
        ensures
            r == TlvType::SystemName,
    {
        TlvType::SystemName
    }

    /// Reads a record from `bytes`, which must hold exactly one System Name
    /// record.
    pub fn new_from_bytes(bytes: &[u8]) -> (r: Result<SystemNameTLV, LldpError>)
        ensures
            match decode_as(TlvType::SystemName, bytes@) {
                Ok(v) => r matches Ok(t) && t@ == v && t.wf(),
                Err(e) => r == Err::<SystemNameTLV, LldpError>(e),
            },
    {
        if let Some(e) = check_header(TlvType::SystemName, bytes) {
            return Err(e);
        }
        if bytes.len() - 2 > MAX_TEXT {
            return Err(LldpError::MalformedHeader);
        }
        match text_from_utf8(bytes, 2) {
            Some(value) => {
                proof {
                    lemma_decode_as_wf(TlvType::SystemName, bytes@);
                }
                Ok(SystemNameTLV { value })
            },
            None => Err(LldpError::InvalidEncoding),
        }
    }

    /// Number of value bytes.
    pub fn len(&self) -> (r: usize)
        requires
            self.wf(),
        ensures
            r == self@.value_len(),
    {
        utf8_len(&self.value)
    }

    /// The record's text form: `SystemNameTLV("<text>")`.
    pub fn render(&self) -> (r: String)
        ensures
            r@ == self@.render(),
    {
        let mut s = String::new();
        push_str(&mut s, "SystemNameTLV(\"");
        push_str(&mut s, self.value.as_str());
        push_str(&mut s, "\")");
        assert(s@ =~= self@.render());
        s
    }

    /// The record's bytes on the wire.
    pub fn bytes(&self) -> (r: Vec<u8>)
        requires
            self.wf(),
        ensures
            r@ == self@.encode(),
    {
        proof {
            lemma_value_bytes_len(self@);
        }
        let mut out: Vec<u8> = Vec::new();
        push_header(&mut out, TlvType::SystemName.code(), self.len());
        push_utf8(&mut out, &self.value);
        assert(out@ =~= self@.encode());
        out
    }
}

} // verus!
