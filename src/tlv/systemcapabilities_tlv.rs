//! System Capabilities: what the system can do, and which of it is enabled.
use vstd::prelude::*;
use crate::codec::{push_be32, push_header, read_be16};
use crate::error::LldpError;
use crate::text::{push_decimal, push_str};
use crate::tlv::{check_header, decode_as, lemma_decode_as_wf, TlvType, TlvView};

verus! {

/// The capability bits; several are combined with `|` on their `bit`s.
#[derive(Debug, Clone, Copy, PartialEq, Eq, Structural)]
pub enum SystemCapability {
    Other,
    Repeater,
    Bridge,
    WlanAP,
    Router,
    Telephone,
    DocsisDevice,
    StationOnly,
    CVlanComponent,
    SVlanComponent,
    TwoPortMacRelay,
}

impl SystemCapability {
    pub open spec fn spec_bit(&self) -> u16 {
        match *self {
            SystemCapability::Other => 1,
            SystemCapability::Repeater => 2,
            SystemCapability::Bridge => 4,
            SystemCapability::WlanAP => 8,
            SystemCapability::Router => 16,
            SystemCapability::Telephone => 32,
            SystemCapability::DocsisDevice => 64,
            SystemCapability::StationOnly => 128,
            SystemCapability::CVlanComponent => 256,
            SystemCapability::SVlanComponent => 512,
            SystemCapability::TwoPortMacRelay => 1024,
        }
    }

    /// The capability's bit in the bitmaps.
    #[verifier::when_used_as_spec(spec_bit)]
    pub fn bit(&self) -> (r: u16)
        ensures
            r == self.spec_bit(),
    {
        match *self {
            SystemCapability::Other => 1,
            SystemCapability::Repeater => 2,
            SystemCapability::Bridge => 4,
            SystemCapability::WlanAP => 8,
            SystemCapability::Router => 16,
            SystemCapability::Telephone => 32,
            SystemCapability::DocsisDevice => 64,
            SystemCapability::StationOnly => 128,
            SystemCapability::CVlanComponent => 256,
            SystemCapability::SVlanComponent => 512,
            SystemCapability::TwoPortMacRelay => 1024,
        }
    }

    pub open spec fn spec_from_bit(b: u16) -> Option<SystemCapability> {
        if b == 1 {
            Some(SystemCapability::Other)
        } else if b == 2 {
            Some(SystemCapability::Repeater)
        } else if b == 4 {
            Some(SystemCapability::Bridge)
        } else if b == 8 {
            Some(SystemCapability::WlanAP)
        } else if b == 16 {
            Some(SystemCapability::Router)
        } else if b == 32 {
            Some(SystemCapability::Telephone)
        } else if b == 64 {
            Some(SystemCapability::DocsisDevice)
        } else if b == 128 {
            Some(SystemCapability::StationOnly)
        } else if b == 256 {
            Some(SystemCapability::CVlanComponent)
        } else if b == 512 {
            Some(SystemCapability::SVlanComponent)
        } else if b == 1024 {
            Some(SystemCapability::TwoPortMacRelay)
        } else {
            None
        }
    }

    /// The capability whose bit is exactly `b`, if any.
    pub fn from_bit(b: u16) -> (r: Option<SystemCapability>)
        ensures
            r == Self::spec_from_bit(b),
    {
        match b {
            1 => Some(SystemCapability::Other),
            2 => Some(SystemCapability::Repeater),
            4 => Some(SystemCapability::Bridge),
            8 => Some(SystemCapability::WlanAP),
            16 => Some(SystemCapability::Router),
            32 => Some(SystemCapability::Telephone),
            64 => Some(SystemCapability::DocsisDevice),
            128 => Some(SystemCapability::StationOnly),
            256 => Some(SystemCapability::CVlanComponent),
            512 => Some(SystemCapability::SVlanComponent),
            1024 => Some(SystemCapability::TwoPortMacRelay),
            _ => None,
        }
    }
}

/// System Capabilities record: the supported bitmap in the high half of
/// `value`, the enabled bitmap in the low half. Every enabled bit is also
/// supported.
#[derive(Debug, Clone)]
pub struct SystemCapabilitiesTLV {
    pub value: u32,
}

impl View for SystemCapabilitiesTLV {
    type V = TlvView;

    open spec fn view(&self) -> TlvView {
        TlvView::SystemCapabilities {
            supported: (self.value / 0x1_0000) as u16,
            enabled: (self.value % 0x1_0000) as u16,
        }
    }
}

impl SystemCapabilitiesTLV {
    pub open spec fn wf(&self) -> bool {
        self@.wf()
    }

    /// A record with the given bitmaps. It is built exactly when every
    /// enabled bit is supported, and fails with `CapabilityMismatch`
    /// otherwise.
    pub fn new(supported: u16, enabled: u16) -> (r: Result<SystemCapabilitiesTLV, LldpError>)
        ensures
            r is Ok <==> enabled & supported == enabled,
            r is Err ==> r == Err::<SystemCapabilitiesTLV, LldpError>(
                LldpError::CapabilityMismatch,
            ),
            r matches Ok(t) ==> t@ == (TlvView::SystemCapabilities { supported, enabled }) && t.wf(),
    {
        if enabled & supported != enabled {
            return Err(LldpError::CapabilityMismatch);
        }
        Ok(SystemCapabilitiesTLV { value: supported as u32 * 0x1_0000 + enabled as u32 })
    }

    /// The record's kind.
    pub fn tlv_type(&self) -> (r: TlvType)
        ensures
            r == TlvType::SystemCapabilities,
    {
        TlvType::SystemCapabilities
    }

    /// Reads a record from `bytes`, which must hold exactly one System
    /// Capabilities record.
    pub fn new_from_bytes(bytes: &[u8]) -> (r: Result<SystemCapabilitiesTLV, LldpError>)
        ensures
            match decode_as(TlvType::SystemCapabilities, bytes@) {
                Ok(v) => r matches Ok(t) && t@ == v && t.wf(),
                Err(e) => r == Err::<SystemCapabilitiesTLV, LldpError>(e),
            },
    {
        if let Some(e) = check_header(TlvType::SystemCapabilities, bytes) {
            return Err(e);
        }
        if bytes.len() - 2 != 4 {
            return Err(LldpError::MalformedHeader);
        }
        let supported = read_be16(bytes, 2);
        let enabled = read_be16(bytes, 4);
        let ghost v = bytes@.subrange(2, 6);
        assert(v.subrange(0, 2) =~= bytes@.subrange(2, 4));
        assert(v.subrange(2, 4) =~= bytes@.subrange(4, 6));
        if enabled & supported != enabled {
            return Err(LldpError::CapabilityMismatch);
        }
        proof {
            lemma_decode_as_wf(TlvType::SystemCapabilities, bytes@);
        }
        Ok(SystemCapabilitiesTLV { value: supported as u32 * 0x1_0000 + enabled as u32 })
    }

    /// Whether every bit of `capabilities` is supported.
    pub fn supports(&self, capabilities: u16) -> (r: bool)
        ensures
            r == (capabilities & (self.value / 0x1_0000) as u16 == capabilities),
    {
        capabilities & (self.value / 0x1_0000) as u16 == capabilities
    }

    /// Whether every bit of `capabilities` is enabled.
    pub fn enabled(&self, capabilities: u16) -> (r: bool)
        ensures
            r == (capabilities & (self.value % 0x1_0000) as u16 == capabilities),
    {
        capabilities & (self.value % 0x1_0000) as u16 == capabilities
    }

    /// Number of value bytes: always 4.
    pub fn len(&self) -> (r: usize)
        ensures
            r == self@.value_len(),
    {
        4
    }

    /// The record's text form: `SystemCapabilitiesTLV(<supported>, <enabled>)`.
    pub fn render(&self) -> (r: String)
        ensures
            r@ == self@.render(),
    {
        let mut s = String::new();
        push_str(&mut s, "SystemCapabilitiesTLV(");
        push_decimal(&mut s, (self.value / 0x1_0000) as u64);
        push_str(&mut s, ", ");
        push_decimal(&mut s, (self.value % 0x1_0000) as u64);
        push_str(&mut s, ")");
        assert(s@ =~= self@.render());
        s
    }

    /// The record's bytes on the wire.
    pub fn bytes(&self) -> (r: Vec<u8>)
        ensures
            r@ == self@.encode(),
    {
        let mut out: Vec<u8> = Vec::new();
        push_header(&mut out, TlvType::SystemCapabilities.code(), 4);
        push_be32(&mut out, self.value);
        assert(out@ =~= self@.encode());
        out
    }
}

} // verus!
