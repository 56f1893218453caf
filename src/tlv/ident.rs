//! The value of a chassis or port identifier: a MAC address, a network
//! address behind its family number, or UTF-8 text, as the subtype decides.
use vstd::prelude::*;
use vstd::utf8::*;
use crate::codec::text_from_utf8;
use crate::error::LldpError;
use crate::ip::{family_of_len, is_address, IpAddress};

verus! {

/// Largest identifier text, in encoded bytes.
pub const MAX_ID_TEXT: usize = 255;

/// The model of an identifier value.
pub enum IdValue {
    /// The raw octets of a MAC address.
    Mac(Seq<u8>),
    /// The octets of an IPv4 or IPv6 address.
    Address(Seq<u8>),
    /// Text.
    Text(Seq<char>),
}

/// The form of value that a subtype calls for.
#[derive(Debug, Clone, Copy, PartialEq, Eq, Structural)]
pub enum IdForm {
    Mac,
    Network,
    Text,
}

/// What is wrong with `v` as a value of the given form, if anything: a value
/// of another form, a MAC address that is not six octets, or text longer than
/// 255 encoded bytes.
pub open spec fn id_value_error(form: IdForm, v: IdValue) -> Option<LldpError> {
    match form {
        IdForm::Mac => match v {
            IdValue::Mac(m) => if m.len() == 6 {
                None
            } else {
                Some(LldpError::InvalidEncoding)
            },
            _ => Some(LldpError::InvalidSubtype),
        },
        IdForm::Network => match v {
            IdValue::Address(a) => if is_address(a) {
                None
            } else {
                Some(LldpError::InvalidEncoding)
            },
            _ => Some(LldpError::InvalidSubtype),
        },
        IdForm::Text => match v {
            IdValue::Text(t) => if encode_utf8(t).len() <= MAX_ID_TEXT {
                None
            } else {
                Some(LldpError::InvalidEncoding)
            },
            _ => Some(LldpError::InvalidSubtype),
        },
    }
}

pub open spec fn id_value_wf(form: IdForm, v: IdValue) -> bool {
    id_value_error(form, v) is None
}

/// The value's bytes on the wire.
pub open spec fn id_value_bytes(v: IdValue) -> Seq<u8> {
    match v {
        IdValue::Mac(m) => m,
        IdValue::Address(a) => seq![family_of_len(a.len())] + a,
        IdValue::Text(t) => encode_utf8(t),
    }
}

/// Number of bytes the value takes on the wire.
pub open spec fn id_value_len(v: IdValue) -> nat {
    match v {
        IdValue::Mac(m) => m.len(),
        IdValue::Address(a) => 1 + a.len(),
        IdValue::Text(t) => encode_utf8(t).len(),
    }
}

/// Reads a value of the given form from `rest`, the bytes after the subtype.
pub open spec fn decode_id_value(form: IdForm, rest: Seq<u8>) -> Result<IdValue, LldpError> {
    match form {
        IdForm::Mac => if rest.len() == 6 {
            Ok(IdValue::Mac(rest))
        } else {
            Err(LldpError::InvalidEncoding)
        },
        IdForm::Network => if rest.len() >= 1 && ((rest[0] == 1 && rest.len() == 5) || (rest[0]
            == 2 && rest.len() == 17)) {
            Ok(IdValue::Address(rest.subrange(1, rest.len() as int)))
        } else {
            Err(LldpError::InvalidEncoding)
        },
        IdForm::Text => if rest.len() <= MAX_ID_TEXT && valid_utf8(rest) {
            Ok(IdValue::Text(decode_utf8(rest)))
        } else {
            Err(LldpError::InvalidEncoding)
        },
    }
}

pub proof fn lemma_id_value_round_trip(form: IdForm, v: IdValue)
    requires
        id_value_wf(form, v),
    ensures
        decode_id_value(form, id_value_bytes(v)) == Ok::<IdValue, LldpError>(v),
        id_value_bytes(v).len() == id_value_len(v),
        id_value_len(v) <= 256,
{
    broadcast use encode_utf8_valid_utf8, encode_utf8_decode_utf8;

    match v {
        IdValue::Address(a) => {
            assert((seq![family_of_len(a.len())] + a).subrange(1, 1 + a.len() as int) =~= a);
        },
        _ => {},
    }
}

pub proof fn lemma_id_value_decode_encode(form: IdForm, rest: Seq<u8>)
    requires
        decode_id_value(form, rest) is Ok,
    ensures
        id_value_wf(form, decode_id_value(form, rest)->Ok_0),
        id_value_bytes(decode_id_value(form, rest)->Ok_0) == rest,
{
    broadcast use decode_utf8_encode_utf8;

    if form == IdForm::Network {
        assert(seq![rest[0]] + rest.subrange(1, rest.len() as int) =~= rest);
    }
}

/// Reads a network address, behind its family number, from `b[at..]`.
pub fn decode_address(b: &[u8], at: usize) -> (r: Result<IpAddress, LldpError>)
    requires
        at <= b@.len(),
    ensures
        match decode_id_value(IdForm::Network, b@.subrange(at as int, b@.len() as int)) {
            Ok(v) => r matches Ok(ip) && v == IdValue::Address(ip@),
            Err(e) => r == Err::<IpAddress, LldpError>(e),
        },
{
    let n = b.len();
    if at < n && ((b[at] == 1 && n - at == 5) || (b[at] == 2 && n - at == 17)) {
        let ip = IpAddress::from_octets(b, at + 1, n - at - 1);
        assert(b@.subrange(at as int, n as int).subrange(1, (n - at) as int) =~= b@.subrange(
            at + 1,
            n as int,
        ));
        Ok(ip)
    } else {
        Err(LldpError::InvalidEncoding)
    }
}

/// Reads identifier text from `b[at..]`.
pub fn decode_text(b: &[u8], at: usize) -> (r: Result<String, LldpError>)
    requires
        at <= b@.len(),
    ensures
        match decode_id_value(IdForm::Text, b@.subrange(at as int, b@.len() as int)) {
            Ok(v) => r matches Ok(s) && v == IdValue::Text(s@),
            Err(e) => r == Err::<String, LldpError>(e),
        },
{
    if b.len() - at > MAX_ID_TEXT {
        return Err(LldpError::InvalidEncoding);
    }
    match text_from_utf8(b, at) {
        Some(s) => Ok(s),
        None => Err(LldpError::InvalidEncoding),
    }
}

/// Appends an address behind its family number.
pub fn push_address(out: &mut Vec<u8>, ip: &IpAddress)
    ensures
        final(out)@ == old(out)@ + id_value_bytes(IdValue::Address(ip@)),
{
    out.push(ip.family());
    ip.push_octets(out);
    assert(final(out)@ =~= old(out)@ + id_value_bytes(IdValue::Address(ip@)));
}

} // verus!
