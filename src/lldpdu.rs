//! The LLDP data unit: an ordered sequence of records under structural
//! rules, built by appending or by decoding a wire buffer.
use vstd::prelude::*;
use vstd::slice::slice_subrange;
use crate::codec::header_len;
use crate::error::LldpError;
use crate::text::push_str;
use crate::codec::lemma_header_round_trip;
use crate::tlv::{
    decode, lemma_decode_encode, lemma_encode_decode, lemma_value_bytes_len, Tlv, TlvType, TlvView,
};

verus! {

/// Largest encoded data unit, in bytes.
pub const MAX_LLDPDU_SIZE: usize = 1500;

/// Encoded size of a sequence of records.
pub open spec fn encoded_size(s: Seq<TlvView>) -> nat
    decreases s.len(),
{
    if s.len() == 0 {
        0
    } else {
        encoded_size(s.drop_last()) + 2 + s.last().value_len()
    }
}

/// The records' encodings, one after the other.
pub open spec fn encode_all(s: Seq<TlvView>) -> Seq<u8>
    decreases s.len(),
{
    if s.len() == 0 {
        Seq::empty()
    } else {
        encode_all(s.drop_last()) + s.last().encode()
    }
}

/// Whether the sequence ends with the terminator.
pub open spec fn has_end(s: Seq<TlvView>) -> bool {
    s.len() > 0 && s.last().kind() == TlvType::EndOfLLDPDU
}

/// The order rules: Chassis ID, Port ID and Time To Live at positions 0, 1
/// and 2, none of them again later, and no record after a terminator.
pub open spec fn well_ordered(s: Seq<TlvView>) -> bool {
    &&& s.len() > 0 ==> s[0].kind() == TlvType::ChassisId
    &&& s.len() > 1 ==> s[1].kind() == TlvType::PortId
    &&& s.len() > 2 ==> s[2].kind() == TlvType::Ttl
    &&& forall|i: int| 3 <= i < s.len() ==> !(#[trigger] s[i].kind()).is_mandatory()
    &&& forall|i: int| 0 <= i < s.len() - 1 ==> (#[trigger] s[i].kind()) != TlvType::EndOfLLDPDU
}

/// A sequence of records that a data unit may hold.
pub open spec fn valid_lldpdu(s: Seq<TlvView>) -> bool {
    &&& well_ordered(s)
    &&& forall|i: int| 0 <= i < s.len() ==> (#[trigger] s[i]).wf()
    &&& encoded_size(s) <= MAX_LLDPDU_SIZE
}

/// The error that appending `t` to `s` raises, if any.
pub open spec fn append_error(s: Seq<TlvView>, t: TlvView) -> Option<LldpError> {
    if encoded_size(s) + 2 + t.value_len() > MAX_LLDPDU_SIZE {
        Some(LldpError::SizeExceeded)
    } else if has_end(s) {
        Some(LldpError::TerminatorAlreadyPresent)
    } else if s.len() == 0 && t.kind() != TlvType::ChassisId {
        Some(LldpError::OrderingViolation)
    } else if s.len() == 1 && t.kind() != TlvType::PortId {
        Some(LldpError::OrderingViolation)
    } else if s.len() == 2 && t.kind() != TlvType::Ttl {
        Some(LldpError::OrderingViolation)
    } else if s.len() >= 3 && t.kind().is_mandatory() {
        Some(LldpError::DuplicateMandatory)
    } else {
        None
    }
}

/// Appends the records of `ts` to `s` one by one, stopping at the first
/// error.
pub open spec fn append_all(s: Seq<TlvView>, ts: Seq<TlvView>) -> Result<Seq<TlvView>, LldpError>
    decreases ts.len(),
{
    if ts.len() == 0 {
        Ok(s)
    } else {
        match append_error(s, ts[0]) {
            Some(e) => Err(e),
            None => append_all(s.push(ts[0]), ts.drop_first()),
        }
    }
}

/// Reads the records of `rest` one after the other and appends each to
/// `acc`, stopping at the first record that does not decode or append.
pub open spec fn parse_from(acc: Seq<TlvView>, rest: Seq<u8>) -> Result<Seq<TlvView>, LldpError>
    decreases rest.len(),
{
    if rest.len() == 0 {
        Ok(acc)
    } else if rest.len() < 2 {
        Err(LldpError::MalformedHeader)
    } else {
        let n = 2 + header_len(rest[0], rest[1]);
        if rest.len() < n {
            Err(LldpError::MalformedHeader)
        } else {
            match decode(rest.subrange(0, n as int)) {
                Err(e) => Err(e),
                Ok(t) => match append_error(acc, t) {
                    Some(e) => Err(e),
                    None => parse_from(acc.push(t), rest.subrange(n as int, rest.len() as int)),
                },
            }
        }
    }
}

/// The records' text forms joined by `", "`.
pub open spec fn join_renders(s: Seq<TlvView>) -> Seq<char>
    decreases s.len(),
{
    if s.len() == 0 {
        Seq::empty()
    } else if s.len() == 1 {
        s[0].render()
    } else {
        join_renders(s.drop_last()) + ", "@ + s.last().render()
    }
}

/// The data unit's text form, `LLDPDU(<record>, <record>, ...)`.
pub open spec fn render_lldpdu(s: Seq<TlvView>) -> Seq<char> {
    "LLDPDU("@ + join_renders(s) + ")"@
}

pub proof fn lemma_encoded_size_concat(a: Seq<TlvView>, b: Seq<TlvView>)
    ensures
        encoded_size(a + b) == encoded_size(a) + encoded_size(b),
    decreases b.len(),
{
    if b.len() > 0 {
        assert((a + b).drop_last() =~= a + b.drop_last());
        lemma_encoded_size_concat(a, b.drop_last());
    } else {
        assert(a + b =~= a);
    }
}

/// An append that raises no error keeps a data unit valid, and adds the
/// record's encoded size.
#[verifier::spinoff_prover]
pub proof fn lemma_append_keeps_valid(s: Seq<TlvView>, t: TlvView)
    requires
        valid_lldpdu(s),
        t.wf(),
        append_error(s, t) is None,
    ensures
        valid_lldpdu(s.push(t)),
        encoded_size(s.push(t)) == encoded_size(s) + 2 + t.value_len(),
        has_end(s.push(t)) == (t.kind() == TlvType::EndOfLLDPDU),
{
    assert(s.push(t).drop_last() =~= s);
    let u = s.push(t);
    assert forall|i: int| 0 <= i < u.len() - 1 implies (#[trigger] u[i].kind())
        != TlvType::EndOfLLDPDU by {
        if i < s.len() - 1 {
            assert(u[i] == s[i]);
        } else {
            assert(u[i] == s.last());
        }
    }
}

/// Ordering invariant: no sequence of appends that succeeds, from a valid
/// data unit, ends with a record out of place or after a terminator.
pub proof fn lemma_appends_keep_order(s: Seq<TlvView>, ts: Seq<TlvView>)
    requires
        valid_lldpdu(s),
        forall|i: int| 0 <= i < ts.len() ==> (#[trigger] ts[i]).wf(),
        append_all(s, ts) is Ok,
    ensures
        valid_lldpdu(append_all(s, ts)->Ok_0),
        well_ordered(append_all(s, ts)->Ok_0),
    decreases ts.len(),
{
    if ts.len() > 0 {
        assert(ts[0].wf());
        lemma_append_keeps_valid(s, ts[0]);
        let rest = ts.drop_first();
        assert forall|i: int| 0 <= i < rest.len() implies (#[trigger] rest[i]).wf() by {
            assert(rest[i] == ts[i + 1]);
        }
        lemma_appends_keep_order(s.push(ts[0]), rest);
    }
}

/// Size boundary: appending optional records to a data unit that holds its
/// three mandatory records succeeds while the total stays within 1500 bytes,
/// and fails with `SizeExceeded` once it would not. Applied to each prefix
/// of `ts`, this says that every append before the crossing one succeeds and
/// the crossing one fails.
#[verifier::spinoff_prover]
pub proof fn lemma_size_boundary(s: Seq<TlvView>, ts: Seq<TlvView>)
    requires
        valid_lldpdu(s),
        s.len() >= 3,
        !has_end(s),
        forall|i: int|
            0 <= i < ts.len() ==> (#[trigger] ts[i]).wf() && !ts[i].kind().is_mandatory()
                && ts[i].kind() != TlvType::EndOfLLDPDU,
    ensures
        encoded_size(s + ts) <= MAX_LLDPDU_SIZE ==> append_all(s, ts) == Ok::<
            Seq<TlvView>,
            LldpError,
        >(s + ts),
        encoded_size(s + ts) > MAX_LLDPDU_SIZE ==> append_all(s, ts) == Err::<
            Seq<TlvView>,
            LldpError,
        >(LldpError::SizeExceeded),
    decreases ts.len(),
{
    if ts.len() == 0 {
        assert(s + ts =~= s);
    } else {
        let t = ts[0];
        let rest = ts.drop_first();
        let s1 = s.push(t);
        assert(s + ts =~= s1 + rest);
        lemma_encoded_size_concat(s1, rest);
        assert(s1.drop_last() =~= s);
        if encoded_size(s) + 2 + t.value_len() <= MAX_LLDPDU_SIZE {
            lemma_append_keeps_valid(s, t);
            assert forall|i: int| 0 <= i < rest.len() implies (#[trigger] rest[i]).wf()
                && !rest[i].kind().is_mandatory() && rest[i].kind() != TlvType::EndOfLLDPDU by {
                assert(rest[i] == ts[i + 1]);
            }
            lemma_size_boundary(s1, rest);
        }
    }
}

/// The encoding of a non-empty sequence starts with the encoding of its first
/// record.
pub proof fn lemma_encode_all_first(ts: Seq<TlvView>)
    requires
        ts.len() > 0,
    ensures
        encode_all(ts) == ts[0].encode() + encode_all(ts.drop_first()),
    decreases ts.len(),
{
    if ts.len() == 1 {
        assert(ts.drop_last() =~= Seq::<TlvView>::empty());
        assert(ts.drop_first() =~= Seq::<TlvView>::empty());
        assert(encode_all(ts) =~= ts[0].encode() + encode_all(ts.drop_first()));
    } else {
        lemma_encode_all_first(ts.drop_last());
        assert(ts.drop_last().drop_first() =~= ts.drop_first().drop_last());
        assert(ts.drop_first().last() == ts.last());
        assert(encode_all(ts) =~= ts[0].encode() + encode_all(ts.drop_first()));
    }
}

proof fn lemma_encoded_size_prefix(a: Seq<TlvView>, b: Seq<TlvView>)
    ensures
        encoded_size(a) <= encoded_size(a + b),
{
    lemma_encoded_size_concat(a, b);
}

#[verifier::spinoff_prover]
proof fn lemma_first_append_ok(acc: Seq<TlvView>, ts: Seq<TlvView>)
    requires
        valid_lldpdu(acc + ts),
        ts.len() > 0,
    ensures
        ts[0].wf(),
        append_error(acc, ts[0]) is None,
        acc.push(ts[0]) + ts.drop_first() == acc + ts,
{
    let all = acc + ts;
    let t = ts[0];
    let acc1 = acc.push(t);
    assert(all[acc.len() as int] == t);
    assert(acc1 + ts.drop_first() =~= all);
    lemma_encoded_size_prefix(acc1, ts.drop_first());
    assert(acc1.drop_last() =~= acc);
    if acc.len() > 0 {
        assert(all[acc.len() - 1] == acc.last());
    }
    if acc.len() >= 3 {
        assert(!all[acc.len() as int].kind().is_mandatory());
    }
}

#[verifier::spinoff_prover]
proof fn lemma_first_record_bytes(ts: Seq<TlvView>)
    requires
        ts.len() > 0,
        ts[0].wf(),
    ensures
        encode_all(ts).len() >= 2 + ts[0].value_len(),
        2 + header_len(encode_all(ts)[0], encode_all(ts)[1]) == 2 + ts[0].value_len(),
        decode(encode_all(ts).subrange(0, 2 + ts[0].value_len() as int)) == Ok::<
            TlvView,
            LldpError,
        >(ts[0]),
        encode_all(ts).subrange(2 + ts[0].value_len() as int, encode_all(ts).len() as int)
            == encode_all(ts.drop_first()),
{
    let t = ts[0];
    lemma_encode_all_first(ts);
    lemma_value_bytes_len(t);
    lemma_header_round_trip(t.kind().spec_code(), t.value_len());
    lemma_decode_encode(t);
    let b = encode_all(ts);
    let n = 2 + t.value_len();
    assert(b.subrange(0, n as int) =~= t.encode());
    assert(b.subrange(n as int, b.len() as int) =~= encode_all(ts.drop_first()));
}

proof fn lemma_parse_encoding(acc: Seq<TlvView>, ts: Seq<TlvView>)
    requires
        valid_lldpdu(acc + ts),
    ensures
        parse_from(acc, encode_all(ts)) == Ok::<Seq<TlvView>, LldpError>(acc + ts),
    decreases ts.len(),
{
    if ts.len() == 0 {
        assert(acc + ts =~= acc);
    } else {
        lemma_first_append_ok(acc, ts);
        lemma_first_record_bytes(ts);
        lemma_parse_encoding(acc.push(ts[0]), ts.drop_first());
    }
}

/// Round trip of a whole data unit: parsing the encoding of a valid data
/// unit gives that data unit back.
pub proof fn lemma_parse_encode_all(s: Seq<TlvView>)
    requires
        valid_lldpdu(s),
    ensures
        parse_from(Seq::empty(), encode_all(s)) == Ok::<Seq<TlvView>, LldpError>(s),
{
    assert(Seq::<TlvView>::empty() + s =~= s);
    lemma_parse_encoding(Seq::empty(), s);
}

#[verifier::spinoff_prover]
proof fn lemma_encoding_of_parse(acc: Seq<TlvView>, rest: Seq<u8>)
    requires
        parse_from(acc, rest) is Ok,
    ensures
        parse_from(acc, rest)->Ok_0.len() >= acc.len(),
        parse_from(acc, rest)->Ok_0.subrange(0, acc.len() as int) == acc,
        encode_all(
            parse_from(acc, rest)->Ok_0.subrange(
                acc.len() as int,
                parse_from(acc, rest)->Ok_0.len() as int,
            ),
        ) == rest,
    decreases rest.len(),
{
    let s = parse_from(acc, rest)->Ok_0;
    if rest.len() == 0 {
        assert(s.subrange(0, acc.len() as int) =~= acc);
        assert(s.subrange(acc.len() as int, s.len() as int) =~= Seq::<TlvView>::empty());
    } else {
        let n = 2 + header_len(rest[0], rest[1]);
        let t = decode(rest.subrange(0, n as int))->Ok_0;
        let tail = rest.subrange(n as int, rest.len() as int);
        let acc1 = acc.push(t);
        lemma_encoding_of_parse(acc1, tail);
        lemma_encode_decode(rest.subrange(0, n as int));
        assert(s.subrange(0, acc.len() as int) =~= acc1.subrange(0, acc.len() as int));
        assert(acc1.subrange(0, acc.len() as int) =~= acc);
        let mine = s.subrange(acc.len() as int, s.len() as int);
        assert(mine[0] == acc1[acc.len() as int]);
        assert(mine.drop_first() =~= s.subrange(acc1.len() as int, s.len() as int));
        lemma_encode_all_first(mine);
        assert(rest =~= rest.subrange(0, n as int) + tail);
    }
}

/// Round trip of a whole data unit: a buffer that parses is exactly the
/// encoding of the records it parses to.
pub proof fn lemma_encode_all_parse(b: Seq<u8>)
    requires
        parse_from(Seq::empty(), b) is Ok,
    ensures
        encode_all(parse_from(Seq::empty(), b)->Ok_0) == b,
{
    lemma_encoding_of_parse(Seq::empty(), b);
    let s = parse_from(Seq::<TlvView>::empty(), b)->Ok_0;
    assert(s.subrange(0, s.len() as int) =~= s);
}

/// LLDP data unit: at most 1500 bytes of records, starting with Chassis ID,
/// Port ID and Time To Live, with at most one terminator, at the end.
#[derive(Debug, Clone)]
pub struct Lldpdu {
    has_end: bool,
    tlvs: Vec<Tlv>,
    size: usize,
}

impl View for Lldpdu {
    type V = Seq<TlvView>;

    closed spec fn view(&self) -> Seq<TlvView> {
        self.tlvs@.map_values(|t: Tlv| t@)
    }
}

impl Lldpdu {
    pub closed spec fn wf(&self) -> bool {
        &&& valid_lldpdu(self@)
        &&& self.size == encoded_size(self@)
        &&& self.has_end == has_end(self@)
    }

    /// What a well-formed data unit holds obeys the structural rules.
    pub proof fn lemma_valid(&self)
        requires
            self.wf(),
        ensures
            valid_lldpdu(self@),
    {
    }

    fn empty() -> (r: Lldpdu)
        ensures
            r.wf(),
            r@ == Seq::<TlvView>::empty(),
    {
        let r = Lldpdu { has_end: false, tlvs: Vec::new(), size: 0 };
        assert(r@ =~= Seq::<TlvView>::empty());
        r
    }

    /// Appends `tlv`, or leaves the data unit as it was and returns the error
    /// that the structural rules raise.
    #[verifier::spinoff_prover]
    pub fn append(&mut self, tlv: Tlv) -> (r: Result<(), LldpError>)
        requires
            old(self).wf(),
            tlv.wf(),
        ensures
            final(self).wf(),
            valid_lldpdu(final(self)@),
            match append_error(old(self)@, tlv@) {
                Some(e) => r == Err::<(), LldpError>(e) && final(self)@ == old(self)@,
                None => r is Ok && final(self)@ == old(self)@.push(tlv@),
            },
    {
        let tlv_size = 2 + tlv.len();
        if self.size + tlv_size > MAX_LLDPDU_SIZE {
            return Err(LldpError::SizeExceeded);
        }
        if self.has_end {
            return Err(LldpError::TerminatorAlreadyPresent);
        }
        let kind = tlv.get_type();
        let n = self.tlvs.len();
        if n == 0 && kind != TlvType::ChassisId {
            return Err(LldpError::OrderingViolation);
        }
        if n == 1 && kind != TlvType::PortId {
            return Err(LldpError::OrderingViolation);
        }
        if n == 2 && kind != TlvType::Ttl {
            return Err(LldpError::OrderingViolation);
        }
        if n >= 3 && (kind == TlvType::ChassisId || kind == TlvType::PortId || kind
            == TlvType::Ttl) {
            return Err(LldpError::DuplicateMandatory);
        }
        proof {
            lemma_append_keeps_valid(self@, tlv@);
        }
        let ghost before = self@;
        if kind == TlvType::EndOfLLDPDU {
            self.has_end = true;
        }
        self.tlvs.push(tlv);
        self.size = self.size + tlv_size;
        assert(self@ =~= before.push(tlv@));
        Ok(())
    }

    /// A data unit holding `init_tlvs`, appended in order by the same rules
    /// as `append`; the first error stops it.
    pub fn new(init_tlvs: Vec<Tlv>) -> (r: Result<Lldpdu, LldpError>)
        requires
            forall|i: int| 0 <= i < init_tlvs@.len() ==> (#[trigger] init_tlvs@[i]).wf(),
        ensures
            match append_all(Seq::empty(), init_tlvs@.map_values(|t: Tlv| t@)) {
                Ok(s) => r matches Ok(l) && l.wf() && l@ == s,
                Err(e) => r == Err::<Lldpdu, LldpError>(e),
            },
    {
        let mut l = Lldpdu::empty();
        let mut rest = init_tlvs;
        while rest.len() > 0
            invariant
                l.wf(),
                forall|i: int| 0 <= i < rest@.len() ==> (#[trigger] rest@[i]).wf(),
                append_all(Seq::empty(), init_tlvs@.map_values(|t: Tlv| t@)) == append_all(
                    l@,
                    rest@.map_values(|t: Tlv| t@),
                ),
            decreases rest@.len(),
        {
            let ghost views = rest@.map_values(|t: Tlv| t@);
            let tlv = rest.remove(0);
            assert(rest@.map_values(|t: Tlv| t@) =~= views.drop_first());
            match l.append(tlv) {
                Ok(()) => {},
                Err(e) => return Err(e),
            }
        }
        assert(rest@.map_values(|t: Tlv| t@) =~= Seq::<TlvView>::empty());
        Ok(l)
    }

    /// Reads a whole data unit from `data`: one record after another, each
    /// decoded and then appended by the rules of `append`, until the buffer is
    /// used up. The first failure of any record fails the whole parse.
    #[verifier::spinoff_prover]
    pub fn from_bytes(data: &[u8]) -> (r: Result<Lldpdu, LldpError>)
        ensures
            match parse_from(Seq::empty(), data@) {
                Ok(s) => r matches Ok(l) && l.wf() && l@ == s,
                Err(e) => r == Err::<Lldpdu, LldpError>(e),
            },
    {
        let mut l = Lldpdu::empty();
        let mut index: usize = 0;
        let n = data.len();
        assert(data@.subrange(0, n as int) =~= data@);
        while index < n
            invariant
                l.wf(),
                index <= n == data@.len(),
                parse_from(Seq::empty(), data@) == parse_from(
                    l@,
                    data@.subrange(index as int, n as int),
                ),
            decreases n - index,
        {
            let ghost rest = data@.subrange(index as int, n as int);
            if n - index < 2 {
                return Err(LldpError::MalformedHeader);
            }
            let len: usize = (data[index] % 2) as usize * 256 + data[index + 1] as usize;
            if n - index < 2 + len {
                return Err(LldpError::MalformedHeader);
            }
            let end = index + 2 + len;
            let record = slice_subrange(data, index, end);
            assert(rest.subrange(0, (2 + len) as int) =~= record@);
            assert(rest.subrange((2 + len) as int, rest.len() as int) =~= data@.subrange(
                end as int,
                n as int,
            ));
            let tlv = match Tlv::from_bytes(record) {
                Ok(t) => t,
                Err(e) => return Err(e),
            };
            match l.append(tlv) {
                Ok(()) => {},
                Err(e) => return Err(e),
            }
            index = end;
        }
        assert(data@.subrange(index as int, n as int) =~= Seq::<u8>::empty());
        Ok(l)
    }

    /// Whether the data unit is terminated.
    pub fn complete(&self) -> (r: bool)
        requires
            self.wf(),
        ensures
            r == has_end(self@),
    {
        self.has_end
    }

    /// Whether the data unit obeys the structural rules; a well-formed one
    /// always does.
    pub fn is_valid(&self) -> (r: bool)
        requires
            self.wf(),
        ensures
            r == valid_lldpdu(self@),
    {
        true
    }

    /// Number of records.
    pub fn len(&self) -> (r: usize)
        ensures
            r == self@.len(),
    {
        self.tlvs.len()
    }

    /// Whether there is no record.
    pub fn is_empty(&self) -> (r: bool)
        ensures
            r == (self@.len() == 0),
    {
        self.tlvs.len() == 0
    }

    /// The records' bytes, one after the other.
    pub fn bytes(&self) -> (r: Vec<u8>)
        requires
            self.wf(),
        ensures
            r@ == encode_all(self@),
            r@.len() == encoded_size(self@),
    {
        let mut out: Vec<u8> = Vec::new();
        let mut i: usize = 0;
        while i < self.tlvs.len()
            invariant
                self.wf(),
                i <= self@.len(),
                out@ == encode_all(self@.subrange(0, i as int)),
                out@.len() == encoded_size(self@.subrange(0, i as int)),
            decreases self@.len() - i,
        {
            assert(self.tlvs@[i as int]@ == self@[i as int]);
            let b = self.tlvs[i].bytes();
            crate::codec::push_all(&mut out, b.as_slice());
            assert(self@.subrange(0, i + 1).drop_last() =~= self@.subrange(0, i as int));
            i = i + 1;
        }
        assert(self@.subrange(0, i as int) =~= self@);
        out
    }

    /// The data unit's text form.
    pub fn render(&self) -> (r: String)
        ensures
            r@ == render_lldpdu(self@),
    {
        let mut s = String::new();
        push_str(&mut s, "LLDPDU(");
        let ghost start = s@;
        let mut i: usize = 0;
        assert(self@.subrange(0, 0) =~= Seq::<TlvView>::empty());
        while i < self.tlvs.len()
            invariant
                i <= self@.len(),
                s@ == start + join_renders(self@.subrange(0, i as int)),
            decreases self@.len() - i,
        {
            if i > 0 {
                push_str(&mut s, ", ");
            }
            let t = self.tlvs[i].render();
            push_str(&mut s, t.as_str());
            let ghost sub = self@.subrange(0, i + 1);
            assert(sub.drop_last() =~= self@.subrange(0, i as int));
            assert(sub.last() == self.tlvs@[i as int]@);
            assert(s@ =~= start + join_renders(sub));
            i = i + 1;
        }
        push_str(&mut s, ")");
        assert(self@.subrange(0, i as int) =~= self@);
        assert(s@ =~= render_lldpdu(self@));
        s
    }

    /// The record at position `item`.
    pub fn getitem(&self, item: usize) -> (r: &Tlv)
        requires
            item < self@.len(),
        ensures
            r@ == self@[item as int],
    {
        &self.tlvs[item]
    }
}

} // verus!
