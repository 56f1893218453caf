//! Text forms used when rendering records: decimal and hexadecimal numbers,
//! MAC addresses and IP addresses.
use vstd::prelude::*;
use vstd::string::*;

verus! {

/// Relies on `String::push`: it appends the one character to the string.
pub assume_specification[ String::push ](s: &mut String, ch: char)
    ensures
        final(s)@ == old(s)@.push(ch),
;

pub open spec fn upper_hex_digit(d: nat) -> char {
    if d == 0 { '0' } else if d == 1 { '1' } else if d == 2 { '2' } else if d == 3 { '3' }
    else if d == 4 { '4' } else if d == 5 { '5' } else if d == 6 { '6' } else if d == 7 { '7' }
    else if d == 8 { '8' } else if d == 9 { '9' } else if d == 10 { 'A' } else if d == 11 { 'B' }
    else if d == 12 { 'C' } else if d == 13 { 'D' } else if d == 14 { 'E' } else { 'F' }
}

pub open spec fn lower_hex_digit(d: nat) -> char {
    if d == 10 { 'a' } else if d == 11 { 'b' } else if d == 12 { 'c' } else if d == 13 { 'd' }
    else if d == 14 { 'e' } else if d == 15 { 'f' } else { upper_hex_digit(d) }
}

/// `n` in decimal, without leading zeros.
pub open spec fn decimal(n: nat) -> Seq<char>
    decreases n,
{
    if n < 10 {
        seq![upper_hex_digit(n)]
    } else {
        decimal(n / 10).push(upper_hex_digit(n % 10))
    }
}

/// `n` in lower-case hexadecimal, without leading zeros.
pub open spec fn lower_hex(n: nat) -> Seq<char>
    decreases n,
{
    if n < 16 {
        seq![lower_hex_digit(n)]
    } else {
        lower_hex(n / 16).push(lower_hex_digit(n % 16))
    }
}

/// A byte as two upper-case hexadecimal digits.
pub open spec fn hex_byte(b: u8) -> Seq<char> {
    seq![upper_hex_digit((b / 16) as nat), upper_hex_digit((b % 16) as nat)]
}

/// Bytes as upper-case hexadecimal, two digits each, without separator.
pub open spec fn hex_string(b: Seq<u8>) -> Seq<char>
    decreases b.len(),
{
    if b.len() == 0 {
        Seq::empty()
    } else {
        hex_string(b.drop_last()) + hex_byte(b.last())
    }
}

/// Bytes as upper-case hexadecimal octets joined by colons.
pub open spec fn mac_text(b: Seq<u8>) -> Seq<char>
    decreases b.len(),
{
    if b.len() <= 1 {
        hex_string(b)
    } else {
        mac_text(b.drop_last()).push(':') + hex_byte(b.last())
    }
}

/// Four octets in dotted decimal.
pub open spec fn ipv4_text(b: Seq<u8>) -> Seq<char> {
    decimal(b[0] as nat).push('.') + decimal(b[1] as nat).push('.') + decimal(b[2] as nat).push(
        '.',
    ) + decimal(b[3] as nat)
}

/// The eight 16-bit groups of sixteen octets.
pub open spec fn segments(b: Seq<u8>) -> Seq<u16> {
    Seq::new(8, |i: int| (b[2 * i] as nat * 256 + b[2 * i + 1] as nat) as u16)
}

/// Number of zero groups from position `i` on, up to the first non-zero one.
pub open spec fn zero_run(g: Seq<u16>, i: int) -> nat
    decreases g.len() - i,
{
    if 0 <= i < g.len() && g[i] == 0 {
        1 + zero_run(g, i + 1)
    } else {
        0
    }
}

/// The earliest position below `upto` whose run of zero groups is longest.
pub open spec fn longest_zero_run_start(g: Seq<u16>, upto: int) -> int
    decreases upto,
{
    if upto <= 1 {
        0
    } else {
        let p = longest_zero_run_start(g, upto - 1);
        if zero_run(g, upto - 1) > zero_run(g, p) {
            upto - 1
        } else {
            p
        }
    }
}

/// Groups in lower-case hexadecimal joined by colons.
pub open spec fn hex_groups(g: Seq<u16>) -> Seq<char>
    decreases g.len(),
{
    if g.len() == 0 {
        Seq::empty()
    } else if g.len() == 1 {
        lower_hex(g[0] as nat)
    } else {
        hex_groups(g.drop_last()).push(':') + lower_hex(g.last() as nat)
    }
}

/// Whether sixteen octets hold an IPv4-mapped address (`::ffff:a.b.c.d`).
pub open spec fn is_ipv4_mapped(b: Seq<u8>) -> bool {
    &&& forall|i: int| 0 <= i < 10 ==> b[i] == 0
    &&& b[10] == 255
    &&& b[11] == 255
}

/// Sixteen octets in the standard text form: lower-case groups, the first
/// longest run of two or more zero groups written `::`, and an IPv4-mapped
/// address written `::ffff:` and then dotted decimal.
pub open spec fn ipv6_text(b: Seq<u8>) -> Seq<char> {
    if is_ipv4_mapped(b) {
        seq![':', ':', 'f', 'f', 'f', 'f', ':'] + ipv4_text(b.subrange(12, 16))
    } else {
        let g = segments(b);
        let s = longest_zero_run_start(g, 8);
        let n = zero_run(g, s);
        if n > 1 {
            hex_groups(g.subrange(0, s)) + seq![':', ':'] + hex_groups(g.subrange(s + n, 8))
        } else {
            hex_groups(g)
        }
    }
}

/// An address of four or sixteen octets in its text form.
pub open spec fn address_text(b: Seq<u8>) -> Seq<char> {
    if b.len() == 4 {
        ipv4_text(b)
    } else {
        ipv6_text(b)
    }
}

fn hex_digit(d: u8, upper: bool) -> (c: char)
    requires
        d < 16,
    ensures
        c == if upper {
            upper_hex_digit(d as nat)
        } else {
            lower_hex_digit(d as nat)
        },
{
    match d {
        0 => '0',
        1 => '1',
        2 => '2',
        3 => '3',
        4 => '4',
        5 => '5',
        6 => '6',
        7 => '7',
        8 => '8',
        9 => '9',
        10 => if upper { 'A' } else { 'a' },
        11 => if upper { 'B' } else { 'b' },
        12 => if upper { 'C' } else { 'c' },
        13 => if upper { 'D' } else { 'd' },
        14 => if upper { 'E' } else { 'e' },
        _ => if upper { 'F' } else { 'f' },
    }
}

/// Appends the text `t`.
pub fn push_str(s: &mut String, t: &str)
    ensures
        final(s)@ == old(s)@ + t@,
{
    s.append(t);
}

/// Appends `n` in decimal.
pub fn push_decimal(s: &mut String, n: u64)
    ensures
        final(s)@ == old(s)@ + decimal(n as nat),
    decreases n,
{
    if n >= 10 {
        push_decimal(s, n / 10);
    }
    s.push(hex_digit((n % 10) as u8, true));
    assert(final(s)@ =~= old(s)@ + decimal(n as nat));
}

/// Appends `n` in lower-case hexadecimal.
pub fn push_lower_hex(s: &mut String, n: u16)
    ensures
        final(s)@ == old(s)@ + lower_hex(n as nat),
    decreases n,
{
    if n >= 16 {
        push_lower_hex(s, n / 16);
    }
    s.push(hex_digit((n % 16) as u8, false));
    assert(final(s)@ =~= old(s)@ + lower_hex(n as nat));
}

/// Appends a byte as two upper-case hexadecimal digits.
pub fn push_hex_byte(s: &mut String, b: u8)
    ensures
        final(s)@ == old(s)@ + hex_byte(b),
{
    s.push(hex_digit(b / 16, true));
    s.push(hex_digit(b % 16, true));
    assert(final(s)@ =~= old(s)@ + hex_byte(b));
}

/// Appends bytes as upper-case hexadecimal without separator.
pub fn push_hex_string(s: &mut String, b: &[u8])
    ensures
        final(s)@ == old(s)@ + hex_string(b@),
{
    let mut i: usize = 0;
    while i < b.len()
        invariant
            i <= b@.len(),
            s@ == old(s)@ + hex_string(b@.subrange(0, i as int)),
        decreases b@.len() - i,
    {
        push_hex_byte(s, b[i]);
        assert(b@.subrange(0, i + 1).drop_last() =~= b@.subrange(0, i as int));
        i = i + 1;
    }
    assert(b@.subrange(0, i as int) =~= b@);
}

/// Appends bytes as upper-case hexadecimal octets joined by colons.
pub fn push_mac(s: &mut String, b: &[u8])
    ensures
        final(s)@ == old(s)@ + mac_text(b@),
{
    let mut i: usize = 0;
    assert(b@.subrange(0, 0) =~= Seq::<u8>::empty());
    while i < b.len()
        invariant
            i <= b@.len(),
            s@ == old(s)@ + mac_text(b@.subrange(0, i as int)),
        decreases b@.len() - i,
    {
        let ghost pre = s@;
        if i > 0 {
            s.push(':');
        }
        push_hex_byte(s, b[i]);
        let ghost sub = b@.subrange(0, i + 1);
        assert(sub.drop_last() =~= b@.subrange(0, i as int));
        if i == 0 {
            assert(hex_string(sub) =~= hex_string(sub.drop_last()) + hex_byte(sub.last()));
            assert(s@ =~= old(s)@ + mac_text(sub));
        } else {
            assert(s@ =~= old(s)@ + mac_text(sub));
        }
        i = i + 1;
    }
    assert(b@.subrange(0, i as int) =~= b@);
}

/// Appends four octets in dotted decimal.
pub fn push_ipv4(s: &mut String, b: &[u8])
    requires
        b@.len() == 4,
    ensures
        final(s)@ == old(s)@ + ipv4_text(b@),
{
    push_decimal(s, b[0] as u64);
    s.push('.');
    push_decimal(s, b[1] as u64);
    s.push('.');
    push_decimal(s, b[2] as u64);
    s.push('.');
    push_decimal(s, b[3] as u64);
    assert(final(s)@ =~= old(s)@ + ipv4_text(b@));
}

fn segments_of(b: &[u8]) -> (g: Vec<u16>)
    requires
        b@.len() == 16,
    ensures
        g@ == segments(b@),
{
    let mut g: Vec<u16> = Vec::new();
    let mut i: usize = 0;
    while i < 8
        invariant
            i <= 8,
            b@.len() == 16,
            g@ == segments(b@).subrange(0, i as int),
        decreases 8 - i,
    {
        g.push(b[2 * i] as u16 * 256 + b[2 * i + 1] as u16);
        i = i + 1;
        assert(g@ =~= segments(b@).subrange(0, i as int));
    }
    assert(g@ =~= segments(b@));
    g
}

fn zero_run_at(g: &Vec<u16>, i: usize) -> (r: usize)
    requires
        i <= g@.len(),
    ensures
        r == zero_run(g@, i as int),
        i + r <= g@.len(),
{
    let mut j: usize = i;
    while j < g.len() && g[j] == 0
        invariant
            i <= j <= g@.len(),
            zero_run(g@, i as int) == (j - i) + zero_run(g@, j as int),
        decreases g@.len() - j,
    {
        j = j + 1;
    }
    j - i
}

fn longest_start(g: &Vec<u16>) -> (r: usize)
    requires
        g@.len() == 8,
    ensures
        r == longest_zero_run_start(g@, 8),
        r < 8,
{
    let mut p: usize = 0;
    let mut best = zero_run_at(g, 0);
    let mut k: usize = 1;
    while k < 8
        invariant
            1 <= k <= 8,
            g@.len() == 8,
            p < k,
            p == longest_zero_run_start(g@, k as int),
            best == zero_run(g@, p as int),
        decreases 8 - k,
    {
        let z = zero_run_at(g, k);
        if z > best {
            p = k;
            best = z;
        }
        k = k + 1;
    }
    p
}

fn push_hex_groups(s: &mut String, g: &Vec<u16>, from: usize, to: usize)
    requires
        from <= to <= g@.len(),
    ensures
        final(s)@ == old(s)@ + hex_groups(g@.subrange(from as int, to as int)),
{
    let mut k: usize = from;
    assert(g@.subrange(from as int, from as int) =~= Seq::<u16>::empty());
    while k < to
        invariant
            from <= k <= to <= g@.len(),
            s@ == old(s)@ + hex_groups(g@.subrange(from as int, k as int)),
        decreases to - k,
    {
        if k > from {
            s.push(':');
        }
        push_lower_hex(s, g[k]);
        let ghost sub = g@.subrange(from as int, k + 1);
        assert(sub.drop_last() =~= g@.subrange(from as int, k as int));
        assert(s@ =~= old(s)@ + hex_groups(sub));
        k = k + 1;
    }
}

fn is_mapped(b: &[u8]) -> (r: bool)
    requires
        b@.len() == 16,
    ensures
        r == is_ipv4_mapped(b@),
{
    let mut i: usize = 0;
    while i < 10
        invariant
            i <= 10,
            b@.len() == 16,
            forall|j: int| 0 <= j < i ==> b@[j] == 0,
        decreases 10 - i,
    {
        if b[i] != 0 {
            return false;
        }
        i = i + 1;
    }
    b[10] == 255 && b[11] == 255
}

/// Appends sixteen octets in the standard IPv6 text form.
pub fn push_ipv6(s: &mut String, b: &[u8])
    requires
        b@.len() == 16,
    ensures
        final(s)@ == old(s)@ + ipv6_text(b@),
{
    if is_mapped(b) {
        s.push(':');
        s.push(':');
        s.push('f');
        s.push('f');
        s.push('f');
        s.push('f');
        s.push(':');
        let v4 = vstd::slice::slice_subrange(b, 12, 16);
        push_ipv4(s, v4);
        assert(final(s)@ =~= old(s)@ + ipv6_text(b@));
    } else {
        let g = segments_of(b);
        let st = longest_start(&g);
        let n = zero_run_at(&g, st);
        if n > 1 {
            push_hex_groups(s, &g, 0, st);
            s.push(':');
            s.push(':');
            push_hex_groups(s, &g, st + n, 8);
            assert(final(s)@ =~= old(s)@ + ipv6_text(b@));
        } else {
            push_hex_groups(s, &g, 0, 8);
            assert(g@.subrange(0, 8) =~= g@);
        }
    }
}

/// Appends an address of four or sixteen octets in its text form.
pub fn push_address_text(s: &mut String, ip: &crate::ip::IpAddress)
    ensures
        final(s)@ == old(s)@ + address_text(ip@),
{
    match ip {
        crate::ip::IpAddress::V4(a) => push_ipv4(s, a.as_slice()),
        crate::ip::IpAddress::V6(a) => push_ipv6(s, a.as_slice()),
    }
}

} // verus!
