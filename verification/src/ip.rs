//! IPv4 addresses and network masks, and their dotted-decimal text.

use vstd::prelude::*;
use crate::text::{
    all_digits, decimal, free_of, is_digit, lemma_decimal_is_numeral, lemma_decimal_value,
    lemma_split_one, lemma_split_push, number_value, parse_number, push_decimal, split,
    split_fields, views,
};

verus! {

/// An IPv4 address: four octets, most significant first.
#[derive(Debug, PartialEq, Eq, Structural, Copy, Clone, Hash)]
pub struct Ipv4Addr {
    pub a: u8,
    pub b: u8,
    pub c: u8,
    pub d: u8,
}

/// The octet that a text field spells: one to three digits, without a
/// leading zero unless the field is `0`, and at most 255.
pub open spec fn octet_of(f: Seq<char>) -> Option<u8> {
    if f.len() >= 1 && all_digits(f) && (f.len() == 1 || f[0] != '0') && number_value(f) <= 255 {
        Some(number_value(f) as u8)
    } else {
        None
    }
}

/// The address that a text spells: four octets separated by dots.
pub open spec fn ipv4_of(s: Seq<char>) -> Option<Ipv4Addr> {
    let f = split(s, '.');
    if f.len() == 4 && octet_of(f[0]) is Some && octet_of(f[1]) is Some && octet_of(f[2]) is Some
        && octet_of(f[3]) is Some {
        Some(
            Ipv4Addr {
                a: octet_of(f[0])->0,
                b: octet_of(f[1])->0,
                c: octet_of(f[2])->0,
                d: octet_of(f[3])->0,
            },
        )
    } else {
        None
    }
}

/// The octet of a network mask whose first `bits` bits are set.
pub open spec fn mask_octet(bits: int) -> u8 {
    if bits <= 0 {
        0
    } else if bits == 1 {
        128
    } else if bits == 2 {
        192
    } else if bits == 3 {
        224
    } else if bits == 4 {
        240
    } else if bits == 5 {
        248
    } else if bits == 6 {
        252
    } else if bits == 7 {
        254
    } else {
        255
    }
}

/// The network mask that has its first `prefix` bits set and the others clear.
pub open spec fn netmask_of(prefix: int) -> Ipv4Addr {
    Ipv4Addr {
        a: mask_octet(prefix),
        b: mask_octet(prefix - 8),
        c: mask_octet(prefix - 16),
        d: mask_octet(prefix - 24),
    }
}

impl Ipv4Addr {
    /// The address `a.b.c.d`.
    pub fn new(a: u8, b: u8, c: u8, d: u8) -> (ip: Ipv4Addr)
        ensures
            ip == (Ipv4Addr { a, b, c, d }),
    {
        Ipv4Addr { a, b, c, d }
    }

    /// The four octets, most significant first.
    pub fn octets(&self) -> (o: [u8; 4])
        ensures
            o@ == seq![self.a, self.b, self.c, self.d],
    {
        let o = [self.a, self.b, self.c, self.d];
        assert(o@ =~= seq![self.a, self.b, self.c, self.d]);
        o
    }

    /// The dotted-decimal text of the address.
    pub open spec fn text(self) -> Seq<char> {
        decimal(self.a as nat) + seq!['.'] + decimal(self.b as nat) + seq!['.'] + decimal(
            self.c as nat,
        ) + seq!['.'] + decimal(self.d as nat)
    }

    /// Appends the dotted-decimal text of the address to `out`.
    pub fn push_text(&self, out: &mut String)
        ensures
            final(out)@ == old(out)@ + self.text(),
    {
        push_decimal(out, self.a as u64);
        out.push('.');
        push_decimal(out, self.b as u64);
        out.push('.');
        push_decimal(out, self.c as u64);
        out.push('.');
        push_decimal(out, self.d as u64);
        assert(final(out)@ =~= old(out)@ + self.text());
    }

    /// The dotted-decimal text of the address.
    pub fn to_text(&self) -> (s: String)
        ensures
            s@ == self.text(),
    {
        let mut s = String::new();
        self.push_text(&mut s);
        assert(s@ =~= self.text());
        s
    }

    /// The network mask with `prefix` leading one-bits, for a prefix of at most 32.
    pub fn netmask(prefix: u8) -> (m: Ipv4Addr)
        requires
            prefix <= 32,
        ensures
            m == netmask_of(prefix as int),
    {
        Ipv4Addr {
            a: mask_byte(prefix),
            b: mask_byte(if prefix >= 8 { prefix - 8 } else { 0 }),
            c: mask_byte(if prefix >= 16 { prefix - 16 } else { 0 }),
            d: mask_byte(if prefix >= 24 { prefix - 24 } else { 0 }),
        }
    }
}

/// The octet of a network mask whose first `bits` bits are set.
fn mask_byte(bits: u8) -> (m: u8)
    ensures
        m == mask_octet(bits as int),
{
    if bits == 0 {
        0
    } else if bits == 1 {
        128
    } else if bits == 2 {
        192
    } else if bits == 3 {
        224
    } else if bits == 4 {
        240
    } else if bits == 5 {
        248
    } else if bits == 6 {
        252
    } else if bits == 7 {
        254
    } else {
        255
    }
}

/// Reads one octet of a dotted-decimal address.
pub fn parse_octet(f: &Vec<char>) -> (r: Option<u8>)
    ensures
        r == octet_of(f@),
{
    match parse_number(f, 255) {
        Some(v) => {
            if f.len() == 1 || f[0] != '0' {
                Some(v as u8)
            } else {
                None
            }
        },
        None => None,
    }
}

/// Reads a dotted-decimal address.
pub fn parse_ipv4(s: &Vec<char>) -> (r: Option<Ipv4Addr>)
    ensures
        r == ipv4_of(s@),
{
    let fields = split_fields(s, '.');
    if fields.len() != 4 {
        return None;
    }
    proof {
        assert(views(fields@)[0] == fields@[0]@);
        assert(views(fields@)[1] == fields@[1]@);
        assert(views(fields@)[2] == fields@[2]@);
        assert(views(fields@)[3] == fields@[3]@);
    }
    let a = match parse_octet(&fields[0]) {
        Some(v) => v,
        None => { return None; },
    };
    let b = match parse_octet(&fields[1]) {
        Some(v) => v,
        None => { return None; },
    };
    let c = match parse_octet(&fields[2]) {
        Some(v) => v,
        None => { return None; },
    };
    let d = match parse_octet(&fields[3]) {
        Some(v) => v,
        None => { return None; },
    };
    Some(Ipv4Addr { a, b, c, d })
}

/// The text of an octet reads back as that octet, and holds no dot.
pub proof fn lemma_octet_reads_back(v: u8)
    ensures
        octet_of(decimal(v as nat)) == Some(v),
        free_of(decimal(v as nat), '.'),
{
    lemma_decimal_is_numeral(v as nat);
    lemma_decimal_value(v as nat);
    let d = decimal(v as nat);
    assert forall|i: int| 0 <= i < d.len() implies #[trigger] d[i] != '.' by {
        assert(is_digit(d[i]));
    }
}

/// The text of an address reads back as that address.
pub proof fn lemma_text_reads_back(ip: Ipv4Addr)
    ensures
        ipv4_of(ip.text()) == Some(ip),
{
    let a = decimal(ip.a as nat);
    let b = decimal(ip.b as nat);
    let c = decimal(ip.c as nat);
    let d = decimal(ip.d as nat);
    lemma_octet_reads_back(ip.a);
    lemma_octet_reads_back(ip.b);
    lemma_octet_reads_back(ip.c);
    lemma_octet_reads_back(ip.d);
    lemma_split_one(a, '.');
    lemma_split_push(a, b, '.');
    lemma_split_push(a + seq!['.'] + b, c, '.');
    lemma_split_push(a + seq!['.'] + b + seq!['.'] + c, d, '.');
    let f = split(ip.text(), '.');
    assert(f =~= seq![a, b, c, d]);
}

} // verus!
