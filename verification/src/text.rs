//! Byte-level text helpers shared by the playlist transformer, the URL
//! builders and the error messages: prefix matching and decimal rendering.
use vstd::prelude::*;

verus! {

/// True when `prefix` is an initial run of `line`.
pub open spec fn prefix_matches(line: Seq<u8>, prefix: Seq<u8>) -> bool {
    &&& prefix.len() <= line.len()
    &&& forall|i: int| 0 <= i < prefix.len() ==> line[i] == prefix[i]
}

/// Decimal digits of `n`, most significant first.
pub open spec fn dec_digits(n: nat) -> Seq<u8>
    decreases n,
{
    if n < 10 {
        seq![(48 + n) as u8]
    } else {
        dec_digits(n / 10).push((48 + n % 10) as u8)
    }
}

/// Decimal rendering of a signed value: a minus sign before the digits of
/// the magnitude when the value is negative.
pub open spec fn dec_signed(n: int) -> Seq<u8> {
    if n < 0 {
        seq![45u8] + dec_digits((-n) as nat)
    } else {
        dec_digits(n as nat)
    }
}

pub fn line_has_prefix(line: &Vec<u8>, prefix: &Vec<u8>) -> (r: bool)
    ensures
        r == prefix_matches(line@, prefix@),
{
    if prefix.len() > line.len() {
        return false;
    }
    let mut i: usize = 0;
    while i < prefix.len()
        invariant
            i <= prefix.len(),
            prefix.len() <= line.len(),
            forall|j: int| 0 <= j < i ==> line@[j] == prefix@[j],
        decreases prefix.len() - i,
    {
        if line[i] != prefix[i] {
            return false;
        }
        i += 1;
    }
    true
}

pub fn u64_to_dec(n: u64) -> (r: Vec<u8>)
    ensures
        r@ == dec_digits(n as nat),
    decreases n,
{
    if n < 10 {
        let mut v: Vec<u8> = Vec::new();
        v.push(48 + n as u8);
        assert(v@ =~= dec_digits(n as nat));
        v
    } else {
        let mut v = u64_to_dec(n / 10);
        v.push(48 + (n % 10) as u8);
        assert(v@ =~= dec_digits(n as nat));
        v
    }
}

pub fn i32_to_dec(n: i32) -> (r: Vec<u8>)
    ensures
        r@ == dec_signed(n as int),
{
    if n < 0 {
        let mag: u64 = (-(n as i64)) as u64;
        let digits = u64_to_dec(mag);
        let mut v: Vec<u8> = Vec::new();
        v.push(45);
        let mut i: usize = 0;
        while i < digits.len()
            invariant
                i <= digits.len(),
                v@ =~= seq![45u8] + digits@.subrange(0, i as int),
            decreases digits.len() - i,
        {
            v.push(digits[i]);
            assert(v@ =~= seq![45u8] + digits@.subrange(0, i + 1 as int));
            i += 1;
        }
        assert(digits@.subrange(0, digits@.len() as int) =~= digits@);
        assert(v@ =~= dec_signed(n as int));
        v
    } else {
        let r = u64_to_dec(n as u64);
        assert(r@ =~= dec_signed(n as int));
        r
    }
}

/// Appends all of `tail` onto `buf`.
pub fn append_bytes(buf: &mut Vec<u8>, tail: &Vec<u8>)
    ensures
        final(buf)@ == old(buf)@ + tail@,
{
    let mut i: usize = 0;
    while i < tail.len()
        invariant
            i <= tail.len(),
            buf@ =~= old(buf)@ + tail@.subrange(0, i as int),
        decreases tail.len() - i,
    {
        buf.push(tail[i]);
        assert(buf@ =~= old(buf)@ + tail@.subrange(0, i + 1 as int));
        i += 1;
    }
    assert(tail@.subrange(0, tail@.len() as int) =~= tail@);
}

} // verus!
