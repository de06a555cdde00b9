//! Parsing of the options a handshake run is configured with
use vstd::prelude::*;
use vstd::utf8::encode_utf8;
use crate::messages::Chain;
use crate::messages::chain_of_name;
use crate::messages::types::version::Services;

verus! {

/// Whether `b` is an ASCII decimal digit.
pub open spec fn is_digit(b: u8) -> bool {
    0x30 <= b <= 0x39
}

/// The number that the decimal digits `d` write.
pub open spec fn decimal_value(d: Seq<u8>) -> nat
    decreases d.len(),
{
    if d.len() == 0 {
        0
    } else {
        decimal_value(d.drop_last()) * 10 + (d.last() - 0x30) as nat
    }
}

/// The digits of `b`, after an optional leading `+`.
pub open spec fn unsigned_digits(b: Seq<u8>) -> Seq<u8> {
    if b.len() > 0 && b[0] == 0x2b {
        b.drop_first()
    } else {
        b
    }
}

/// The 64-bit integer that the text `b` writes in decimal: an optional `+`, then one
/// digit or more, with a value that fits in 64 bits.
pub open spec fn decimal_u64(b: Seq<u8>) -> Option<u64> {
    let d = unsigned_digits(b);
    if d.len() > 0 && (forall|i: int| 0 <= i < d.len() ==> is_digit(#[trigger] d[i]))
        && decimal_value(d) <= u64::MAX {
        Some(decimal_value(d) as u64)
    } else {
        None
    }
}

/// Appending digits never makes the value smaller.
proof fn lemma_decimal_grows(d: Seq<u8>, k: int)
    requires
        0 <= k <= d.len(),
        forall|i: int| 0 <= i < d.len() ==> is_digit(#[trigger] d[i]),
    ensures
        decimal_value(d.take(k)) <= decimal_value(d),
    decreases d.len() - k,
{
    if k < d.len() {
        lemma_decimal_grows(d, k + 1);
        assert(d.take(k + 1).drop_last() =~= d.take(k));
    } else {
        assert(d.take(k) =~= d);
    }
}

/// Reads an unsigned decimal integer, as `u64`'s `FromStr` does.
pub fn parse_u64(s: &str) -> (r: Option<u64>)
    ensures
        r == decimal_u64(encode_utf8(s@)),
{
    let b = s.as_bytes();
    let ghost d = unsigned_digits(b@);
    let start: usize = if b.len() > 0 && b[0] == 0x2b {
        1
    } else {
        0
    };
    assert(d =~= b@.skip(start as int));
    if start == b.len() {
        return None;
    }
    let mut value: u64 = 0;
    let mut i: usize = start;
    while i < b.len()
        invariant
            start <= i <= b@.len(),
            d == b@.skip(start as int),
            d == unsigned_digits(b@),
            b@ == encode_utf8(s@),
            value == decimal_value(d.take(i - start)),
            forall|k: int| 0 <= k < i - start ==> is_digit(#[trigger] d[k]),
        decreases b@.len() - i,
    {
        let c = b[i];
        assert(c == d[i - start]);
        if c < 0x30 || c > 0x39 {
            assert(!is_digit(d[i - start]));
            return None;
        }
        assert(d.take(i - start + 1).drop_last() =~= d.take(i - start));
        let next = match value.checked_mul(10) {
            Some(v) => v.checked_add((c - 0x30) as u64),
            None => None,
        };
        match next {
            Some(v) => value = v,
            None => {
                proof {
                    assert(decimal_value(d.take(i - start + 1)) == value * 10 + (c - 0x30) as nat);
                    assert(decimal_value(d.take(i - start + 1)) > u64::MAX);
                    if forall|k: int| 0 <= k < d.len() ==> is_digit(#[trigger] d[k]) {
                        lemma_decimal_grows(d, i - start + 1);
                    }
                }
                return None;
            },
        }
        i = i + 1;
    }
    assert(d.take(i - start) =~= d);
    Some(value)
}

/// Reads a timeout in whole seconds.
pub fn parse_timeout(seconds: &str) -> (r: Option<u64>)
    ensures
        r == decimal_u64(encode_utf8(seconds@)),
{
    parse_u64(seconds)
}

/// Reads a services bitfield written in decimal; unknown bits are dropped.
pub fn parse_services(services_bits: &str) -> (r: Option<Services>)
    ensures
        r is Some == decimal_u64(encode_utf8(services_bits@)) is Some,
        r is Some ==> r->Some_0@ == decimal_u64(encode_utf8(services_bits@))->Some_0
            & Services::ALL,
{
    match parse_u64(services_bits) {
        Some(bits) => Some(Services::from_bits_truncate(bits)),
        None => None,
    }
}

/// Reads a network by its lower-case name.
pub fn parse_chain(chain: &str) -> (r: Option<Chain>)
    ensures
        r == chain_of_name(chain@),
{
    Chain::from_name(chain)
}

} // verus!
