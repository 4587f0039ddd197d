//! Listener address helpers.

use vstd::prelude::*;
use vstd::utf8::encode_utf8;

verus! {

/// The bytes of `s` after its last `:`; all of `s` when it holds none.
pub open spec fn after_last_colon(s: Seq<u8>) -> Seq<u8>
    decreases s.len(),
{
    if s.len() == 0 {
        s
    } else if s.last() == 58u8 {
        Seq::empty()
    } else {
        after_last_colon(s.drop_last()).push(s.last())
    }
}

/// An ASCII decimal digit.
pub open spec fn is_digit(b: u8) -> bool {
    48u8 <= b <= 57u8
}

/// The value of a string of ASCII decimal digits.
pub open spec fn digits_value(d: Seq<u8>) -> nat
    decreases d.len(),
{
    if d.len() == 0 {
        0
    } else {
        digits_value(d.drop_last()) * 10 + (d.last() - 48u8) as nat
    }
}

/// `d` without the one `+` that may lead it.
pub open spec fn unsigned_digits(d: Seq<u8>) -> Seq<u8> {
    if d.len() > 0 && d[0] == 43u8 {
        d.drop_first()
    } else {
        d
    }
}

/// Every byte of `d` is a decimal digit.
pub open spec fn all_digits(d: Seq<u8>) -> bool {
    forall|i: int| 0 <= i < d.len() ==> is_digit(#[trigger] d[i])
}

/// The port that `d` spells in `u16`'s decimal syntax: an optional `+`, then one or more
/// digits, with a value of at most 65535.
pub open spec fn port_value(d: Seq<u8>) -> Option<u16> {
    let digits = unsigned_digits(d);
    if digits.len() > 0 && all_digits(digits) && digits_value(digits) <= 65535 {
        Some(digits_value(digits) as u16)
    } else {
        None
    }
}

/// The port written at the end of an `ip:port` address.
pub open spec fn address_port(addr: Seq<char>) -> Option<u16> {
    port_value(after_last_colon(encode_utf8(addr)))
}

proof fn lemma_after_last_colon(b: Seq<u8>, i: int)
    requires
        0 <= i <= b.len(),
        forall|k: int| i <= k < b.len() ==> b[k] != 58u8,
        i == 0 || b[i - 1] == 58u8,
    ensures
        after_last_colon(b) == b.subrange(i, b.len() as int),
    decreases b.len(),
{
    if b.len() == i {
        if b.len() > 0 {
            assert(b.last() == b[i - 1]);
        }
        assert(b.subrange(i, b.len() as int) =~= Seq::<u8>::empty());
    } else {
        let p = b.drop_last();
        lemma_after_last_colon(p, i);
        assert(b.subrange(i, b.len() as int) =~= p.subrange(i, p.len() as int).push(b.last()));
    }
}

proof fn lemma_digits_grow(d: Seq<u8>, i: int)
    requires
        0 <= i <= d.len(),
    ensures
        digits_value(d.subrange(0, i)) <= digits_value(d),
    decreases d.len() - i,
{
    if i < d.len() {
        lemma_digits_grow(d, i + 1);
        let p = d.subrange(0, i + 1);
        assert(p.drop_last() =~= d.subrange(0, i));
    } else {
        assert(d.subrange(0, i) =~= d);
    }
}

/// Parses `d[from..]` as a port, in `u16`'s decimal syntax.
fn parse_port(d: &[u8], from: usize) -> (r: Option<u16>)
    requires
        from <= d@.len(),
    ensures
        r == port_value(d@.subrange(from as int, d@.len() as int)),
{
    let ghost whole = d@.subrange(from as int, d@.len() as int);
    let start: usize = if from < d.len() && d[from] == 43u8 {
        from + 1
    } else {
        from
    };
    let ghost digits = d@.subrange(start as int, d@.len() as int);
    assert(digits =~= unsigned_digits(whole));
    if start >= d.len() {
        return None;
    }
    let mut v: u32 = 0;
    let mut i: usize = start;
    while i < d.len()
        invariant
            from <= start <= i <= d@.len(),
            start < d@.len(),
            whole == d@.subrange(from as int, d@.len() as int),
            digits == d@.subrange(start as int, d@.len() as int),
            digits == unsigned_digits(whole),
            v as nat == digits_value(digits.subrange(0, i - start)),
            v <= 65535,
            forall|k: int| 0 <= k < i - start ==> is_digit(#[trigger] digits[k]),
        decreases d@.len() - i,
    {
        let c = d[i];
        if c < 48u8 || c > 57u8 {
            assert(!is_digit(digits[i - start]));
            assert(!all_digits(digits));
            return None;
        }
        proof {
            assert(digits.subrange(0, i - start + 1).drop_last() =~= digits.subrange(0, i - start));
        }
        v = v * 10 + (c - 48u8) as u32;
        if v > 65535 {
            proof {
                lemma_digits_grow(digits, i - start + 1);
            }
            return None;
        }
        i = i + 1;
    }
    assert(digits.subrange(0, i - start) =~= digits);
    Some(v as u16)
}

/// The ports of a list of `ip:port` addresses, in order; `None` when an address does not
/// end in a valid port.
pub fn collect_ports(addrs: &[String]) -> (r: Option<Vec<u16>>)
    ensures
        r is Some <==> forall|i: int| 0 <= i < addrs@.len() ==> #[trigger] address_port(addrs@[i]@) is Some,
        r matches Some(ports) ==> ports@.len() == addrs@.len() && forall|i: int|
            0 <= i < addrs@.len() ==> address_port(addrs@[i]@) == Some(#[trigger] ports@[i]),
{
    let mut ports: Vec<u16> = Vec::new();
    let mut i: usize = 0;
    while i < addrs.len()
        invariant
            i <= addrs@.len(),
            ports@.len() == i,
            forall|k: int| 0 <= k < i ==> address_port(addrs@[k]@) == Some(#[trigger] ports@[k]),
        decreases addrs@.len() - i,
    {
        let b = addrs[i].as_str().as_bytes();
        let mut start: usize = b.len();
        while start > 0 && b[start - 1] != 58u8
            invariant
                start <= b@.len(),
                forall|k: int| start <= k < b@.len() ==> b@[k] != 58u8,
            decreases start,
        {
            start = start - 1;
        }
        proof {
            lemma_after_last_colon(b@, start as int);
        }
        let parsed = parse_port(b, start);
        proof {
            assert(b@ == encode_utf8(addrs@[i as int]@));
            assert(parsed == address_port(addrs@[i as int]@));
        }
        match parsed {
            Some(p) => {
                ports.push(p);
            },
            None => {
                return None;
            },
        }
        i = i + 1;
    }
    assert forall|k: int| 0 <= k < addrs@.len() implies #[trigger] address_port(addrs@[k]@) is Some by {
        assert(address_port(addrs@[k]@) == Some(ports@[k]));
    }
    Some(ports)
}

} // verus!
