//! Dotted-quad IPv4 addresses as plain values: four octets and a parser
//! for the textual form the router hands back.

use vstd::prelude::*;

use crate::text::{digit_val, is_digit, is_digit_char};

verus! {

/// An IPv4 address as four plain octets.
#[derive(Clone, Copy, PartialEq, Eq, Structural, Debug)]
pub struct Ipv4 {
    pub a: u8,
    pub b: u8,
    pub c: u8,
    pub d: u8,
}

// ---------------------------------------------------------------------------
// splitting at dots
// ---------------------------------------------------------------------------

/// Length of the run of characters at the front of `s` up to the first
/// dot, or all of `s` without one.
pub open spec fn seg_len(s: Seq<char>) -> nat
    decreases s.len(),
{
    if s.len() == 0 || s[0] == '.' {
        0
    } else {
        (1 + seg_len(s.skip(1))) as nat
    }
}

pub proof fn lemma_seg_len_le(s: Seq<char>)
    ensures
        seg_len(s) <= s.len(),
    decreases s.len(),
{
    if s.len() > 0 && s[0] != '.' {
        lemma_seg_len_le(s.skip(1));
    }
}

/// The dot-separated segments of `s`, empty segments kept, as
/// `str::split('.')` walks them.
pub open spec fn split_dot(s: Seq<char>) -> Seq<Seq<char>>
    decreases s.len() via split_dot_decreases
{
    let n = seg_len(s) as int;
    if n == s.len() {
        seq![s]
    } else {
        seq![s.take(n)] + split_dot(s.skip(n + 1))
    }
}

#[via_fn]
proof fn split_dot_decreases(s: Seq<char>) {
    lemma_seg_len_le(s);
}

fn seg_len_str(s: &str) -> (w: usize)
    ensures
        w as nat == seg_len(s@),
    decreases s@.len(),
{
    let n = s.unicode_len();
    if n == 0 || s.get_char(0) == '.' {
        0
    } else {
        let rest = s.substring_char(1, n);
        proof {
            assert(rest@ =~= s@.skip(1));
            lemma_seg_len_le(s@.skip(1));
        }
        1 + seg_len_str(rest)
    }
}

fn nth_seg(s: &str, k: usize) -> (r: Option<String>)
    ensures
        match r {
            Some(w) => k < split_dot(s@).len() && w@ == split_dot(s@)[k as int],
            None => split_dot(s@).len() <= k,
        },
    decreases s@.len(),
{
    let n = s.unicode_len();
    let e = seg_len_str(s);
    proof {
        lemma_seg_len_le(s@);
    }
    if k == 0 {
        let w = s.substring_char(0, e);
        proof {
            if e == n {
                assert(s@.take(e as int) =~= s@);
            }
        }
        Some(String::from_str(w))
    } else if e == n {
        None
    } else {
        let rest = s.substring_char(e + 1, n);
        proof {
            assert(rest@ =~= s@.skip(e + 1));
        }
        nth_seg(rest, k - 1)
    }
}

// ---------------------------------------------------------------------------
// octets
// ---------------------------------------------------------------------------

/// The decimal value of a digit string, most significant first.
pub open spec fn octet_val(s: Seq<char>) -> int
    decreases s.len(),
{
    if s.len() == 0 {
        0
    } else {
        octet_val(s.drop_last()) * 10 + digit_val(s.last())
    }
}

/// A valid octet: one to three digits, no leading zero unless the octet
/// is exactly `0`, value at most 255 — the form `Ipv4Addr` accepts.
pub open spec fn is_octet(s: Seq<char>) -> bool {
    &&& 1 <= s.len() <= 3
    &&& forall|i: int| 0 <= i < s.len() ==> is_digit(#[trigger] s[i])
    &&& s.len() > 1 ==> s[0] != '0'
    &&& octet_val(s) <= 255
}

proof fn lemma_octet_val_bound(s: Seq<char>)
    requires
        forall|i: int| 0 <= i < s.len() ==> is_digit(#[trigger] s[i]),
    ensures
        0 <= octet_val(s),
        s.len() <= 1 ==> octet_val(s) < 10,
        s.len() <= 2 ==> octet_val(s) < 100,
        s.len() <= 3 ==> octet_val(s) < 1000,
    decreases s.len(),
{
    if s.len() > 0 {
        lemma_octet_val_bound(s.drop_last());
    }
}

fn parse_octet(p: &str) -> (r: Option<u8>)
    ensures
        match r {
            Some(b) => is_octet(p@) && b as int == octet_val(p@),
            None => !is_octet(p@),
        },
{
    let n = p.unicode_len();
    if n == 0 || n > 3 {
        return None;
    }
    if n > 1 && p.get_char(0) == '0' {
        return None;
    }
    let mut v: u32 = 0;
    let mut i: usize = 0;
    while i < n
        invariant
            i <= n,
            n == p@.len(),
            n <= 3,
            forall|k: int| 0 <= k < i ==> is_digit(#[trigger] p@[k]),
            v as int == octet_val(p@.take(i as int)),
        decreases n - i,
    {
        let c = p.get_char(i);
        if !is_digit_char(c) {
            return None;
        }
        proof {
            lemma_octet_val_bound(p@.take(i as int));
            assert(p@.take(i + 1).drop_last() =~= p@.take(i as int));
        }
        v = v * 10 + (c as u32 - 48);
        i += 1;
    }
    proof {
        assert(p@.take(n as int) =~= p@);
    }
    if v > 255 {
        None
    } else {
        Some(v as u8)
    }
}

// ---------------------------------------------------------------------------
// the address
// ---------------------------------------------------------------------------

/// A valid dotted quad: exactly four segments, each a valid octet.
pub open spec fn ipv4_valid(s: Seq<char>) -> bool {
    split_dot(s).len() == 4 && forall|i: int|
        0 <= i < 4 ==> is_octet(#[trigger] split_dot(s)[i])
}

/// Parses a dotted-quad IPv4 address; yields the four octet values
/// exactly when the text is a valid dotted quad.
pub fn parse_ipv4(s: &str) -> (r: Option<Ipv4>)
    ensures
        match r {
            Some(ip) => {
                &&& ipv4_valid(s@)
                &&& ip.a as int == octet_val(split_dot(s@)[0])
                &&& ip.b as int == octet_val(split_dot(s@)[1])
                &&& ip.c as int == octet_val(split_dot(s@)[2])
                &&& ip.d as int == octet_val(split_dot(s@)[3])
            },
            None => !ipv4_valid(s@),
        },
{
    let w0 = match nth_seg(s, 0) {
        Some(w) => w,
        None => {
            return None;
        },
    };
    let w1 = match nth_seg(s, 1) {
        Some(w) => w,
        None => {
            return None;
        },
    };
    let w2 = match nth_seg(s, 2) {
        Some(w) => w,
        None => {
            return None;
        },
    };
    let w3 = match nth_seg(s, 3) {
        Some(w) => w,
        None => {
            return None;
        },
    };
    if nth_seg(s, 4).is_some() {
        return None;
    }
    let a = match parse_octet(w0.as_str()) {
        Some(b) => b,
        None => {
            return None;
        },
    };
    let b = match parse_octet(w1.as_str()) {
        Some(b) => b,
        None => {
            return None;
        },
    };
    let c = match parse_octet(w2.as_str()) {
        Some(b) => b,
        None => {
            return None;
        },
    };
    let d = match parse_octet(w3.as_str()) {
        Some(b) => b,
        None => {
            return None;
        },
    };
    Some(Ipv4 { a, b, c, d })
}

} // verus!
