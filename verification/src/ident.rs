//! Chunk identifiers.
//!
//! A chunk is addressed everywhere — as DHT provider key and as local cache
//! file name — by the deterministic string `"{content_hash}_chunk_{index}"`.
//! Identifiers are only ever derived from a validated lowercase hex content
//! hash and an index, never taken verbatim from untrusted network input.

use vstd::prelude::*;

verus! {

/// The character for one decimal digit.
pub open spec fn dec_digit_char(d: int) -> char {
    if d == 0 {
        '0'
    } else if d == 1 {
        '1'
    } else if d == 2 {
        '2'
    } else if d == 3 {
        '3'
    } else if d == 4 {
        '4'
    } else if d == 5 {
        '5'
    } else if d == 6 {
        '6'
    } else if d == 7 {
        '7'
    } else if d == 8 {
        '8'
    } else {
        '9'
    }
}

/// The decimal digit string of `n`, most significant digit first, no leading
/// zeros (a single `'0'` for zero).
pub open spec fn dec_digits(n: nat) -> Seq<char>
    decreases n,
{
    if n < 10 {
        seq![dec_digit_char(n as int)]
    } else {
        dec_digits(n / 10) + seq![dec_digit_char((n % 10) as int)]
    }
}

/// The identifier of chunk `index` of the content with hash `hash`.
pub open spec fn chunk_id_spec(hash: Seq<char>, index: nat) -> Seq<char> {
    hash + "_chunk_"@ + dec_digits(index)
}

/// The single-character string for decimal digit `d`.
fn dec_digit_str(d: u64) -> (r: &'static str)
    requires
        d < 10,
    ensures
        r@ == seq![dec_digit_char(d as int)],
{
    proof {
        reveal_strlit("0");
        reveal_strlit("1");
        reveal_strlit("2");
        reveal_strlit("3");
        reveal_strlit("4");
        reveal_strlit("5");
        reveal_strlit("6");
        reveal_strlit("7");
        reveal_strlit("8");
        reveal_strlit("9");
    }
    let r = if d == 0 {
        "0"
    } else if d == 1 {
        "1"
    } else if d == 2 {
        "2"
    } else if d == 3 {
        "3"
    } else if d == 4 {
        "4"
    } else if d == 5 {
        "5"
    } else if d == 6 {
        "6"
    } else if d == 7 {
        "7"
    } else if d == 8 {
        "8"
    } else {
        "9"
    };
    proof {
        assert(r@ =~= seq![dec_digit_char(d as int)]);
    }
    r
}

/// Formats `n` in decimal.
pub fn u64_to_dec_string(n: u64) -> (r: String)
    ensures
        r@ == dec_digits(n as nat),
    decreases n,
{
    if n < 10 {
        String::from_str(dec_digit_str(n))
    } else {
        let mut s = u64_to_dec_string(n / 10);
        s.append(dec_digit_str(n % 10));
        s
    }
}

/// Builds the chunk identifier `"{content_hash}_chunk_{index}"`.
pub fn chunk_id(content_hash: &str, index: u64) -> (r: String)
    ensures
        r@ == chunk_id_spec(content_hash@, index as nat),
{
    let s = String::from_str(content_hash);
    let s = s.concat("_chunk_");
    let digits = u64_to_dec_string(index);
    let s = s.concat(digits.as_str());
    s
}

/// Whether `c` is a lowercase hexadecimal digit.
pub open spec fn is_hex_char(c: char) -> bool {
    ('0' <= c && c <= '9') || ('a' <= c && c <= 'f')
}

/// A well-formed content hash: exactly 64 lowercase hex characters (the hex
/// form of a 32-byte digest). Only such strings may be used to derive cache
/// paths or DHT keys.
pub open spec fn valid_content_hash(s: Seq<char>) -> bool {
    s.len() == 64 && forall|i: int| 0 <= i < s.len() ==> is_hex_char(#[trigger] s[i])
}

/// Checks that `s` is a well-formed content hash, so that an identifier
/// derived from it is safe to use as a file name and DHT key.
pub fn is_valid_content_hash(s: &str) -> (r: bool)
    ensures
        r == valid_content_hash(s@),
{
    let n = s.unicode_len();
    if n != 64 {
        return false;
    }
    let mut i: usize = 0;
    while i < n
        invariant
            n == s@.len(),
            n == 64,
            i <= n,
            forall|j: int| 0 <= j < i ==> is_hex_char(#[trigger] s@[j]),
        decreases n - i,
    {
        let c = s.get_char(i);
        let ok = ('0' <= c && c <= '9') || ('a' <= c && c <= 'f');
        if !ok {
            return false;
        }
        i = i + 1;
    }
    true
}

} // verus!
