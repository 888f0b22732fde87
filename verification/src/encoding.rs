//! Byte-level text helpers: ASCII literals, decimal and hex rendering,
//! byte-sequence comparison and search.
//!
//! All wire payloads in this crate are byte vectors; JSON bodies are built
//! by concatenating ASCII pieces, so their exact contents can be stated in
//! contracts over `Seq<u8>`.
use vstd::prelude::*;

verus! {

use vstd::string::StringExecFns;

broadcast use vstd::string::group_string_axioms;

/// The bytes of an ASCII character sequence, one byte per character.
pub open spec fn ascii_bytes(s: Seq<char>) -> Seq<u8> {
    Seq::new(s.len(), |i: int| s[i] as u8)
}

/// Append the bytes of an ASCII string to a byte vector.
pub fn append_str(out: &mut Vec<u8>, s: &str)
    requires
        s.is_ascii(),
        old(out)@.len() + s@.len() <= usize::MAX,
    ensures
        final(out)@ == old(out)@ + ascii_bytes(s@),
{
    let b: &[u8] = s.as_bytes();
    out.extend_from_slice(b);
    proof {
        assert(out@ =~= old(out)@ + ascii_bytes(s@));
    }
}

/// Append a whole byte vector to another.
pub fn append_bytes(out: &mut Vec<u8>, s: &[u8])
    requires
        old(out)@.len() + s@.len() <= usize::MAX,
    ensures
        final(out)@ == old(out)@ + s@,
{
    out.extend_from_slice(s);
    proof {
        assert(out@ =~= old(out)@ + s@);
    }
}

/// The decimal digits of `n`, most significant first, as ASCII bytes.
pub open spec fn dec_digits(n: nat) -> Seq<u8>
    decreases n,
{
    if n < 10 {
        seq![(48 + n) as u8]
    } else {
        dec_digits(n / 10) + seq![(48 + n % 10) as u8]
    }
}

/// Render `n` in decimal, as ASCII bytes.
pub fn u64_to_dec(n: u64) -> (r: Vec<u8>)
    ensures
        r@ == dec_digits(n as nat),
    decreases n,
{
    if n < 10 {
        let d: u8 = 48 + (n as u8);
        vec![d]
    } else {
        let mut r = u64_to_dec(n / 10);
        let d: u8 = 48 + ((n % 10) as u8);
        r.push(d);
        assert(r@ =~= dec_digits((n / 10) as nat) + seq![(48 + n as nat % 10) as u8]);
        r
    }
}

/// Powers of ten.
pub open spec fn pow10(k: nat) -> nat
    decreases k,
{
    if k == 0 {
        1
    } else {
        10 * pow10((k - 1) as nat)
    }
}

/// A number below `10^k` has at most `k` decimal digits.
pub proof fn lemma_dec_digits_len_bound(n: nat, k: nat)
    requires
        n < pow10(k),
        k >= 1,
    ensures
        dec_digits(n).len() <= k,
        dec_digits(n).len() >= 1,
    decreases k,
{
    if n < 10 {
    } else {
        assert(pow10(k) == 10 * pow10((k - 1) as nat));
        assert(n / 10 < pow10((k - 1) as nat));
        assert(k >= 2) by {
            if k == 1 {
                assert(pow10(1nat) == 10);
            }
        }
        lemma_dec_digits_len_bound(n / 10, (k - 1) as nat);
    }
}

/// A 64-bit number has at most twenty decimal digits.
pub proof fn lemma_dec_digits_u64(t: u64)
    ensures
        1 <= dec_digits(t as nat).len() <= 20,
{
    assert(pow10(0) == 1);
    assert(pow10(1) == 10);
    assert(pow10(2) == 100);
    assert(pow10(3) == 1000);
    assert(pow10(4) == 10000);
    assert(pow10(5) == 100000);
    assert(pow10(6) == 1000000);
    assert(pow10(7) == 10000000);
    assert(pow10(8) == 100000000);
    assert(pow10(9) == 1000000000);
    assert(pow10(10) == 10000000000);
    assert(pow10(11) == 100000000000);
    assert(pow10(12) == 1000000000000);
    assert(pow10(13) == 10000000000000);
    assert(pow10(14) == 100000000000000);
    assert(pow10(15) == 1000000000000000);
    assert(pow10(16) == 10000000000000000);
    assert(pow10(17) == 100000000000000000);
    assert(pow10(18) == 1000000000000000000);
    assert(pow10(19) == 10000000000000000000);
    assert(pow10(20) == 100000000000000000000);
    lemma_dec_digits_len_bound(t as nat, 20);
}

/// The decimal digit character for a value below 10.
pub open spec fn digit_char(d: nat) -> char {
    if d == 0 {
        '0'
    } else if d == 1 {
        '1'
    } else if d == 2 {
        '2'
    } else if d == 3 {
        '3'
    } else if d == 4 {
        '4'
    } else if d == 5 {
        '5'
    } else if d == 6 {
        '6'
    } else if d == 7 {
        '7'
    } else if d == 8 {
        '8'
    } else {
        '9'
    }
}

/// The decimal digits of `n`, most significant first, as characters.
pub open spec fn dec_chars(n: nat) -> Seq<char>
    decreases n,
{
    if n < 10 {
        seq![digit_char(n)]
    } else {
        dec_chars(n / 10) + seq![digit_char(n % 10)]
    }
}

/// The string for one decimal digit.
fn digit_str(d: u64) -> (r: &'static str)
    requires
        d < 10,
    ensures
        r@ == seq![digit_char(d as nat)],
{
    proof {
        reveal_strlit("0");
        reveal_strlit("1");
        reveal_strlit("2");
        reveal_strlit("3");
        reveal_strlit("4");
        reveal_strlit("5");
        reveal_strlit("6");
        reveal_strlit("7");
        reveal_strlit("8");
        reveal_strlit("9");
    }
    let r = match d {
        0 => "0",
        1 => "1",
        2 => "2",
        3 => "3",
        4 => "4",
        5 => "5",
        6 => "6",
        7 => "7",
        8 => "8",
        _ => "9",
    };
    proof {
        assert(r@ =~= seq![digit_char(d as nat)]);
    }
    r
}

/// Render `n` in decimal, as a string.
pub fn u64_to_string(n: u64) -> (r: String)
    ensures
        r@ == dec_chars(n as nat),
    decreases n,
{
    if n < 10 {
        String::from_str(digit_str(n))
    } else {
        let mut r = u64_to_string(n / 10);
        r.append(digit_str(n % 10));
        assert(r@ =~= dec_chars((n / 10) as nat) + seq![digit_char(n as nat % 10)]);
        r
    }
}

/// The lowercase hex digit for a value below 16.
pub open spec fn hex_digit(n: u8) -> u8 {
    if n < 10 {
        (48 + n) as u8
    } else {
        (87 + n) as u8
    }
}

/// Lowercase hex rendering of a byte sequence, two digits per byte.
pub open spec fn hex_bytes(s: Seq<u8>) -> Seq<u8> {
    Seq::new(
        s.len() * 2,
        |i: int|
            if i % 2 == 0 {
                hex_digit(s[i / 2] / 16)
            } else {
                hex_digit(s[i / 2] % 16)
            },
    )
}

/// Render a byte sequence in lowercase hex.
pub fn to_hex(s: &[u8]) -> (r: Vec<u8>)
    requires
        s@.len() * 2 <= usize::MAX,
    ensures
        r@ == hex_bytes(s@),
{
    let mut r: Vec<u8> = Vec::new();
    let mut i: usize = 0;
    while i < s.len()
        invariant
            i <= s@.len(),
            s@.len() * 2 <= usize::MAX,
            r@ == hex_bytes(s@.take(i as int)),
        decreases s@.len() - i,
    {
        let b = s[i];
        let hi: u8 = b / 16;
        let lo: u8 = b % 16;
        let hd: u8 = if hi < 10 {
            48 + hi
        } else {
            87 + hi
        };
        let ld: u8 = if lo < 10 {
            48 + lo
        } else {
            87 + lo
        };
        r.push(hd);
        r.push(ld);
        i = i + 1;
        proof {
            assert(r@ =~= hex_bytes(s@.take(i as int)));
        }
    }
    proof {
        assert(s@.take(s@.len() as int) =~= s@);
    }
    r
}

/// Compare two byte slices for equality of contents.
pub fn bytes_eq(a: &[u8], b: &[u8]) -> (r: bool)
    ensures
        r == (a@ == b@),
{
    if a.len() != b.len() {
        return false;
    }
    let mut i: usize = 0;
    while i < a.len()
        invariant
            a@.len() == b@.len(),
            i <= a@.len(),
            forall|j: int| 0 <= j < i ==> a@[j] == b@[j],
        decreases a@.len() - i,
    {
        if a[i] != b[i] {
            return false;
        }
        i = i + 1;
    }
    proof {
        assert(a@ =~= b@);
    }
    true
}

/// `needle` occurs in `hay` starting at index `i`.
pub open spec fn matches_at(hay: Seq<u8>, needle: Seq<u8>, i: int) -> bool {
    0 <= i && i + needle.len() <= hay.len() && hay.subrange(i, i + needle.len()) == needle
}

/// `needle` occurs somewhere in `hay`.
pub open spec fn contains_seq(hay: Seq<u8>, needle: Seq<u8>) -> bool {
    exists|i: int| matches_at(hay, needle, i)
}

/// Search for `needle` in `hay`.
pub fn contains_bytes(hay: &[u8], needle: &[u8]) -> (r: bool)
    requires
        needle@.len() >= 1,
    ensures
        r == contains_seq(hay@, needle@),
{
    if hay.len() < needle.len() {
        proof {
            assert(forall|i: int| !matches_at(hay@, needle@, i));
        }
        return false;
    }
    let hlen: usize = hay.len();
    let nlen: usize = needle.len();
    let mut i: usize = 0;
    let last = hlen - nlen;
    while i <= last
        invariant
            hlen == hay@.len(),
            nlen == needle@.len(),
            hlen >= nlen >= 1,
            last == hlen - nlen,
            i <= last + 1,
            forall|j: int| 0 <= j < i ==> !matches_at(hay@, needle@, j),
        decreases last + 1 - i,
    {
        let mut k: usize = 0;
        let mut all_eq = true;
        while k < nlen
            invariant
                hlen == hay@.len(),
                nlen == needle@.len(),
                hlen >= nlen >= 1,
                i + nlen <= hlen,
                k <= nlen,
                all_eq == (forall|j: int| 0 <= j < k ==> hay@[i + j] == needle@[j]),
            decreases nlen - k,
        {
            if hay[i + k] != needle[k] {
                all_eq = false;
                proof {
                    assert(hay@[i + k as int] != needle@[k as int]);
                }
                k = nlen;
            } else {
                proof {
                    assert(hay@[i + k as int] == needle@[k as int]);
                }
                k = k + 1;
            }
        }
        if all_eq {
            proof {
                assert(hay@.subrange(i as int, i + needle@.len()) =~= needle@);
                assert(matches_at(hay@, needle@, i as int));
            }
            return true;
        }
        proof {
            assert(!matches_at(hay@, needle@, i as int)) by {
                if matches_at(hay@, needle@, i as int) {
                    let w = choose|j: int|
                        0 <= j < needle@.len() && hay@[i + j] != needle@[j];
                    assert(hay@.subrange(i as int, i + needle@.len())[w] == needle@[w]);
                }
            }
        }
        i = i + 1;
    }
    proof {
        assert(forall|j: int| matches_at(hay@, needle@, j) ==> 0 <= j <= last);
    }
    false
}

/// Index of the first occurrence of `b` in `hay`, if any.
pub fn find_byte(hay: &[u8], b: u8) -> (r: Option<usize>)
    ensures
        match r {
            Some(i) => i < hay@.len() && hay@[i as int] == b && forall|j: int|
                0 <= j < i ==> hay@[j] != b,
            None => forall|j: int| 0 <= j < hay@.len() ==> hay@[j] != b,
        },
{
    let mut i: usize = 0;
    while i < hay.len()
        invariant
            i <= hay@.len(),
            forall|j: int| 0 <= j < i ==> hay@[j] != b,
        decreases hay@.len() - i,
    {
        if hay[i] == b {
            return Some(i);
        }
        i = i + 1;
    }
    None
}

} // verus!
