//! Small verified text utilities: building ASCII strings from computed
//! bytes, substring search, and decimal rendering of integers.

use vstd::prelude::*;

verus! {

/// The characters of an ASCII byte sequence, read one byte per character.
pub open spec fn chars_of(bytes: Seq<u8>) -> Seq<char> {
    bytes.map_values(|b: u8| b as char)
}

/// Relies on `String::from_utf8`: ASCII bytes decode to themselves, one
/// character per byte.
#[verifier::external_body]
pub fn ascii_string_of(bytes: &[u8]) -> (r: String)
    requires
        forall|i: int| 0 <= i < bytes@.len() ==> bytes@[i] < 128,
    ensures
        r@ == chars_of(bytes@),
{
    String::from_utf8(bytes.to_vec()).unwrap()
}

pub proof fn lemma_chars_of_push(bytes: Seq<u8>, b: u8)
    ensures
        chars_of(bytes.push(b)) =~= chars_of(bytes).push(b as char),
{
}

/// The characters of a string, as an indexable vector.
pub fn chars_vec(s: &str) -> (v: Vec<char>)
    ensures
        v@ == s@,
{
    let len = s.unicode_len();
    let mut v: Vec<char> = Vec::new();
    let mut i: usize = 0;
    while i < len
        invariant
            len == s@.len(),
            i <= len,
            v@ =~= s@.take(i as int),
        decreases len - i,
    {
        v.push(s.get_char(i));
        proof {
            assert(s@.take(i + 1) =~= s@.take(i as int).push(s@[i as int]));
        }
        i = i + 1;
    }
    proof {
        assert(s@.take(len as int) =~= s@);
    }
    v
}

/// Character-for-character equality of two string slices.
pub fn str_eq(a: &str, b: &str) -> (r: bool)
    ensures
        r == (a@ == b@),
{
    let ao = a.to_owned();
    let bo = b.to_owned();
    ao == bo
}

/// `needle` occurs contiguously somewhere in `hay`.
pub open spec fn is_sub(hay: Seq<char>, needle: Seq<char>) -> bool {
    exists|k: int|
        0 <= k && k + needle.len() <= hay.len() && #[trigger] hay.subrange(
            k,
            k + needle.len() as int,
        ) =~= needle
}

/// Substring search over the characters of two strings.
pub fn contains_sub(hay: &str, needle: &str) -> (r: bool)
    ensures
        r == is_sub(hay@, needle@),
{
    let hv = chars_vec(hay);
    let nv = chars_vec(needle);
    let hlen = hv.len();
    let nlen = nv.len();
    if nlen > hlen {
        proof {
            assert(!is_sub(hay@, needle@));
        }
        return false;
    }
    let mut k: usize = 0;
    while k <= hlen - nlen
        invariant
            hv@ == hay@,
            nv@ == needle@,
            hlen == hay@.len(),
            nlen == needle@.len(),
            nlen <= hlen,
            k <= hlen - nlen + 1,
            forall|kk: int|
                0 <= kk < k ==> #[trigger] hay@.subrange(kk, kk + nlen as int) !~= needle@,
        decreases hlen + 1 - nlen - k,
    {
        let mut j: usize = 0;
        let mut matched = true;
        while j < nlen
            invariant
                hv@ == hay@,
                nv@ == needle@,
                hlen == hay@.len(),
                nlen == needle@.len(),
                k + nlen <= hlen,
                j <= nlen,
                matched ==> forall|jj: int| 0 <= jj < j ==> hay@[k + jj] == needle@[jj],
                !matched ==> hay@.subrange(k as int, k + nlen as int) !~= needle@,
            decreases nlen - j,
        {
            if hv[k + j] != nv[j] {
                proof {
                    assert(hay@.subrange(k as int, k + nlen as int)[j as int] == hay@[k + j]);
                }
                matched = false;
                j = nlen;
            } else {
                j = j + 1;
            }
        }
        if matched {
            proof {
                assert(hay@.subrange(k as int, k + nlen as int) =~= needle@);
            }
            return true;
        }
        k = k + 1;
    }
    proof {
        assert forall|kk: int|
            0 <= kk && kk + needle@.len() <= hay@.len() implies #[trigger] hay@.subrange(
            kk,
            kk + needle@.len() as int,
        ) !~= needle@ by {
            assert(kk < k);
        }
    }
    false
}

/// The character for one decimal digit.
pub open spec fn digit_char(d: nat) -> char {
    ((48 + d) as u8) as char
}

/// The decimal numeral of a natural number, most significant digit first.
pub open spec fn dec_rep(n: nat) -> Seq<char>
    decreases n,
{
    if n < 10 {
        seq![digit_char(n)]
    } else {
        dec_rep(n / 10).push(digit_char(n % 10))
    }
}

/// Render an unsigned integer in decimal.
pub fn u64_to_string(n: u64) -> (r: String)
    ensures
        r@ == dec_rep(n as nat),
{
    let mut digits: Vec<u8> = Vec::new();
    let mut m: u64 = n;
    digits.push((m % 10) as u8 + 48);
    m = m / 10;
    while m > 0
        invariant
            forall|i: int| 0 <= i < digits@.len() ==> 48 <= #[trigger] digits@[i] < 58,
            digits@.len() >= 1,
            dec_rep(n as nat) =~= if m > 0 {
                dec_rep(m as nat) + chars_of(digits@.reverse())
            } else {
                chars_of(digits@.reverse())
            },
        decreases m,
    {
        let d = (m % 10) as u8 + 48;
        proof {
            lemma_reverse_push(digits@, d);
            assert(chars_of(seq![d] + digits@.reverse()) =~= seq![d as char] + chars_of(
                digits@.reverse(),
            ));
            assert(seq![digit_char((m % 10) as nat)] + chars_of(digits@.reverse()) =~= seq![
                digit_char((m % 10) as nat),
            ] + chars_of(digits@.reverse()));
            if m >= 10 {
                assert(dec_rep(m as nat) =~= dec_rep((m / 10) as nat) + seq![
                    digit_char((m % 10) as nat),
                ]);
            } else {
                assert(dec_rep(m as nat) =~= seq![digit_char((m % 10) as nat)]);
            }
        }
        digits.push(d);
        m = m / 10;
    }
    let mut rev: Vec<u8> = Vec::new();
    let dlen = digits.len();
    let mut i: usize = 0;
    while i < dlen
        invariant
            dlen == digits@.len(),
            i <= dlen,
            rev@ =~= digits@.reverse().take(i as int),
            forall|j: int| 0 <= j < digits@.len() ==> 48 <= #[trigger] digits@[j] < 58,
        decreases dlen - i,
    {
        rev.push(digits[dlen - 1 - i]);
        proof {
            assert(digits@.reverse().take(i + 1) =~= digits@.reverse().take(i as int).push(
                digits@.reverse()[i as int],
            ));
        }
        i = i + 1;
    }
    proof {
        assert(rev@ =~= digits@.reverse());
        assert(forall|j: int| 0 <= j < rev@.len() ==> rev@[j] < 128);
    }
    ascii_string_of(rev.as_slice())
}

proof fn lemma_reverse_push(s: Seq<u8>, b: u8)
    ensures
        s.push(b).reverse() =~= seq![b] + s.reverse(),
{
}

/// The decimal numeral of a signed integer.
pub open spec fn dec_rep_signed(v: int) -> Seq<char> {
    if v < 0 {
        seq!['-'] + dec_rep((-v) as nat)
    } else {
        dec_rep(v as nat)
    }
}

/// Render a signed integer in decimal.
pub fn i64_to_string(v: i64) -> (r: String)
    ensures
        r@ == dec_rep_signed(v as int),
{
    if v >= 0 {
        u64_to_string(v as u64)
    } else {
        let mag: u64 = if v == i64::MIN {
            9223372036854775808u64
        } else {
            (-v) as u64
        };
        let digits = u64_to_string(mag);
        let mut r = String::new();
        r.append("-");
        r.append(digits.as_str());
        proof {
            reveal_strlit("-");
            assert(r@ =~= dec_rep_signed(v as int));
        }
        r
    }
}

/// The character for one hexadecimal digit, lowercase.
pub open spec fn hex_digit(d: nat) -> char {
    if d < 10 {
        ((48 + d) as u8) as char
    } else {
        ((87 + d) as u8) as char
    }
}

/// Lowercase hexadecimal rendering of a byte sequence, two digits per byte.
pub open spec fn hex_of(bytes: Seq<u8>) -> Seq<char>
    decreases bytes.len(),
{
    if bytes.len() == 0 {
        Seq::empty()
    } else {
        hex_of(bytes.drop_last()) + seq![
            hex_digit((bytes.last() / 16) as nat),
            hex_digit((bytes.last() % 16) as nat),
        ]
    }
}

/// Render a byte sequence as lowercase hexadecimal.
pub fn to_hex(bytes: &[u8]) -> (r: String)
    ensures
        r@ == hex_of(bytes@),
{
    let len = bytes.len();
    let mut out: Vec<u8> = Vec::new();
    let mut i: usize = 0;
    while i < len
        invariant
            len == bytes@.len(),
            i <= len,
            chars_of(out@) =~= hex_of(bytes@.take(i as int)),
            forall|j: int| 0 <= j < out@.len() ==> out@[j] < 128,
        decreases len - i,
    {
        let b = bytes[i];
        let hi: u8 = b / 16;
        let lo: u8 = b % 16;
        let hc: u8 = if hi < 10 {
            48 + hi
        } else {
            87 + hi
        };
        let lc: u8 = if lo < 10 {
            48 + lo
        } else {
            87 + lo
        };
        out.push(hc);
        out.push(lc);
        proof {
            assert(bytes@.take(i + 1).drop_last() =~= bytes@.take(i as int));
            assert(bytes@.take(i + 1).last() == bytes@[i as int]);
            assert(chars_of(out@) =~= chars_of(out@.subrange(0, out@.len() - 2)).push(
                hc as char,
            ).push(lc as char));
        }
        i = i + 1;
    }
    proof {
        assert(bytes@.take(len as int) =~= bytes@);
    }
    ascii_string_of(out.as_slice())
}

} // verus!
