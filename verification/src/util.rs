//! Name normalization, content hashing, and interpretation of interactive
//! responses.

use vstd::prelude::*;
use sha2::Digest;
use crate::text::{ascii_string_of, chars_of, hex_of, str_eq, to_hex};

verus! {

/// The SHA-256 digest of a byte sequence.
pub uninterp spec fn sha256_of(bytes: Seq<u8>) -> Seq<u8>;

/// The SHA-512 digest of a byte sequence.
pub uninterp spec fn sha512_of(bytes: Seq<u8>) -> Seq<u8>;

/// The Nix-flavoured base32 rendering of a byte sequence.
pub uninterp spec fn nix_base32_of(bytes: Seq<u8>) -> Seq<char>;

/// A character of the Nix base32 alphabet: digits and lowercase letters,
/// with `e`, `o`, `u` and `t` left out.
pub open spec fn is_nix_base32_char(c: char) -> bool {
    ('0' <= c && c <= '9') || ('a' <= c && c <= 'z' && c != 'e' && c != 'o' && c != 'u' && c
        != 't')
}

/// Relies on sha2's `Sha256::digest`: a 32-byte digest that depends on the
/// input bytes alone.
#[verifier::external_body]
pub(crate) fn sha256_digest(bytes: &[u8]) -> (r: Vec<u8>)
    ensures
        r@ == sha256_of(bytes@),
        r@.len() == 32,
{
    sha2::Sha256::digest(bytes).as_slice().to_vec()
}

/// Relies on sha2's `Sha512::digest`: a 64-byte digest that depends on the
/// input bytes alone.
#[verifier::external_body]
pub(crate) fn sha512_digest(bytes: &[u8]) -> (r: Vec<u8>)
    ensures
        r@ == sha512_of(bytes@),
        r@.len() == 64,
{
    sha2::Sha512::digest(bytes).as_slice().to_vec()
}

/// Relies on nix-base32's `to_nix_base32`: an encoding that depends on the
/// input bytes alone, one character per 5 bits, drawn from the Nix base32
/// alphabet.
#[verifier::external_body]
pub(crate) fn nix_base32_encode(bytes: &[u8]) -> (r: String)
    requires
        bytes@.len() > 0,
    ensures
        r@ == nix_base32_of(bytes@),
        r@.len() == (bytes@.len() * 8 - 1) / 5 + 1,
        forall|i: int| 0 <= i < r@.len() ==> is_nix_base32_char(#[trigger] r@[i]),
{
    nix_base32::to_nix_base32(bytes)
}

/// The store's canonical content hash: SHA-256 rendered in Nix base32.
pub open spec fn nix_hash_of(bytes: Seq<u8>) -> Seq<char> {
    nix_base32_of(sha256_of(bytes))
}

/// Hash a byte stream into the store's canonical identifier form.
pub fn hash_stream(byte_stream: &[u8]) -> (r: String)
    ensures
        r@ == nix_hash_of(byte_stream@),
        r@.len() == 52,
        forall|i: int| 0 <= i < r@.len() ==> is_nix_base32_char(#[trigger] r@[i]),
{
    let digest = sha256_digest(byte_stream);
    nix_base32_encode(digest.as_slice())
}

/// The SHA-512 digest rendered as lowercase hexadecimal, the form registry
/// drivers hand over.
pub open spec fn sha512_hex_of(bytes: Seq<u8>) -> Seq<char> {
    hex_of(sha512_of(bytes))
}

/// The hex SHA-512 of a byte stream, the form registry drivers compare
/// against.
pub fn sha512_hex(bytes: &[u8]) -> (r: String)
    ensures
        r@ == sha512_hex_of(bytes@),
{
    let digest = sha512_digest(bytes);
    to_hex(digest.as_slice())
}

/// Compare a byte stream against an expected digest given in the named
/// format: `"nix"` for the canonical store hash, `"sha512"` for hex SHA-512.
pub fn verify_hash(bytes: &[u8], hash: &str, hashfmt: &str) -> (r: Result<bool, String>)
    ensures
        hashfmt@ == "nix"@ ==> (r matches Ok(b) && b == (hash@ == nix_hash_of(bytes@))),
        hashfmt@ != "nix"@ && hashfmt@ == "sha512"@ ==> (r matches Ok(b) && b == (hash@
            == sha512_hex_of(bytes@))),
        hashfmt@ != "nix"@ && hashfmt@ != "sha512"@ ==> (r matches Err(e) && e@
            == "unknown hash format "@ + hashfmt@),
{
    if str_eq(hashfmt, "nix") {
        let hashed = hash_stream(bytes);
        Ok(str_eq(hash, hashed.as_str()))
    } else if str_eq(hashfmt, "sha512") {
        let digest = sha512_digest(bytes);
        let hashed = to_hex(digest.as_slice());
        Ok(str_eq(hash, hashed.as_str()))
    } else {
        let mut e = String::new();
        e.append("unknown hash format ");
        e.append(hashfmt);
        proof {
            assert(e@ =~= "unknown hash format "@ + hashfmt@);
        }
        Err(e)
    }
}

/// Lowercase an ASCII letter; leave every other character alone.
pub open spec fn lower_char(c: char) -> char {
    if 'A' <= c && c <= 'Z' {
        ((c as u8) + 32) as char
    } else {
        c
    }
}

/// A character that survives normalization: lowercase ASCII alphanumeric.
pub open spec fn is_normal_char(c: char) -> bool {
    ('a' <= c && c <= 'z') || ('0' <= c && c <= '9')
}

/// The normalized form of a name: every ASCII uppercase letter lowered,
/// every character that is not a lowercase ASCII alphanumeric dropped.
pub open spec fn norm_seq(s: Seq<char>) -> Seq<char>
    decreases s.len(),
{
    if s.len() == 0 {
        Seq::empty()
    } else {
        let last = lower_char(s.last());
        norm_seq(s.drop_last()) + if is_normal_char(last) {
            seq![last]
        } else {
            Seq::empty()
        }
    }
}

/// Canonicalize a mod name: lowercase it and keep only ASCII alphanumerics.
pub fn normalize(s: &str) -> (r: String)
    ensures
        r@ == norm_seq(s@),
{
    let len = s.unicode_len();
    let mut bytes: Vec<u8> = Vec::new();
    let mut i: usize = 0;
    while i < len
        invariant
            len == s@.len(),
            i <= len,
            chars_of(bytes@) =~= norm_seq(s@.take(i as int)),
            forall|j: int| 0 <= j < bytes@.len() ==> bytes@[j] < 128,
        decreases len - i,
    {
        let c = s.get_char(i);
        let v = c as u32;
        let lowered: u32 = if 65 <= v && v <= 90 {
            v + 32
        } else {
            v
        };
        proof {
            assert(s@.take(i + 1).drop_last() =~= s@.take(i as int));
            assert(s@.take(i + 1).last() == s@[i as int]);
        }
        if (97 <= lowered && lowered <= 122) || (48 <= lowered && lowered <= 57) {
            let b = lowered as u8;
            bytes.push(b);
            proof {
                crate::text::lemma_chars_of_push(bytes@.drop_last(), b);
                assert(bytes@.drop_last().push(b) =~= bytes@);
            }
        }
        i = i + 1;
    }
    proof {
        assert(s@.take(len as int) =~= s@);
    }
    ascii_string_of(bytes.as_slice())
}

/// Every character of a normalized name is a lowercase ASCII alphanumeric.
pub proof fn lemma_norm_seq_chars(s: Seq<char>)
    ensures
        forall|i: int| 0 <= i < norm_seq(s).len() ==> is_normal_char(#[trigger] norm_seq(s)[i]),
    decreases s.len(),
{
    if s.len() > 0 {
        lemma_norm_seq_chars(s.drop_last());
        let last = lower_char(s.last());
        if is_normal_char(last) {
            assert(norm_seq(s) =~= norm_seq(s.drop_last()).push(last));
        } else {
            assert(norm_seq(s) =~= norm_seq(s.drop_last()));
        }
    }
}

/// Normalization is idempotent: a normalized name passes through
/// `normalize` unchanged.
pub proof fn lemma_normalize_idempotent(s: Seq<char>)
    ensures
        norm_seq(norm_seq(s)) == norm_seq(s),
{
    lemma_norm_seq_chars(s);
    lemma_norm_of_normal(norm_seq(s));
}

/// ASCII whitespace, as interactive responses carry it.
pub open spec fn is_ws(c: char) -> bool {
    c == ' ' || c == '\t' || c == '\n' || c == '\r'
}

/// The sequence with leading whitespace removed.
pub open spec fn trim_front(s: Seq<char>) -> Seq<char>
    decreases s.len(),
{
    if s.len() > 0 && is_ws(s.first()) {
        trim_front(s.drop_first())
    } else {
        s
    }
}

/// The sequence with trailing whitespace removed.
pub open spec fn trim_back(s: Seq<char>) -> Seq<char>
    decreases s.len(),
{
    if s.len() > 0 && is_ws(s.last()) {
        trim_back(s.drop_last())
    } else {
        s
    }
}

/// The sequence with whitespace removed from both ends.
pub open spec fn trim_ws(s: Seq<char>) -> Seq<char> {
    trim_back(trim_front(s))
}

proof fn lemma_trim_front_skip(s: Seq<char>, a: int)
    requires
        0 <= a <= s.len(),
        forall|j: int| 0 <= j < a ==> is_ws(s[j]),
        a < s.len() ==> !is_ws(s[a]),
    ensures
        trim_front(s) =~= s.skip(a),
    decreases a,
{
    if a == 0 {
        assert(s.skip(0) =~= s);
    } else {
        assert(is_ws(s.first()));
        assert(s.drop_first() =~= s.skip(1));
        lemma_trim_front_skip(s.skip(1), a - 1);
        assert(s.skip(1).skip(a - 1) =~= s.skip(a));
    }
}

proof fn lemma_trim_back_take(s: Seq<char>, b: int)
    requires
        0 <= b <= s.len(),
        forall|j: int| b <= j < s.len() ==> is_ws(s[j]),
        b > 0 ==> !is_ws(s[b - 1]),
    ensures
        trim_back(s) =~= s.take(b),
    decreases s.len() - b,
{
    if b == s.len() {
        assert(s.take(b) =~= s);
    } else {
        assert(is_ws(s.last()));
        assert(s.drop_last() =~= s.take(s.len() - 1));
        lemma_trim_back_take(s.take(s.len() - 1), b);
        assert(s.take(s.len() - 1).take(b) =~= s.take(b));
    }
}

/// Strip ASCII whitespace from both ends of a response line.
pub fn trim_response(s: &str) -> (r: String)
    ensures
        r@ == trim_ws(s@),
{
    let v = crate::text::chars_vec(s);
    let len = v.len();
    let mut a: usize = 0;
    while a < len && is_ws_exec(v[a])
        invariant
            v@ == s@,
            len == s@.len(),
            a <= len,
            forall|j: int| 0 <= j < a ==> is_ws(s@[j]),
        decreases len - a,
    {
        a = a + 1;
    }
    let mut b: usize = len;
    while b > a && is_ws_exec(v[b - 1])
        invariant
            v@ == s@,
            len == s@.len(),
            a <= b <= len,
            forall|j: int| b <= j < len ==> is_ws(s@[j]),
            a < len ==> !is_ws(s@[a as int]),
            forall|j: int| 0 <= j < a ==> is_ws(s@[j]),
        decreases b,
    {
        b = b - 1;
    }
    proof {
        lemma_trim_front_skip(s@, a as int);
        if a == b {
            lemma_trim_back_take(s@.skip(a as int), 0);
        } else {
            lemma_trim_back_take(s@.skip(a as int), b - a);
        }
        assert(s@.skip(a as int).take(b - a) =~= s@.subrange(a as int, b as int));
    }
    let t = s.substring_char(a, b);
    t.to_owned()
}

fn is_ws_exec(c: char) -> (r: bool)
    ensures
        r == is_ws(c),
{
    c == ' ' || c == '\t' || c == '\n' || c == '\r'
}

/// Read a yes/no answer: after trimming, a single `y` or `Y` is yes, a
/// single `n` or `N` is no, anything else falls back to the default.
pub fn interpret_confirm(response: &str, default_resp: bool) -> (r: bool)
    ensures
        ({
            let t = trim_ws(response@);
            &&& (t.len() == 1 && lower_char(t[0]) == 'y' ==> r == true)
            &&& (t.len() == 1 && lower_char(t[0]) == 'n' ==> r == false)
            &&& (!(t.len() == 1 && (lower_char(t[0]) == 'y' || lower_char(t[0]) == 'n')) ==> r
                == default_resp)
        }),
{
    let t = trim_response(response);
    if t.as_str().unicode_len() == 1 {
        let c = t.as_str().get_char(0);
        let v = c as u32;
        let lowered: u32 = if 65 <= v && v <= 90 {
            v + 32
        } else {
            v
        };
        if lowered == 121 {
            true
        } else if lowered == 110 {
            false
        } else {
            default_resp
        }
    } else {
        default_resp
    }
}

/// An ASCII decimal digit.
pub open spec fn is_digit_char(c: char) -> bool {
    48 <= c as u32 && c as u32 <= 57
}

/// Every character is a decimal digit.
pub open spec fn all_digit_chars(s: Seq<char>) -> bool {
    forall|i: int| 0 <= i < s.len() ==> is_digit_char(#[trigger] s[i])
}

/// The value of a digit string, most significant first.
pub open spec fn digits_value(s: Seq<char>) -> int
    decreases s.len(),
{
    if s.len() == 0 {
        0
    } else {
        digits_value(s.drop_last()) * 10 + (s.last() as u32 - 48)
    }
}

/// The numeral begins with a minus sign.
pub open spec fn numeral_negative(s: Seq<char>) -> bool {
    s.len() > 0 && s[0] == '-'
}

/// The numeral with any leading sign removed.
pub open spec fn numeral_body(s: Seq<char>) -> Seq<char> {
    if s.len() > 0 && (s[0] == '+' || s[0] == '-') {
        s.drop_first()
    } else {
        s
    }
}

/// A well-formed signed 64-bit numeral: an optional sign, at least one
/// digit, nothing else, and a value in range.
pub open spec fn valid_i64_numeral(s: Seq<char>) -> bool {
    &&& numeral_body(s).len() > 0
    &&& all_digit_chars(numeral_body(s))
    &&& (if numeral_negative(s) {
        digits_value(numeral_body(s)) <= 0x8000000000000000
    } else {
        digits_value(numeral_body(s)) <= 0x7fffffffffffffff
    })
}

/// The value of a well-formed numeral.
pub open spec fn numeral_value(s: Seq<char>) -> int {
    if numeral_negative(s) {
        -digits_value(numeral_body(s))
    } else {
        digits_value(numeral_body(s))
    }
}

proof fn lemma_digits_nonneg(s: Seq<char>)
    requires
        all_digit_chars(s),
    ensures
        digits_value(s) >= 0,
    decreases s.len(),
{
    if s.len() > 0 {
        assert(all_digit_chars(s.drop_last())) by {
            assert(forall|i: int| 0 <= i < s.len() - 1 ==> s.drop_last()[i] == #[trigger] s[i]);
        }
        lemma_digits_nonneg(s.drop_last());
        assert(is_digit_char(s.last()));
    }
}

proof fn lemma_digits_mono(s: Seq<char>, k: int)
    requires
        all_digit_chars(s),
        0 <= k <= s.len(),
    ensures
        digits_value(s) >= digits_value(s.take(k)),
    decreases s.len() - k,
{
    if k == s.len() {
        assert(s.take(k) =~= s);
    } else {
        assert(s.take(k + 1).drop_last() =~= s.take(k));
        assert(s.take(k + 1).last() == s[k]);
        assert(all_digit_chars(s.take(k))) by {
            assert(forall|i: int| 0 <= i < k ==> s.take(k)[i] == #[trigger] s[i]);
        }
        lemma_digits_nonneg(s.take(k));
        assert(digits_value(s.take(k + 1)) == digits_value(s.take(k)) * 10 + (s[k] as u32 - 48));
        assert(digits_value(s.take(k + 1)) >= digits_value(s.take(k))) by {
            assert(digits_value(s.take(k)) * 10 >= digits_value(s.take(k))) by (nonlinear_arith)
                requires
                    digits_value(s.take(k)) >= 0,
            ;
        }
        lemma_digits_mono(s, k + 1);
    }
}

/// Read a signed 64-bit integer from its decimal numeral: an optional
/// sign followed by digits, and nothing else.
pub fn parse_i64(s: &str) -> (r: Result<i64, String>)
    ensures
        valid_i64_numeral(s@) ==> (r matches Ok(v) && v as int == numeral_value(s@)),
        !valid_i64_numeral(s@) ==> (r matches Err(e) && e@ == "response must be an integer"@),
{
    let v = crate::text::chars_vec(s);
    let len = v.len();
    let mut neg = false;
    let mut start: usize = 0;
    if len > 0 && (v[0] == '+' || v[0] == '-') {
        neg = v[0] == '-';
        start = 1;
    }
    let ghost body = s@.skip(start as int);
    proof {
        assert(numeral_body(s@) =~= body);
        assert(numeral_negative(s@) == neg);
    }
    if start >= len {
        return Err("response must be an integer".to_owned());
    }
    let limit: u64 = if neg {
        9223372036854775808u64
    } else {
        9223372036854775807u64
    };
    let mut acc: u64 = 0;
    let mut i: usize = start;
    proof {
        assert(body.take(0) =~= Seq::<char>::empty());
    }
    while i < len
        invariant
            v@ == s@,
            len == s@.len(),
            start <= i <= len,
            body == s@.skip(start as int),
            body == numeral_body(s@),
            body.len() == len - start,
            neg == numeral_negative(s@),
            limit == if neg {
                9223372036854775808u64
            } else {
                9223372036854775807u64
            },
            all_digit_chars(body.take(i - start)),
            acc as int == digits_value(body.take(i - start)),
            acc <= limit,
        decreases len - i,
    {
        let ghost k = i - start;
        proof {
            assert(body[k as int] == s@[i as int]);
        }
        let c = v[i];
        let cv = c as u32;
        if !(48 <= cv && cv <= 57) {
            proof {
                assert(!is_digit_char(body[k as int]));
                assert(!all_digit_chars(body));
            }
            return Err("response must be an integer".to_owned());
        }
        let d: u64 = (cv - 48) as u64;
        proof {
            assert(body.take(k + 1).drop_last() =~= body.take(k as int));
            assert(body.take(k + 1).last() == body[k as int]);
            assert(digits_value(body.take(k + 1)) == digits_value(body.take(k as int)) * 10 + (
            body[k as int] as u32 - 48));
        }
        let threshold: u64 = (limit - d) / 10;
        proof {
            let lmt = limit as int;
            let dd = d as int;
            let q = threshold as int;
            assert(lmt - dd == 10 * q + (lmt - dd) % 10);
            assert(0 <= (lmt - dd) % 10 < 10);
        }
        if acc > threshold {
            proof {
                assert(acc as int * 10 + d as int > limit as int);
                assert(digits_value(body.take(k + 1)) > limit as int);
                if all_digit_chars(body) {
                    lemma_digits_mono(body, k + 1);
                    assert(digits_value(body) > limit as int);
                    assert(!valid_i64_numeral(s@));
                } else {
                    assert(!valid_i64_numeral(s@));
                }
            }
            return Err("response must be an integer".to_owned());
        }
        proof {
            assert(acc as int * 10 + d as int <= limit as int);
        }
        acc = acc * 10 + d;
        proof {
            assert(c == body[k as int]);
            assert(is_digit_char(body[k as int]));
            assert forall|j: int| 0 <= j < k + 1 implies is_digit_char(
                #[trigger] body.take(k + 1)[j],
            ) by {
                if j < k {
                    assert(body.take(k + 1)[j] == body.take(k as int)[j]);
                    assert(is_digit_char(body.take(k as int)[j]));
                } else {
                    assert(body.take(k + 1)[j] == body[k as int]);
                }
            }
        }
        i = i + 1;
    }
    proof {
        assert(body.take(len - start) =~= body);
    }
    if neg {
        if acc == 9223372036854775808u64 {
            Ok(i64::MIN)
        } else {
            Ok(-(acc as i64))
        }
    } else {
        Ok(acc as i64)
    }
}

/// One round of reading an index selection.
#[derive(Clone, Copy, Debug, PartialEq, Eq, Structural)]
pub enum IndexResponse {
    /// The line was empty: take the default.
    UseDefault,
    /// The line was not an integer: ask again.
    Invalid,
    /// The integer lies outside the offered range: ask again.
    OutOfRange,
    /// A selection within the range.
    Accept(i64),
}

/// Interpret one line of an index selection against the offered range.
pub fn interpret_index_response(resp: &str, start: i64, end: i64) -> (r: IndexResponse)
    ensures
        ({
            let t = trim_ws(resp@);
            &&& (t.len() == 0 ==> r == IndexResponse::UseDefault)
            &&& (t.len() > 0 && !valid_i64_numeral(t) ==> r == IndexResponse::Invalid)
            &&& (t.len() > 0 && valid_i64_numeral(t) && (numeral_value(t) < start || numeral_value(
                t,
            ) > end) ==> r == IndexResponse::OutOfRange)
            &&& (t.len() > 0 && valid_i64_numeral(t) && start <= numeral_value(t) <= end ==> (
            r matches IndexResponse::Accept(n) && n as int == numeral_value(t)))
        }),
{
    let t = trim_response(resp);
    if t.as_str().unicode_len() == 0 {
        return IndexResponse::UseDefault;
    }
    match parse_i64(t.as_str()) {
        Err(_) => IndexResponse::Invalid,
        Ok(n) => {
            if n < start || n > end {
                IndexResponse::OutOfRange
            } else {
                IndexResponse::Accept(n)
            }
        },
    }
}

/// The archive name a pack backup is written to:
/// `{backup_dir}/{pack_name}-{timestamp}.zip`.
pub fn backup_archive_name(backup_dir: &str, pack_name: &str, timestamp: &str) -> (r: String)
    ensures
        r@ == backup_dir@ + "/"@ + pack_name@ + "-"@ + timestamp@ + ".zip"@,
{
    let mut s = backup_dir.to_owned();
    s.append("/");
    s.append(pack_name);
    s.append("-");
    s.append(timestamp);
    s.append(".zip");
    s
}

/// A sequence made only of lowercase ASCII alphanumerics is a fixed point
/// of normalization.
proof fn lemma_norm_of_normal(s: Seq<char>)
    requires
        forall|i: int| 0 <= i < s.len() ==> is_normal_char(#[trigger] s[i]),
    ensures
        norm_seq(s) == s,
    decreases s.len(),
{
    if s.len() == 0 {
        assert(norm_seq(s) =~= s);
    } else {
        lemma_norm_of_normal(s.drop_last());
        assert(lower_char(s.last()) == s.last());
        assert(norm_seq(s) =~= s.drop_last() + seq![s.last()]);
        assert(s.drop_last() + seq![s.last()] =~= s);
    }
}

} // verus!
