//! Parsing the network's broadcast-rejection payload.
//!
//! A rejected raw-transaction broadcast is answered with a fixed prefix
//! followed by a JSON object carrying a numeric `code` and a string
//! `message`. The parser strips the prefix (as often as it stands) and reads
//! the rest as a flat JSON object: whitespace anywhere between tokens, keys
//! and entries in any order and number, strings with the JSON escapes,
//! numbers with an optional fraction and exponent (only the signed integer
//! part counts). It hands back the first `code` and the first `message` when
//! the one is a number in `i64`'s range and the other a string; anything else
//! is no rejection payload. An entry whose value is itself an object or an
//! array is not read; such a payload is refused.

use vstd::prelude::*;

use crate::hexutil::is_hex_char;
use crate::strutil::chars_to_string;

verus! {

/// Whether a character is a decimal digit.
pub open spec fn is_digit(c: char) -> bool {
    '0' <= c && c <= '9'
}

/// Whether a character is JSON whitespace.
pub open spec fn is_ws(c: char) -> bool {
    c == ' ' || c == '\t' || c == '\n' || c == '\r'
}

/// The first position at or after `i` that holds no digit (or the end).
pub open spec fn digits_end(s: Seq<char>, i: int) -> int
    decreases s.len() - i,
{
    if i < 0 || i >= s.len() || !is_digit(s[i]) {
        i
    } else {
        digits_end(s, i + 1)
    }
}

/// The first position at or after `i` that holds no whitespace (or the end).
pub open spec fn ws_end(s: Seq<char>, i: int) -> int
    decreases s.len() - i,
{
    if i < 0 || i >= s.len() || !is_ws(s[i]) {
        i
    } else {
        ws_end(s, i + 1)
    }
}

/// The value of the digit run `s[i..j]`, most significant first.
pub open spec fn digits_val(s: Seq<char>, i: int, j: int) -> int
    decreases j - i,
{
    if j <= i {
        0
    } else {
        digits_val(s, i, j - 1) * 10 + (s[j - 1] as int - 48)
    }
}

/// Ten to the `k`.
pub open spec fn pow10(k: nat) -> int
    decreases k,
{
    if k == 0 {
        1
    } else {
        10 * pow10((k - 1) as nat)
    }
}

/// The value of a hex digit, either case; anything else is negative.
pub open spec fn hex_char_val(c: char) -> int {
    if '0' <= c && c <= '9' {
        c as int - 48
    } else if 'a' <= c && c <= 'f' {
        c as int - 87
    } else if 'A' <= c && c <= 'F' {
        c as int - 55
    } else {
        -1
    }
}

/// The code point of the four hex digits at `i`.
pub open spec fn hex4_val(s: Seq<char>, i: int) -> int {
    hex_char_val(s[i]) * 4096 + hex_char_val(s[i + 1]) * 256 + hex_char_val(s[i + 2]) * 16
        + hex_char_val(s[i + 3])
}

/// Whether four hex digits stand at `i`.
pub open spec fn is_hex4(s: Seq<char>, i: int) -> bool {
    &&& 0 <= i && i + 4 <= s.len()
    &&& is_hex_char(s[i])
    &&& is_hex_char(s[i + 1])
    &&& is_hex_char(s[i + 2])
    &&& is_hex_char(s[i + 3])
}

/// Whether a code point names a character: not a surrogate, at most 0x10FFFF.
pub open spec fn valid_scalar(code: int) -> bool {
    (0 <= code && code < 0xD800) || (0xE000 <= code && code <= 0x10FFFF)
}

/// The character a valid code point names.
pub uninterp spec fn char_of(code: int) -> char;

/// Relies on char::from_u32: exactly the non-surrogate values up to 0x10FFFF
/// convert, each to the character with that code.
#[verifier::external_body]
fn char_from_code(code: u32) -> (r: Option<char>)
    ensures
        r == (if valid_scalar(code as int) {
            Some(char_of(code as int))
        } else {
            None::<char>
        }),
        r matches Some(c) ==> c as int == code as int,
{
    char::from_u32(code)
}

/// What a simple JSON escape (the character after the backslash) decodes to.
pub open spec fn simple_escape(c: char) -> Option<char> {
    if c == '"' {
        Some('"')
    } else if c == '\\' {
        Some('\\')
    } else if c == '/' {
        Some('/')
    } else if c == 'b' {
        Some('\u{0008}')
    } else if c == 'f' {
        Some('\u{000C}')
    } else if c == 'n' {
        Some('\n')
    } else if c == 'r' {
        Some('\r')
    } else if c == 't' {
        Some('\t')
    } else {
        None
    }
}

/// Read a JSON string from just inside its opening quote: the position after
/// the closing quote, and the decoded characters. Escapes decode; a lone or
/// unknown escape, a surrogate code point, or a missing closing quote is no
/// string.
pub open spec fn json_string_end(s: Seq<char>, i: int) -> Option<(int, Seq<char>)>
    decreases s.len() - i,
{
    if i < 0 || i >= s.len() {
        None
    } else if s[i] == '"' {
        Some((i + 1, Seq::empty()))
    } else if s[i] == '\\' {
        if i + 1 >= s.len() {
            None
        } else if s[i + 1] == 'u' {
            if !is_hex4(s, i + 2) {
                None
            } else if !valid_scalar(hex4_val(s, i + 2)) {
                None
            } else {
                match json_string_end(s, i + 6) {
                    None => None,
                    Some((e, tail)) => Some((e, seq![char_of(hex4_val(s, i + 2))] + tail)),
                }
            }
        } else {
            match simple_escape(s[i + 1]) {
                None => None,
                Some(d) => match json_string_end(s, i + 2) {
                    None => None,
                    Some((e, tail)) => Some((e, seq![d] + tail)),
                },
            }
        }
    } else {
        match json_string_end(s, i + 1) {
            None => None,
            Some((e, tail)) => Some((e, seq![s[i]] + tail)),
        }
    }
}

/// Read a JSON number at `i`: the position after it and its signed integer
/// part. A fraction or an exponent is consumed but does not change the value.
pub open spec fn number_end(s: Seq<char>, i: int) -> Option<(int, int)> {
    if i < 0 || i >= s.len() {
        None
    } else {
        let neg = s[i] == '-';
        let d0 = if neg {
            i + 1
        } else {
            i
        };
        let dend = digits_end(s, d0);
        if dend == d0 {
            None
        } else {
            let frac_end = if dend < s.len() && s[dend] == '.' {
                let fend = digits_end(s, dend + 1);
                if fend == dend + 1 {
                    -1int
                } else {
                    fend
                }
            } else {
                dend
            };
            if frac_end < 0 {
                None
            } else {
                let end = if frac_end < s.len() && (s[frac_end] == 'e' || s[frac_end] == 'E') {
                    let x0 = if frac_end + 1 < s.len() && (s[frac_end + 1] == '+' || s[frac_end
                        + 1] == '-') {
                        frac_end + 2
                    } else {
                        frac_end + 1
                    };
                    let xend = digits_end(s, x0);
                    if xend == x0 {
                        -1int
                    } else {
                        xend
                    }
                } else {
                    frac_end
                };
                if end < 0 {
                    None
                } else {
                    let mag = digits_val(s, d0, dend);
                    Some(
                        (
                            end,
                            if neg {
                                -mag
                            } else {
                                mag
                            },
                        ),
                    )
                }
            }
        }
    }
}

/// A JSON value as the relay reads it: a number's integer part, a string's
/// characters, or one of the bare literals, whose content nothing needs.
pub enum JsonVal {
    /// A number.
    Num {
        /// Its signed integer part.
        value: int,
    },
    /// A string.
    Str {
        /// Its decoded characters.
        chars: Seq<char>,
    },
    /// `true`, `false` or `null`.
    Lit,
}

/// Whether the literal `lit` stands at `i`.
pub open spec fn literal_at(s: Seq<char>, i: int, lit: Seq<char>) -> bool {
    0 <= i && i + lit.len() <= s.len() && s.subrange(i, i + lit.len() as int) == lit
}

/// Read a JSON value at `i`: a string, a number, or a bare literal. An object
/// or an array as a value is not read.
pub open spec fn json_value_end(s: Seq<char>, i: int) -> Option<(int, JsonVal)> {
    if i < 0 || i >= s.len() {
        None
    } else if s[i] == '"' {
        match json_string_end(s, i + 1) {
            None => None,
            Some((e, chars)) => Some((e, JsonVal::Str { chars })),
        }
    } else if s[i] == '-' || is_digit(s[i]) {
        match number_end(s, i) {
            None => None,
            Some((e, value)) => Some((e, JsonVal::Num { value })),
        }
    } else if literal_at(s, i, "true"@) {
        Some((i + 4, JsonVal::Lit))
    } else if literal_at(s, i, "false"@) {
        Some((i + 5, JsonVal::Lit))
    } else if literal_at(s, i, "null"@) {
        Some((i + 4, JsonVal::Lit))
    } else {
        None
    }
}

/// Read the entries of a JSON object from the first key's opening quote: the
/// position after the last value (and its trailing whitespace), and the
/// entries in order. The fuel only bounds the recursion; entries are short
/// enough that it never runs out within the string.
pub open spec fn json_entries_end(s: Seq<char>, i: int, fuel: nat) -> Option<
    (int, Seq<(Seq<char>, JsonVal)>),
>
    decreases fuel,
{
    if fuel == 0 {
        None
    } else if i < 0 || i >= s.len() || s[i] != '"' {
        None
    } else {
        match json_string_end(s, i + 1) {
            None => None,
            Some((ek, key)) => {
                let c0 = ws_end(s, ek);
                if c0 >= s.len() || s[c0] != ':' {
                    None
                } else {
                    let v0 = ws_end(s, c0 + 1);
                    match json_value_end(s, v0) {
                        None => None,
                        Some((ev, val)) => {
                            let n0 = ws_end(s, ev);
                            if n0 < s.len() && s[n0] == ',' {
                                let k0 = ws_end(s, n0 + 1);
                                match json_entries_end(s, k0, (fuel - 1) as nat) {
                                    None => None,
                                    Some((e, rest)) => Some((e, seq![(key, val)] + rest)),
                                }
                            } else {
                                Some((n0, seq![(key, val)]))
                            }
                        },
                    }
                }
            },
        }
    }
}

/// Read a whole string as one JSON object, whitespace allowed around it:
/// its entries, in order.
pub open spec fn json_object_entries(s: Seq<char>) -> Option<Seq<(Seq<char>, JsonVal)>> {
    let i0 = ws_end(s, 0);
    if i0 >= s.len() || s[i0] != '{' {
        None
    } else {
        let i1 = ws_end(s, i0 + 1);
        if i1 < s.len() && s[i1] == '}' {
            if ws_end(s, i1 + 1) == s.len() {
                Some(Seq::empty())
            } else {
                None
            }
        } else {
            match json_entries_end(s, i1, (s.len() + 1) as nat) {
                None => None,
                Some((e, entries)) => {
                    if e < s.len() && s[e] == '}' && ws_end(s, e + 1) == s.len() {
                        Some(entries)
                    } else {
                        None
                    }
                },
            }
        }
    }
}

/// The first entry under a key, if any.
pub open spec fn lookup_entry(entries: Seq<(Seq<char>, JsonVal)>, key: Seq<char>) -> Option<
    JsonVal,
>
    decreases entries.len(),
{
    if entries.len() == 0 {
        None
    } else if entries[0].0 == key {
        Some(entries[0].1)
    } else {
        lookup_entry(entries.drop_first(), key)
    }
}

/// The fixed prefix of a rejection response.
pub open spec fn rejection_prefix() -> Seq<char> {
    "send raw transaction RPC error: "@
}

/// The response body with every copy of the rejection prefix stripped from
/// its front.
pub open spec fn strip_rejection_prefix(s: Seq<char>) -> Seq<char>
    decreases s.len(),
{
    let p = rejection_prefix();
    if p.len() > 0 && s.len() >= p.len() && s.subrange(0, p.len() as int) == p {
        strip_rejection_prefix(s.skip(p.len() as int))
    } else {
        s
    }
}

/// What a response body means as a rejection payload: with the prefix
/// stripped, the rest must read as a JSON object holding a numeric `code`
/// and a string `message` (first entry of each, in any order); the code must
/// fit a signed 64-bit machine word.
pub open spec fn spec_parse_rpc_error(s: Seq<char>) -> Option<(int, Seq<char>)> {
    match json_object_entries(strip_rejection_prefix(s)) {
        None => None,
        Some(entries) => match (lookup_entry(entries, "code"@), lookup_entry(
            entries,
            "message"@,
        )) {
            (Some(JsonVal::Num { value }), Some(JsonVal::Str { chars })) => {
                if i64::MIN <= value <= i64::MAX {
                    Some((value, chars))
                } else {
                    None
                }
            },
            _ => None,
        },
    }
}

/// A parsed broadcast rejection.
pub struct SendRawTxError {
    /// The rejection code the network gave.
    pub code: i64,
    /// The rejection message the network gave.
    pub message: String,
}

/// A read number or a read string, as the entry scan keeps them.
enum ParsedVal {
    /// A number: its integer part where it fits the machine word.
    Num { fits: Option<i64> },
    /// A string: its decoded characters.
    Str { chars: Vec<char> },
    /// A bare literal.
    Lit,
}

/// Whether a kept value stands for a read JSON value: same kind, same
/// content, and a number kept as overflowing exactly when it is out of
/// `i64`'s range.
spec fn val_rep(v: ParsedVal, sv: JsonVal) -> bool {
    match (v, sv) {
        (ParsedVal::Num { fits }, JsonVal::Num { value }) => match fits {
            Some(c) => c as int == value,
            None => !(i64::MIN <= value <= i64::MAX),
        },
        (ParsedVal::Str { chars }, JsonVal::Str { chars: sc }) => chars@ == sc,
        (ParsedVal::Lit, JsonVal::Lit) => true,
        _ => false,
    }
}

/// Whether a kept lookup result stands for a spec lookup result.
spec fn lookup_rep(v: Option<ParsedVal>, sv: Option<JsonVal>) -> bool {
    match (v, sv) {
        (Some(pv), Some(jv)) => val_rep(pv, jv),
        (None, None) => true,
        _ => false,
    }
}

/// Find the end of the digit run starting at `from`.
fn scan_digits(s: &str, from: usize) -> (end: usize)
    requires
        from <= s@.len(),
    ensures
        end == digits_end(s@, from as int),
        from <= end <= s@.len(),
        forall|k: int| from <= k < end ==> is_digit(#[trigger] s@[k]),
{
    let n = s.unicode_len();
    let mut j = from;
    loop
        invariant_except_break
            from <= j <= n,
            n == s@.len(),
            digits_end(s@, from as int) == digits_end(s@, j as int),
            forall|k: int| from <= k < j ==> is_digit(#[trigger] s@[k]),
        ensures
            from <= j <= n,
            n == s@.len(),
            j == digits_end(s@, from as int),
            forall|k: int| from <= k < j ==> is_digit(#[trigger] s@[k]),
        decreases n - j,
    {
        if j == n {
            break;
        }
        let c = s.get_char(j);
        if !('0' <= c && c <= '9') {
            break;
        }
        j += 1;
    }
    j
}

/// Find the end of the whitespace run starting at `from`.
fn skip_ws(s: &str, from: usize) -> (end: usize)
    requires
        from <= s@.len(),
    ensures
        end == ws_end(s@, from as int),
        from <= end <= s@.len(),
{
    let n = s.unicode_len();
    let mut j = from;
    loop
        invariant_except_break
            from <= j <= n,
            n == s@.len(),
            ws_end(s@, from as int) == ws_end(s@, j as int),
        ensures
            from <= j <= n,
            n == s@.len(),
            j == ws_end(s@, from as int),
        decreases n - j,
    {
        if j == n {
            break;
        }
        let c = s.get_char(j);
        if !(c == ' ' || c == '\t' || c == '\n' || c == '\r') {
            break;
        }
        j += 1;
    }
    j
}

/// Whether `s` carries `pat` at position `at`.
fn matches_at(s: &str, at: usize, pat: &str) -> (r: bool)
    requires
        at + pat@.len() <= s@.len(),
        s@.len() <= usize::MAX,
    ensures
        r == (s@.subrange(at as int, at as int + pat@.len() as int) == pat@),
{
    let pl = pat.unicode_len();
    let mut i: usize = 0;
    while i < pl
        invariant
            0 <= i <= pl,
            pl == pat@.len(),
            at + pl <= s@.len(),
            s@.len() <= usize::MAX,
            forall|j: int| 0 <= j < i ==> s@[at + j] == pat@[j],
        decreases pl - i,
    {
        if s.get_char(at + i) != pat.get_char(i) {
            proof {
                let sub = s@.subrange(at as int, at as int + pat@.len() as int);
                assert(sub[i as int] == s@[at + i]);
            }
            return false;
        }
        i += 1;
    }
    proof {
        assert(s@.subrange(at as int, at as int + pat@.len() as int) =~= pat@);
    }
    true
}

/// The value of a hex digit, or nothing.
fn hex_val(c: char) -> (r: Option<u32>)
    ensures
        match r {
            Some(v) => is_hex_char(c) && v as int == hex_char_val(c) && v < 16,
            None => !is_hex_char(c),
        },
{
    if '0' <= c && c <= '9' {
        Some((c as u32) - 48)
    } else if 'a' <= c && c <= 'f' {
        Some((c as u32) - 87)
    } else if 'A' <= c && c <= 'F' {
        Some((c as u32) - 55)
    } else {
        None
    }
}


/// Read a JSON string from just inside its opening quote.
fn scan_json_string(s: &str, from: usize) -> (r: Option<(usize, Vec<char>)>)
    requires
        from <= s@.len(),
    ensures
        match r {
            Some((e, chars)) => json_string_end(s@, from as int) == Some((e as int, chars@))
                && from < e <= s@.len(),
            None => json_string_end(s@, from as int) is None,
        },
{
    let n = s.unicode_len();
    let mut cur = from;
    let mut decoded: Vec<char> = Vec::new();
    while cur < n
        invariant
            from <= cur <= n,
            n == s@.len(),
            json_string_end(s@, from as int) == (match json_string_end(s@, cur as int) {
                None => None::<(int, Seq<char>)>,
                Some((e, tail)) => Some((e, decoded@ + tail)),
            }),
        decreases n - cur,
    {
        let c = s.get_char(cur);
        if c == '"' {
            proof {
                assert(decoded@ + Seq::<char>::empty() =~= decoded@);
            }
            return Some((cur + 1, decoded));
        }
        if c == '\\' {
            if cur + 1 >= n {
                return None;
            }
            let e = s.get_char(cur + 1);
            if e == 'u' {
                if n - cur < 6 {
                    return None;
                }
                let h0 = hex_val(s.get_char(cur + 2));
                let h1 = hex_val(s.get_char(cur + 3));
                let h2 = hex_val(s.get_char(cur + 4));
                let h3 = hex_val(s.get_char(cur + 5));
                let (v0, v1, v2, v3) = match (h0, h1, h2, h3) {
                    (Some(v0), Some(v1), Some(v2), Some(v3)) => (v0, v1, v2, v3),
                    _ => {
                        return None;
                    },
                };
                let code = v0 * 4096 + v1 * 256 + v2 * 16 + v3;
                proof {
                    assert(code as int == hex4_val(s@, cur + 2));
                }
                let ch = match char_from_code(code) {
                    Some(ch) => ch,
                    None => {
                        return None;
                    },
                };
                let ghost pre = decoded@;
                decoded.push(ch);
                proof {
                    assert forall|t: Seq<char>| pre + (seq![ch] + t) =~= decoded@ + t by {}
                }
                cur = cur + 6;
            } else {
                let d: char = if e == '"' {
                    '"'
                } else if e == '\\' {
                    '\\'
                } else if e == '/' {
                    '/'
                } else if e == 'b' {
                    '\u{0008}'
                } else if e == 'f' {
                    '\u{000C}'
                } else if e == 'n' {
                    '\n'
                } else if e == 'r' {
                    '\r'
                } else if e == 't' {
                    '\t'
                } else {
                    return None;
                };
                proof {
                    assert(simple_escape(s@[cur + 1]) == Some(d));
                }
                let ghost pre = decoded@;
                decoded.push(d);
                proof {
                    assert forall|t: Seq<char>| pre + (seq![d] + t) =~= decoded@ + t by {}
                }
                cur = cur + 2;
            }
        } else {
            let ghost pre = decoded@;
            decoded.push(c);
            proof {
                assert forall|t: Seq<char>| pre + (seq![c] + t) =~= decoded@ + t by {}
            }
            cur = cur + 1;
        }
    }
    None
}

/// The digit run's value drops its leading zero.
proof fn lemma_leading_zero(s: Seq<char>, i: int, j: int)
    requires
        i < j,
        s[i] == '0',
    ensures
        digits_val(s, i, j) == digits_val(s, i + 1, j),
    decreases j - i,
{
    if j > i + 1 {
        lemma_leading_zero(s, i, j - 1);
        assert(digits_val(s, i, j) == digits_val(s, i, j - 1) * 10 + (s[j - 1] as int - 48));
        assert(digits_val(s, i + 1, j) == digits_val(s, i + 1, j - 1) * 10 + (s[j - 1] as int
            - 48));
    } else {
        assert(digits_val(s, i, j) == digits_val(s, i, i) * 10 + (s[i] as int - 48));
        assert(digits_val(s, i + 1, j) == 0);
    }
}

/// The digit run's value drops all its leading zeros.
proof fn lemma_drop_zeros(s: Seq<char>, i: int, z: int, j: int)
    requires
        i <= z <= j,
        forall|k: int| i <= k < z ==> s[k] == '0',
    ensures
        digits_val(s, i, j) == digits_val(s, z, j),
    decreases z - i,
{
    if i < z {
        lemma_leading_zero(s, i, j);
        lemma_drop_zeros(s, i + 1, z, j);
    }
}

/// A digit run that starts with no zero is worth at least ten to one less
/// than its length.
proof fn lemma_digits_val_lower(s: Seq<char>, z: int, j: int)
    requires
        z < j,
        forall|k: int| z <= k < j ==> is_digit(#[trigger] s[k]),
        s[z] != '0',
    ensures
        digits_val(s, z, j) >= pow10((j - z - 1) as nat),
    decreases j - z,
{
    if j == z + 1 {
        assert(digits_val(s, z, j) == digits_val(s, z, z) * 10 + (s[z] as int - 48));
        assert(is_digit(s[z]));
        assert(s[z] as int - 48 >= 1);
    } else {
        lemma_digits_val_lower(s, z, j - 1);
        assert(digits_val(s, z, j) == digits_val(s, z, j - 1) * 10 + (s[j - 1] as int - 48));
        assert(pow10((j - z - 1) as nat) == 10 * pow10((j - z - 2) as nat));
        assert(is_digit(s[j - 1]));
        assert(s[j - 1] as int - 48 >= 0);
    }
}

/// The small powers of ten, and that ten's powers grow.
proof fn lemma_pow10_values()
    ensures
        pow10(18) == 1000000000000000000,
        pow10(19) == 10000000000000000000,
        forall|a: nat, b: nat| a <= b ==> #[trigger] pow10(a) <= #[trigger] pow10(b),
{
    assert(pow10(0) == 1);
    assert(pow10(1) == 10);
    assert(pow10(2) == 100);
    assert(pow10(3) == 1000);
    assert(pow10(4) == 10000);
    assert(pow10(5) == 100000);
    assert(pow10(6) == 1000000);
    assert(pow10(7) == 10000000);
    assert(pow10(8) == 100000000);
    assert(pow10(9) == 1000000000);
    assert(pow10(10) == 10000000000);
    assert(pow10(11) == 100000000000);
    assert(pow10(12) == 1000000000000);
    assert(pow10(13) == 10000000000000);
    assert(pow10(14) == 100000000000000);
    assert(pow10(15) == 1000000000000000);
    assert(pow10(16) == 10000000000000000);
    assert(pow10(17) == 100000000000000000);
    assert(pow10(18) == 1000000000000000000);
    assert(pow10(19) == 10000000000000000000);
    assert forall|a: nat, b: nat| a <= b implies #[trigger] pow10(a) <= #[trigger] pow10(b) by {
        lemma_pow10_monotone(a, b);
    }
}

/// Ten's powers are positive and monotone.
proof fn lemma_pow10_monotone(a: nat, b: nat)
    requires
        a <= b,
    ensures
        1 <= pow10(a) <= pow10(b),
    decreases b,
{
    if b > 0 {
        if a == b {
            lemma_pow10_monotone((b - 1) as nat, (b - 1) as nat);
        } else {
            lemma_pow10_monotone(a, (b - 1) as nat);
        }
    }
}

/// The signed value of the digit run `s[d0..dend)`, where it fits a signed
/// 64-bit word.
fn digits_to_i64(s: &str, neg: bool, d0: usize, dend: usize) -> (r: Option<i64>)
    requires
        d0 < dend <= s@.len(),
        forall|k: int| d0 <= k < dend ==> is_digit(#[trigger] s@[k]),
    ensures
        ({
            let v = if neg {
                -digits_val(s@, d0 as int, dend as int)
            } else {
                digits_val(s@, d0 as int, dend as int)
            };
            match r {
                Some(c) => c as int == v,
                None => !(i64::MIN <= v <= i64::MAX),
            }
        }),
{
    proof {
        lemma_pow10_values();
    }
    // Skip the leading zeros; they do not change the value.
    let mut z = d0;
    while z < dend && s.get_char(z) == '0'
        invariant
            d0 <= z <= dend,
            dend <= s@.len(),
            forall|k: int| d0 <= k < z ==> s@[k] == '0',
        decreases dend - z,
    {
        z += 1;
    }
    proof {
        lemma_drop_zeros(s@, d0 as int, z as int, dend as int);
    }
    if z == dend {
        return Some(0);
    }
    if dend - z > 19 {
        // At least twenty significant digits: out of the word's range either
        // way.
        proof {
            lemma_digits_val_lower(s@, z as int, dend as int);
            assert(pow10(19) <= pow10((dend - z - 1) as nat));
        }
        return None;
    }
    let mut mag: u64 = 0;
    let mut k = z;
    while k < dend
        invariant
            z <= k <= dend,
            dend <= s@.len(),
            dend - z <= 19,
            forall|t: int| z <= t < dend ==> is_digit(#[trigger] s@[t]),
            mag == digits_val(s@, z as int, k as int),
            mag < pow10((k - z) as nat),
            pow10(18) == 1000000000000000000,
            pow10(19) == 10000000000000000000,
            forall|a: nat, b: nat| a <= b ==> #[trigger] pow10(a) <= #[trigger] pow10(b),
        decreases dend - k,
    {
        let c = s.get_char(k);
        let d = (c as u32) - 48;
        proof {
            assert(is_digit(s@[k as int]));
            assert(pow10((k - z) as nat) <= pow10(18));
            assert(pow10(((k - z) + 1) as nat) == 10 * pow10((k - z) as nat));
        }
        mag = mag * 10 + (d as u64);
        k += 1;
    }
    if neg {
        if mag > 9223372036854775808u64 {
            return None;
        }
        if mag == 9223372036854775808u64 {
            return Some(i64::MIN);
        }
        Some(-(mag as i64))
    } else {
        if mag > 9223372036854775807u64 {
            return None;
        }
        Some(mag as i64)
    }
}

/// Read a JSON number at `from`: the position after it, and its integer part
/// where that fits a signed 64-bit word.
fn scan_json_number(s: &str, from: usize) -> (r: Option<(usize, Option<i64>)>)
    requires
        from < s@.len(),
    ensures
        match r {
            Some((e, fits)) => (number_end(s@, from as int) matches Some((ee, v)) && ee
                == e as int && from < e <= s@.len() && (match fits {
                Some(c) => c as int == v,
                None => !(i64::MIN <= v <= i64::MAX),
            })),
            None => number_end(s@, from as int) is None,
        },
{
    let n = s.unicode_len();
    let neg = s.get_char(from) == '-';
    let d0 = if neg {
        from + 1
    } else {
        from
    };
    let dend = scan_digits(s, d0);
    if dend == d0 {
        return None;
    }
    let frac_end = if dend < n && s.get_char(dend) == '.' {
        let fend = scan_digits(s, dend + 1);
        if fend == dend + 1 {
            return None;
        }
        fend
    } else {
        dend
    };
    let end = if frac_end < n && (s.get_char(frac_end) == 'e' || s.get_char(frac_end) == 'E') {
        let x0 = if frac_end + 1 < n && (s.get_char(frac_end + 1) == '+' || s.get_char(
            frac_end + 1,
        ) == '-') {
            frac_end + 2
        } else {
            frac_end + 1
        };
        let xend = scan_digits(s, x0);
        if xend == x0 {
            return None;
        }
        xend
    } else {
        frac_end
    };
    let fits = digits_to_i64(s, neg, d0, dend);
    Some((end, fits))
}

/// Read a JSON value at `from`.
fn scan_json_value(s: &str, from: usize) -> (r: Option<(usize, ParsedVal)>)
    requires
        from <= s@.len(),
        s@.len() <= usize::MAX,
    ensures
        match r {
            Some((e, val)) => (json_value_end(s@, from as int) matches Some((ee, sv)) && ee
                == e as int && from < e <= s@.len() && val_rep(val, sv)),
            None => json_value_end(s@, from as int) is None,
        },
{
    proof {
        reveal_strlit("true");
        reveal_strlit("false");
        reveal_strlit("null");
    }
    let n = s.unicode_len();
    if from >= n {
        return None;
    }
    let c = s.get_char(from);
    if c == '"' {
        match scan_json_string(s, from + 1) {
            Some((e, chars)) => Some((e, ParsedVal::Str { chars })),
            None => None,
        }
    } else if c == '-' || ('0' <= c && c <= '9') {
        match scan_json_number(s, from) {
            Some((e, fits)) => Some((e, ParsedVal::Num { fits })),
            None => None,
        }
    } else {
        let lt = "true".unicode_len();
        let lf = "false".unicode_len();
        let ln = "null".unicode_len();
        if n - from >= lt && matches_at(s, from, "true") {
            Some((from + lt, ParsedVal::Lit))
        } else if n - from >= lf && matches_at(s, from, "false") {
            Some((from + lf, ParsedVal::Lit))
        } else if n - from >= ln && matches_at(s, from, "null") {
            Some((from + ln, ParsedVal::Lit))
        } else {
            None
        }
    }
}

/// Whether the decoded characters spell the given key.
fn key_is(chars: &Vec<char>, lit: &str) -> (r: bool)
    ensures
        r == (chars@ == lit@),
{
    let ll = lit.unicode_len();
    if chars.len() != ll {
        return false;
    }
    let mut i: usize = 0;
    while i < ll
        invariant
            0 <= i <= ll,
            ll == lit@.len(),
            chars@.len() == ll,
            forall|j: int| 0 <= j < i ==> chars@[j] == lit@[j],
        decreases ll - i,
    {
        if chars[i] != lit.get_char(i) {
            return false;
        }
        i += 1;
    }
    proof {
        assert(chars@ =~= lit@);
    }
    true
}

/// A lookup into one more entry: the old result where there is one, else the
/// new entry where its key matches.
proof fn lemma_lookup_push(
    entries: Seq<(Seq<char>, JsonVal)>,
    k: Seq<char>,
    v: JsonVal,
    key: Seq<char>,
)
    ensures
        lookup_entry(entries.push((k, v)), key) == (match lookup_entry(entries, key) {
            Some(x) => Some(x),
            None => if k == key {
                Some(v)
            } else {
                None::<JsonVal>
            },
        }),
    decreases entries.len(),
{
    let pushed = entries.push((k, v));
    assert(pushed.len() == entries.len() + 1);
    if entries.len() == 0 {
        assert(pushed[0] == (k, v));
        assert(pushed.drop_first() =~= Seq::<(Seq<char>, JsonVal)>::empty());
        assert(lookup_entry(pushed.drop_first(), key) is None);
        assert(lookup_entry(pushed, key) == if pushed[0].0 == key {
            Some(pushed[0].1)
        } else {
            lookup_entry(pushed.drop_first(), key)
        });
        assert(lookup_entry(entries, key) is None);
    } else {
        assert(pushed[0] == entries[0]);
        assert(pushed.drop_first() =~= entries.drop_first().push((k, v)));
        lemma_lookup_push(entries.drop_first(), k, v, key);
        assert(lookup_entry(pushed, key) == if pushed[0].0 == key {
            Some(pushed[0].1)
        } else {
            lookup_entry(pushed.drop_first(), key)
        });
        assert(lookup_entry(entries, key) == if entries[0].0 == key {
            Some(entries[0].1)
        } else {
            lookup_entry(entries.drop_first(), key)
        });
    }
}

/// Read the rest of a rejection response (the prefix already stripped) as the
/// JSON object of the payload, and keep its first `code` and `message`.
fn parse_rejection_body(rest: &str) -> (r: Option<SendRawTxError>)
    ensures
        match r {
            Some(e) => (json_object_entries(rest@) matches Some(entries) && lookup_entry(
                entries,
                "code"@,
            ) == Some(JsonVal::Num { value: e.code as int }) && (lookup_entry(entries, "message"@)
                matches Some(JsonVal::Str { chars }) && chars == e.message@)),
            None => (match json_object_entries(rest@) {
                None => true,
                Some(entries) => match (lookup_entry(entries, "code"@), lookup_entry(
                    entries,
                    "message"@,
                )) {
                    (Some(JsonVal::Num { value }), Some(JsonVal::Str { .. })) => !(i64::MIN
                        <= value <= i64::MAX),
                    _ => true,
                },
            }),
        },
{
    let n = rest.unicode_len();
    let i0 = skip_ws(rest, 0);
    if i0 >= n {
        return None;
    }
    if rest.get_char(i0) != '{' {
        return None;
    }
    let i1 = skip_ws(rest, i0 + 1);
    if i1 < n && rest.get_char(i1) == '}' {
        // An empty object holds neither key.
        return None;
    }
    let ghost rs = rest@;
    let ghost fuel0 = (rs.len() + 1) as nat;
    let mut cur = i1;
    let ghost mut fuel: nat = fuel0;
    let ghost mut acc: Seq<(Seq<char>, JsonVal)> = Seq::empty();
    let mut first_code: Option<ParsedVal> = None;
    let mut first_message: Option<ParsedVal> = None;
    let mut after_entries: usize = 0;
    loop
        invariant_except_break
            i1 <= cur <= n,
            n == rs.len(),
            rs == rest@,
            i0 < n,
            rs[i0 as int] == '{',
            i0 == ws_end(rs, 0),
            i1 == ws_end(rs, i0 + 1),
            !(i1 < n && rs[i1 as int] == '}'),
            fuel0 == (rs.len() + 1) as nat,
            fuel <= fuel0,
            4 * (fuel0 - fuel) <= cur,
            json_entries_end(rs, i1 as int, fuel0) == (match json_entries_end(
                rs,
                cur as int,
                fuel,
            ) {
                None => None::<(int, Seq<(Seq<char>, JsonVal)>)>,
                Some((e, tail)) => Some((e, acc + tail)),
            }),
            lookup_rep(first_code, lookup_entry(acc, "code"@)),
            lookup_rep(first_message, lookup_entry(acc, "message"@)),
        ensures
            n == rs.len(),
            rs == rest@,
            i0 < n,
            rs[i0 as int] == '{',
            i0 == ws_end(rs, 0),
            i1 == ws_end(rs, i0 + 1),
            !(i1 < n && rs[i1 as int] == '}'),
            after_entries <= n,
            (json_entries_end(rs, i1 as int, fuel0) matches Some((e, entries)) && e
                == after_entries as int && lookup_rep(first_code, lookup_entry(entries, "code"@))
                && lookup_rep(first_message, lookup_entry(entries, "message"@))),
        decreases n - cur,
    {
        proof {
            assert(fuel >= 1);
        }
        if cur >= n {
            return None;
        }
        if rest.get_char(cur) != '"' {
            return None;
        }
        let (ek, key) = match scan_json_string(rest, cur + 1) {
            Some(p) => p,
            None => {
                return None;
            },
        };
        let c0 = skip_ws(rest, ek);
        if c0 >= n {
            return None;
        }
        if rest.get_char(c0) != ':' {
            return None;
        }
        let v0 = skip_ws(rest, c0 + 1);
        let (ev, val) = match scan_json_value(rest, v0) {
            Some(p) => p,
            None => {
                return None;
            },
        };
        let ghost sv = match json_value_end(rs, v0 as int) {
            Some((_, sv)) => sv,
            None => JsonVal::Lit,
        };
        let n0 = skip_ws(rest, ev);
        let ghost keyv = key@;
        let ghost acc_old = acc;
        let is_code = key_is(&key, "code");
        let is_message = key_is(&key, "message");
        proof {
            reveal_strlit("code");
            reveal_strlit("message");
            assert("code"@.len() != "message"@.len());
            lemma_lookup_push(acc_old, keyv, sv, "code"@);
            lemma_lookup_push(acc_old, keyv, sv, "message"@);
            acc = acc.push((keyv, sv));
        }
        if is_code {
            if first_code.is_none() {
                first_code = Some(val);
            }
        } else if is_message {
            if first_message.is_none() {
                first_message = Some(val);
            }
        }
        if n0 < n && rest.get_char(n0) == ',' {
            let k0 = skip_ws(rest, n0 + 1);
            proof {
                assert(json_entries_end(rs, cur as int, fuel) == (match json_entries_end(
                    rs,
                    k0 as int,
                    (fuel - 1) as nat,
                ) {
                    None => None::<(int, Seq<(Seq<char>, JsonVal)>)>,
                    Some((e, rest_entries)) => Some((e, seq![(keyv, sv)] + rest_entries)),
                }));
                assert forall|t: Seq<(Seq<char>, JsonVal)>|
                    acc_old + (seq![(keyv, sv)] + t) =~= acc + t by {}
                fuel = (fuel - 1) as nat;
            }
            cur = k0;
        } else {
            proof {
                assert(json_entries_end(rs, cur as int, fuel) == Some(
                    (n0 as int, seq![(keyv, sv)]),
                ));
                assert(acc_old + seq![(keyv, sv)] =~= acc);
            }
            after_entries = n0;
            break;
        }
    }
    if after_entries >= n {
        return None;
    }
    if rest.get_char(after_entries) != '}' {
        return None;
    }
    if skip_ws(rest, after_entries + 1) != n {
        return None;
    }
    match (first_code, first_message) {
        (Some(ParsedVal::Num { fits }), Some(ParsedVal::Str { chars })) => match fits {
            Some(code) => Some(SendRawTxError { code, message: chars_to_string(chars) }),
            None => None,
        },
        _ => None,
    }
}

/// Whether a response body starts with the rejection prefix.
pub open spec fn spec_has_rejection_prefix(s: Seq<char>) -> bool {
    s.len() >= rejection_prefix().len() && s.subrange(0, rejection_prefix().len() as int)
        == rejection_prefix()
}

/// Decide whether a response body starts with the rejection prefix.
pub fn has_rejection_prefix(body: &str) -> (r: bool)
    ensures
        r == spec_has_rejection_prefix(body@),
{
    let pat = "send raw transaction RPC error: ";
    proof {
        assert(pat@ == rejection_prefix());
    }
    let r = matches_at_offset(body, 0, pat);
    proof {
        assert(body@.subrange(0, pat@.len() as int) == body@.subrange(
            0,
            rejection_prefix().len() as int,
        ));
    }
    r
}

/// Whether `s` carries `pat` at `at`, bounds checked.
fn matches_at_offset(s: &str, at: usize, pat: &str) -> (r: bool)
    requires
        at <= s@.len(),
    ensures
        r == (at + pat@.len() <= s@.len() && s@.subrange(at as int, at as int + pat@.len() as int)
            == pat@),
{
    let n = s.unicode_len();
    let pl = pat.unicode_len();
    if n - at < pl {
        return false;
    }
    matches_at(s, at, pat)
}

/// Parse a broadcast response body as the documented rejection payload.
pub fn parse_send_raw_tx_error(resp_body: &str) -> (r: Option<SendRawTxError>)
    ensures
        match r {
            Some(e) => spec_parse_rpc_error(resp_body@) == Some((e.code as int, e.message@)),
            None => spec_parse_rpc_error(resp_body@) is None,
        },
{
    let prefix = "send raw transaction RPC error: ";
    let n = resp_body.unicode_len();
    let pl = prefix.unicode_len();
    let mut off: usize = 0;
    proof {
        assert(resp_body@.skip(0) =~= resp_body@);
    }
    loop
        invariant_except_break
            0 <= off <= n,
            n == resp_body@.len(),
            pl == rejection_prefix().len(),
            pl == prefix@.len(),
            strip_rejection_prefix(resp_body@) == strip_rejection_prefix(
                resp_body@.skip(off as int),
            ),
        ensures
            0 <= off <= n,
            n == resp_body@.len(),
            strip_rejection_prefix(resp_body@) == resp_body@.skip(off as int),
        decreases n - off,
    {
        if pl == 0 {
            proof {
                reveal_strlit("send raw transaction RPC error: ");
                assert(strip_rejection_prefix(resp_body@.skip(off as int)) == resp_body@.skip(
                    off as int,
                ));
            }
            break;
        }
        let pat = "send raw transaction RPC error: ";
        proof {
            reveal_strlit("send raw transaction RPC error: ");
            assert(pat@ == rejection_prefix());
        }
        if !matches_at_offset(resp_body, off, pat) {
            proof {
                let tail = resp_body@.skip(off as int);
                if tail.len() >= pl {
                    assert(tail.subrange(0, pl as int) =~= resp_body@.subrange(
                        off as int,
                        off as int + pl as int,
                    ));
                }
                assert(strip_rejection_prefix(tail) == tail);
            }
            break;
        }
        proof {
            let tail = resp_body@.skip(off as int);
            assert(tail.subrange(0, pl as int) =~= resp_body@.subrange(
                off as int,
                off as int + pl as int,
            ));
            assert(tail.skip(pl as int) =~= resp_body@.skip((off + pl) as int));
            assert(strip_rejection_prefix(tail) == strip_rejection_prefix(
                tail.skip(pl as int),
            ));
        }
        off = off + pl;
    }
    let rest = resp_body.substring_char(off, n);
    proof {
        assert(rest@ =~= resp_body@.skip(off as int));
    }
    parse_rejection_body(rest)
}

} // verus!
