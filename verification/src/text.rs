//! Character-level text helpers shared by the protocol, asset and tenant code:
//! decimal rendering, unsigned-integer parsing in the exact grammar of std's
//! `FromStr`/`from_str_radix`, substring search, Unicode whitespace, and the
//! Unicode case mappings (which come from std, behind named results).

use vstd::prelude::*;
use vstd::string::*;

verus! {

// ---------------------------------------------------------------------------
// Unicode tables from std
// ---------------------------------------------------------------------------

/// ASCII lower-case mapping of one character (other characters unchanged).
pub open spec fn ascii_lower(c: char) -> char {
    if 'A' <= c <= 'Z' {
        ((c as u32) + 32) as char
    } else {
        c
    }
}

/// ASCII upper-case mapping of one character (other characters unchanged).
pub open spec fn ascii_upper(c: char) -> char {
    if 'a' <= c <= 'z' {
        ((c as u32) - 32) as char
    } else {
        c
    }
}

/// True when every character is in the ASCII range.
pub open spec fn all_ascii(s: Seq<char>) -> bool {
    forall|i: int| 0 <= i < s.len() ==> (#[trigger] s[i] as u32) < 128
}

/// What `char::is_whitespace` answers: the Unicode `White_Space` property,
/// which holds for U+0009..=U+000D, U+0020, U+0085, U+00A0, U+1680,
/// U+2000..=U+200A, U+2028, U+2029, U+202F, U+205F and U+3000.
pub open spec fn spec_is_whitespace(c: char) -> bool {
    let u = c as u32;
    ||| 9 <= u <= 13
    ||| u == 0x20
    ||| u == 0x85
    ||| u == 0xA0
    ||| u == 0x1680
    ||| 0x2000 <= u <= 0x200A
    ||| u == 0x2028
    ||| u == 0x2029
    ||| u == 0x202F
    ||| u == 0x205F
    ||| u == 0x3000
}

/// What `str::to_lowercase` returns for a string (Unicode lower-case mapping).
pub uninterp spec fn spec_to_lowercase(s: Seq<char>) -> Seq<char>;

/// What `str::to_uppercase` returns for a string (Unicode upper-case mapping).
pub uninterp spec fn spec_to_uppercase(s: Seq<char>) -> Seq<char>;

/// `char::is_whitespace`: whether `c` has the Unicode `White_Space` property.
pub fn is_whitespace(c: char) -> (b: bool)
    ensures
        b == spec_is_whitespace(c),
{
    let u = c as u32;
    (9 <= u && u <= 13) || u == 0x20 || u == 0x85 || u == 0xA0 || u == 0x1680 || (0x2000 <= u && u
        <= 0x200A) || u == 0x2028 || u == 0x2029 || u == 0x202F || u == 0x205F || u == 0x3000
}

/// Calls `str::to_lowercase`. Claims: the result is a function of the input,
/// and an ASCII input is mapped character by character to ASCII lower case.
#[verifier::external_body]
pub(crate) fn to_lowercase(s: &str) -> (r: String)
    ensures
        r@ == spec_to_lowercase(s@),
        all_ascii(s@) ==> r@ == s@.map_values(|c: char| ascii_lower(c)),
{
    s.to_lowercase()
}

/// Calls `str::to_uppercase`. Claims: the result is a function of the input,
/// and an ASCII input is mapped character by character to ASCII upper case.
#[verifier::external_body]
pub(crate) fn to_uppercase(s: &str) -> (r: String)
    ensures
        r@ == spec_to_uppercase(s@),
        all_ascii(s@) ==> r@ == s@.map_values(|c: char| ascii_upper(c)),
{
    s.to_uppercase()
}

/// Calls `String::push`: appends one character.
#[verifier::external_body]
pub(crate) fn push_char(s: &mut String, c: char)
    ensures
        final(s)@ == old(s)@.push(c),
{
    s.push(c)
}

// ---------------------------------------------------------------------------
// Decimal rendering
// ---------------------------------------------------------------------------

/// The ASCII digit for `d` in `0..16` (lower-case hex letters above 9).
pub open spec fn digit_char(d: int) -> char {
    if d < 10 {
        (d + 48) as char
    } else {
        (d + 87) as char
    }
}

/// The shortest decimal spelling of `n` (what `Display` prints for integers).
pub open spec fn decimal(n: nat) -> Seq<char>
    decreases n,
{
    if n < 10 {
        seq![digit_char(n as int)]
    } else {
        decimal(n / 10).push(digit_char((n % 10) as int))
    }
}

fn digit(d: u64) -> (c: char)
    requires
        d < 10,
    ensures
        c == digit_char(d as int),
{
    match d {
        0 => '0',
        1 => '1',
        2 => '2',
        3 => '3',
        4 => '4',
        5 => '5',
        6 => '6',
        7 => '7',
        8 => '8',
        _ => '9',
    }
}

/// Appends the decimal spelling of `n` to `s`.
pub fn push_decimal(s: &mut String, n: u64)
    ensures
        final(s)@ == old(s)@ + decimal(n as nat),
    decreases n,
{
    if n >= 10 {
        push_decimal(s, n / 10);
    }
    let c = digit(n % 10);
    push_char(s, c);
    proof {
        if n >= 10 {
            assert(decimal(n as nat) == decimal((n / 10) as nat).push(c));
        } else {
            assert(decimal(n as nat) == seq![c]);
        }
        assert(final(s)@ =~= old(s)@ + decimal(n as nat));
    }
}

/// The decimal spelling of `n` as a new string.
pub fn to_decimal(n: u64) -> (s: String)
    ensures
        s@ == decimal(n as nat),
{
    let mut s = String::new();
    push_decimal(&mut s, n);
    proof {
        assert(s@ =~= decimal(n as nat));
    }
    s
}

// ---------------------------------------------------------------------------
// Unsigned integer parsing (std's `from_str_radix` grammar)
// ---------------------------------------------------------------------------

/// The value of `c` as a digit in `radix` (10 or 16), if it is one.
pub open spec fn digit_value(c: char, radix: nat) -> Option<nat> {
    if '0' <= c <= '9' && (c as nat) - 48 < radix {
        Some(((c as nat) - 48) as nat)
    } else if radix == 16 && 'a' <= c <= 'f' {
        Some(((c as nat) - 87) as nat)
    } else if radix == 16 && 'A' <= c <= 'F' {
        Some(((c as nat) - 55) as nat)
    } else {
        None
    }
}

/// True when every character is a digit of `radix`.
pub open spec fn all_digits(s: Seq<char>, radix: nat) -> bool {
    forall|i: int| 0 <= i < s.len() ==> (#[trigger] digit_value(s[i], radix)) is Some
}

/// The value of a string of digits, most significant first.
pub open spec fn digits_value(s: Seq<char>, radix: nat) -> nat
    decreases s.len(),
{
    if s.len() == 0 {
        0
    } else {
        digits_value(s.drop_last(), radix) * radix + digit_value(s.last(), radix).unwrap()
    }
}

/// The digits part of an unsigned number: the text without one leading `+`.
pub open spec fn unsigned_body(s: Seq<char>) -> Seq<char> {
    if s.len() > 0 && s[0] == '+' {
        s.drop_first()
    } else {
        s
    }
}

/// What `from_str_radix` (and `str::parse`) yields for an unsigned integer type
/// whose largest value is `max`: an optional `+`, then one or more digits of
/// `radix`, no other characters, and a value that fits.
pub open spec fn spec_parse_unsigned(s: Seq<char>, radix: nat, max: nat) -> Option<nat> {
    let d = unsigned_body(s);
    if d.len() > 0 && all_digits(d, radix) && digits_value(d, radix) <= max {
        Some(digits_value(d, radix))
    } else {
        None
    }
}

proof fn lemma_digits_value_prefix(s: Seq<char>, radix: nat, k: int)
    requires
        0 <= k <= s.len(),
        all_digits(s, radix),
        radix >= 1,
    ensures
        digits_value(s.take(k), radix) <= digits_value(s, radix),
    decreases s.len(),
{
    if k < s.len() {
        let t = s.drop_last();
        assert(all_digits(t, radix)) by {
            assert forall|i: int| 0 <= i < t.len() implies #[trigger] digit_value(t[i], radix) is Some by {
                assert(t[i] == s[i]);
            }
        }
        lemma_digits_value_prefix(t, radix, k);
        assert(t.take(k) =~= s.take(k));
        let v = digits_value(t, radix);
        assert(v * radix >= v) by (nonlinear_arith)
            requires radix >= 1;
    } else {
        assert(s.take(k) =~= s);
    }
}

/// Parses the characters of an unsigned number in `radix` (10 or 16) that must
/// not exceed `max`, in the grammar std's `from_str_radix` accepts.
pub fn parse_unsigned_chars(s: &Vec<char>, radix: u64, max: u64) -> (r: Option<u64>)
    requires
        radix == 10 || radix == 16,
    ensures
        match spec_parse_unsigned(s@, radix as nat, max as nat) {
            Some(v) => r == Some(v as u64),
            None => r is None,
        },
{
    let n = s.len();
    let mut i: usize = 0;
    if n > 0 && s[0] == '+' {
        i = 1;
    }
    let start = i;
    let ghost d = unsigned_body(s@);
    assert(d =~= s@.subrange(start as int, n as int));
    if start == n {
        return None;
    }
    let mut acc: u64 = 0;
    while i < n
        invariant
            n == s@.len(),
            start <= i <= n,
            start < n,
            d == s@.subrange(start as int, n as int),
            d == unsigned_body(s@),
            radix == 10 || radix == 16,
            all_digits(d.take(i - start), radix as nat),
            acc as nat == digits_value(d.take(i - start), radix as nat),
            acc <= max,
        decreases n - i,
    {
        let c = s[i];
        let ghost k = i - start;
        assert(d[k] == c);
        let dv: u64;
        if '0' <= c && c <= '9' && (c as u64) - 48 < radix {
            dv = (c as u64) - 48;
        } else if radix == 16 && 'a' <= c && c <= 'f' {
            dv = (c as u64) - 87;
        } else if radix == 16 && 'A' <= c && c <= 'F' {
            dv = (c as u64) - 55;
        } else {
            proof {
                assert(!(digit_value(d[k], radix as nat) is Some));
                assert(!all_digits(d, radix as nat));
            }
            return None;
        }
        assert(digit_value(c, radix as nat) == Some(dv as nat));
        assert(d.take(k + 1).drop_last() =~= d.take(k));
        assert(d.take(k + 1).last() == c);
        let ghost next = digits_value(d.take(k + 1), radix as nat);
        assert(next == (acc as nat) * (radix as nat) + dv as nat);
        if dv > max {
            proof {
                if all_digits(d, radix as nat) {
                    lemma_digits_value_prefix(d, radix as nat, k + 1);
                }
                assert((acc as int) * (radix as int) >= 0) by (nonlinear_arith)
                    requires radix > 0;
            }
            return None;
        }
        let lim = (max - dv) / radix;
        if acc > lim {
            proof {
                assert((acc as int) * (radix as int) + (dv as int) > max as int) by (nonlinear_arith)
                    requires
                        acc as int > lim as int,
                        lim as int == (max as int - dv as int) / (radix as int),
                        radix > 0,
                        dv <= max,
                ;
                if all_digits(d, radix as nat) {
                    lemma_digits_value_prefix(d, radix as nat, k + 1);
                }
            }
            return None;
        }
        proof {
            assert((acc as int) * (radix as int) + (dv as int) <= max as int) by (nonlinear_arith)
                requires
                    acc as int <= lim as int,
                    lim as int == (max as int - dv as int) / (radix as int),
                    radix > 0,
                    dv <= max,
            ;
            assert(all_digits(d.take(k + 1), radix as nat)) by {
                assert forall|j: int| 0 <= j < k + 1 implies #[trigger] digit_value(
                    d.take(k + 1)[j],
                    radix as nat,
                ) is Some by {
                    if j < k {
                        assert(d.take(k + 1)[j] == d.take(k)[j]);
                    }
                }
            }
        }
        acc = acc * radix + dv;
        i = i + 1;
    }
    assert(d.take(n - start) =~= d);
    Some(acc)
}

/// Parses an unsigned number in `radix` (10 or 16) that must not exceed `max`,
/// in the grammar std's `from_str_radix` accepts.
pub fn parse_unsigned(s: &str, radix: u64, max: u64) -> (r: Option<u64>)
    requires
        radix == 10 || radix == 16,
    ensures
        match spec_parse_unsigned(s@, radix as nat, max as nat) {
            Some(v) => r == Some(v as u64),
            None => r is None,
        },
{
    let cs = chars_of(s);
    parse_unsigned_chars(&cs, radix, max)
}

/// `str::parse::<u64>()`, as an `Option`.
pub fn parse_u64(s: &str) -> (r: Option<u64>)
    ensures
        match spec_parse_unsigned(s@, 10, u64::MAX as nat) {
            Some(v) => r == Some(v as u64),
            None => r is None,
        },
{
    parse_unsigned(s, 10, u64::MAX)
}

// ---------------------------------------------------------------------------
// Substring search
// ---------------------------------------------------------------------------

/// True when `p` occurs in `s` starting at index `i`.
pub open spec fn occurs_at(s: Seq<char>, p: Seq<char>, i: int) -> bool {
    0 <= i && i + p.len() <= s.len() && s.subrange(i, i + p.len()) == p
}

/// What `str::contains` answers for a string pattern.
pub open spec fn seq_contains(s: Seq<char>, p: Seq<char>) -> bool {
    exists|i: int| occurs_at(s, p, i)
}

/// True when `s` begins with `p` (`str::starts_with`).
pub open spec fn seq_starts_with(s: Seq<char>, p: Seq<char>) -> bool {
    p.len() <= s.len() && s.take(p.len() as int) == p
}

fn occurs_at_exec(s: &Vec<char>, p: &Vec<char>, i: usize) -> (b: bool)
    requires
        i + p.len() <= s.len(),
    ensures
        b == occurs_at(s@, p@, i as int),
{
    let mut j: usize = 0;
    while j < p.len()
        invariant
            i + p.len() <= s.len(),
            j <= p.len(),
            forall|k: int| 0 <= k < j ==> s@[i + k] == p@[k],
        decreases p.len() - j,
    {
        if s[i + j] != p[j] {
            proof {
                assert(s@.subrange(i as int, i + p.len())[j as int] != p@[j as int]);
            }
            return false;
        }
        j = j + 1;
    }
    assert(s@.subrange(i as int, i + p.len()) =~= p@);
    true
}

/// The characters of a string, one per element.
pub fn chars_of(s: &str) -> (v: Vec<char>)
    ensures
        v@ == s@,
{
    let n = s.unicode_len();
    let mut v: Vec<char> = Vec::new();
    let mut i: usize = 0;
    while i < n
        invariant
            n == s@.len(),
            i <= n,
            v@ == s@.take(i as int),
        decreases n - i,
    {
        v.push(s.get_char(i));
        i = i + 1;
        assert(v@ =~= s@.take(i as int));
    }
    assert(s@.take(n as int) =~= s@);
    v
}

/// True when the characters `v` spell exactly `s`.
pub fn chars_eq_str(v: &Vec<char>, s: &str) -> (b: bool)
    ensures
        b == (v@ == s@),
{
    let t = chars_of(s);
    if t.len() != v.len() {
        return false;
    }
    let mut i: usize = 0;
    while i < v.len()
        invariant
            t@ == s@,
            t.len() == v.len(),
            i <= v.len(),
            forall|k: int| 0 <= k < i ==> v@[k] == t@[k],
        decreases v.len() - i,
    {
        if v[i] != t[i] {
            return false;
        }
        i = i + 1;
    }
    assert(v@ =~= t@);
    true
}

/// `str::contains` for a string pattern.
pub fn contains(s: &str, p: &str) -> (b: bool)
    ensures
        b == seq_contains(s@, p@),
{
    let sv = chars_of(s);
    let pv = chars_of(p);
    if pv.len() > sv.len() {
        assert forall|i: int| !occurs_at(s@, p@, i) by {}
        return false;
    }
    let last = sv.len() - pv.len();
    let mut i: usize = 0;
    loop
        invariant
            sv@ == s@,
            pv@ == p@,
            last == sv.len() - pv.len(),
            pv.len() <= sv.len(),
            i <= last,
            forall|k: int| 0 <= k < i ==> !occurs_at(s@, p@, k),
        decreases last - i,
    {
        if occurs_at_exec(&sv, &pv, i) {
            return true;
        }
        if i == last {
            assert forall|k: int| !occurs_at(s@, p@, k) by {
                if 0 <= k && k + p@.len() <= s@.len() {
                    assert(k <= i);
                }
            }
            return false;
        }
        i = i + 1;
    }
}

/// `str::starts_with` for a string pattern.
pub fn starts_with(s: &str, p: &str) -> (b: bool)
    ensures
        b == seq_starts_with(s@, p@),
{
    let sv = chars_of(s);
    let pv = chars_of(p);
    if pv.len() > sv.len() {
        return false;
    }
    let b = occurs_at_exec(&sv, &pv, 0);
    proof {
        assert(s@.subrange(0, p@.len() as int) =~= s@.take(p@.len() as int));
    }
    b
}

} // verus!
