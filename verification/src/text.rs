//! Text helpers: message assembly, number formatting and substring tests.
use vstd::prelude::*;
use vstd::string::*;
use vstd::utf8::*;

verus! {

/// What `std::str::from_utf8` prints about bytes that are not valid UTF-8.
pub uninterp spec fn utf8_error_text(bytes: Seq<u8>) -> Seq<char>;

/// Calls `std::str::from_utf8`, which succeeds exactly on valid UTF-8 and then
/// returns the string those bytes encode. On failure the error's printed form,
/// which depends on the bytes alone, is returned.
#[verifier::external_body]
pub(crate) fn from_utf8(bytes: &[u8]) -> (r: Result<&str, String>)
    ensures
        r is Ok <==> valid_utf8(bytes@),
        r matches Ok(s) ==> s@ == decode_utf8(bytes@),
        r matches Err(t) ==> t@ == utf8_error_text(bytes@),
{
    std::str::from_utf8(bytes).map_err(|e| e.to_string())
}

/// Whether `part` occurs somewhere inside `whole`.
pub open spec fn occurs_in(part: Seq<char>, whole: Seq<char>) -> bool {
    exists|i: int|
        0 <= i <= whole.len() - part.len() && #[trigger] whole.subrange(i, i + part.len()) == part
}

/// Calls `str::starts_with` with a string pattern: whether `prefix` is the
/// beginning of `s`.
#[verifier::external_body]
pub(crate) fn has_prefix(s: &str, prefix: &str) -> (r: bool)
    ensures
        r == prefix@.is_prefix_of(s@),
{
    s.starts_with(prefix)
}

/// Calls `str::ends_with` with a string pattern: whether `suffix` is the end of
/// `s`.
#[verifier::external_body]
pub(crate) fn has_suffix(s: &str, suffix: &str) -> (r: bool)
    ensures
        r == suffix@.is_suffix_of(s@),
{
    s.ends_with(suffix)
}

/// Calls `str::contains` with a string pattern: whether `part` occurs in `s`.
#[verifier::external_body]
pub(crate) fn has_part(s: &str, part: &str) -> (r: bool)
    ensures
        r == occurs_in(part@, s@),
{
    s.contains(part)
}

/// Whether two strings hold the same characters.
pub fn same_text(a: &str, b: &str) -> (r: bool)
    ensures
        r == (a@ == b@),
{
    let x: String = a.to_owned();
    let y: String = b.to_owned();
    x == y
}

/// `a` followed by `b`.
pub fn cat(a: &str, b: &str) -> (r: String)
    ensures
        r@ == a@ + b@,
{
    let mut s: String = a.to_owned();
    s.append(b);
    s
}

/// `a`, `b` and `c` in a row.
pub fn cat3(a: &str, b: &str, c: &str) -> (r: String)
    ensures
        r@ == a@ + b@ + c@,
{
    let mut s: String = cat(a, b);
    s.append(c);
    s
}

/// Four texts joined.
pub fn cat4(a: &str, b: &str, c: &str, d: &str) -> (r: String)
    ensures
        r@ == a@ + b@ + c@ + d@,
{
    let mut s: String = cat3(a, b, c);
    s.append(d);
    s
}

/// Five pieces in a row.
pub fn cat5(a: &str, b: &str, c: &str, d: &str, e: &str) -> (r: String)
    ensures
        r@ == a@ + b@ + c@ + d@ + e@,
{
    let mut s: String = cat3(a, b, c);
    s.append(d);
    s.append(e);
    s
}

/// The character that stands for `d` in positional notation (`0`-`9`, `a`-`f`).
pub open spec fn digit_char(d: nat) -> char {
    if d < 10 {
        (48 + d) as char
    } else {
        (87 + d) as char
    }
}

/// `n` written in the given base without leading zeros.
pub open spec fn numeral(n: nat, base: nat) -> Seq<char>
    decreases n,
{
    if base < 2 || n < base {
        seq![digit_char(n)]
    } else {
        proof {
            assert(n / base < n) by (nonlinear_arith)
                requires
                    n >= base,
                    base >= 2,
            ;
        }
        numeral(n / base, base).push(digit_char(n % base))
    }
}

/// `n` written in decimal.
pub open spec fn decimal_text(n: nat) -> Seq<char> {
    numeral(n, 10)
}

/// A signed number written in decimal.
pub open spec fn signed_text(n: int) -> Seq<char> {
    if n < 0 {
        "-"@ + decimal_text((-n) as nat)
    } else {
        decimal_text(n as nat)
    }
}

fn digit_str(d: u64) -> (r: &'static str)
    requires
        d < 16,
    ensures
        r@ == seq![digit_char(d as nat)],
{
    proof {
        reveal_strlit("0");
        reveal_strlit("1");
        reveal_strlit("2");
        reveal_strlit("3");
        reveal_strlit("4");
        reveal_strlit("5");
        reveal_strlit("6");
        reveal_strlit("7");
        reveal_strlit("8");
        reveal_strlit("9");
        reveal_strlit("a");
        reveal_strlit("b");
        reveal_strlit("c");
        reveal_strlit("d");
        reveal_strlit("e");
        reveal_strlit("f");
    }
    match d {
        0 => "0",
        1 => "1",
        2 => "2",
        3 => "3",
        4 => "4",
        5 => "5",
        6 => "6",
        7 => "7",
        8 => "8",
        9 => "9",
        10 => "a",
        11 => "b",
        12 => "c",
        13 => "d",
        14 => "e",
        _ => "f",
    }
}

fn write_numeral(n: u64, base: u64) -> (r: String)
    requires
        2 <= base <= 16,
    ensures
        r@ == numeral(n as nat, base as nat),
    decreases n,
{
    if n < base {
        digit_str(n).to_owned()
    } else {
        assert(n / base < n) by (nonlinear_arith)
            requires
                n >= base,
                base >= 2,
        ;
        let mut s: String = write_numeral(n / base, base);
        s.append(digit_str(n % base));
        s
    }
}

/// Decimal form of `n`.
pub fn decimal(n: u64) -> (r: String)
    ensures
        r@ == decimal_text(n as nat),
{
    write_numeral(n, 10)
}

/// Lower-case hexadecimal form of `n`, without leading zeros.
pub fn hexadecimal(n: u64) -> (r: String)
    ensures
        r@ == numeral(n as nat, 16),
{
    write_numeral(n, 16)
}

/// Decimal form of a signed number.
pub fn signed_decimal(n: i64) -> (r: String)
    ensures
        r@ == signed_text(n as int),
{
    if n < 0 {
        let magnitude: u64 = (-(n as i128)) as u64;
        cat("-", decimal(magnitude).as_str())
    } else {
        decimal(n as u64)
    }
}

// ── laws ─────────────────────────────────────────────────────────────────────

/// What a digit of positional notation stands for.
pub open spec fn digit_value(c: char) -> int {
    if '0' <= c && c <= '9' {
        c as int - '0' as int
    } else {
        c as int - 'a' as int + 10
    }
}

/// The number that digits stand for in a base, most significant first.
pub open spec fn value_of(digits: Seq<char>, base: nat) -> int
    decreases digits.len(),
{
    if digits.len() == 0 {
        0
    } else {
        value_of(digits.drop_last(), base) * base + digit_value(digits.last())
    }
}

/// A written number reads back as itself, in any base up to sixteen: its digits are
/// those of the base, the most significant one comes first and is no zero, unless the
/// number is.
pub proof fn numerals_read_back(n: nat, base: nat)
    requires
        2 <= base <= 16,
    ensures
        value_of(numeral(n, base), base) == n,
        numeral(n, base).len() >= 1,
        forall|i: int|
            0 <= i < numeral(n, base).len() ==> 0 <= digit_value(#[trigger] numeral(n, base)[i])
                < base && ('0' <= numeral(n, base)[i] <= '9' || 'a' <= numeral(n, base)[i] <= 'f'),
        n > 0 ==> numeral(n, base)[0] != '0',
    decreases n,
{
    let s = numeral(n, base);
    if n < base {
        assert(s.drop_last() =~= Seq::empty());
        assert(value_of(s.drop_last(), base) == 0);
        assert(0 * base == 0) by (nonlinear_arith);
    } else {
        assert(n / base < n && n / base >= 1) by (nonlinear_arith)
            requires
                n >= base,
                base >= 2,
        ;
        numerals_read_back(n / base, base);
        let head = numeral(n / base, base);
        assert(s.drop_last() =~= head);
        assert(s.last() == digit_char(n % base));
        assert((n / base) * base + n % base == n && 0 <= n % base < base) by (nonlinear_arith)
            requires
                base >= 2,
        ;
        assert forall|i: int| 0 <= i < s.len() implies 0 <= digit_value(#[trigger] s[i]) < base && (
        '0' <= s[i] <= '9' || 'a' <= s[i] <= 'f') by {
            if i < head.len() {
                assert(s[i] == head[i]);
            }
        }
    }
}

/// Different numbers are written differently.
pub proof fn numerals_differ(n: nat, m: nat, base: nat)
    requires
        2 <= base <= 16,
        numeral(n, base) == numeral(m, base),
    ensures
        n == m,
{
    numerals_read_back(n, base);
    numerals_read_back(m, base);
}

/// A signed number is written with its sign and its magnitude, and reads back.
pub proof fn signed_numbers_read_back(n: int)
    ensures
        n >= 0 ==> value_of(signed_text(n), 10) == n,
        n < 0 ==> signed_text(n)[0] == '-' && value_of(signed_text(n).skip(1), 10) == -n,
        signed_text(n)[0] == '-' ==> n < 0,
{
    reveal_strlit("-");
    if n < 0 {
        numerals_read_back((-n) as nat, 10);
        assert(signed_text(n).skip(1) =~= decimal_text((-n) as nat));
    } else {
        numerals_read_back(n as nat, 10);
        assert(signed_text(n)[0] == numeral(n as nat, 10)[0]);
    }
}

/// Two texts that agree and are split at the first occurrence of a character agree in
/// both parts.
pub proof fn first_split_is_unique(
    a: Seq<char>,
    b: Seq<char>,
    x: Seq<char>,
    y: Seq<char>,
    c: char,
)
    requires
        !a.contains(c),
        !x.contains(c),
        a + seq![c] + b == x + seq![c] + y,
    ensures
        a == x,
        b == y,
{
    let s = a + seq![c] + b;
    let t = x + seq![c] + y;
    assert(s[a.len() as int] == c);
    assert(t[x.len() as int] == c);
    if a.len() < x.len() {
        assert(x[a.len() as int] == t[a.len() as int]);
        assert(false);
    }
    if x.len() < a.len() {
        assert(a[x.len() as int] == s[x.len() as int]);
        assert(false);
    }
    assert(a =~= s.take(a.len() as int));
    assert(x =~= t.take(x.len() as int));
    assert(b =~= s.skip(a.len() as int + 1));
    assert(y =~= t.skip(x.len() as int + 1));
}

} // verus!
