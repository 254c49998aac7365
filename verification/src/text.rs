//! Character-level text handling: integer parsing and printing, trimming, searching.
use vstd::prelude::*;

verus! {

/// Why a string is not an unsigned integer.
#[derive(Debug, Clone, Copy, PartialEq, Eq, Structural)]
pub enum ParseIntError {
    /// The string is empty.
    Empty,
    /// A character is not a digit of the radix.
    InvalidDigit,
    /// The number does not fit the target type.
    PosOverflow,
    /// The number is zero where zero is not allowed.
    Zero,
}

impl ParseIntError {
    /// The error's description, worded as the standard library words it.
    pub fn message(&self) -> (r: String)
        ensures
            r@ == parse_int_message(*self),
    {
        match self {
            ParseIntError::Empty => String::from_str("cannot parse integer from empty string"),
            ParseIntError::InvalidDigit => String::from_str("invalid digit found in string"),
            ParseIntError::PosOverflow => String::from_str("number too large to fit in target type"),
            ParseIntError::Zero => String::from_str("number would be zero for non-zero type"),
        }
    }
}

/// The description of each parse error.
pub open spec fn parse_int_message(e: ParseIntError) -> Seq<char> {
    match e {
        ParseIntError::Empty => "cannot parse integer from empty string"@,
        ParseIntError::InvalidDigit => "invalid digit found in string"@,
        ParseIntError::PosOverflow => "number too large to fit in target type"@,
        ParseIntError::Zero => "number would be zero for non-zero type"@,
    }
}

/// The value of `c` as a digit in base `radix` (at most 16), if it is one: `0`-`9`, then
/// `a`-`f` or `A`-`F`.
pub open spec fn digit_value(c: char, radix: nat) -> Option<nat> {
    let v: int = if '0' <= c && c <= '9' {
        c as int - '0' as int
    } else if 'a' <= c && c <= 'f' {
        c as int - 'a' as int + 10
    } else if 'A' <= c && c <= 'F' {
        c as int - 'A' as int + 10
    } else {
        radix as int
    };
    if v < radix {
        Some(v as nat)
    } else {
        None
    }
}

/// Reading the first `k` digits of `d` left to right in base `radix`, failing on the first
/// non-digit, or as soon as the value passes `max`.
pub open spec fn accumulate(d: Seq<char>, k: nat, radix: nat, max: nat) -> Result<nat, ParseIntError>
    decreases k,
{
    if k == 0 {
        Ok(0)
    } else {
        match accumulate(d, (k - 1) as nat, radix, max) {
            Err(e) => Err(e),
            Ok(v) => match digit_value(d[k - 1], radix) {
                None => Err(ParseIntError::InvalidDigit),
                Some(x) => if v * radix + x > max {
                    Err(ParseIntError::PosOverflow)
                } else {
                    Ok(v * radix + x)
                },
            },
        }
    }
}

/// An unsigned integer no larger than `max`, written in base `radix` with an optional
/// leading `+`, as the standard library's `from_str_radix` for unsigned types reads it.
pub open spec fn parse_uint(s: Seq<char>, radix: nat, max: nat) -> Result<nat, ParseIntError> {
    if s.len() == 0 {
        Err(ParseIntError::Empty)
    } else if s.len() == 1 && (s[0] == '+' || s[0] == '-') {
        Err(ParseIntError::InvalidDigit)
    } else if s[0] == '+' {
        accumulate(s.drop_first(), (s.len() - 1) as nat, radix, max)
    } else {
        accumulate(s, s.len(), radix, max)
    }
}

fn digit_of(c: char, radix: u32) -> (r: Option<u32>)
    requires
        2 <= radix <= 16,
    ensures
        match digit_value(c, radix as nat) {
            Some(v) => r == Some(v as u32) && v < radix,
            None => r is None,
        },
{
    let v: u32 = if '0' <= c && c <= '9' {
        (c as u32) - ('0' as u32)
    } else if 'a' <= c && c <= 'f' {
        (c as u32) - ('a' as u32) + 10
    } else if 'A' <= c && c <= 'F' {
        (c as u32) - ('A' as u32) + 10
    } else {
        radix
    };
    if v < radix {
        Some(v)
    } else {
        None
    }
}

/// Parses an unsigned integer of at most `max` in base `radix`.
pub fn parse_uint_radix(s: &str, radix: u32, max: u64) -> (r: Result<u64, ParseIntError>)
    requires
        2 <= radix <= 16,
    ensures
        match parse_uint(s@, radix as nat, max as nat) {
            Ok(v) => r == Ok::<u64, ParseIntError>(v as u64),
            Err(e) => r == Err::<u64, ParseIntError>(e),
        },
{
    let len: usize = s.unicode_len();
    if len == 0 {
        return Err(ParseIntError::Empty);
    }
    let c0 = s.get_char(0);
    if len == 1 && (c0 == '+' || c0 == '-') {
        return Err(ParseIntError::InvalidDigit);
    }
    let start: usize = if c0 == '+' { 1 } else { 0 };
    let ghost d = if c0 == '+' { s@.drop_first() } else { s@ };
    proof {
        if c0 == '+' {
            assert(d =~= s@.subrange(1, len as int));
        } else {
            assert(d =~= s@.subrange(0, len as int));
        }
        assert(parse_uint(s@, radix as nat, max as nat) == accumulate(d, (len - start) as nat, radix as nat, max as nat));
    }
    let mut acc: u64 = 0;
    let mut i: usize = start;
    while i < len
        invariant
            len == s@.len(),
            start <= i <= len,
            start == 0 || start == 1,
            d == s@.subrange(start as int, len as int),
            accumulate(d, (i - start) as nat, radix as nat, max as nat) == Ok::<nat, ParseIntError>(acc as nat),
            parse_uint(s@, radix as nat, max as nat) == accumulate(d, (len - start) as nat, radix as nat, max as nat),
            acc <= max,
            2 <= radix <= 16,
        decreases len - i,
    {
        let c = s.get_char(i);
        assert(d[i - start] == c);
        match digit_of(c, radix) {
            None => {
                assert(accumulate(d, (i - start + 1) as nat, radix as nat, max as nat) == Err::<nat, ParseIntError>(ParseIntError::InvalidDigit));
                proof { lemma_accumulate_stops(d, (i - start + 1) as nat, (len - start) as nat, radix as nat, max as nat); }
                return Err(ParseIntError::InvalidDigit);
            },
            Some(x) => {
                assert((acc as u128) * (radix as u128) + (x as u128) <= 0xffff_ffff_ffff_ffff * 16 + 16)
                    by (nonlinear_arith)
                    requires
                        acc <= 0xffff_ffff_ffff_ffffu64,
                        radix <= 16,
                        x < 16,
                ;
                let wide: u128 = (acc as u128) * (radix as u128) + (x as u128);
                if wide > max as u128 {
                    assert(accumulate(d, (i - start + 1) as nat, radix as nat, max as nat) == Err::<nat, ParseIntError>(ParseIntError::PosOverflow));
                    proof { lemma_accumulate_stops(d, (i - start + 1) as nat, (len - start) as nat, radix as nat, max as nat); }
                    return Err(ParseIntError::PosOverflow);
                }
                acc = wide as u64;
            },
        }
        i = i + 1;
    }
    Ok(acc)
}

/// Once reading fails, it fails the same way for any longer prefix.
proof fn lemma_accumulate_stops(d: Seq<char>, k: nat, n: nat, radix: nat, max: nat)
    requires
        k <= n,
        accumulate(d, k, radix, max) is Err,
    ensures
        accumulate(d, n, radix, max) == accumulate(d, k, radix, max),
    decreases n - k,
{
    if k < n {
        lemma_accumulate_stops(d, k, (n - 1) as nat, radix, max);
    }
}

/// The decimal digit `d` (below ten) as a character.
pub open spec fn digit_char(d: nat) -> char {
    seq!['0', '1', '2', '3', '4', '5', '6', '7', '8', '9'][d as int]
}

/// `n` in decimal, without leading zeros.
pub open spec fn decimal(n: nat) -> Seq<char>
    decreases n,
{
    if n < 10 {
        seq![digit_char(n)]
    } else {
        decimal(n / 10).push(digit_char(n % 10))
    }
}

/// `x` in decimal, with a leading `-` when negative.
pub open spec fn signed_decimal(x: int) -> Seq<char> {
    if x < 0 {
        seq!['-'] + decimal((-x) as nat)
    } else {
        decimal(x as nat)
    }
}

/// A nonzero `u64` in decimal, as the standard library's `NonZeroU64` parses it (and the
/// ids of Discord users, guilds and channels with it).
pub open spec fn parse_id_spec(s: Seq<char>) -> Result<u64, ParseIntError> {
    match parse_uint(s, 10, u64::MAX as nat) {
        Err(e) => Err(e),
        Ok(n) => if n == 0 {
            Err(ParseIntError::Zero)
        } else {
            Ok(n as u64)
        },
    }
}

/// Parses a nonzero id written in decimal.
pub fn parse_id(s: &str) -> (r: Result<u64, ParseIntError>)
    ensures
        r == parse_id_spec(s@),
{
    match parse_uint_radix(s, 10, 0xffff_ffff_ffff_ffff) {
        Err(e) => Err(e),
        Ok(n) => if n == 0 {
            Err(ParseIntError::Zero)
        } else {
            Ok(n)
        },
    }
}

pub proof fn lemma_accumulate_prefix(d: Seq<char>, e: Seq<char>, k: nat, radix: nat, max: nat)
    requires
        k <= d.len(),
    ensures
        accumulate(d + e, k, radix, max) == accumulate(d, k, radix, max),
    decreases k,
{
    if k > 0 {
        lemma_accumulate_prefix(d, e, (k - 1) as nat, radix, max);
        assert((d + e)[k - 1] == d[k - 1]);
    }
}

/// Decimal printing and parsing agree: the decimal form of `n` reads back as `n`.
pub proof fn lemma_decimal_parses(n: nat, max: nat)
    requires
        n <= max,
    ensures
        decimal(n).len() >= 1,
        '0' <= decimal(n)[0] <= '9',
        accumulate(decimal(n), decimal(n).len(), 10, max) == Ok::<nat, ParseIntError>(n),
        parse_uint(decimal(n), 10, max) == Ok::<nat, ParseIntError>(n),
    decreases n,
{
    if n < 10 {
        let d = decimal(n);
        assert(d == seq![digit_char(n)]);
        assert(digit_value(d[0], 10) == Some(n));
        assert(accumulate(d, 0, 10, max) == Ok::<nat, ParseIntError>(0));
        assert(accumulate(d, 1, 10, max) == Ok::<nat, ParseIntError>(n));
    } else {
        let front = decimal(n / 10);
        let c = digit_char(n % 10);
        lemma_decimal_parses(n / 10, max);
        lemma_accumulate_prefix(front, seq![c], front.len(), 10, max);
        assert(decimal(n) == front + seq![c]);
        assert(digit_value(c, 10) == Some(n % 10));
        assert((n / 10) * 10 + n % 10 == n);
        assert(decimal(n)[0] == front[0]);
    }
}

fn digit_str(d: u64) -> (r: &'static str)
    requires
        d < 10,
    ensures
        r@ == seq![digit_char(d as nat)],
{
    let digits = "0123456789";
    proof {
        reveal_strlit("0123456789");
    }
    let r = digits.substring_char(d as usize, d as usize + 1);
    assert(r@ =~= seq![digit_char(d as nat)]);
    r
}

/// `n` in decimal, as `Display` prints an unsigned integer.
pub fn u64_to_decimal(n: u64) -> (r: String)
    ensures
        r@ == decimal(n as nat),
{
    let mut acc = String::from_str(digit_str(n % 10));
    let mut m: u64 = n / 10;
    while m > 0
        invariant
            decimal(n as nat) == (if m == 0 { Seq::<char>::empty() } else { decimal(m as nat) }) + acc@,
        decreases m,
    {
        let d = digit_str(m % 10);
        let ghost old_acc = acc@;
        acc = String::from_str(d).concat(acc.as_str());
        proof {
            if m >= 10 {
                assert(decimal(m as nat) + old_acc =~= decimal((m / 10) as nat) + acc@);
            } else {
                assert(decimal(m as nat) + old_acc =~= acc@);
            }
        }
        m = m / 10;
    }
    proof {
        assert(Seq::<char>::empty() + acc@ =~= acc@);
    }
    acc
}

/// `x` in decimal, as `Display` prints a signed integer.
pub fn i64_to_decimal(x: i64) -> (r: String)
    ensures
        r@ == signed_decimal(x as int),
{
    if x < 0 {
        let magnitude: u64 = if x == i64::MIN {
            9_223_372_036_854_775_808u64
        } else {
            (-x) as u64
        };
        let minus = "-";
        proof {
            reveal_strlit("-");
        }
        String::from_str(minus).concat(u64_to_decimal(magnitude).as_str())
    } else {
        u64_to_decimal(x as u64)
    }
}

/// Whether `c` has the Unicode `White_Space` property, as `char::is_whitespace` decides.
pub open spec fn is_whitespace(c: char) -> bool {
    ||| '\u{9}' <= c && c <= '\u{d}'
    ||| c == ' '
    ||| c == '\u{85}'
    ||| c == '\u{a0}'
    ||| c == '\u{1680}'
    ||| '\u{2000}' <= c && c <= '\u{200a}'
    ||| c == '\u{2028}'
    ||| c == '\u{2029}'
    ||| c == '\u{202f}'
    ||| c == '\u{205f}'
    ||| c == '\u{3000}'
}

fn char_is_whitespace(c: char) -> (r: bool)
    ensures
        r == is_whitespace(c),
{
    ('\u{9}' <= c && c <= '\u{d}') || c == ' ' || c == '\u{85}' || c == '\u{a0}' || c == '\u{1680}'
        || ('\u{2000}' <= c && c <= '\u{200a}') || c == '\u{2028}' || c == '\u{2029}'
        || c == '\u{202f}' || c == '\u{205f}' || c == '\u{3000}'
}

/// The first position at or after `i` that does not hold whitespace (`s.len()` if none).
pub open spec fn skip_whitespace_from(s: Seq<char>, i: int) -> int
    decreases s.len() - i,
{
    if i >= s.len() {
        s.len() as int
    } else if is_whitespace(s[i]) {
        skip_whitespace_from(s, i + 1)
    } else {
        i
    }
}

/// The end of `s.take(j)` once trailing whitespace is dropped.
pub open spec fn drop_trailing_whitespace(s: Seq<char>, j: int) -> int
    decreases j,
{
    if j <= 0 {
        0
    } else if is_whitespace(s[j - 1]) {
        drop_trailing_whitespace(s, j - 1)
    } else {
        j
    }
}

/// `s` without leading and trailing whitespace, as `str::trim` gives it.
pub open spec fn trimmed(s: Seq<char>) -> Seq<char> {
    let a = skip_whitespace_from(s, 0);
    if a >= s.len() {
        Seq::empty()
    } else {
        s.subrange(a, drop_trailing_whitespace(s, s.len() as int))
    }
}

/// `s` without leading and trailing whitespace.
pub fn trim(s: &str) -> (r: &str)
    ensures
        r@ == trimmed(s@),
{
    let len: usize = s.unicode_len();
    let mut i: usize = 0;
    while i < len && char_is_whitespace(s.get_char(i))
        invariant
            len == s@.len(),
            i <= len,
            skip_whitespace_from(s@, i as int) == skip_whitespace_from(s@, 0),
        decreases len - i,
    {
        i = i + 1;
    }
    if i == len {
        return s.substring_char(0, 0);
    }
    assert(!is_whitespace(s@[i as int]));
    let mut j: usize = len;
    while j > i + 1 && char_is_whitespace(s.get_char(j - 1))
        invariant
            len == s@.len(),
            i < len,
            i + 1 <= j <= len,
            !is_whitespace(s@[i as int]),
            drop_trailing_whitespace(s@, j as int) == drop_trailing_whitespace(s@, len as int),
        decreases j,
    {
        j = j - 1;
    }
    s.substring_char(i, j)
}

/// The first position at or after `i` that holds `c` (`s.len()` if none).
pub open spec fn find_from(s: Seq<char>, c: char, i: int) -> int
    decreases s.len() - i,
{
    if i >= s.len() {
        s.len() as int
    } else if s[i] == c {
        i
    } else {
        find_from(s, c, i + 1)
    }
}

/// The first position of `c` in `s` (`s.len()` if none).
pub open spec fn first_index(s: Seq<char>, c: char) -> int {
    find_from(s, c, 0)
}

/// The first position of `c` in `s`, or the length of `s` when `c` does not occur.
pub fn find_char(s: &str, c: char) -> (r: usize)
    ensures
        r == first_index(s@, c),
        r <= s@.len(),
{
    let len: usize = s.unicode_len();
    let mut i: usize = 0;
    while i < len && s.get_char(i) != c
        invariant
            len == s@.len(),
            i <= len,
            find_from(s@, c, i as int) == find_from(s@, c, 0),
        decreases len - i,
    {
        i = i + 1;
    }
    i
}

/// Every character of a decimal number is a digit.
pub proof fn lemma_decimal_digits(n: nat)
    ensures
        decimal(n).len() >= 1,
        forall|i: int| 0 <= i < decimal(n).len() ==> '0' <= #[trigger] decimal(n)[i] <= '9',
    decreases n,
{
    if n >= 10 {
        lemma_decimal_digits(n / 10);
        let front = decimal(n / 10);
        assert forall|i: int| 0 <= i < decimal(n).len() implies '0' <= #[trigger] decimal(n)[i] <= '9' by {
            if i < front.len() {
                assert(decimal(n)[i] == front[i]);
            }
        }
    }
}

/// Searching from `i` finds `c` at `k` when it stands there and not before.
pub proof fn lemma_find_from_first(s: Seq<char>, c: char, i: int, k: int)
    requires
        0 <= i <= k <= s.len(),
        k < s.len() ==> s[k] == c,
        forall|j: int| i <= j < k ==> s[j] != c,
    ensures
        find_from(s, c, i) == k,
    decreases k - i,
{
    if i < k {
        lemma_find_from_first(s, c, i + 1, k);
    }
}

/// Text that starts and ends with a character that is not whitespace is its own trim.
pub proof fn lemma_trimmed_unchanged(s: Seq<char>)
    requires
        s.len() >= 1,
        !is_whitespace(s[0]),
        !is_whitespace(s[s.len() - 1]),
    ensures
        trimmed(s) == s,
{
    assert(skip_whitespace_from(s, 0) == 0);
    assert(drop_trailing_whitespace(s, s.len() as int) == s.len());
    assert(s.subrange(0, s.len() as int) =~= s);
}

} // verus!
