//! The logic of the slash commands that is not talking to Discord.
use crate::calendar::{is_known_zone, known_zone};
use crate::text::{
    ParseIntError, accumulate, decimal, digit_char, digit_value, lemma_accumulate_prefix,
    parse_uint, parse_uint_radix, u64_to_decimal,
};
use vstd::prelude::*;

verus! {

/// `color` with at most one leading `#`, then at most one `0x`, then at most one `0X`
/// taken off, in that order.
pub open spec fn hex_digits_of(color: Seq<char>) -> Seq<char> {
    let a = if color.len() >= 1 && color[0] == '#' {
        color.drop_first()
    } else {
        color
    };
    let b = if a.len() >= 2 && a[0] == '0' && a[1] == 'x' {
        a.subrange(2, a.len() as int)
    } else {
        a
    };
    if b.len() >= 2 && b[0] == '0' && b[1] == 'X' {
        b.subrange(2, b.len() as int)
    } else {
        b
    }
}

fn strip_prefix<'b>(s: &'b str, p0: char, p1: Option<char>) -> (r: &'b str)
    ensures
        r@ == (match p1 {
            None => if s@.len() >= 1 && s@[0] == p0 {
                s@.drop_first()
            } else {
                s@
            },
            Some(c1) => if s@.len() >= 2 && s@[0] == p0 && s@[1] == c1 {
                s@.subrange(2, s@.len() as int)
            } else {
                s@
            },
        }),
{
    let len: usize = s.unicode_len();
    match p1 {
        None => {
            if len >= 1 && s.get_char(0) == p0 {
                s.substring_char(1, len)
            } else {
                s
            }
        },
        Some(c1) => {
            if len >= 2 && s.get_char(0) == p0 && s.get_char(1) == c1 {
                s.substring_char(2, len)
            } else {
                s
            }
        },
    }
}

/// Reads a color such as `#ff8800`, `0xFF8800` or `ff8800` as a 24-bit RGB value (or any
/// hexadecimal `u32`).
pub fn parse_hex_color(color: &str) -> (r: Result<u32, ParseIntError>)
    ensures
        match parse_uint(hex_digits_of(color@), 16, u32::MAX as nat) {
            Ok(v) => r == Ok::<u32, ParseIntError>(v as u32),
            Err(e) => r == Err::<u32, ParseIntError>(e),
        },
{
    let color = strip_prefix(color, '#', None);
    let color = strip_prefix(color, '0', Some('x'));
    let color = strip_prefix(color, '0', Some('X'));
    match parse_uint_radix(color, 16, 0xffff_ffff) {
        Ok(v) => Ok(v as u32),
        Err(e) => Err(e),
    }
}

/// The zone name to store for a guild: the name itself if `chrono_tz` knows it (a zone's
/// name is the string it parses from), `None` otherwise.
pub fn timezone_to_store(name: &str) -> (r: Option<String>)
    ensures
        r is Some <==> known_zone(name@),
        r matches Some(s) ==> s@ == name@,
{
    if is_known_zone(name) {
        Some(String::from_str(name))
    } else {
        None
    }
}

/// The name of a member's personal colour role: their user id in decimal.
pub fn personal_role_name(user_id: u64) -> (r: String)
    ensures
        r@ == decimal(user_id as nat),
{
    u64_to_decimal(user_id)
}

/// The first of the guild's roles (given by name) that is the member's personal role.
pub fn find_personal_role(role_names: &Vec<String>, user_id: u64) -> (r: Option<usize>)
    ensures
        match r {
            Some(i) => i < role_names@.len() && role_names@[i as int]@ == decimal(user_id as nat)
                && forall|j: int| 0 <= j < i ==> role_names@[j]@ != decimal(user_id as nat),
            None => forall|j: int| 0 <= j < role_names@.len() ==> role_names@[j]@ != decimal(
                user_id as nat,
            ),
        },
{
    let wanted = personal_role_name(user_id);
    let mut i: usize = 0;
    while i < role_names.len()
        invariant
            i <= role_names@.len(),
            wanted@ == decimal(user_id as nat),
            forall|j: int| 0 <= j < i ==> role_names@[j]@ != decimal(user_id as nat),
        decreases role_names.len() - i,
    {
        if role_names[i] == wanted {
            return Some(i);
        }
        i = i + 1;
    }
    None
}

/// The hexadecimal digit `d` (below 16), in upper or lower case.
pub open spec fn hex_digit_char(d: nat, upper: bool) -> char {
    if d < 10 {
        digit_char(d)
    } else if upper {
        seq!['A', 'B', 'C', 'D', 'E', 'F'][d - 10]
    } else {
        seq!['a', 'b', 'c', 'd', 'e', 'f'][d - 10]
    }
}

/// `n` in hexadecimal, without leading zeros.
pub open spec fn hex_digits(n: nat, upper: bool) -> Seq<char>
    decreases n,
{
    if n < 16 {
        seq![hex_digit_char(n, upper)]
    } else {
        hex_digits(n / 16, upper).push(hex_digit_char(n % 16, upper))
    }
}

/// `k` zeros.
pub open spec fn zeros(k: nat) -> Seq<char> {
    Seq::new(k, |i: int| '0')
}

/// How a colour may be written before its digits: an optional `#`, then optionally `0x`
/// (`Some(false)`) or `0X` (`Some(true)`).
pub open spec fn color_prefix(hash: bool, radix_mark: Option<bool>) -> Seq<char> {
    (if hash {
        seq!['#']
    } else {
        Seq::empty()
    }) + match radix_mark {
        None => Seq::empty(),
        Some(false) => seq!['0', 'x'],
        Some(true) => seq!['0', 'X'],
    }
}

proof fn lemma_hex_digits(n: nat, upper: bool)
    ensures
        hex_digits(n, upper).len() >= 1,
        forall|i: int| 0 <= i < hex_digits(n, upper).len() ==> #[trigger] digit_value(hex_digits(n, upper)[i], 16) is Some,
        n <= u32::MAX ==> accumulate(hex_digits(n, upper), hex_digits(n, upper).len(), 16, u32::MAX as nat)
            == Ok::<nat, ParseIntError>(n),
    decreases n,
{
    if n < 16 {
        let d = hex_digits(n, upper);
        assert(d == seq![hex_digit_char(n, upper)]);
        assert(digit_value(d[0], 16) == Some(n));
        assert(accumulate(d, 0, 16, u32::MAX as nat) == Ok::<nat, ParseIntError>(0));
    } else {
        let front = hex_digits(n / 16, upper);
        let c = hex_digit_char(n % 16, upper);
        lemma_hex_digits(n / 16, upper);
        assert(hex_digits(n, upper) == front + seq![c]);
        assert(digit_value(c, 16) == Some(n % 16));
        assert forall|i: int| 0 <= i < hex_digits(n, upper).len() implies #[trigger] digit_value(hex_digits(n, upper)[i], 16) is Some by {
            if i < front.len() {
                assert(hex_digits(n, upper)[i] == front[i]);
            }
        }
        if n <= u32::MAX {
            lemma_accumulate_prefix(front, seq![c], front.len(), 16, u32::MAX as nat);
            assert((n / 16) * 16 + n % 16 == n);
        }
    }
}

proof fn lemma_leading_zeros(k: nat, d: Seq<char>, j: nat)
    requires
        j <= d.len(),
    ensures
        accumulate(zeros(k) + d, k + j, 16, u32::MAX as nat) == accumulate(d, j, 16, u32::MAX as nat),
    decreases k + j,
{
    let s = zeros(k) + d;
    if j == 0 {
        if k > 0 {
            lemma_leading_zeros((k - 1) as nat, seq!['0'] + d, 0);
            assert(zeros((k - 1) as nat) + (seq!['0'] + d) =~= s);
            assert(accumulate(seq!['0'] + d, 0, 16, u32::MAX as nat) == Ok::<nat, ParseIntError>(0));
            assert(s[k - 1] == '0');
            assert(digit_value('0', 16) == Some(0nat));
        }
    } else {
        lemma_leading_zeros(k, d, (j - 1) as nat);
        assert(s[k + j - 1] == d[j - 1]);
    }
}

proof fn lemma_prefix_stripped(hash: bool, radix_mark: Option<bool>, body: Seq<char>)
    requires
        body.len() >= 1,
        digit_value(body[0], 16) is Some,
        body.len() >= 2 ==> digit_value(body[1], 16) is Some,
    ensures
        hex_digits_of(color_prefix(hash, radix_mark) + body) == body,
{
    let full = color_prefix(hash, radix_mark) + body;
    let mark = match radix_mark {
        None => Seq::<char>::empty(),
        Some(false) => seq!['0', 'x'],
        Some(true) => seq!['0', 'X'],
    };
    let after_hash = mark + body;
    if hash {
        assert(full.drop_first() =~= after_hash);
    } else {
        assert(full =~= after_hash);
    }
    match radix_mark {
        None => assert(after_hash =~= body),
        Some(false) => assert(after_hash.subrange(2, after_hash.len() as int) =~= body),
        Some(true) => assert(after_hash.subrange(2, after_hash.len() as int) =~= body),
    }
}

/// A colour written in hexadecimal (either case, with any leading zeros, after any prefix
/// that `parse_hex_color` accepts, such as `#FF8800`, `0x00ff00` or `#0Xabc`) reads back as
/// the same colour.
pub proof fn lemma_hex_color_roundtrip(c: u32, hash: bool, radix_mark: Option<bool>, leading_zeros: nat, upper: bool)
    ensures
        parse_uint(
            hex_digits_of(color_prefix(hash, radix_mark) + zeros(leading_zeros) + hex_digits(c as nat, upper)),
            16,
            u32::MAX as nat,
        ) == Ok::<nat, ParseIntError>(c as nat),
{
    let hd = hex_digits(c as nat, upper);
    let body = zeros(leading_zeros) + hd;
    lemma_hex_digits(c as nat, upper);
    lemma_leading_zeros(leading_zeros, hd, hd.len());
    assert(body.len() == leading_zeros + hd.len());
    assert(digit_value(body[0], 16) is Some) by {
        if leading_zeros > 0 {
            assert(body[0] == '0');
        } else {
            assert(body[0] == hd[0]);
        }
    }
    assert(body.len() >= 2 ==> digit_value(body[1], 16) is Some) by {
        if body.len() >= 2 {
            if leading_zeros > 1 {
                assert(body[1] == '0');
            } else {
                assert(body[1] == hd[1 - leading_zeros]);
            }
        }
    }
    assert(color_prefix(hash, radix_mark) + zeros(leading_zeros) + hd =~= color_prefix(hash, radix_mark) + body);
    lemma_prefix_stripped(hash, radix_mark, body);
    assert(body[0] != '+' && body[0] != '-');
}

/// An attachment larger than the configured maximum.
#[derive(Debug, Clone, Copy, PartialEq, Eq, Structural)]
pub struct AttachmentTooLarge;

impl AttachmentTooLarge {
    pub fn message(&self) -> (r: &'static str)
        ensures
            r@ == "The attachment size is bigger than configured maximum!"@,
    {
        "The attachment size is bigger than configured maximum!"
    }
}

/// Accepts an attachment of `size` bytes if it is not bigger than the maximum.
pub fn check_attachment_size(size: u32, max_attachment_size: u64) -> (r: Result<(), AttachmentTooLarge>)
    ensures
        r is Ok <==> size <= max_attachment_size,
{
    if size as u64 > max_attachment_size {
        return Err(AttachmentTooLarge);
    }
    Ok(())
}

} // verus!
