//! String helpers: blank padding, decimal digits, display width and centering.

use unicode_width::UnicodeWidthStr;
use vstd::prelude::*;

verus! {

/// `n` blanks.
pub open spec fn spaces(n: int) -> Seq<char> {
    Seq::new(n as nat, |_i: int| ' ')
}

/// The decimal digit character of `d` (0-9).
pub open spec fn digit_char(d: int) -> char {
    if d == 0 {
        '0'
    } else if d == 1 {
        '1'
    } else if d == 2 {
        '2'
    } else if d == 3 {
        '3'
    } else if d == 4 {
        '4'
    } else if d == 5 {
        '5'
    } else if d == 6 {
        '6'
    } else if d == 7 {
        '7'
    } else if d == 8 {
        '8'
    } else {
        '9'
    }
}

/// Decimal representation of a natural number, without leading zeros.
pub open spec fn decimal(n: nat) -> Seq<char>
    decreases n,
{
    if n < 10 {
        seq![digit_char(n as int)]
    } else {
        decimal(n / 10).push(digit_char((n % 10) as int))
    }
}

/// `n` in decimal, right-justified in a field of `w` columns.
pub open spec fn right_justified(n: nat, w: int) -> Seq<char> {
    let d = decimal(n);
    if d.len() >= w {
        d
    } else {
        spaces(w - d.len()) + d
    }
}

/// Display width of a string in terminal columns (wide glyphs count 2).
pub uninterp spec fn display_width_of(s: Seq<char>) -> nat;

/// Lower-case form of a string under Unicode case mapping.
pub uninterp spec fn lowercase_of(s: Seq<char>) -> Seq<char>;

/// Relies on unicode_width's `UnicodeWidthStr::width`: the number of terminal
/// columns the string occupies.
#[verifier::external_body]
pub(crate) fn display_width(s: &str) -> (r: usize)
    ensures
        r as nat == display_width_of(s@),
{
    s.width()
}

/// Relies on `str::to_lowercase`: the lower-case mapping of every character.
#[verifier::external_body]
pub(crate) fn to_lowercase(s: &str) -> (r: String)
    ensures
        r@ == lowercase_of(s@),
{
    s.to_lowercase()
}

/// Append `n` blanks.
pub fn push_spaces(s: &mut String, n: usize)
    ensures
        final(s)@ == old(s)@ + spaces(n as int),
{
    let mut i: usize = 0;
    while i < n
        invariant
            i <= n,
            s@ == old(s)@ + spaces(i as int),
        decreases n - i,
    {
        s.append(" ");
        proof {
            reveal_strlit(" ");
            assert(old(s)@ + spaces(i as int) + " "@ =~= old(s)@ + spaces(i + 1));
        }
        i += 1;
    }
}

/// Append the digit character of `d` (0-9).
fn push_digit(s: &mut String, d: u32)
    requires
        d < 10,
    ensures
        final(s)@ == old(s)@.push(digit_char(d as int)),
{
    let t: &str = if d == 0 {
        "0"
    } else if d == 1 {
        "1"
    } else if d == 2 {
        "2"
    } else if d == 3 {
        "3"
    } else if d == 4 {
        "4"
    } else if d == 5 {
        "5"
    } else if d == 6 {
        "6"
    } else if d == 7 {
        "7"
    } else if d == 8 {
        "8"
    } else {
        "9"
    };
    proof {
        reveal_strlit("0");
        reveal_strlit("1");
        reveal_strlit("2");
        reveal_strlit("3");
        reveal_strlit("4");
        reveal_strlit("5");
        reveal_strlit("6");
        reveal_strlit("7");
        reveal_strlit("8");
        reveal_strlit("9");
        assert(t@ =~= seq![digit_char(d as int)]);
    }
    s.append(t);
    assert(s@ =~= old(s)@.push(digit_char(d as int)));
}

/// Append the decimal digits of `n`.
pub fn push_decimal(s: &mut String, n: u32)
    ensures
        final(s)@ == old(s)@ + decimal(n as nat),
    decreases n,
{
    if n < 10 {
        push_digit(s, n);
        assert(old(s)@.push(digit_char(n as int)) =~= old(s)@ + decimal(n as nat));
    } else {
        push_decimal(s, n / 10);
        push_digit(s, n % 10);
        assert(old(s)@ + decimal((n / 10) as nat) + seq![digit_char((n % 10) as int)] =~= old(s)@
            + decimal(n as nat));
    }
}

/// Number of decimal digits of `n`, by magnitude.
pub proof fn lemma_decimal_len(n: nat)
    ensures
        decimal(n).len() >= 1,
        n < 10 ==> decimal(n).len() == 1,
        10 <= n < 100 ==> decimal(n).len() == 2,
        100 <= n < 1000 ==> decimal(n).len() == 3,
        1000 <= n < 10000 ==> decimal(n).len() == 4,
        10000 <= n < 100000 ==> decimal(n).len() == 5,
        100000 <= n < 1000000 ==> decimal(n).len() == 6,
        1000000 <= n < 10000000 ==> decimal(n).len() == 7,
        10000000 <= n < 100000000 ==> decimal(n).len() == 8,
        100000000 <= n < 1000000000 ==> decimal(n).len() == 9,
        1000000000 <= n < 10000000000 ==> decimal(n).len() == 10,
    decreases n,
{
    if n >= 10 {
        lemma_decimal_len(n / 10);
    }
}

/// Number of decimal digits of `n`.
pub fn decimal_len(n: u32) -> (r: usize)
    ensures
        r == decimal(n as nat).len(),
        1 <= r <= 10,
{
    proof {
        lemma_decimal_len(n as nat);
    }
    if n < 10 {
        1
    } else if n < 100 {
        2
    } else if n < 1000 {
        3
    } else if n < 10000 {
        4
    } else if n < 100000 {
        5
    } else if n < 1000000 {
        6
    } else if n < 10000000 {
        7
    } else if n < 100000000 {
        8
    } else if n < 1000000000 {
        9
    } else {
        10
    }
}

/// Append `n` right-justified in `w` columns.
pub fn push_right_justified(s: &mut String, n: u32, w: usize)
    ensures
        final(s)@ == old(s)@ + right_justified(n as nat, w as int),
{
    let len = decimal_len(n);
    if len < w {
        push_spaces(s, w - len);
    }
    push_decimal(s, n);
    assert(s@ =~= old(s)@ + right_justified(n as nat, w as int));
}

/// Blanks put left of a text of display width `tw` centered in `w` columns:
/// half the slack, the odd column going left.
pub open spec fn left_pad(tw: int, w: int) -> int {
    (w - tw + 1) / 2
}

/// Blanks put right of the centered text.
pub open spec fn right_pad(tw: int, w: int) -> int {
    (w - tw) - left_pad(tw, w)
}

/// `t` (of display width `tw`) centered in `w` columns; unchanged when it
/// does not fit.
pub open spec fn centered(t: Seq<char>, tw: int, w: int) -> Seq<char> {
    if tw >= w {
        t
    } else {
        spaces(left_pad(tw, w)) + t + spaces(right_pad(tw, w))
    }
}

/// Center `text` in a field of `width` columns, by its display width.
pub fn center_text(text: &str, width: usize) -> (r: String)
    ensures
        r@ == centered(text@, display_width_of(text@) as int, width as int),
{
    center_in(text, display_width(text), width)
}

/// Center `text`, whose display width is `text_width`, in a field of `width`
/// columns: half the slack on each side, the odd column on the left; the text
/// unchanged when it does not fit.
pub fn center_in(text: &str, text_width: usize, width: usize) -> (r: String)
    ensures
        r@ == centered(text@, text_width as int, width as int),
{
    if text_width >= width {
        return String::from_str(text);
    }
    let total_padding = width - text_width;
    let left_padding = total_padding / 2 + total_padding % 2;
    let right_padding = total_padding - left_padding;
    let mut r = String::new();
    push_spaces(&mut r, left_padding);
    r.append(text);
    push_spaces(&mut r, right_padding);
    r
}

/// Centering a text of width `tw` in `w >= tw` columns fills exactly `w`
/// columns, with ceil((w - tw) / 2) blanks on the left and the rest on the
/// right.
pub proof fn lemma_centering_fills_field(tw: int, w: int)
    requires
        0 <= tw <= w,
    ensures
        left_pad(tw, w) + tw + right_pad(tw, w) == w,
        left_pad(tw, w) == (w - tw) / 2 + (w - tw) % 2,
        0 <= right_pad(tw, w) <= left_pad(tw, w) <= right_pad(tw, w) + 1,
{
}

/// Character-wise equality of two strings.
pub fn str_eq(a: &str, b: &str) -> (r: bool)
    ensures
        r == (a@ == b@),
{
    let n = a.unicode_len();
    if n != b.unicode_len() {
        return false;
    }
    let mut i: usize = 0;
    while i < n
        invariant
            n == a@.len() == b@.len(),
            i <= n,
            forall|j: int| 0 <= j < i ==> a@[j] == b@[j],
        decreases n - i,
    {
        if a.get_char(i) != b.get_char(i) {
            return false;
        }
        i += 1;
    }
    assert(a@ =~= b@);
    true
}

/// A decimal digit.
pub open spec fn is_digit(c: char) -> bool {
    '0' <= c <= '9'
}

/// Every character is a decimal digit.
pub open spec fn all_digits(s: Seq<char>) -> bool {
    forall|i: int| 0 <= i < s.len() ==> is_digit(#[trigger] s[i])
}

/// Value of a string of decimal digits.
pub open spec fn digits_value(s: Seq<char>) -> nat
    decreases s.len(),
{
    if s.len() == 0 {
        0
    } else {
        digits_value(s.drop_last()) * 10 + ((s.last() as u32 - '0' as u32) as nat)
    }
}

/// The digits after an optional sign character `sign`.
pub open spec fn unsigned_body(s: Seq<char>, sign: char) -> Seq<char> {
    if s.len() > 0 && s[0] == sign {
        s.subrange(1, s.len() as int)
    } else {
        s
    }
}

/// What `u32::from_str` accepts: an optional `+`, then one or more digits,
/// of a value that fits.
pub open spec fn parse_u32_spec(s: Seq<char>) -> Option<u32> {
    let body = unsigned_body(s, '+');
    if body.len() > 0 && all_digits(body) && digits_value(body) <= u32::MAX {
        Some(digits_value(body) as u32)
    } else {
        None
    }
}

/// What `i32::from_str` accepts: an optional `+` or `-`, then one or more
/// digits, of a value that fits.
pub open spec fn parse_i32_spec(s: Seq<char>) -> Option<i32> {
    if s.len() > 0 && s[0] == '-' {
        let body = s.subrange(1, s.len() as int);
        if body.len() > 0 && all_digits(body) && digits_value(body) <= 0x8000_0000 {
            Some((0 - digits_value(body)) as i32)
        } else {
            None
        }
    } else {
        let body = unsigned_body(s, '+');
        if body.len() > 0 && all_digits(body) && digits_value(body) <= i32::MAX {
            Some(digits_value(body) as i32)
        } else {
            None
        }
    }
}

/// Value of the digits of `s` from position `start` on, capped just above
/// `u32::MAX`; `None` when there are no digits or a character is not one.
fn digits_from(s: &str, start: usize) -> (r: Option<u64>)
    requires
        start <= s@.len(),
    ensures
        ({
            let body = s@.subrange(start as int, s@.len() as int);
            &&& r is Some <==> (body.len() > 0 && all_digits(body))
            &&& r matches Some(v) ==> (v <= u32::MAX ==> v == digits_value(body)) && (v > u32::MAX
                ==> digits_value(body) > u32::MAX)
        }),
{
    let n = s.unicode_len();
    if start >= n {
        return None;
    }
    let mut v: u64 = 0;
    let mut i: usize = start;
    while i < n
        invariant
            n == s@.len(),
            start <= i <= n,
            v <= u32::MAX as u64 + 1,
            all_digits(s@.subrange(start as int, i as int)),
            v <= u32::MAX ==> v == digits_value(s@.subrange(start as int, i as int)),
            v > u32::MAX ==> digits_value(s@.subrange(start as int, i as int)) > u32::MAX,
        decreases n - i,
    {
        let c = s.get_char(i);
        if !('0' <= c && c <= '9') {
            assert(!all_digits(s@.subrange(start as int, n as int))) by {
                assert(s@.subrange(start as int, n as int)[i - start] == c);
            }
            return None;
        }
        let d = (c as u32 - '0' as u32) as u64;
        let ghost prev = s@.subrange(start as int, i as int);
        let ghost next = s@.subrange(start as int, i + 1);
        assert(next.drop_last() =~= prev);
        assert(next.last() == c);
        assert(all_digits(next)) by {
            assert forall|j: int| 0 <= j < next.len() implies is_digit(#[trigger] next[j]) by {
                if j < prev.len() {
                    assert(next[j] == prev[j]);
                }
            }
        }
        if v <= u32::MAX as u64 {
            let w = v * 10 + d;
            v = if w > u32::MAX as u64 {
                u32::MAX as u64 + 1
            } else {
                w
            };
        }
        i += 1;
    }
    Some(v)
}

/// Parse a `u32` the way `u32::from_str` does.
pub fn parse_u32(s: &str) -> (r: Option<u32>)
    ensures
        r == parse_u32_spec(s@),
{
    let n = s.unicode_len();
    let start: usize = if n > 0 && s.get_char(0) == '+' {
        1
    } else {
        0
    };
    assert(unsigned_body(s@, '+') =~= s@.subrange(start as int, n as int));
    match digits_from(s, start) {
        Some(v) => if v <= u32::MAX as u64 {
            Some(v as u32)
        } else {
            None
        },
        None => None,
    }
}

/// Parse an `i32` the way `i32::from_str` does.
pub fn parse_i32(s: &str) -> (r: Option<i32>)
    ensures
        r == parse_i32_spec(s@),
{
    let n = s.unicode_len();
    if n > 0 && s.get_char(0) == '-' {
        match digits_from(s, 1) {
            Some(v) => if v <= 0x8000_0000u64 {
                Some((0 - v as i64) as i32)
            } else {
                None
            },
            None => None,
        }
    } else {
        let start: usize = if n > 0 && s.get_char(0) == '+' {
            1
        } else {
            0
        };
        assert(unsigned_body(s@, '+') =~= s@.subrange(start as int, n as int));
        match digits_from(s, start) {
            Some(v) => if v <= i32::MAX as u64 {
                Some(v as i32)
            } else {
                None
            },
            None => None,
        }
    }
}

/// Position of the first `c` in `s`, or the length when there is none.
pub open spec fn index_of(s: Seq<char>, c: char) -> int
    decreases s.len(),
{
    if s.len() == 0 {
        0
    } else if s[0] == c {
        0
    } else {
        1 + index_of(s.subrange(1, s.len() as int), c)
    }
}

proof fn lemma_index_of(s: Seq<char>, c: char, i: int)
    requires
        0 <= i <= s.len(),
        forall|j: int| 0 <= j < i ==> s[j] != c,
        i == s.len() || s[i] == c,
    ensures
        index_of(s, c) == i,
    decreases s.len(),
{
    if s.len() > 0 && s[0] != c {
        let t = s.subrange(1, s.len() as int);
        assert forall|j: int| 0 <= j < i - 1 implies t[j] != c by {
            assert(t[j] == s[j + 1]);
        }
        if i < s.len() {
            assert(t[i - 1] == s[i]);
        }
        lemma_index_of(t, c, i - 1);
    }
}

/// The part of `s` before the first `c` (all of it when there is none).
pub open spec fn before_char(s: Seq<char>, c: char) -> Seq<char> {
    s.subrange(0, index_of(s, c))
}

/// Position of the first `c` in `s`, or its length.
pub fn find_char(s: &str, c: char) -> (r: usize)
    ensures
        r as int == index_of(s@, c),
        r <= s@.len(),
{
    let n = s.unicode_len();
    let mut i: usize = 0;
    while i < n && s.get_char(i) != c
        invariant
            n == s@.len(),
            i <= n,
            forall|j: int| 0 <= j < i ==> s@[j] != c,
        decreases n - i,
    {
        i += 1;
    }
    proof {
        lemma_index_of(s@, c, i as int);
    }
    i
}

/// A locale name without encoding or modifier: the part before the first `.`,
/// then before the first `@` (`ru_RU.UTF-8` gives `ru_RU`).
pub open spec fn locale_name_spec(value: Seq<char>) -> Seq<char> {
    before_char(before_char(value, '.'), '@')
}

/// The locale name of an environment value such as `ru_RU.UTF-8@euro`.
pub fn locale_name(value: &str) -> (r: String)
    ensures
        r@ == locale_name_spec(value@),
{
    let dot = find_char(value, '.');
    let head = value.substring_char(0, dot);
    let at = find_char(head, '@');
    String::from_str(head.substring_char(0, at))
}

/// Decimal representation of an integer, with a leading `-` when negative.
pub open spec fn signed_decimal(n: int) -> Seq<char> {
    if n < 0 {
        seq!['-'] + decimal((-n) as nat)
    } else {
        decimal(n as nat)
    }
}

/// Append the decimal representation of a signed integer.
pub fn push_signed_decimal(s: &mut String, n: i32)
    ensures
        final(s)@ == old(s)@ + signed_decimal(n as int),
{
    if n < 0 {
        s.append("-");
        proof {
            reveal_strlit("-");
        }
        let m = (0i64 - n as i64) as u32;
        push_decimal(s, m);
        assert(s@ =~= old(s)@ + signed_decimal(n as int));
    } else {
        push_decimal(s, n as u32);
    }
}

} // verus!



