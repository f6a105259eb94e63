//! Text that the library writes: numbers in decimal.

use vstd::prelude::*;

verus! {

/// The character that writes the digit `d`.
pub open spec fn digit_char(d: int) -> char {
    if d == 0 {
        '0'
    } else if d == 1 {
        '1'
    } else if d == 2 {
        '2'
    } else if d == 3 {
        '3'
    } else if d == 4 {
        '4'
    } else if d == 5 {
        '5'
    } else if d == 6 {
        '6'
    } else if d == 7 {
        '7'
    } else if d == 8 {
        '8'
    } else {
        '9'
    }
}

/// The decimal digits of `n`, without leading zeros.
pub open spec fn digits(n: nat) -> Seq<char>
    decreases n,
{
    if n < 10 {
        seq![digit_char(n as int)]
    } else {
        digits(n / 10).push(digit_char((n % 10) as int))
    }
}

/// `n` in decimal, with a minus sign where it is below zero.
pub open spec fn decimal(n: int) -> Seq<char> {
    if n < 0 {
        seq!['-'] + digits((-n) as nat)
    } else {
        digits(n as nat)
    }
}

/// The text of the digit `d`.
fn digit_text(d: u128) -> (text: &'static str)
    requires
        d < 10,
    ensures
        text@ == seq![digit_char(d as int)],
{
    proof {
        reveal_strlit("0");
        reveal_strlit("1");
        reveal_strlit("2");
        reveal_strlit("3");
        reveal_strlit("4");
        reveal_strlit("5");
        reveal_strlit("6");
        reveal_strlit("7");
        reveal_strlit("8");
        reveal_strlit("9");
    }
    let text = if d == 0 {
        "0"
    } else if d == 1 {
        "1"
    } else if d == 2 {
        "2"
    } else if d == 3 {
        "3"
    } else if d == 4 {
        "4"
    } else if d == 5 {
        "5"
    } else if d == 6 {
        "6"
    } else if d == 7 {
        "7"
    } else if d == 8 {
        "8"
    } else {
        "9"
    };
    assert(text@ =~= seq![digit_char(d as int)]);
    text
}

/// Appends the decimal digits of `n` to `out`.
pub fn push_digits(out: &mut String, n: u128)
    ensures
        final(out)@ == old(out)@ + digits(n as nat),
    decreases n,
{
    if n >= 10 {
        push_digits(out, n / 10);
    }
    out.append(digit_text(n % 10));
    assert(out@ =~= old(out)@ + digits(n as nat));
}

/// Appends `n` in decimal to `out`.
pub fn push_decimal(out: &mut String, n: i64)
    ensures
        final(out)@ == old(out)@ + decimal(n as int),
{
    if n < 0 {
        proof {
            reveal_strlit("-");
        }
        out.append("-");
        let magnitude: u128 = if n == i64::MIN {
            9223372036854775808u128
        } else {
            (-n) as u128
        };
        push_digits(out, magnitude);
        assert(out@ =~= old(out)@ + decimal(n as int));
    } else {
        push_digits(out, n as u128);
    }
}

/// Whether `c` is white space: one of the characters that Unicode gives
/// the property White_Space.
pub open spec fn white_space(c: char) -> bool {
    let n = c as u32;
    ||| 0x09 <= n <= 0x0d
    ||| n == 0x20
    ||| n == 0x85
    ||| n == 0xa0
    ||| n == 0x1680
    ||| 0x2000 <= n <= 0x200a
    ||| n == 0x2028
    ||| n == 0x2029
    ||| n == 0x202f
    ||| n == 0x205f
    ||| n == 0x3000
}

/// Whether `c` is white space.
pub fn is_white_space(c: char) -> (answer: bool)
    ensures
        answer == white_space(c),
{
    let n = c as u32;
    (0x09 <= n && n <= 0x0d) || n == 0x20 || n == 0x85 || n == 0xa0 || n == 0x1680 || (0x2000 <= n
        && n <= 0x200a) || n == 0x2028 || n == 0x2029 || n == 0x202f || n == 0x205f || n == 0x3000
}

/// `s` holds nothing but white space: trimmed, it is empty.
pub open spec fn blank(s: Seq<char>) -> bool {
    forall|i: int| 0 <= i < s.len() ==> white_space(#[trigger] s[i])
}

/// Whether `s` holds nothing but white space.
pub fn is_blank(s: &str) -> (answer: bool)
    ensures
        answer == blank(s@),
{
    for c in it: s.chars()
        invariant
            it.seq() == s@,
            forall|i: int| 0 <= i < it.index() ==> white_space(#[trigger] s@[i]),
    {
        if !is_white_space(c) {
            return false;
        }
    }
    true
}

/// How many characters at the start of `s` are white space.
pub open spec fn leading_white_space(s: Seq<char>) -> nat
    decreases s.len(),
{
    if s.len() > 0 && white_space(s[0]) {
        1 + leading_white_space(s.drop_first())
    } else {
        0
    }
}

/// How many characters at the end of `s` are white space.
pub open spec fn trailing_white_space(s: Seq<char>) -> nat
    decreases s.len(),
{
    if s.len() > 0 && white_space(s.last()) {
        1 + trailing_white_space(s.drop_last())
    } else {
        0
    }
}

/// `s` without the white space at its start and at its end.
pub open spec fn trimmed(s: Seq<char>) -> Seq<char> {
    if blank(s) {
        Seq::empty()
    } else {
        s.subrange(leading_white_space(s) as int, s.len() - trailing_white_space(s))
    }
}

/// The white space at the start of `s` ends where `s` first holds
/// something else.
pub proof fn lemma_leading(s: Seq<char>, first: int)
    requires
        0 <= first <= s.len(),
        forall|i: int| 0 <= i < first ==> white_space(#[trigger] s[i]),
        first < s.len() ==> !white_space(s[first]),
    ensures
        leading_white_space(s) == first,
    decreases first,
{
    if first > 0 {
        let rest = s.drop_first();
        assert(white_space(s[0]));
        assert forall|i: int| 0 <= i < first - 1 implies white_space(#[trigger] rest[i]) by {
            assert(rest[i] == s[i + 1]);
        }
        lemma_leading(rest, first - 1);
    }
}

/// The white space at the end of `s` starts after the last character of
/// `s` that is something else.
pub proof fn lemma_trailing(s: Seq<char>, end: int)
    requires
        0 <= end <= s.len(),
        forall|i: int| end <= i < s.len() ==> white_space(#[trigger] s[i]),
        end > 0 ==> !white_space(s[end - 1]),
    ensures
        trailing_white_space(s) == s.len() - end,
    decreases s.len() - end,
{
    if end < s.len() {
        let rest = s.drop_last();
        assert(white_space(s[s.len() - 1]));
        assert forall|i: int| end <= i < rest.len() implies white_space(#[trigger] rest[i]) by {
            assert(rest[i] == s[i]);
        }
        lemma_trailing(rest, end);
    }
}

/// `s` without the white space at its start and at its end.
pub fn trim(s: &str) -> (text: String)
    ensures
        text@ == trimmed(s@),
{
    let total = s.unicode_len();
    let mut index: usize = 0;
    let mut first: Option<usize> = None;
    let mut end: usize = 0;
    for c in it: s.chars()
        invariant
            it.seq() == s@,
            total == s@.len(),
            index == it.index(),
            end <= index,
            match first {
                None => end == 0 && forall|i: int| 0 <= i < index ==> white_space(#[trigger] s@[i]),
                Some(start) => {
                    &&& start < end
                    &&& !white_space(s@[start as int])
                    &&& !white_space(s@[end - 1])
                    &&& forall|i: int| 0 <= i < start ==> white_space(#[trigger] s@[i])
                    &&& forall|i: int| end <= i < index ==> white_space(#[trigger] s@[i])
                },
            },
    {
        if !is_white_space(c) {
            if first.is_none() {
                first = Some(index);
            }
            end = index + 1;
        }
        index += 1;
    }
    match first {
        None => String::new(),
        Some(start) => {
            proof {
                lemma_leading(s@, start as int);
                lemma_trailing(s@, end as int);
            }
            String::from_str(s.substring_char(start, end))
        },
    }
}

/// The lower-case form of `s`, as `str::to_lowercase` gives it.
pub uninterp spec fn lower_case(s: Seq<char>) -> Seq<char>;

/// The lower-case form of `s`.
///
/// Trusted: calls `str::to_lowercase`, which follows the Unicode rules for
/// lower case; the contract only names its result.
#[verifier::external_body]
pub(crate) fn to_lower_case(s: &str) -> (text: String)
    ensures
        text@ == lower_case(s@),
{
    s.to_lowercase()
}

/// Whether `c` is one of the digits `0` to `9`.
pub open spec fn is_digit(c: char) -> bool {
    48 <= c as int <= 57
}

/// The value of the digit `c`.
pub open spec fn digit_of(c: char) -> int {
    c as int - 48
}

/// Every character of `s` is a digit.
pub open spec fn all_digits(s: Seq<char>) -> bool {
    forall|i: int| 0 <= i < s.len() ==> is_digit(#[trigger] s[i])
}

/// The number that the digits `s` write in decimal.
pub open spec fn number_of(s: Seq<char>) -> int
    decreases s.len(),
{
    if s.len() == 0 {
        0
    } else {
        10 * number_of(s.drop_last()) + digit_of(s.last())
    }
}

/// The part of `s` after its sign, if it starts with one.
pub open spec fn unsigned_part(s: Seq<char>) -> Seq<char> {
    if s.len() > 0 && (s[0] == '-' || s[0] == '+') {
        s.drop_first()
    } else {
        s
    }
}

/// The integer that `s` writes: an optional sign, then one digit or more
/// and nothing else.
pub open spec fn signed_number(s: Seq<char>) -> Option<int> {
    let body = unsigned_part(s);
    if body.len() == 0 || !all_digits(body) {
        None
    } else if s[0] == '-' {
        Some(-number_of(body))
    } else {
        Some(number_of(body))
    }
}

/// The integer that `s` writes, where it fits an `i64`.
pub open spec fn parsed_i64(s: Seq<char>) -> Option<i64> {
    match signed_number(s) {
        Some(n) => if i64::MIN <= n <= i64::MAX {
            Some(n as i64)
        } else {
            None
        },
        None => None,
    }
}

/// The integer that `s` writes, where it fits an `i32`.
pub open spec fn parsed_i32(s: Seq<char>) -> Option<i32> {
    match signed_number(s) {
        Some(n) => if i32::MIN <= n <= i32::MAX {
            Some(n as i32)
        } else {
            None
        },
        None => None,
    }
}

/// Digits write no smaller a number than any of their prefixes does.
pub proof fn lemma_number_grows(s: Seq<char>, k: int)
    requires
        all_digits(s),
        0 <= k <= s.len(),
    ensures
        0 <= number_of(s.take(k)) <= number_of(s),
    decreases s.len() - k,
{
    if k == s.len() {
        assert(s.take(k) =~= s);
        lemma_number_not_negative(s);
    } else {
        lemma_number_grows(s, k + 1);
        assert(s.take(k + 1).drop_last() =~= s.take(k));
        assert(is_digit(s[k]));
        lemma_number_not_negative(s.take(k));
    }
}

/// Digits write no number below zero.
pub proof fn lemma_number_not_negative(s: Seq<char>)
    requires
        all_digits(s),
    ensures
        0 <= number_of(s),
    decreases s.len(),
{
    if s.len() > 0 {
        assert(is_digit(s[s.len() - 1]));
        lemma_number_not_negative(s.drop_last());
    }
}

/// The digits that write a number are digits, one at least, and write
/// that number.
pub proof fn lemma_digits_read_back(n: nat)
    ensures
        digits(n).len() > 0,
        all_digits(digits(n)),
        number_of(digits(n)) == n,
    decreases n,
{
    if n < 10 {
        let s = digits(n);
        assert(s.drop_last() =~= Seq::<char>::empty());
        assert(number_of(s.drop_last()) == 0);
        assert(is_digit(s[0]) && digit_of(s[0]) == n);
    } else {
        lemma_digits_read_back(n / 10);
        let front = digits(n / 10);
        let s = digits(n);
        assert(s.drop_last() =~= front);
        assert(is_digit(s.last()) && digit_of(s.last()) == n % 10);
        assert forall|i: int| 0 <= i < s.len() implies is_digit(#[trigger] s[i]) by {
            if i < front.len() {
                assert(s[i] == front[i]);
            }
        }
    }
}

/// What is written in decimal reads back as the number written.
pub proof fn law_decimal_reads_back(n: int)
    ensures
        signed_number(decimal(n)) == Some(n),
{
    if n < 0 {
        lemma_digits_read_back((-n) as nat);
        let written = decimal(n);
        assert(written[0] == '-');
        assert(written.drop_first() =~= digits((-n) as nat));
    } else {
        lemma_digits_read_back(n as nat);
        let written = decimal(n);
        assert(is_digit(written[0]));
    }
}

/// The integer that `s` writes, where it fits an `i64`.
pub fn parse_i64(s: &str) -> (value: Option<i64>)
    ensures
        value == parsed_i64(s@),
{
    let total = s.unicode_len();
    let mut index: usize = 0;
    let mut signed = false;
    let mut negative = false;
    let mut magnitude: u128 = 0;
    let ghost body = unsigned_part(s@);
    for c in it: s.chars()
        invariant
            it.seq() == s@,
            total == s@.len(),
            index == it.index(),
            body == unsigned_part(s@),
            signed == (s@.len() > 0 && (s@[0] == '-' || s@[0] == '+')) || index == 0,
            index == 0 ==> !signed && !negative,
            signed ==> index >= 1 && negative == (s@[0] == '-'),
            !signed ==> !negative,
            magnitude <= 0x8000_0000_0000_0000,
            index > 0 ==> magnitude == number_of(
                body.take(
                    if signed {
                        index - 1
                    } else {
                        index as int
                    },
                ),
            ),
            index > 0 ==> forall|i: int|
                0 <= i < (if signed {
                    index - 1
                } else {
                    index as int
                }) ==> is_digit(#[trigger] body[i]),
            index == 0 ==> magnitude == 0,
    {
        if index == 0 && (c == '-' || c == '+') {
            signed = true;
            negative = c == '-';
            assert(body.take(0) =~= Seq::<char>::empty());
        } else if c >= '0' && c <= '9' {
            let ghost seen: int = if signed {
                index - 1
            } else {
                index as int
            };
            assert(body[seen] == c);
            assert(body.take(seen + 1).drop_last() =~= body.take(seen));
            assert(body.take(seen + 1).last() == c);
            assert(body.take(0) =~= Seq::<char>::empty());
            assert(number_of(body.take(seen)) == magnitude);
            let digit = (c as u32 - 48) as u128;
            assert(digit == digit_of(c));
            magnitude = magnitude * 10 + digit;
            assert(magnitude == number_of(body.take(seen + 1)));
            if magnitude > 0x8000_0000_0000_0000 {
                proof {
                    if all_digits(body) {
                        lemma_number_grows(body, seen + 1);
                    }
                }
                return None;
            }
        } else {
            let ghost seen: int = if signed {
                index - 1
            } else {
                index as int
            };
            assert(body[seen] == c);
            assert(!is_digit(body[seen]));
            return None;
        }
        index += 1;
    }
    let ghost seen: int = if signed {
        index - 1
    } else {
        index as int
    };
    if index == 0 || (signed && index == 1) {
        return None;
    }
    assert(body.take(seen) =~= body);
    if negative {
        if magnitude == 0x8000_0000_0000_0000 {
            Some(i64::MIN)
        } else {
            Some(-(magnitude as i64))
        }
    } else if magnitude == 0x8000_0000_0000_0000 {
        None
    } else {
        Some(magnitude as i64)
    }
}

/// The integer that `s` writes, where it fits an `i32`.
pub fn parse_i32(s: &str) -> (value: Option<i32>)
    ensures
        value == parsed_i32(s@),
{
    match parse_i64(s) {
        Some(n) => if n >= -2147483648 && n <= 2147483647 {
            Some(n as i32)
        } else {
            None
        },
        None => None,
    }
}

} // verus!
