//! Whole numbers as decimal text: the content of a PID file, and numbers in
//! messages.

use vstd::prelude::*;
use vstd::string::*;

verus! {

/// White space as `char::is_whitespace` has it.
pub open spec fn is_space(c: char) -> bool {
    let u = c as u32;
    (0x09 <= u <= 0x0d) || u == 0x20 || u == 0x85 || u == 0xa0 || u == 0x1680 || (0x2000 <= u
        <= 0x200a) || u == 0x2028 || u == 0x2029 || u == 0x202f || u == 0x205f || u == 0x3000
}

/// A text without the white space at its start.
pub open spec fn trim_start(text: Seq<char>) -> Seq<char>
    decreases text.len(),
{
    if text.len() > 0 && is_space(text[0]) {
        trim_start(text.skip(1))
    } else {
        text
    }
}

/// A text without the white space at its end.
pub open spec fn trim_end(text: Seq<char>) -> Seq<char>
    decreases text.len(),
{
    if text.len() > 0 && is_space(text.last()) {
        trim_end(text.drop_last())
    } else {
        text
    }
}

/// A text without the white space at its start and at its end.
pub open spec fn trimmed(text: Seq<char>) -> Seq<char> {
    trim_end(trim_start(text))
}

/// Whether a character is one of `0` to `9`.
pub open spec fn is_digit(c: char) -> bool {
    '0' <= c && c <= '9'
}

/// The value of a digit.
pub open spec fn digit_value(c: char) -> int {
    (c as u32) as int - 48
}

/// Whether a text is made of digits only.
pub open spec fn all_digits(text: Seq<char>) -> bool {
    forall|i: int| 0 <= i < text.len() ==> is_digit(#[trigger] text[i])
}

/// The number that a text of digits stands for.
pub open spec fn decimal_value(digits: Seq<char>) -> nat
    decreases digits.len(),
{
    if digits.len() == 0 {
        0
    } else {
        (decimal_value(digits.drop_last()) * 10 + digit_value(digits.last())) as nat
    }
}

/// The number that a signed decimal text stands for: an optional `+` or `-`
/// and then at least one digit, and nothing else.
pub open spec fn signed_value(text: Seq<char>) -> Option<int> {
    let negative = text.len() > 0 && text[0] == '-';
    let digits = if text.len() > 0 && (text[0] == '-' || text[0] == '+') {
        text.skip(1)
    } else {
        text
    };
    if digits.len() > 0 && all_digits(digits) {
        if negative {
            Some(-(decimal_value(digits) as int))
        } else {
            Some(decimal_value(digits) as int)
        }
    } else {
        None
    }
}

/// The process ID that the content of a PID file stands for: the content
/// without the white space around it is a signed decimal number that fits
/// 32 bits. Any other content stands for none.
pub open spec fn parse_pid_spec(content: Seq<char>) -> Option<int> {
    match signed_value(trimmed(content)) {
        Some(v) => if -0x8000_0000 <= v <= 0x7fff_ffff {
            Some(v)
        } else {
            None
        },
        None => None,
    }
}

/// The decimal digits of a number, without leading zeros.
pub open spec fn decimal_digits(n: nat) -> Seq<char>
    decreases n,
{
    if n < 10 {
        seq![digit_char(n as int)]
    } else {
        decimal_digits(n / 10).push(digit_char((n % 10) as int))
    }
}

/// The digit for a value below ten.
pub open spec fn digit_char(v: int) -> char {
    if v == 0 {
        '0'
    } else if v == 1 {
        '1'
    } else if v == 2 {
        '2'
    } else if v == 3 {
        '3'
    } else if v == 4 {
        '4'
    } else if v == 5 {
        '5'
    } else if v == 6 {
        '6'
    } else if v == 7 {
        '7'
    } else if v == 8 {
        '8'
    } else {
        '9'
    }
}

/// A process ID as decimal text, with `-` in front of a negative one.
pub open spec fn pid_digits(pid: int) -> Seq<char> {
    if pid < 0 {
        seq!['-'] + decimal_digits((-pid) as nat)
    } else {
        decimal_digits(pid as nat)
    }
}

fn space(c: char) -> (yes: bool)
    ensures
        yes == is_space(c),
{
    let u: u32 = c as u32;
    (0x09 <= u && u <= 0x0d) || u == 0x20 || u == 0x85 || u == 0xa0 || u == 0x1680 || (0x2000
        <= u && u <= 0x200a) || u == 0x2028 || u == 0x2029 || u == 0x202f || u == 0x205f || u
        == 0x3000
}

fn digit_of(v: u64) -> (c: char)
    requires
        v < 10,
    ensures
        c == digit_char(v as int),
        is_digit(c),
        digit_value(c) == v,
{
    if v == 0 {
        '0'
    } else if v == 1 {
        '1'
    } else if v == 2 {
        '2'
    } else if v == 3 {
        '3'
    } else if v == 4 {
        '4'
    } else if v == 5 {
        '5'
    } else if v == 6 {
        '6'
    } else if v == 7 {
        '7'
    } else if v == 8 {
        '8'
    } else {
        '9'
    }
}

/// The value of a text of digits does not shrink when digits are added
/// behind it.
pub proof fn lemma_value_grows(digits: Seq<char>, k: int)
    requires
        all_digits(digits),
        0 <= k <= digits.len(),
    ensures
        decimal_value(digits.take(k)) <= decimal_value(digits),
    decreases digits.len() - k,
{
    if k == digits.len() {
        assert(digits.take(k) =~= digits);
    } else {
        lemma_value_grows(digits, k + 1);
        assert(digits.take(k + 1).drop_last() =~= digits.take(k));
        assert(is_digit(digits[k]));
        assert(digits.take(k + 1).last() == digits[k]);
    }
}

/// Reads the digits of a part of a text. `None` if the part holds anything
/// but digits or stands for a number above `limit`.
fn read_digits(content: &str, from: usize, end: usize, limit: u64) -> (value: Option<u64>)
    requires
        from < end <= content@.len(),
        limit <= 0xffff_ffff,
    ensures
        match value {
            Some(v) => all_digits(content@.subrange(from as int, end as int)) && v
                == decimal_value(content@.subrange(from as int, end as int)) && v <= limit,
            None => !all_digits(content@.subrange(from as int, end as int)) || decimal_value(
                content@.subrange(from as int, end as int),
            ) > limit,
        },
{
    let ghost digits = content@.subrange(from as int, end as int);
    let mut acc: u64 = 0;
    let mut i: usize = from;
    assert(digits.take(0) =~= Seq::<char>::empty());
    while i < end
        invariant
            from <= i <= end <= content@.len(),
            limit <= 0xffff_ffff,
            digits == content@.subrange(from as int, end as int),
            all_digits(digits.take(i - from)),
            acc == decimal_value(digits.take(i - from)),
            acc <= limit,
        decreases end - i,
    {
        let c = content.get_char(i);
        if !('0' <= c && c <= '9') {
            assert(digits[i - from] == c);
            return None;
        }
        let v: u64 = (c as u32 - 48) as u64;
        proof {
            assert(digits.take(i - from + 1).drop_last() =~= digits.take(i - from));
            assert(digits.take(i - from + 1).last() == c);
            assert forall|k: int| 0 <= k < i - from + 1 implies is_digit(
                #[trigger] digits.take(i - from + 1)[k],
            ) by {
                if k < i - from {
                    assert(digits.take(i - from)[k] == digits[k]);
                }
            }
        }
        acc = acc * 10 + v;
        i = i + 1;
        if acc > limit {
            proof {
                if all_digits(digits) {
                    lemma_value_grows(digits, i - from);
                }
            }
            return None;
        }
    }
    assert(digits.take(i - from) =~= digits);
    Some(acc)
}

/// A text without the white space at its start and at its end.
pub fn trim(content: &str) -> (inner: &str)
    ensures
        inner@ == trimmed(content@),
{
    let n = content.unicode_len();
    let mut start: usize = 0;
    let mut scanning = true;
    assert(content@.skip(0) =~= content@);
    while scanning && start < n
        invariant
            n == content@.len(),
            start <= n,
            trim_start(content@) == trim_start(content@.skip(start as int)),
            !scanning ==> start < n && !is_space(content@[start as int]),
        decreases n - start + if scanning {
            1int
        } else {
            0int
        },
    {
        if space(content.get_char(start)) {
            assert(content@.skip(start as int).skip(1) =~= content@.skip(start as int + 1));
            start = start + 1;
        } else {
            scanning = false;
        }
    }
    assert(trim_start(content@) == content@.skip(start as int));
    assert(content@.skip(start as int) =~= content@.subrange(start as int, n as int));
    let mut end: usize = n;
    let mut scanning = true;
    while scanning && start < end
        invariant
            n == content@.len(),
            start <= end <= n,
            trimmed(content@) == trim_end(content@.subrange(start as int, end as int)),
            !scanning ==> start < end && !is_space(content@[end as int - 1]),
        decreases end - start + if scanning {
            1int
        } else {
            0int
        },
    {
        if space(content.get_char(end - 1)) {
            assert(content@.subrange(start as int, end as int).drop_last() =~= content@.subrange(
                start as int,
                end as int - 1,
            ));
            end = end - 1;
        } else {
            scanning = false;
        }
    }
    content.substring_char(start, end)
}

/// Reads the content of a PID file: a signed decimal number that fits 32
/// bits, with white space allowed around it. `None` for any other content.
pub fn parse_pid(content: &str) -> (pid: Option<i32>)
    ensures
        match pid {
            Some(p) => parse_pid_spec(content@) == Some(p as int),
            None => parse_pid_spec(content@) is None,
        },
{
    let text = trim(content);
    let n = text.unicode_len();
    if n == 0 {
        return None;
    }
    let first = text.get_char(0);
    let negative = first == '-';
    let from: usize = if first == '-' || first == '+' {
        1
    } else {
        0
    };
    proof {
        if from == 1 {
            assert(text@.skip(1) =~= text@.subrange(1, n as int));
        } else {
            assert(text@ =~= text@.subrange(0, n as int));
        }
    }
    if from == n {
        return None;
    }
    match read_digits(text, from, n, 0x8000_0000) {
        Some(magnitude) => {
            if negative {
                let value: i64 = -(magnitude as i64);
                Some(value as i32)
            } else if magnitude <= 0x7fff_ffff {
                Some(magnitude as i32)
            } else {
                None
            }
        },
        None => None,
    }
}

/// The number that an unsigned decimal text stands for: an optional `+` and
/// then at least one digit, and nothing else.
pub open spec fn unsigned_value(text: Seq<char>) -> Option<nat> {
    let digits = if text.len() > 0 && text[0] == '+' {
        text.skip(1)
    } else {
        text
    };
    if digits.len() > 0 && all_digits(digits) {
        Some(decimal_value(digits))
    } else {
        None
    }
}

/// The number of minutes that a text entered by the user stands for: an
/// unsigned decimal number that fits 32 bits. Any other text stands for
/// none.
pub open spec fn parse_minutes_spec(text: Seq<char>) -> Option<nat> {
    match unsigned_value(text) {
        Some(v) => if v <= 0xffff_ffff {
            Some(v)
        } else {
            None
        },
        None => None,
    }
}

/// Reads a number of minutes as the user entered it. White space is not
/// passed over.
pub fn parse_minutes(text: &str) -> (minutes: Option<u32>)
    ensures
        match minutes {
            Some(m) => parse_minutes_spec(text@) == Some(m as nat),
            None => parse_minutes_spec(text@) is None,
        },
{
    let n = text.unicode_len();
    if n == 0 {
        return None;
    }
    let from: usize = if text.get_char(0) == '+' {
        1
    } else {
        0
    };
    proof {
        if from == 1 {
            assert(text@.skip(1) =~= text@.subrange(1, n as int));
        } else {
            assert(text@ =~= text@.subrange(0, n as int));
        }
    }
    if from == n {
        return None;
    }
    match read_digits(text, from, n, 0xffff_ffff) {
        Some(v) => Some(v as u32),
        None => None,
    }
}

/// Writes a number in decimal, without leading zeros.
pub fn decimal_text(n: u64) -> (text: String)
    ensures
        text@ == decimal_digits(n as nat),
    decreases n,
{
    if n < 10 {
        let mut text = String::new();
        text.push(digit_of(n));
        assert(text@ =~= seq![digit_char(n as int)]);
        text
    } else {
        let mut text = decimal_text(n / 10);
        text.push(digit_of(n % 10));
        text
    }
}

/// Writes a process ID in decimal.
pub fn pid_text(pid: i32) -> (text: String)
    ensures
        text@ == pid_digits(pid as int),
{
    if pid < 0 {
        let magnitude: u64 = (-(pid as i64)) as u64;
        let mut text = String::new();
        text.push('-');
        let digits = decimal_text(magnitude);
        text.append(digits.as_str());
        assert(text@ =~= seq!['-'] + decimal_digits((-pid) as nat));
        text
    } else {
        decimal_text(pid as u64)
    }
}

/// The decimal digits of a number are digits, at least one of them, and
/// stand for the number.
pub proof fn lemma_digits_value(n: nat)
    ensures
        decimal_digits(n).len() > 0,
        all_digits(decimal_digits(n)),
        decimal_value(decimal_digits(n)) == n,
    decreases n,
{
    if n < 10 {
        let d = decimal_digits(n);
        assert(d.len() == 1);
        assert(d.drop_last().len() == 0);
        assert(decimal_value(d.drop_last()) == 0);
        assert(d.last() == digit_char(n as int));
    } else {
        lemma_digits_value(n / 10);
        let front = decimal_digits(n / 10);
        let d = decimal_digits(n);
        assert(d.drop_last() =~= front);
        assert(d.last() == digit_char((n % 10) as int));
        assert forall|i: int| 0 <= i < d.len() implies is_digit(#[trigger] d[i]) by {
            if i < front.len() {
                assert(d[i] == front[i]);
            }
        }
    }
}

/// A text that neither starts nor ends with white space has nothing to trim.
pub proof fn lemma_trimmed_is_same(text: Seq<char>)
    requires
        text.len() > 0,
        !is_space(text[0]),
        !is_space(text.last()),
    ensures
        trimmed(text) == text,
{
}

/// A process ID written to a PID file and read back is the same process ID.
pub proof fn lemma_pid_round_trip(pid: int)
    requires
        -0x8000_0000 <= pid <= 0x7fff_ffff,
    ensures
        parse_pid_spec(pid_digits(pid)) == Some(pid),
{
    let text = pid_digits(pid);
    if pid < 0 {
        let digits = decimal_digits((-pid) as nat);
        lemma_digits_value((-pid) as nat);
        assert(text[0] == '-');
        assert(text.last() == digits.last());
        assert(is_digit(digits[digits.len() - 1]));
        lemma_trimmed_is_same(text);
        assert(text.skip(1) =~= digits);
    } else {
        lemma_digits_value(pid as nat);
        assert(is_digit(text[0]));
        assert(is_digit(text[text.len() - 1]));
        lemma_trimmed_is_same(text);
    }
}

} // verus!
