//! Plain-text building blocks: decimal numerals, trimming and number finding.

use vstd::prelude::*;

verus! {

/// The characters with the Unicode property White_Space.
pub open spec fn white_space(c: char) -> bool {
    ||| '\u{9}' <= c <= '\u{d}'
    ||| c == '\u{20}'
    ||| c == '\u{85}'
    ||| c == '\u{a0}'
    ||| c == '\u{1680}'
    ||| '\u{2000}' <= c <= '\u{200a}'
    ||| c == '\u{2028}'
    ||| c == '\u{2029}'
    ||| c == '\u{202f}'
    ||| c == '\u{205f}'
    ||| c == '\u{3000}'
}

/// [`char::is_whitespace`] tells whether a character has the Unicode property White_Space.
pub assume_specification[ char::is_whitespace ](c: char) -> (r: bool)
    ensures
        r == white_space(c),
;

/// `s` without its leading white space.
pub open spec fn trimmed_start(s: Seq<char>) -> Seq<char>
    decreases s.len(),
{
    if s.len() > 0 && white_space(s.first()) {
        trimmed_start(s.drop_first())
    } else {
        s
    }
}

/// `s` without its trailing white space.
pub open spec fn trimmed_end(s: Seq<char>) -> Seq<char>
    decreases s.len(),
{
    if s.len() > 0 && white_space(s.last()) {
        trimmed_end(s.drop_last())
    } else {
        s
    }
}

/// `s` without the white space at its two ends.
pub open spec fn trimmed(s: Seq<char>) -> Seq<char> {
    trimmed_end(trimmed_start(s))
}

/// `lines` joined by line breaks.
pub open spec fn joined(lines: Seq<Seq<char>>) -> Seq<char>
    decreases lines.len(),
{
    if lines.len() == 0 {
        Seq::empty()
    } else if lines.len() == 1 {
        lines[0]
    } else {
        joined(lines.drop_last()) + "\n"@ + lines.last()
    }
}

/// The views of several strings.
pub open spec fn string_views(strings: Seq<String>) -> Seq<Seq<char>> {
    strings.map_values(|string: String| string@)
}

/// The view of an optional string.
pub open spec fn option_view(text: Option<String>) -> Option<Seq<char>> {
    match text {
        Some(text) => Some(text@),
        None => None,
    }
}

/// `c` is one of the ten ASCII digits.
pub open spec fn is_digit(c: char) -> bool {
    '0' <= c && c <= '9'
}

/// The number that an ASCII digit stands for.
pub open spec fn digit_value(c: char) -> nat {
    (c as int - '0' as int) as nat
}

/// The ASCII digit for a number below ten.
pub open spec fn digit_char(d: nat) -> char {
    ('0' as int + d as int) as char
}

/// The decimal numeral of `n`, without leading zeros.
pub open spec fn decimal(n: nat) -> Seq<char>
    decreases n,
{
    if n < 10 {
        seq![digit_char(n)]
    } else {
        decimal(n / 10).push(digit_char(n % 10))
    }
}

/// The number that a run of digits stands for, most significant digit first.
pub open spec fn number_value(digits: Seq<char>) -> nat
    decreases digits.len(),
{
    if digits.len() == 0 {
        0
    } else {
        10 * number_value(digits.drop_last()) + digit_value(digits.last())
    }
}

/// `s[start..end]` is the first run of digits in `s`: it is not empty, no digit stands before
/// it, and it cannot be extended.
pub open spec fn is_first_digit_run(s: Seq<char>, start: int, end: int) -> bool {
    &&& 0 <= start < end <= s.len()
    &&& forall|i: int| 0 <= i < start ==> !is_digit(#[trigger] s[i])
    &&& forall|i: int| start <= i < end ==> is_digit(#[trigger] s[i])
    &&& end < s.len() ==> !is_digit(s[end])
}

/// The number that the first run of digits in `s` stands for, or `None` where `s` holds no
/// digit.
pub open spec fn first_number(s: Seq<char>) -> Option<nat> {
    if exists|start: int, end: int| is_first_digit_run(s, start, end) {
        let (start, end) = choose|start: int, end: int| is_first_digit_run(s, start, end);
        Some(number_value(s.subrange(start, end)))
    } else {
        None
    }
}

/// Where the first run of digits is `s[start..end]`, that run is what [`first_number`] reads.
pub proof fn lemma_first_number(s: Seq<char>, start: int, end: int)
    requires
        is_first_digit_run(s, start, end),
    ensures
        first_number(s) == Some(number_value(s.subrange(start, end))),
{
    let (a, b) = choose|a: int, b: int| is_first_digit_run(s, a, b);
    assert(is_first_digit_run(s, a, b));
    assert(is_digit(s[a]) && is_digit(s[start]));
    assert(a == start);
    if b < end {
        assert(is_digit(s[b]));
    }
    if end < b {
        assert(is_digit(s[end]));
    }
}

/// A text without digits holds no number.
pub proof fn lemma_no_number(s: Seq<char>)
    requires
        forall|i: int| 0 <= i < s.len() ==> !is_digit(#[trigger] s[i]),
    ensures
        first_number(s) is None,
{
    assert forall|a: int, b: int| !is_first_digit_run(s, a, b) by {
        if is_first_digit_run(s, a, b) {
            assert(is_digit(s[a]));
        }
    }
}

proof fn lemma_trimmed_start(s: Seq<char>, start: int)
    requires
        0 <= start <= s.len(),
        forall|i: int| 0 <= i < start ==> white_space(#[trigger] s[i]),
        start < s.len() ==> !white_space(s[start]),
    ensures
        trimmed_start(s) == s.skip(start),
    decreases s.len(),
{
    if start == 0 {
        assert(s.skip(0) =~= s);
    } else {
        assert(white_space(s[0]));
        assert forall|i: int| 0 <= i < start - 1 implies white_space(
            #[trigger] s.drop_first()[i],
        ) by {
            assert(white_space(s[i + 1]));
        }
        lemma_trimmed_start(s.drop_first(), start - 1);
        assert(s.drop_first().skip(start - 1) =~= s.skip(start));
    }
}

proof fn lemma_trimmed_end(s: Seq<char>, end: int)
    requires
        0 <= end <= s.len(),
        forall|i: int| end <= i < s.len() ==> white_space(#[trigger] s[i]),
        end > 0 ==> !white_space(s[end - 1]),
    ensures
        trimmed_end(s) == s.take(end),
    decreases s.len(),
{
    if end == s.len() {
        assert(s.take(end) =~= s);
    } else {
        assert(white_space(s[s.len() - 1]));
        lemma_trimmed_end(s.drop_last(), end);
        assert(s.drop_last().take(end) =~= s.take(end));
    }
}

/// Every numeral is a non-empty run of digits that stands for its number.
pub proof fn lemma_decimal(n: nat)
    ensures
        decimal(n).len() > 0,
        forall|i: int| 0 <= i < decimal(n).len() ==> is_digit(#[trigger] decimal(n)[i]),
        number_value(decimal(n)) == n,
    decreases n,
{
    let d = decimal(n);
    if n < 10 {
        assert(d.drop_last() =~= Seq::<char>::empty());
        assert(number_value(d.drop_last()) == 0);
        assert(d.last() == digit_char(n));
    } else {
        lemma_decimal(n / 10);
        assert(d.drop_last() =~= decimal(n / 10));
        assert(d.last() == digit_char(n % 10));
    }
}

/// Reading the first number of a text gives back the number whose numeral stands in it, where
/// no digit stands before the numeral or directly behind it.
pub proof fn lemma_first_number_of_decimal(before: Seq<char>, n: nat, after: Seq<char>)
    requires
        forall|i: int| 0 <= i < before.len() ==> !is_digit(#[trigger] before[i]),
        after.len() > 0 ==> !is_digit(after[0]),
    ensures
        first_number(before + decimal(n) + after) == Some(n),
{
    lemma_decimal(n);
    let s = before + decimal(n) + after;
    let start = before.len() as int;
    let end = start + decimal(n).len();
    assert forall|i: int| start <= i < end implies is_digit(#[trigger] s[i]) by {
        assert(s[i] == decimal(n)[i - start]);
    }
    assert(end < s.len() ==> s[end] == after[0]);
    assert(is_first_digit_run(s, start, end));
    lemma_first_number(s, start, end);
    assert(s.subrange(start, end) =~= decimal(n));
}

/// The ASCII digit for a number below ten, as text.
fn digit_text(d: u64) -> (r: &'static str)
    requires
        d < 10,
    ensures
        r@ == seq![digit_char(d as nat)],
{
    proof {
        reveal_strlit("0");
        reveal_strlit("1");
        reveal_strlit("2");
        reveal_strlit("3");
        reveal_strlit("4");
        reveal_strlit("5");
        reveal_strlit("6");
        reveal_strlit("7");
        reveal_strlit("8");
        reveal_strlit("9");
    }
    match d {
        0 => "0",
        1 => "1",
        2 => "2",
        3 => "3",
        4 => "4",
        5 => "5",
        6 => "6",
        7 => "7",
        8 => "8",
        _ => "9",
    }
}

/// The decimal numeral of `n`.
pub fn decimal_text(n: u64) -> (r: String)
    ensures
        r@ == decimal(n as nat),
    decreases n,
{
    if n < 10 {
        digit_text(n).to_string()
    } else {
        let mut text = decimal_text(n / 10);
        text.append(digit_text(n % 10));
        proof {
            assert(text@ =~= decimal((n / 10) as nat).push(digit_char((n % 10) as nat)));
        }
        text
    }
}

/// `lines` joined by line breaks.
pub fn join_lines(lines: &Vec<String>) -> (r: String)
    ensures
        r@ == joined(string_views(lines@)),
{
    let ghost all = string_views(lines@);
    let mut text = String::new();
    for i in 0..lines.len()
        invariant
            all == string_views(lines@),
            text@ == joined(all.take(i as int)),
    {
        let ghost longer = all.take(i + 1);
        assert(longer.drop_last() =~= all.take(i as int));
        assert(longer.last() == lines@[i as int]@);
        if i > 0 {
            text.append("\n");
            text.append(lines[i].as_str());
        } else {
            text = lines[i].clone();
        }
    }
    assert(all.take(lines@.len() as int) =~= all);
    text
}

/// `s` without the white space at its two ends.
pub fn trim(s: &str) -> (r: &str)
    ensures
        r@ == trimmed(s@),
{
    let mut len: usize = 0;
    let mut start: usize = 0;
    let mut end: usize = 0;
    let total: usize = s.unicode_len();
    for c in it: s.chars()
        invariant
            it.seq() == s@,
            total == s@.len(),
            len == it.index(),
            start <= end <= len,
            forall|i: int| 0 <= i < start ==> white_space(#[trigger] s@[i]),
            forall|i: int| end <= i < len ==> white_space(#[trigger] s@[i]),
            start == end ==> end == len,
            start < end ==> !white_space(s@[start as int]) && !white_space(s@[end - 1]),
    {
        let ghost k = it.index();
        assert(c == s@[k as int]);
        len = len + 1;
        if !c.is_whitespace() {
            end = len;
        } else if start == end {
            start = len;
            end = len;
        }
    }
    proof {
        lemma_trimmed_start(s@, start as int);
        let rest = s@.skip(start as int);
        assert forall|i: int| end - start <= i < rest.len() implies white_space(
            #[trigger] rest[i],
        ) by {
            assert(white_space(s@[i + start]));
        }
        lemma_trimmed_end(rest, end - start);
        assert(rest.take(end - start) =~= s@.subrange(start as int, end as int));
    }
    s.substring_char(start, end)
}

/// The first number in `s` if it is at most `limit`. A number above `limit`, however long, is
/// `None`, as is a text without digits.
pub fn first_number_up_to(s: &str, limit: usize) -> (r: Option<usize>)
    ensures
        match first_number(s@) {
            Some(n) if n <= limit => r == Some(n as usize),
            _ => r is None,
        },
{
    let mut started: bool = false;
    let mut ended: bool = false;
    let mut over: bool = false;
    let mut value: usize = 0;
    let ghost mut start: int = 0;
    let ghost mut end: int = 0;
    for c in it: s.chars()
        invariant
            it.seq() == s@,
            0 <= start <= end <= it.index() <= s@.len(),
            ended ==> started,
            forall|i: int| 0 <= i < start ==> !is_digit(#[trigger] s@[i]),
            forall|i: int| start <= i < end ==> is_digit(#[trigger] s@[i]),
            started <==> start < end,
            !started ==> start == it.index(),
            !ended ==> end == it.index(),
            ended ==> end < s@.len() && !is_digit(s@[end]),
            over <==> number_value(s@.subrange(start, end)) > limit,
            !over ==> value == number_value(s@.subrange(start, end)),
    {
        let ghost k = it.index();
        assert(c == s@[k as int]);
        if !ended {
            if c >= '0' && c <= '9' {
                let d: usize = (c as u32 - '0' as u32) as usize;
                proof {
                    let longer = s@.subrange(start, k + 1);
                    assert(longer.drop_last() =~= s@.subrange(start, end));
                    assert(longer.last() == c);
                    end = k + 1;
                }
                started = true;
                if !over {
                    if value > limit / 10 || d > limit - 10 * value {
                        over = true;
                    } else {
                        value = 10 * value + d;
                    }
                }
            } else if started {
                ended = true;
            } else {
                proof {
                    start = k + 1;
                    end = k + 1;
                    assert(s@.subrange(start, end) =~= s@.subrange(start - 1, end - 1));
                }
            }
        }
    }
    if started {
        proof {
            lemma_first_number(s@, start, end);
        }
        if over {
            None
        } else {
            Some(value)
        }
    } else {
        proof {
            lemma_no_number(s@);
        }
        None
    }
}

} // verus!
