//! Laws of texts: what trimming, joining, numerals and the judge's prompt come to, character by
//! character.

use vstd::prelude::*;

use crate::ensemble::{
    completions, judge_choice, judge_prompt, numbered_responses, survivor_views, Survivor,
};
use crate::text::{
    decimal, digit_char, digit_value, first_number, is_digit, is_first_digit_run, joined,
    lemma_decimal, lemma_first_number, lemma_no_number, number_value, option_view, string_views,
    trimmed, trimmed_end, trimmed_start, white_space,
};
use crate::types::Response;

verus! {

/// The views of several strings are the views of each, in order.
pub proof fn law_string_views(strings: Seq<String>, text: String)
    ensures
        string_views(strings).len() == strings.len(),
        forall|i: int|
            0 <= i < strings.len() ==> #[trigger] string_views(strings)[i] == strings[i]@,
        option_view(Some(text)) == Some(text@),
        option_view(None) is None,
{
}

// ---------------------------------------------------------------------------------------------
// Trimming and joining
// ---------------------------------------------------------------------------------------------

/// A trimmed text is a stretch of the text. What stands before and behind it is white space, and
/// it neither begins nor ends with white space itself.
pub proof fn law_trimmed(s: Seq<char>) -> (bounds: (int, int))
    ensures
        0 <= bounds.0 <= bounds.1 <= s.len(),
        trimmed(s) == s.subrange(bounds.0, bounds.1),
        forall|i: int| 0 <= i < bounds.0 ==> white_space(#[trigger] s[i]),
        forall|i: int| bounds.1 <= i < s.len() ==> white_space(#[trigger] s[i]),
        bounds.0 < bounds.1 ==> !white_space(s[bounds.0]) && !white_space(s[bounds.1 - 1]),
{
    let start = lemma_start(s);
    let rest = trimmed_start(s);
    let len = lemma_end(rest);
    assert(rest.take(len) =~= s.subrange(start, start + len));
    assert forall|i: int| start + len <= i < s.len() implies white_space(#[trigger] s[i]) by {
        assert(white_space(rest[i - start]));
    }
    if len > 0 {
        assert(rest[0] == s[start]);
        assert(rest[len - 1] == s[start + len - 1]);
    }
    (start, start + len)
}

proof fn lemma_start(s: Seq<char>) -> (start: int)
    ensures
        0 <= start <= s.len(),
        trimmed_start(s) == s.skip(start),
        forall|i: int| 0 <= i < start ==> white_space(#[trigger] s[i]),
        start < s.len() ==> !white_space(s[start]),
    decreases s.len(),
{
    if s.len() > 0 && white_space(s.first()) {
        let start = lemma_start(s.drop_first());
        assert(s.drop_first().skip(start) =~= s.skip(start + 1));
        assert forall|i: int| 0 <= i < start + 1 implies white_space(#[trigger] s[i]) by {
            if i > 0 {
                assert(white_space(s.drop_first()[i - 1]));
            }
        }
        start + 1
    } else {
        assert(s.skip(0) =~= s);
        0
    }
}

proof fn lemma_end(s: Seq<char>) -> (end: int)
    ensures
        0 <= end <= s.len(),
        trimmed_end(s) == s.take(end),
        forall|i: int| end <= i < s.len() ==> white_space(#[trigger] s[i]),
        end > 0 ==> !white_space(s[end - 1]),
    decreases s.len(),
{
    if s.len() > 0 && white_space(s.last()) {
        let end = lemma_end(s.drop_last());
        assert(s.drop_last().take(end) =~= s.take(end));
        assert forall|i: int| end <= i < s.len() implies white_space(#[trigger] s[i]) by {
            if i < s.len() - 1 {
                assert(white_space(s.drop_last()[i]));
            }
        }
        end
    } else {
        assert(s.take(s.len() as int) =~= s);
        s.len() as int
    }
}

/// No lines join to nothing, one line to itself, and two stretches of lines to what each joins
/// to with one line break between.
pub proof fn law_joined(line: Seq<char>, a: Seq<Seq<char>>, b: Seq<Seq<char>>)
    requires
        a.len() > 0,
        b.len() > 0,
    ensures
        joined(Seq::<Seq<char>>::empty()) == Seq::<char>::empty(),
        joined(seq![line]) == line,
        joined(a + b) == joined(a) + seq!['\n'] + joined(b),
    decreases b.len(),
{
    reveal_strlit("\n");
    assert("\n"@ =~= seq!['\n']);
    assert((a + b).last() == b.last());
    if b.len() == 1 {
        assert((a + b).drop_last() =~= a);
        assert(joined(b) == b[0]);
    } else {
        law_joined(line, a, b.drop_last());
        assert((a + b).drop_last() =~= a + b.drop_last());
        assert(joined(a + b) =~= joined(a) + seq!['\n'] + joined(b));
    }
}

// ---------------------------------------------------------------------------------------------
// Numbers
// ---------------------------------------------------------------------------------------------

/// The digits are the characters from '0' to '9', each with its distance from '0' as its value.
pub proof fn law_digits(c: char, d: nat)
    ensures
        is_digit(c) <==> 0x30 <= c as int <= 0x39,
        is_digit(c) ==> digit_value(c) == c as int - 0x30,
        d < 10 ==> digit_char(d) as int == 0x30 + d,
{
}

/// A numeral below ten is its digit. Ten times a number plus a digit is written as the number
/// followed by the digit.
pub proof fn law_decimal(n: nat, d: nat)
    requires
        d < 10,
    ensures
        decimal(d).len() == 1,
        decimal(d)[0] as int == 0x30 + d,
        n > 0 ==> decimal(10 * n + d) == decimal(n).push(decimal(d)[0]),
{
    assert((10 * n + d) / 10 == n && (10 * n + d) % 10 == d);
}

/// A run of digits is read with the most significant digit first. A numeral is read as its
/// number, also behind leading zeros.
pub proof fn law_number_value(digits: Seq<char>, c: char, n: nat)
    ensures
        number_value(Seq::<char>::empty()) == 0,
        is_digit(c) ==> number_value(digits.push(c)) == 10 * number_value(digits) + (c as int
            - 0x30),
        number_value(decimal(n)) == n,
        number_value(seq!['0'] + digits) == number_value(digits),
    decreases digits.len(),
{
    assert(digits.push(c).drop_last() =~= digits);
    lemma_decimal(n);
    if digits.len() == 0 {
        assert(seq!['0'] + digits =~= seq!['0']);
        assert(seq!['0'].drop_last() =~= Seq::<char>::empty());
        assert(number_value(seq!['0'].drop_last()) == 0);
    } else {
        law_number_value(digits.drop_last(), c, n);
        assert((seq!['0'] + digits).drop_last() =~= seq!['0'] + digits.drop_last());
        assert((seq!['0'] + digits).last() == digits.last());
    }
}

/// `s[start..end]` are digits, nothing before them is one, and none follows directly.
pub open spec fn leads(s: Seq<char>, start: int, end: int) -> bool {
    &&& 0 <= start < end <= s.len()
    &&& forall|i: int| 0 <= i < start ==> !(0x30 <= (#[trigger] s[i]) as int <= 0x39)
    &&& forall|i: int| start <= i < end ==> 0x30 <= (#[trigger] s[i]) as int <= 0x39
    &&& end < s.len() ==> !(0x30 <= s[end] as int <= 0x39)
}

/// The first number of a text is what its first run of digits stands for, whatever stands
/// before and behind. A text without digits has none.
pub proof fn law_first_number(s: Seq<char>, start: int, end: int)
    ensures
        leads(s, start, end) ==> first_number(s) == Some(number_value(s.subrange(start, end))),
        (forall|i: int| 0 <= i < s.len() ==> !(0x30 <= (#[trigger] s[i]) as int <= 0x39))
            ==> first_number(s) is None,
{
    if leads(s, start, end) {
        assert(is_first_digit_run(s, start, end));
        lemma_first_number(s, start, end);
    }
    if forall|i: int| 0 <= i < s.len() ==> !(0x30 <= (#[trigger] s[i]) as int <= 0x39) {
        lemma_no_number(s);
    }
}

/// The judge chooses by the first run of digits in its reply: the response of that number where
/// there is one, and otherwise the first response.
pub proof fn law_judge_choice(reply: Seq<char>, count: nat, start: int, end: int)
    ensures
        leads(reply, start, end) ==> {
            let n = number_value(reply.subrange(start, end));
            judge_choice(reply, count) == (if 1 <= n <= count {
                n - 1
            } else {
                0
            })
        },
        (forall|i: int| 0 <= i < reply.len() ==> !(0x30 <= (#[trigger] reply[i]) as int <= 0x39))
            ==> judge_choice(reply, count) == 0,
{
    law_first_number(reply, start, end);
}

// ---------------------------------------------------------------------------------------------
// The judge's prompt
// ---------------------------------------------------------------------------------------------

/// How a response is shown: by its number and what it says.
pub open spec fn shown(number: nat, completion: Seq<char>) -> Seq<char> {
    "Response "@ + decimal(number) + ":\n"@ + completion + "\n\n"@
}

/// How much room the first responses take.
pub open spec fn room(completions: Seq<Seq<char>>, count: nat) -> nat
    decreases count,
{
    if count == 0 {
        0
    } else {
        let last = (count - 1) as nat;
        room(completions, last) + shown(count, completions[last as int]).len()
    }
}

/// The judge sees every response: what each says stands in the prompt behind its number, in
/// order and directly one after the other, between the user's request and the instruction how to
/// reply. Nothing else stands in the prompt.
pub proof fn law_judge_sees_every_response(
    user_prompt: Seq<char>,
    completions: Seq<Seq<char>>,
    k: nat,
)
    ensures
        ({
            let prompt = judge_prompt(user_prompt, completions);
            let head =
                "You are an impartial judge. Choose which response best answers the user request.\n\n"@
                + "User request:\n"@ + user_prompt + "\n\n"@;
            let tail = "Reply with only the number (1-"@ + decimal(completions.len())
                + ") of the best response."@;
            let all = room(completions, completions.len());
            &&& prompt.len() == head.len() + all + tail.len()
            &&& prompt.take(head.len() as int) == head
            &&& prompt.skip((head.len() + all) as int) == tail
            &&& k < completions.len() ==> prompt.subrange(
                (head.len() + room(completions, k)) as int,
                (head.len() + room(completions, k + 1)) as int,
            ) == shown(k + 1, completions[k as int])
        }),
{
    let prompt = judge_prompt(user_prompt, completions);
    let head =
        "You are an impartial judge. Choose which response best answers the user request.\n\n"@
        + "User request:\n"@ + user_prompt + "\n\n"@;
    let tail = "Reply with only the number (1-"@ + decimal(completions.len())
        + ") of the best response."@;
    let middle = numbered_responses(completions);
    lemma_room(completions, k);
    assert(prompt =~= head + middle + tail);
    assert(prompt.take(head.len() as int) =~= head);
    assert(prompt.skip((head.len() + middle.len()) as int) =~= tail);
    if k < completions.len() {
        assert(prompt.subrange(
            (head.len() + room(completions, k)) as int,
            (head.len() + room(completions, k + 1)) as int,
        ) =~= middle.subrange(
            room(completions, k) as int,
            room(completions, k + 1) as int,
        ));
    }
}

proof fn lemma_room(completions: Seq<Seq<char>>, k: nat)
    ensures
        numbered_responses(completions).len() == room(completions, completions.len()),
        k < completions.len() ==> {
            &&& room(completions, k) <= room(completions, k + 1) <= room(
                completions,
                completions.len(),
            )
            &&& numbered_responses(completions).subrange(
                room(completions, k) as int,
                room(completions, k + 1) as int,
            ) == shown(k + 1, completions[k as int])
        },
    decreases completions.len(),
{
    if completions.len() > 0 {
        let last = (completions.len() - 1) as nat;
        let before = completions.drop_last();
        let block = shown(completions.len(), completions.last());
        lemma_room(before, k);
        lemma_same_room(completions, last);
        assert(numbered_responses(completions) =~= numbered_responses(before) + block);
        if k < last {
            lemma_same_room(completions, k);
            lemma_same_room(completions, k + 1);
            assert(numbered_responses(completions).subrange(
                room(completions, k) as int,
                room(completions, k + 1) as int,
            ) =~= numbered_responses(before).subrange(
                room(completions, k) as int,
                room(completions, k + 1) as int,
            ));
        } else if k == last {
            assert(numbered_responses(completions).subrange(
                room(completions, k) as int,
                room(completions, k + 1) as int,
            ) =~= block);
        }
    }
}

proof fn lemma_same_room(completions: Seq<Seq<char>>, count: nat)
    requires
        count < completions.len(),
    ensures
        room(completions.drop_last(), count) == room(completions, count),
    decreases count,
{
    if count > 0 {
        lemma_same_room(completions, (count - 1) as nat);
    }
}

/// The judge is shown what each survivor's response says, one per survivor in their order.
pub proof fn law_completions(survivors: Seq<Survivor>, shown_to: Seq<(Seq<char>, Response)>)
    ensures
        completions(shown_to).len() == shown_to.len(),
        forall|i: int|
            0 <= i < shown_to.len() ==> #[trigger] completions(shown_to)[i]
                == shown_to[i].1.llm_response.completion@,
        survivor_views(survivors).len() == survivors.len(),
        forall|i: int|
            0 <= i < survivors.len() ==> #[trigger] survivor_views(survivors)[i] == (
                survivors[i].0@,
                survivors[i].1,
            ),
{
}

} // verus!
