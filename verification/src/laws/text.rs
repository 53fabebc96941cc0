//! Laws of texts: their parts, their lines and the numbers in them.
use crate::text::{
    after_prefix, begins_with, chomp, decimal, digit, digit_value, digits_value, first_index,
    is_digit, is_first, last_index, lines, occurs_at, split, trim_end, unsigned_digits,
    unsigned_value,
};
use vstd::prelude::*;

verus! {

/// A decimal text has digits only, at least one, and stands for its number.
pub proof fn law_decimal_reads_back(n: nat)
    ensures
        decimal(n).len() > 0,
        forall|i: int| 0 <= i < decimal(n).len() ==> is_digit(#[trigger] decimal(n)[i]),
        digits_value(decimal(n)) == n,
    decreases n,
{
    if n < 10 {
        assert(digit_value(digit(n)) == n);
        assert(decimal(n).drop_last() =~= Seq::<char>::empty());
        assert(digits_value(Seq::<char>::empty()) == 0);
    } else {
        law_decimal_reads_back(n / 10);
        assert(decimal(n).drop_last() =~= decimal(n / 10));
        assert(digit_value(digit(n % 10)) == n % 10);
        assert(decimal(n).last() == digit(n % 10));
    }
}

/// A number that was written as text is read from it, where it is within the limit.
pub proof fn law_number_round_trips(n: nat, max: nat)
    requires
        n <= max,
    ensures
        unsigned_value(decimal(n), max) == Some(n),
{
    law_decimal_reads_back(n);
    assert(is_digit(decimal(n)[0]));
    assert(unsigned_digits(decimal(n)) == decimal(n));
}

/// A decimal text has no needless zeros in front.
pub proof fn law_decimal_is_shortest(n: nat)
    ensures
        decimal(n)[0] == '0' <==> n == 0,
        n == 0 ==> decimal(n).len() == 1,
    decreases n,
{
    law_decimal_reads_back(n);
    if n < 10 {
        assert(decimal(n)[0] == digit(n));
    } else {
        law_decimal_is_shortest(n / 10);
        law_decimal_reads_back(n / 10);
        assert(decimal(n)[0] == decimal(n / 10)[0]);
    }
}

/// Each digit behind others counts by its place: the value of those before it times ten, plus its
/// own.
pub proof fn law_digits_count_by_place(digits: Seq<char>, c: char)
    ensures
        digits_value(Seq::<char>::empty()) == 0,
        is_digit(c) <==> '0' <= c <= '9',
        '0' <= c <= '9' ==> digits_value(digits.push(c)) == 10 * digits_value(digits) + (c as int
            - 48),
{
    assert(digits.push(c).drop_last() =~= digits);
}

/// A text of digits, with or without a plus sign, spells their number where it is within the
/// limit.
pub proof fn law_digits_spell_a_number(digits: Seq<char>, max: nat)
    requires
        digits.len() > 0,
        forall|i: int| 0 <= i < digits.len() ==> '0' <= #[trigger] digits[i] <= '9',
    ensures
        digits_value(digits) <= max ==> {
            &&& unsigned_value(digits, max) == Some(digits_value(digits))
            &&& unsigned_value(seq!['+'] + digits, max) == Some(digits_value(digits))
        },
        digits_value(digits) > max ==> {
            &&& unsigned_value(digits, max) is None
            &&& unsigned_value(seq!['+'] + digits, max) is None
        },
{
    assert(digits[0] != '+');
    assert(unsigned_digits(digits) == digits);
    let signed = seq!['+'] + digits;
    assert(signed[0] == '+');
    assert(signed.skip(1) =~= digits);
    assert(forall|i: int| 0 <= i < digits.len() ==> is_digit(#[trigger] digits[i]));
}

/// No other text spells a number: not one without a digit, and not one with anything but digits
/// behind an optional plus sign.
pub proof fn law_other_texts_spell_no_number(text: Seq<char>, max: nat)
    ensures
        text.len() == 0 ==> unsigned_value(text, max) is None,
        text == seq!['+'] ==> unsigned_value(text, max) is None,
        forall|i: int|
            0 <= i < text.len() && !('0' <= #[trigger] text[i] <= '9') && !(i == 0 && text[0]
                == '+') ==> unsigned_value(text, max) is None,
{
    assert forall|i: int|
        0 <= i < text.len() && !('0' <= #[trigger] text[i] <= '9') && !(i == 0 && text[0]
            == '+') implies unsigned_value(text, max) is None by {
        let digits = unsigned_digits(text);
        if text[0] == '+' {
            assert(digits[i - 1] == text[i]);
            assert(!is_digit(digits[i - 1]));
        } else {
            assert(digits[i] == text[i]);
            assert(!is_digit(digits[i]));
        }
    }
}

/// What follows a prefix is the rest of the text, and only a text that begins with the prefix has
/// such a rest.
pub proof fn law_prefix_and_rest(text: Seq<char>, prefix: Seq<char>, rest: Seq<char>)
    ensures
        after_prefix(text, prefix) == Some(rest) <==> text == prefix + rest,
        begins_with(text, prefix) <==> after_prefix(text, prefix) is Some,
        begins_with(prefix + rest, prefix),
{
    assert((prefix + rest).take(prefix.len() as int) =~= prefix);
    assert((prefix + rest).skip(prefix.len() as int) =~= rest);
    if begins_with(text, prefix) {
        assert(text =~= prefix + text.skip(prefix.len() as int));
    }
}

/// A text occurs in another at a place exactly where it stands between what is before and what is
/// behind it.
pub proof fn law_occurrence_is_in_between(before: Seq<char>, part: Seq<char>, behind: Seq<char>)
    ensures
        occurs_at(before + part + behind, part, before.len() as int),
        forall|text: Seq<char>, at: int| #[trigger]
            occurs_at(text, part, at) ==> text == text.take(at) + part + text.skip(
                at + part.len(),
            ),
{
    let all = before + part + behind;
    assert(all.subrange(before.len() as int, before.len() as int + part.len()) =~= part);
    assert forall|text: Seq<char>, at: int| #[trigger] occurs_at(text, part, at) implies text
        == text.take(at) + part + text.skip(at + part.len()) by {
        assert(text =~= text.take(at) + text.subrange(at, at + part.len()) + text.skip(
            at + part.len(),
        ));
    }
}

/// The first and the last place of a character hold it, and none before or behind them does. A
/// text without the character has no such place.
pub proof fn law_first_and_last_place(text: Seq<char>, c: char)
    ensures
        match first_index(text, c) {
            Some(i) => 0 <= i < text.len() && text[i] == c && forall|j: int|
                0 <= j < i ==> text[j] != c,
            None => forall|j: int| 0 <= j < text.len() ==> text[j] != c,
        },
        match last_index(text, c) {
            Some(i) => 0 <= i < text.len() && text[i] == c && forall|j: int|
                i < j < text.len() ==> text[j] != c,
            None => forall|j: int| 0 <= j < text.len() ==> text[j] != c,
        },
    decreases text.len(),
{
    if exists|j: int| 0 <= j < text.len() && text[j] == c {
        lemma_has_first(text, c, choose|j: int| 0 <= j < text.len() && text[j] == c);
    }
    if text.len() > 0 && text.last() != c {
        let front = text.drop_last();
        law_first_and_last_place(front, c);
        assert(forall|j: int| 0 <= j < front.len() ==> front[j] == text[j]);
    }
}

proof fn lemma_has_first(text: Seq<char>, c: char, at: int)
    requires
        0 <= at < text.len(),
        text[at] == c,
    ensures
        exists|i: int| is_first(text, c, i),
    decreases at,
{
    if exists|j: int| 0 <= j < at && text[j] == c {
        lemma_has_first(text, c, choose|j: int| 0 <= j < at && text[j] == c);
    } else {
        assert(is_first(text, c, at));
    }
}

/// Parts with a character between them.
pub open spec fn joined(parts: Seq<Seq<char>>, c: char) -> Seq<char>
    decreases parts.len(),
{
    if parts.len() == 0 {
        Seq::empty()
    } else if parts.len() == 1 {
        parts[0]
    } else {
        parts[0] + seq![c] + joined(parts.skip(1), c)
    }
}

/// The parts of a text hold the character nowhere, and with it between them they are the text.
pub proof fn law_parts_make_the_text(text: Seq<char>, c: char)
    ensures
        split(text, c).len() > 0,
        joined(split(text, c), c) == text,
        forall|i: int, j: int|
            0 <= i < split(text, c).len() && 0 <= j < split(text, c)[i].len()
                ==> #[trigger] split(text, c)[i][j] != c,
    decreases text.len(),
{
    law_first_and_last_place(text, c);
    match first_index(text, c) {
        Some(at) => {
            let rest = text.skip(at + 1);
            law_parts_make_the_text(rest, c);
            let parts = split(text, c);
            assert(parts[0] == text.take(at));
            assert(parts.skip(1) =~= split(rest, c));
            assert(text =~= text.take(at) + seq![c] + rest);
            assert forall|i: int, j: int|
                0 <= i < parts.len() && 0 <= j < parts[i].len() implies #[trigger] parts[i][j]
                != c by {
                if i == 0 {
                    assert(parts[0][j] == text[j]);
                } else {
                    assert(parts[i] == split(rest, c)[i - 1]);
                    assert(split(rest, c)[i - 1][j] != c);
                }
            }
        },
        None => {},
    }
}

/// A line is read as it stands before its ending, a newline alone or behind a carriage return,
/// and then the lines of the rest. The last line needs no ending.
pub proof fn law_line_after_line(line: Seq<char>, rest: Seq<char>)
    requires
        forall|i: int| 0 <= i < line.len() ==> line[i] != '\n',
    ensures
        lines(line + seq!['\r', '\n'] + rest) == seq![line] + lines(rest),
        line.len() == 0 || line.last() != '\r' ==> lines(line + seq!['\n'] + rest) == seq![line]
            + lines(rest),
        line.len() > 0 ==> lines(line) == seq![line],
        lines(Seq::empty()) == Seq::<Seq<char>>::empty(),
{
    let long = line + seq!['\r', '\n'] + rest;
    let at = line.len() as int + 1;
    law_first_and_last_place(long, '\n');
    assert(long[at] == '\n');
    assert(forall|i: int| 0 <= i < at ==> long[i] != '\n');
    assert(first_index(long, '\n') == Some(at));
    assert(long.take(at) =~= line.push('\r'));
    assert(chomp(line.push('\r')) =~= line);
    assert(long.skip(at + 1) =~= rest);
    let short = line + seq!['\n'] + rest;
    let end = line.len() as int;
    law_first_and_last_place(short, '\n');
    assert(short[end] == '\n');
    assert(forall|i: int| 0 <= i < end ==> short[i] != '\n');
    assert(first_index(short, '\n') == Some(end));
    assert(short.take(end) =~= line);
    assert(short.skip(end + 1) =~= rest);
    law_first_and_last_place(line, '\n');
}

/// A trimmed text with the trimmed character behind it, some number of times, is the text, and
/// does not itself end with the character.
pub proof fn law_trimmed_is_the_rest(text: Seq<char>, c: char)
    ensures
        trim_end(text, c).len() <= text.len(),
        trim_end(text, c) == text.take(trim_end(text, c).len() as int),
        forall|i: int| trim_end(text, c).len() <= i < text.len() ==> text[i] == c,
        trim_end(text, c).len() > 0 ==> trim_end(text, c).last() != c,
    decreases text.len(),
{
    if text.len() > 0 && text.last() == c {
        let front = text.drop_last();
        law_trimmed_is_the_rest(front, c);
        let n = trim_end(front, c).len() as int;
        assert(front.take(n) =~= text.take(n));
        assert forall|i: int| n <= i < text.len() implies text[i] == c by {
            if i < front.len() {
                assert(front[i] == text[i]);
            }
        }
    } else {
        assert(text.take(text.len() as int) =~= text);
    }
}

} // verus!
