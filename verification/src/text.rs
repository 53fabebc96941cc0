//! Text handling on `str` and `String`, stated over sequences of characters.
use vstd::prelude::*;

verus! {

/// `String::push`: the character is appended to the text.
pub assume_specification[ String::push ](s: &mut String, c: char)
    ensures
        final(s)@ == old(s)@.push(c),
;

/// The characters of a text.
pub fn characters(s: &str) -> (r: Vec<char>)
    ensures
        r@ == s@,
{
    let mut out: Vec<char> = Vec::new();
    for c in it: s.chars()
        invariant
            it.seq() == s@,
            out@ == s@.take(it.index()),
    {
        out.push(c);
        assert(out@ =~= s@.take(it.index() + 1));
    }
    assert(out@ =~= s@);
    out
}

/// Whether two texts hold the same characters.
pub fn same_text(a: &str, b: &str) -> (r: bool)
    ensures
        r == (a@ == b@),
{
    let left = characters(a);
    let right = characters(b);
    if left.len() != right.len() {
        return false;
    }
    let mut i: usize = 0;
    while i < left.len()
        invariant
            i <= left@.len() == right@.len(),
            left@ == a@,
            right@ == b@,
            forall|j: int| 0 <= j < i ==> left@[j] == right@[j],
        decreases left@.len() - i,
    {
        if left[i] != right[i] {
            return false;
        }
        i += 1;
    }
    assert(a@ =~= b@);
    true
}

/// The text that part of a list of characters spells.
pub fn spell(chars: &Vec<char>, from: usize, to: usize) -> (r: String)
    requires
        from <= to <= chars@.len(),
    ensures
        r@ == chars@.subrange(from as int, to as int),
{
    let mut out = String::new();
    let mut i: usize = from;
    while i < to
        invariant
            from <= i <= to <= chars@.len(),
            out@ == chars@.subrange(from as int, i as int),
        decreases to - i,
    {
        out.push(chars[i]);
        i += 1;
        assert(out@ =~= chars@.subrange(from as int, i as int));
    }
    out
}

/// A text begins with another.
pub open spec fn begins_with(text: Seq<char>, prefix: Seq<char>) -> bool {
    prefix.len() <= text.len() && text.take(prefix.len() as int) == prefix
}

/// What follows a prefix.
pub open spec fn after_prefix(text: Seq<char>, prefix: Seq<char>) -> Option<Seq<char>> {
    if begins_with(text, prefix) {
        Some(text.skip(prefix.len() as int))
    } else {
        None
    }
}

/// What follows a prefix, where the text begins with it.
pub fn strip_prefix(text: &str, prefix: &str) -> (r: Option<String>)
    ensures
        after_prefix(text@, prefix@) == match r {
            Some(rest) => Some(rest@),
            None => None,
        },
{
    let chars = characters(text);
    let wanted = characters(prefix);
    if chars.len() < wanted.len() {
        return None;
    }
    let mut i: usize = 0;
    while i < wanted.len()
        invariant
            i <= wanted@.len() <= chars@.len(),
            chars@ == text@,
            wanted@ == prefix@,
            forall|j: int| 0 <= j < i ==> chars@[j] == wanted@[j],
        decreases wanted@.len() - i,
    {
        if chars[i] != wanted[i] {
            assert(text@.take(prefix@.len() as int)[i as int] == text@[i as int]);
            return None;
        }
        i += 1;
    }
    assert(text@.take(prefix@.len() as int) =~= prefix@);
    assert(text@.skip(prefix@.len() as int) =~= chars@.subrange(i as int, chars@.len() as int));
    Some(spell(&chars, i, chars.len()))
}

/// A text occurs in another at a position.
pub open spec fn occurs_at(text: Seq<char>, part: Seq<char>, at: int) -> bool {
    0 <= at && at + part.len() <= text.len() && text.subrange(at, at + part.len()) == part
}

/// The first place of a character.
pub open spec fn is_first(text: Seq<char>, c: char, i: int) -> bool {
    &&& 0 <= i < text.len()
    &&& text[i] == c
    &&& forall|j: int| 0 <= j < i ==> text[j] != c
}

/// Where a character first occurs.
pub open spec fn first_index(text: Seq<char>, c: char) -> Option<int> {
    if exists|i: int| is_first(text, c, i) {
        Some(choose|i: int| is_first(text, c, i))
    } else {
        None
    }
}

/// There is at most one first place.
proof fn lemma_first_index(text: Seq<char>, c: char, i: int)
    requires
        is_first(text, c, i),
    ensures
        first_index(text, c) == Some(i),
{
    let j = choose|j: int| is_first(text, c, j);
    assert(is_first(text, c, j));
    assert(!(i < j) && !(j < i));
}

/// The parts of a text between the places of a character.
pub open spec fn split(text: Seq<char>, c: char) -> Seq<Seq<char>>
    decreases text.len(),
{
    match first_index(text, c) {
        Some(i) => if 0 <= i < text.len() {
            seq![text.take(i)] + split(text.skip(i + 1), c)
        } else {
            seq![text]
        },
        None => seq![text],
    }
}

/// A line without the carriage return of its ending.
pub open spec fn chomp(line: Seq<char>) -> Seq<char> {
    if line.len() > 0 && line.last() == '\r' {
        line.drop_last()
    } else {
        line
    }
}

/// The lines of a text. A line ends with a newline, a carriage return right before which belongs
/// to the ending; the ending of the last line is optional.
pub open spec fn lines(text: Seq<char>) -> Seq<Seq<char>>
    decreases text.len(),
{
    if text.len() == 0 {
        Seq::empty()
    } else {
        match first_index(text, '\n') {
            Some(i) => if 0 <= i < text.len() {
                seq![chomp(text.take(i))] + lines(text.skip(i + 1))
            } else {
                seq![text]
            },
            None => seq![text],
        }
    }
}

/// The characters of each of some texts.
pub open spec fn texts(list: Seq<String>) -> Seq<Seq<char>> {
    list.map_values(|s: String| s@)
}

/// The parts of a text between the places of a character.
pub fn split_text(text: &str, c: char) -> (r: Vec<String>)
    ensures
        texts(r@) == split(text@, c),
{
    let chars = characters(text);
    let mut out: Vec<String> = Vec::new();
    let mut start: usize = 0;
    let mut i: usize = 0;
    assert(text@.skip(0) =~= text@);
    assert(texts(out@) + split(text@, c) =~= split(text@, c));
    while i < chars.len()
        invariant
            start <= i <= chars@.len(),
            chars@ == text@,
            forall|j: int| start <= j < i ==> chars@[j] != c,
            texts(out@) + split(text@.skip(start as int), c) == split(text@, c),
        decreases chars@.len() - i,
    {
        if chars[i] == c {
            let ghost rest = text@.skip(start as int);
            let ghost before = texts(out@);
            out.push(spell(&chars, start, i));
            proof {
                lemma_first_index(rest, c, i - start);
                assert(rest.take(i - start) =~= chars@.subrange(start as int, i as int));
                assert(rest.skip(i - start + 1) =~= text@.skip(i + 1));
                assert(texts(out@) =~= before.push(rest.take(i - start)));
                assert(before + (seq![rest.take(i - start)] + split(text@.skip(i + 1), c))
                    =~= before.push(rest.take(i - start)) + split(text@.skip(i + 1), c));
            }
            start = i + 1;
        }
        i += 1;
    }
    let ghost rest = text@.skip(start as int);
    let ghost before = texts(out@);
    out.push(spell(&chars, start, i));
    proof {
        assert(first_index(rest, c) is None);
        assert(chars@.subrange(start as int, i as int) =~= rest);
        assert(texts(out@) =~= before + seq![rest]);
    }
    out
}

/// The lines of a text.
pub fn text_lines(text: &str) -> (r: Vec<String>)
    ensures
        texts(r@) == lines(text@),
{
    let chars = characters(text);
    let mut out: Vec<String> = Vec::new();
    let mut start: usize = 0;
    let mut i: usize = 0;
    assert(text@.skip(0) =~= text@);
    assert(texts(out@) + lines(text@) =~= lines(text@));
    while i < chars.len()
        invariant
            start <= i <= chars@.len(),
            chars@ == text@,
            forall|j: int| start <= j < i ==> chars@[j] != '\n',
            texts(out@) + lines(text@.skip(start as int)) == lines(text@),
        decreases chars@.len() - i,
    {
        if chars[i] == '\n' {
            let ghost rest = text@.skip(start as int);
            let ghost before = texts(out@);
            let end: usize = if start < i && chars[i - 1] == '\r' {
                i - 1
            } else {
                i
            };
            out.push(spell(&chars, start, end));
            proof {
                lemma_first_index(rest, '\n', i - start);
                let line = rest.take(i - start);
                assert(chomp(line) =~= chars@.subrange(start as int, end as int));
                assert(rest.skip(i - start + 1) =~= text@.skip(i + 1));
                assert(texts(out@) =~= before.push(chomp(line)));
                assert(before + (seq![chomp(line)] + lines(text@.skip(i + 1))) =~= before.push(
                    chomp(line),
                ) + lines(text@.skip(i + 1)));
            }
            start = i + 1;
        }
        i += 1;
    }
    let ghost rest = text@.skip(start as int);
    let ghost before = texts(out@);
    if start < i {
        out.push(spell(&chars, start, i));
        proof {
            assert(first_index(rest, '\n') is None);
            assert(chars@.subrange(start as int, i as int) =~= rest);
            assert(texts(out@) =~= before + seq![rest]);
        }
    } else {
        assert(rest =~= Seq::<char>::empty());
        assert(before + Seq::<Seq<char>>::empty() =~= before);
    }
    out
}

/// A text without the occurrences of a character at its end.
pub open spec fn trim_end(text: Seq<char>, c: char) -> Seq<char>
    decreases text.len(),
{
    if text.len() > 0 && text.last() == c {
        trim_end(text.drop_last(), c)
    } else {
        text
    }
}

/// Where a character last occurs.
pub open spec fn last_index(text: Seq<char>, c: char) -> Option<int>
    decreases text.len(),
{
    if text.len() == 0 {
        None
    } else if text.last() == c {
        Some(text.len() - 1)
    } else {
        last_index(text.drop_last(), c)
    }
}

/// A text without the occurrences of a character at its end.
pub fn trim_end_of(text: &str, c: char) -> (r: String)
    ensures
        r@ == trim_end(text@, c),
{
    let chars = characters(text);
    let mut end: usize = chars.len();
    assert(chars@.take(end as int) =~= text@);
    while end > 0 && chars[end - 1] == c
        invariant
            end <= chars@.len(),
            trim_end(chars@.take(end as int), c) == trim_end(text@, c),
        decreases end,
    {
        assert(chars@.take(end as int).drop_last() =~= chars@.take(end - 1));
        end -= 1;
    }
    assert(chars@.take(end as int) =~= chars@.subrange(0, end as int));
    spell(&chars, 0, end)
}

/// The parts of a text before and after the last occurrence of a character.
pub fn split_last(text: &str, c: char) -> (r: Option<(String, String)>)
    ensures
        match r {
            Some((before, after)) => {
                let i = last_index(text@, c);
                i is Some && before@ == text@.take(i->0) && after@ == text@.skip(i->0 + 1)
            },
            None => last_index(text@, c) is None,
        },
{
    let chars = characters(text);
    let mut end: usize = chars.len();
    assert(chars@.take(end as int) =~= text@);
    while end > 0
        invariant
            end <= chars@.len(),
            chars@ == text@,
            last_index(chars@.take(end as int), c) == last_index(text@, c),
        decreases end,
    {
        assert(chars@.take(end as int).drop_last() =~= chars@.take(end - 1));
        if chars[end - 1] == c {
            assert(text@.take(end - 1) =~= chars@.subrange(0, end - 1));
            assert(text@.skip(end as int) =~= chars@.subrange(end as int, chars@.len() as int));
            return Some((spell(&chars, 0, end - 1), spell(&chars, end, chars.len())));
        }
        end -= 1;
    }
    None
}

/// A decimal digit's value.
pub open spec fn digit_value(c: char) -> nat {
    (c as nat - '0' as nat) as nat
}

/// The character is a decimal digit.
pub open spec fn is_digit(c: char) -> bool {
    '0' <= c <= '9'
}

/// The number that decimal digits stand for.
pub open spec fn digits_value(digits: Seq<char>) -> nat
    decreases digits.len(),
{
    if digits.len() == 0 {
        0
    } else {
        digits_value(digits.drop_last()) * 10 + digit_value(digits.last())
    }
}

/// The digits of a number after an optional plus sign.
pub open spec fn unsigned_digits(text: Seq<char>) -> Seq<char> {
    if text.len() > 0 && text[0] == '+' {
        text.skip(1)
    } else {
        text
    }
}

/// The unsigned number that a text spells: an optional plus sign and at least one digit, no
/// larger than `max`.
pub open spec fn unsigned_value(text: Seq<char>, max: nat) -> Option<nat> {
    let digits = unsigned_digits(text);
    if digits.len() > 0 && (forall|i: int| 0 <= i < digits.len() ==> is_digit(#[trigger] digits[i]))
        && digits_value(digits) <= max {
        Some(digits_value(digits))
    } else {
        None
    }
}

/// More digits never make a number smaller.
proof fn lemma_digits_value_grows(digits: Seq<char>, n: int)
    requires
        0 <= n <= digits.len(),
    ensures
        digits_value(digits.take(n)) <= digits_value(digits),
    decreases digits.len() - n,
{
    if n < digits.len() {
        lemma_digits_value_grows(digits, n + 1);
        assert(digits.take(n + 1).drop_last() =~= digits.take(n));
    } else {
        assert(digits.take(n) =~= digits);
    }
}

/// The unsigned number that a text spells, where it fits.
pub fn parse_unsigned(text: &str, max: u32) -> (r: Option<u32>)
    ensures
        unsigned_value(text@, max as nat) == match r {
            Some(n) => Some(n as nat),
            None => None,
        },
{
    let chars = characters(text);
    let start: usize = if chars.len() > 0 && chars[0] == '+' {
        1
    } else {
        0
    };
    let ghost digits = unsigned_digits(text@);
    assert(digits =~= chars@.skip(start as int));
    if chars.len() == start {
        return None;
    }
    let mut value: u64 = 0;
    let mut i: usize = start;
    while i < chars.len()
        invariant
            start <= i <= chars@.len(),
            digits == chars@.skip(start as int),
            digits == unsigned_digits(text@),
            value == digits_value(digits.take(i - start)),
            value <= max,
            forall|j: int| 0 <= j < i - start ==> is_digit(#[trigger] digits[j]),
        decreases chars@.len() - i,
    {
        let c: char = chars[i];
        assert(digits[i - start] == c);
        if !('0' <= c && c <= '9') {
            return None;
        }
        proof {
            assert(digits.take(i + 1 - start).drop_last() =~= digits.take(i - start));
            lemma_digits_value_grows(digits, i + 1 - start);
        }
        value = value * 10 + (c as u64 - '0' as u64);
        if value > max as u64 {
            return None;
        }
        i += 1;
    }
    assert(digits.take(chars@.len() - start) =~= digits);
    Some(value as u32)
}

/// The decimal digit of a value below ten.
pub open spec fn digit(value: nat) -> char {
    ('0' as nat + value) as char
}

/// The decimal text of a number.
pub open spec fn decimal(n: nat) -> Seq<char>
    decreases n,
{
    if n < 10 {
        seq![digit(n)]
    } else {
        decimal(n / 10).push(digit(n % 10))
    }
}

/// The decimal text of a number.
pub fn decimal_text(n: u64) -> (r: String)
    ensures
        r@ == decimal(n as nat),
    decreases n,
{
    let last: char = (48u8 + (n % 10) as u8) as char;
    if n < 10 {
        let mut out = String::new();
        out.push(last);
        assert(out@ =~= seq![digit(n as nat)]);
        out
    } else {
        let mut out = decimal_text(n / 10);
        out.push(last);
        out
    }
}

} // verus!
