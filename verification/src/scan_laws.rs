//! What holds of cutting and searching, over the texts that go in and come out.
use crate::scan::{
    after, before, decimal, drop_leading, has_part, law_decimal_reads_back, lemma_drop_leading,
    lemma_drop_trailing, lemma_position_is, natural, number, numeral, occurs_at, split,
    strip_repeated, trimmed, value,
};
use crate::text::{control, digit, in_class, letter, version_char, white_space, CharClass};
use vstd::prelude::*;

verus! {

/// Whether every character of `s` is white space.
pub open spec fn blank(s: Seq<char>) -> bool {
    forall|i: int| 0 <= i < s.len() ==> white_space(#[trigger] s[i])
}

/// Whether `s` neither begins nor ends in white space, and is not empty.
pub open spec fn bounded(s: Seq<char>) -> bool {
    s.len() > 0 && !white_space(s[0]) && !white_space(s[s.len() - 1])
}

/// The sets of characters that texts are cut at, by their code points.
pub proof fn law_characters_are_told_apart(c: char)
    ensures
        digit(c) <==> 0x30 <= c as int <= 0x39,
        letter(c) <==> 0x41 <= c as int <= 0x5a || 0x61 <= c as int <= 0x7a,
        version_char(c) <==> digit(c) || letter(c) || "+-."@.contains(c),
        control(c) <==> c as int <= 0x1f || 0x7f <= c as int <= 0x9f,
        white_space(c) <==> {
            ||| 0x9 <= c as int <= 0xd
            ||| c as int == 0x20
            ||| c as int == 0x85
            ||| c as int == 0xa0
            ||| c as int == 0x1680
            ||| 0x2000 <= c as int <= 0x200a
            ||| 0x2028 <= c as int <= 0x2029
            ||| c as int == 0x202f
            ||| c as int == 0x205f
            ||| c as int == 0x3000
        },
        in_class(CharClass::White, c) <==> white_space(c),
        in_class(CharClass::Gap, c) <==> white_space(c) || control(c),
        in_class(CharClass::NotVersion, c) <==> !version_char(c),
        in_class(CharClass::Dot, c) <==> "."@.contains(c),
        in_class(CharClass::AuthorityEnd, c) <==> "/?#"@.contains(c),
        in_class(CharClass::Prose, c) <==> ".,;:!?'\")]}"@.contains(c),
{
    reveal_strlit("+-.");
    reveal_strlit(".");
    reveal_strlit("/?#");
    reveal_strlit(".,;:!?'\")]}");
    let signs = "+-."@;
    let dot = "."@;
    let ends = "/?#"@;
    let prose = ".,;:!?'\")]}"@;
    assert(signs[0] == '+' && signs[1] == '-' && signs[2] == '.');
    assert(dot[0] == '.');
    assert(ends[0] == '/' && ends[1] == '?' && ends[2] == '#');
    assert(prose[0] == '.' && prose[1] == ',' && prose[2] == ';' && prose[3] == ':');
    assert(prose[4] == '!' && prose[5] == '?' && prose[6] == '\'' && prose[7] == '"');
    assert(prose[8] == ')' && prose[9] == ']' && prose[10] == '}');
}

/// Trimming takes the white space off both ends, all of it, and nothing else.
pub proof fn law_trimming_leaves_the_middle(front: Seq<char>, middle: Seq<char>, back: Seq<char>)
    requires
        blank(front),
        blank(back),
        bounded(middle),
    ensures
        trimmed(front + middle + back) == middle,
{
    let s = front + middle + back;
    let n = front.len();
    assert forall|i: int| 0 <= i < n implies white_space(#[trigger] s[i]) by {
        assert(s[i] == front[i]);
    }
    assert(s[n as int] == middle[0]);
    lemma_drop_leading(s, CharClass::White, n);
    let t = s.skip(n as int);
    assert(t =~= middle + back);
    assert forall|i: int| middle.len() <= i < t.len() implies white_space(#[trigger] t[i]) by {
        assert(t[i] == back[i - middle.len()]);
    }
    assert(t[middle.len() - 1] == middle[middle.len() - 1]);
    lemma_drop_trailing(t, CharClass::White, middle.len());
    assert(t.take(middle.len() as int) =~= middle);
}

/// Nothing is left of white space.
pub proof fn law_trimming_leaves_nothing_of_a_blank(s: Seq<char>)
    requires
        blank(s),
    ensures
        trimmed(s).len() == 0,
{
    lemma_drop_leading(s, CharClass::White, s.len());
    assert(drop_leading(s, CharClass::White) =~= Seq::<char>::empty());
}

/// A part is found wherever it stands, and only where it stands.
pub proof fn law_parts_are_found(front: Seq<char>, part: Seq<char>, back: Seq<char>)
    ensures
        has_part(front + part + back, part),
        occurs_at(front + part + back, part, front.len() as int),
{
    let s = front + part + back;
    let n = front.len() as int;
    assert(s.subrange(n, n + part.len() as int) =~= part);
    assert(occurs_at(s, part, n));
}

/// A part stands at a place if and only if all of its characters stand there, one by one.
pub proof fn law_parts_stand_character_by_character(s: Seq<char>, part: Seq<char>, at: int)
    ensures
        occurs_at(s, part, at) <==> (0 <= at && at + part.len() <= s.len() && forall|i: int|
            0 <= i < part.len() ==> s[at + i] == #[trigger] part[i]),
        occurs_at(s, part, at) ==> has_part(s, part),
{
    if 0 <= at && at + part.len() <= s.len() {
        let t = s.subrange(at, at + part.len() as int);
        if forall|i: int| 0 <= i < part.len() ==> s[at + i] == #[trigger] part[i] {
            assert(t =~= part);
        }
        if occurs_at(s, part, at) {
            assert forall|i: int| 0 <= i < part.len() implies s[at + i] == #[trigger] part[i] by {
                assert(t[i] == s[at + i]);
            }
        }
    }
}

/// What is found stands in the text, between what is before and what is behind it.
pub proof fn law_found_parts_are_there(s: Seq<char>, part: Seq<char>)
    requires
        has_part(s, part),
    ensures
        exists|front: Seq<char>, back: Seq<char>| s == #[trigger] ((front + part) + back),
{
    let at = choose|at: int| occurs_at(s, part, at);
    let front = s.take(at);
    let back = s.skip(at + part.len());
    assert(s.subrange(at, at + part.len() as int) =~= part);
    assert(s =~= (front + part) + back) by {
        assert forall|i: int| 0 <= i < s.len() implies s[i] == ((front + part) + back)[i] by {
            if at <= i < at + part.len() {
                assert(s[i] == s.subrange(at, at + part.len() as int)[i - at]);
            }
        }
    }
}

/// Whether `text` is `part` with `a` in front of it and `b` behind it.
pub open spec fn made_of(text: Seq<char>, a: Seq<char>, part: Seq<char>, b: Seq<char>) -> bool {
    text == a + part + b
}

/// A part stands in a text if and only if the text is that part with something, or
/// nothing, on either side.
pub proof fn law_parts_have_surroundings(text: Seq<char>, part: Seq<char>)
    ensures
        has_part(text, part) <==> exists|a: Seq<char>, b: Seq<char>| #[trigger]
            made_of(text, a, part, b),
{
    if has_part(text, part) {
        law_found_parts_are_there(text, part);
        let (a, b) = choose|a: Seq<char>, b: Seq<char>| text == #[trigger] ((a + part) + b);
        assert(made_of(text, a, part, b));
    }
    if exists|a: Seq<char>, b: Seq<char>| #[trigger] made_of(text, a, part, b) {
        let (a, b) = choose|a: Seq<char>, b: Seq<char>| #[trigger] made_of(text, a, part, b);
        law_parts_are_found(a, part, b);
    }
}

/// Whether `s` begins with `part`.
pub open spec fn begins(s: Seq<char>, part: Seq<char>) -> bool {
    s.len() >= part.len() && s.take(part.len() as int) == part
}

/// Whether `s` ends in `part`.
pub open spec fn ends_in(s: Seq<char>, part: Seq<char>) -> bool {
    s.len() >= part.len() && s.skip(s.len() - part.len()) == part
}

/// A text put together begins with what stands in front and ends in what stands behind.
pub proof fn law_endings(front: Seq<char>, back: Seq<char>)
    ensures
        begins(front + back, front),
        ends_in(front + back, back),
{
    let s = front + back;
    assert(s.take(front.len() as int) =~= front);
    assert(s.skip(s.len() - back.len()) =~= back);
}

/// A text begins with a part if and only if it has all of its characters in front.
pub proof fn law_beginnings(s: Seq<char>, part: Seq<char>)
    ensures
        occurs_at(s, part, 0) <==> begins(s, part),
        occurs_at(s, part, 0) <==> (s.len() >= part.len() && forall|i: int|
            0 <= i < part.len() ==> #[trigger] s[i] == part[i]),
{
    if s.len() >= part.len() {
        let t = s.subrange(0, part.len() as int);
        assert(t =~= s.take(part.len() as int));
        if forall|i: int| 0 <= i < part.len() ==> #[trigger] s[i] == part[i] {
            assert(t =~= part);
        }
        if occurs_at(s, part, 0) {
            assert forall|i: int| 0 <= i < part.len() implies #[trigger] s[i] == part[i] by {
                assert(t[i] == s[i]);
            }
        }
    }
}

/// A part in front is taken off, and then the next one; a text that does not begin with
/// it stays.
pub proof fn law_leading_parts_are_taken_off(s: Seq<char>, part: Seq<char>)
    requires
        part.len() > 0,
    ensures
        strip_repeated(part + s, part) == strip_repeated(s, part),
        !occurs_at(s, part, 0) ==> strip_repeated(s, part) == s,
{
    let full = part + s;
    assert(full.subrange(0, part.len() as int) =~= part);
    assert(full.skip(part.len() as int) =~= s);
}

/// A text is cut at the first mark: what stands before it, and what stands behind it.
pub proof fn law_cut_at_the_first_mark(front: Seq<char>, mark: char, back: Seq<char>)
    requires
        forall|i: int| 0 <= i < front.len() ==> #[trigger] front[i] != mark,
    ensures
        before(front + seq![mark] + back, mark) == front,
        after(front + seq![mark] + back, mark) == back,
        before(front, mark) == front,
        after(front, mark).len() == 0,
{
    let s = front + seq![mark] + back;
    assert forall|i: int| 0 <= i < front.len() implies #[trigger] s[i] != mark by {
        assert(s[i] == front[i]);
    }
    assert(s[front.len() as int] == mark);
    lemma_position_is(s, mark, front.len());
    lemma_position_is(front, mark, front.len());
    assert(s.take(front.len() as int) =~= front);
    assert(front.take(front.len() as int) =~= front);
    assert(s.skip(front.len() as int + 1) =~= back);
}

/// A text without a separator is one piece, and each separator begins another.
pub proof fn law_each_separator_begins_a_piece(s: Seq<char>, sep: char, last: Seq<char>)
    requires
        forall|i: int| 0 <= i < last.len() ==> #[trigger] last[i] != sep,
    ensures
        split(last, sep) == seq![last],
        split(s + seq![sep] + last, sep) == split(s, sep).push(last),
    decreases last.len(),
{
    let long = s + seq![sep] + last;
    if last.len() == 0 {
        assert(long.drop_last() =~= s);
        assert(last =~= Seq::<char>::empty());
        assert(split(last, sep) =~= seq![last]);
    } else {
        let shorter = last.drop_last();
        assert forall|i: int| 0 <= i < shorter.len() implies #[trigger] shorter[i] != sep by {
            assert(shorter[i] == last[i]);
        }
        law_each_separator_begins_a_piece(s, sep, shorter);
        assert(long.drop_last() =~= s + seq![sep] + shorter);
        assert(long.last() == last.last());
        assert(last[last.len() - 1] != sep);
        assert(shorter.push(last.last()) =~= last);
        let pieces = split(s + seq![sep] + shorter, sep);
        assert(pieces.drop_last() =~= split(s, sep));
        assert(pieces.last() == shorter);
        assert(split(last, sep) =~= seq![last]);
    }
}

/// The first piece and the rest: a text that has a separator is split into what stands
/// before the first one, and the pieces of what stands behind it.
pub proof fn law_first_piece(first: Seq<char>, sep: char, rest: Seq<char>)
    requires
        forall|i: int| 0 <= i < first.len() ==> #[trigger] first[i] != sep,
    ensures
        split(first + seq![sep] + rest, sep) == seq![first] + split(rest, sep),
        split(rest, sep).len() > 0,
    decreases rest.len(),
{
    let s = first + seq![sep] + rest;
    if rest.len() == 0 {
        law_each_separator_begins_a_piece(first, sep, rest);
        law_each_separator_begins_a_piece(first, sep, first);
        assert(rest =~= Seq::<char>::empty());
        assert(split(s, sep) =~= seq![first] + split(rest, sep));
    } else {
        let fewer = rest.drop_last();
        law_first_piece(first, sep, fewer);
        assert(s.drop_last() =~= first + seq![sep] + fewer);
        assert(s.last() == rest.last());
        let tail = split(fewer, sep);
        let all = seq![first] + tail;
        assert(all.drop_last() =~= seq![first] + tail.drop_last());
        assert(all.last() == tail.last());
        assert(split(s, sep) =~= seq![first] + split(rest, sep));
    }
}

/// Digits count by their place: one more digit makes the number ten times as large, and
/// adds the digit.
pub proof fn law_digits_count_by_place(s: Seq<char>, d: char)
    requires
        digit(d),
    ensures
        value(s.push(d)) == 10 * value(s) + (d as int - '0' as int),
        value(Seq::<char>::empty()) == 0,
{
    assert(s.push(d).drop_last() =~= s);
}

/// A number is written without a zero in front, but for zero itself, in digits that read
/// back as it: so there is one way to write it.
pub proof fn law_decimal_has_no_zero_in_front(n: nat)
    ensures
        numeral(decimal(n)),
        value(decimal(n)) == n,
        n > 0 ==> decimal(n)[0] != '0',
        n == 0 ==> decimal(n) == seq!['0'],
    decreases n,
{
    law_decimal_reads_back(n);
    if n >= 10 {
        law_decimal_has_no_zero_in_front(n / 10);
        law_decimal_reads_back(n / 10);
        assert(decimal(n)[0] == decimal(n / 10)[0]);
    }
}

/// Different numbers are written differently.
pub proof fn law_decimals_differ(a: nat, b: nat)
    ensures
        decimal(a) == decimal(b) ==> a == b,
{
    law_decimal_reads_back(a);
    law_decimal_reads_back(b);
}

/// A numeral is made of digits, at least one, however many, with zeros in front or not.
pub proof fn law_numerals_are_digits(s: Seq<char>)
    ensures
        numeral(s) <==> s.len() > 0 && forall|i: int|
            0 <= i < s.len() ==> 0x30 <= #[trigger] s[i] as int <= 0x39,
{
    if s.len() > 0 && forall|i: int| 0 <= i < s.len() ==> 0x30 <= #[trigger] s[i] as int <= 0x39 {
        assert forall|i: int| 0 <= i < s.len() implies digit(#[trigger] s[i]) by {
            assert(0x30 <= s[i] as int <= 0x39);
        }
    }
    if numeral(s) {
        assert forall|i: int| 0 <= i < s.len() implies 0x30 <= #[trigger] s[i] as int <= 0x39 by {
            assert(digit(s[i]));
        }
    }
}

/// Digits are read as the number that they spell, with or without a plus sign, up to the
/// limit; anything else is no number.
pub proof fn law_numbers_are_digits(s: Seq<char>, max: nat)
    ensures
        numeral(s) && value(s) <= max ==> number(s, max) == Some(value(s)),
        numeral(s) && value(s) <= max ==> number(seq!['+'] + s, max) == Some(value(s)),
        numeral(s) && value(s) > max ==> number(s, max) is None,
        s.len() == 0 ==> number(s, max) is None,
        (exists|i: int| 0 < i < s.len() && !digit(#[trigger] s[i])) ==> number(s, max) is None,
        s.len() > 0 && !digit(s[0]) && s[0] != '+' ==> number(s, max) is None,
        numeral(s) ==> natural(s) == Some(value(s)),
        numeral(s) ==> natural(seq!['+'] + s) == Some(value(s)),
        s.len() == 0 ==> natural(s) is None,
        (exists|i: int| 0 < i < s.len() && !digit(#[trigger] s[i])) ==> natural(s) is None,
        s.len() > 0 && !digit(s[0]) && s[0] != '+' ==> natural(s) is None,
        natural(seq!['+']) is None,
        natural(s) is None ==> number(s, max) is None,
{
    assert(seq!['+'].drop_first() =~= Seq::<char>::empty());
    let signed = seq!['+'] + s;
    assert(signed.drop_first() =~= s);
    if numeral(s) {
        assert(digit(s[0]));
    }
    if exists|i: int| 0 < i < s.len() && !digit(#[trigger] s[i]) {
        let i = choose|i: int| 0 < i < s.len() && !digit(#[trigger] s[i]);
        assert(s.drop_first()[i - 1] == s[i]);
    }
}

} // verus!
