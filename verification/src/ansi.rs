//! Terminal escape sequences.
use crate::text::{chars_of, to_text};
use vstd::prelude::*;

verus! {

/// Where a reader of terminal text is.
#[derive(Clone, Copy, PartialEq, Eq, Structural)]
pub enum Escape {
    /// In plain text.
    Plain,
    /// Right behind an escape character.
    Begun,
    /// Inside a control sequence, before its final character.
    Sequence,
}

/// The escape character.
pub open spec fn is_escape(c: char) -> bool {
    c == '\u{1b}'
}

/// The reader's place after one more character.
pub open spec fn escape_next(place: Escape, c: char) -> Escape {
    match place {
        Escape::Plain => if is_escape(c) {
            Escape::Begun
        } else {
            Escape::Plain
        },
        Escape::Begun => if c == '[' {
            Escape::Sequence
        } else {
            Escape::Plain
        },
        Escape::Sequence => if ends_sequence(c) {
            Escape::Plain
        } else {
            Escape::Sequence
        },
    }
}

/// The reader's place after a text that it starts to read in plain text.
pub open spec fn escape_place(s: Seq<char>) -> Escape
    decreases s.len(),
{
    if s.len() == 0 {
        Escape::Plain
    } else {
        escape_next(escape_place(s.drop_last()), s.last())
    }
}

/// The characters of `s` that are plain text: no escape character, and neither the
/// control sequence nor the single character that one begins.
pub open spec fn plain(s: Seq<char>) -> Seq<char>
    decreases s.len(),
{
    if s.len() == 0 {
        s
    } else if escape_place(s.drop_last()) == Escape::Plain && !is_escape(s.last()) {
        plain(s.drop_last()).push(s.last())
    } else {
        plain(s.drop_last())
    }
}

/// Strips control sequences (`ESC [ ... final`). A command that colours its output
/// would otherwise glue the reset code onto an address.
pub fn strip_ansi(s: &str) -> (out: String)
    ensures
        out@ == plain(s@),
{
    let chars = chars_of(s);
    let mut out: Vec<char> = Vec::new();
    let mut place = Escape::Plain;
    assert(chars@.take(0) =~= Seq::<char>::empty());
    for i in 0..chars.len()
        invariant
            place == escape_place(chars@.take(i as int)),
            out@ == plain(chars@.take(i as int)),
    {
        let c = chars[i];
        proof {
            assert(chars@.take(i + 1).drop_last() =~= chars@.take(i as int));
            assert(chars@.take(i + 1).last() == c);
        }
        match place {
            Escape::Plain => {
                if c == '\u{1b}' {
                    place = Escape::Begun;
                } else {
                    out.push(c);
                }
            },
            Escape::Begun => {
                place = if c == '[' {
                    Escape::Sequence
                } else {
                    Escape::Plain
                };
            },
            Escape::Sequence => {
                if '\u{40}' <= c && c <= '\u{7e}' {
                    place = Escape::Plain;
                }
            },
        }
    }
    assert(chars@.take(chars.len() as int) =~= chars@);
    to_text(&out)
}

/// Whether a text has no escape character.
pub open spec fn unescaped(s: Seq<char>) -> bool {
    forall|i: int| 0 <= i < s.len() ==> !is_escape(#[trigger] s[i])
}

/// Nothing is left to strip from a stripped text.
pub proof fn law_plain_has_no_escape(s: Seq<char>)
    ensures
        unescaped(plain(s)),
    decreases s.len(),
{
    if s.len() > 0 {
        law_plain_has_no_escape(s.drop_last());
    }
}

/// A text without escape characters stays as it is.
pub proof fn law_plain_keeps_plain_text(s: Seq<char>)
    requires
        unescaped(s),
    ensures
        plain(s) == s,
        escape_place(s) == Escape::Plain,
    decreases s.len(),
{
    if s.len() > 0 {
        assert forall|i: int| 0 <= i < s.drop_last().len() implies !is_escape(
            #[trigger] s.drop_last()[i],
        ) by {
            assert(s.drop_last()[i] == s[i]);
        }
        law_plain_keeps_plain_text(s.drop_last());
        assert(!is_escape(s[s.len() - 1]));
        assert(s.drop_last().push(s.last()) =~= s);
    }
}

/// Text behind a text that ends in plain text is stripped on its own.
pub proof fn law_plain_goes_piece_by_piece(a: Seq<char>, b: Seq<char>)
    requires
        escape_place(a) == Escape::Plain,
    ensures
        plain(a + b) == plain(a) + plain(b),
        escape_place(a + b) == escape_place(b),
    decreases b.len(),
{
    if b.len() == 0 {
        assert(a + b =~= a);
        assert(plain(a) + plain(b) =~= plain(a));
    } else {
        law_plain_goes_piece_by_piece(a, b.drop_last());
        assert((a + b).drop_last() =~= a + b.drop_last());
        assert((a + b).last() == b.last());
        assert(plain(a + b) =~= plain(a) + plain(b));
    }
}

/// Whether a character ends a control sequence.
pub open spec fn ends_sequence(c: char) -> bool {
    '\u{40}' <= c <= '\u{7e}'
}

/// A control sequence: `ESC [`, whatever does not end it, and what does.
pub open spec fn control_sequence(inside: Seq<char>, end: char) -> Seq<char> {
    seq!['\u{1b}', '['] + inside + seq![end]
}

/// A control sequence goes without a trace, wherever it stands in plain text.
pub proof fn law_control_sequence_is_removed(
    a: Seq<char>,
    inside: Seq<char>,
    end: char,
    b: Seq<char>,
)
    requires
        escape_place(a) == Escape::Plain,
        forall|i: int| 0 <= i < inside.len() ==> !ends_sequence(#[trigger] inside[i]),
        ends_sequence(end),
    ensures
        plain(a + control_sequence(inside, end) + b) == plain(a + b),
        plain(a + b) == plain(a) + plain(b),
{
    let sequence = control_sequence(inside, end);
    lemma_sequence_is_open(inside);
    assert(sequence.drop_last() =~= seq!['\u{1b}', '['] + inside);
    law_plain_goes_piece_by_piece(a, sequence);
    law_plain_goes_piece_by_piece(a + sequence, b);
    law_plain_goes_piece_by_piece(a, b);
    assert(plain(a) + plain(sequence) =~= plain(a));
}

proof fn lemma_sequence_is_open(inside: Seq<char>)
    requires
        forall|i: int| 0 <= i < inside.len() ==> !ends_sequence(#[trigger] inside[i]),
    ensures
        escape_place(seq!['\u{1b}', '['] + inside) == Escape::Sequence,
        plain(seq!['\u{1b}', '['] + inside) == Seq::<char>::empty(),
    decreases inside.len(),
{
    let s = seq!['\u{1b}', '['] + inside;
    if inside.len() == 0 {
        assert(s.drop_last() =~= seq!['\u{1b}']);
        assert(s.drop_last().drop_last() =~= Seq::<char>::empty());
        assert(escape_place(s.drop_last().drop_last()) == Escape::Plain);
        assert(escape_place(s.drop_last()) == Escape::Begun);
        assert(plain(s.drop_last().drop_last()) == Seq::<char>::empty());
        assert(plain(s.drop_last()) == Seq::<char>::empty());
    } else {
        let fewer = inside.drop_last();
        assert forall|i: int| 0 <= i < fewer.len() implies !ends_sequence(#[trigger] fewer[i]) by {
            assert(fewer[i] == inside[i]);
        }
        lemma_sequence_is_open(fewer);
        assert(s.drop_last() =~= seq!['\u{1b}', '['] + fewer);
        assert(!ends_sequence(inside[inside.len() - 1]));
    }
}

/// The characters that begin and end a sequence, by their code points.
pub proof fn law_marks_of_a_sequence(c: char)
    ensures
        is_escape(c) <==> c as int == 0x1b,
        ends_sequence(c) <==> 0x40 <= c as int <= 0x7e,
{
}

/// Plain text stays in front of a sequence and behind it, character by character.
pub proof fn law_text_around_a_sequence_stays(
    a: Seq<char>,
    inside: Seq<char>,
    end: char,
    b: Seq<char>,
)
    requires
        unescaped(a),
        unescaped(b),
        forall|i: int| 0 <= i < inside.len() ==> !ends_sequence(#[trigger] inside[i]),
        ends_sequence(end),
    ensures
        plain(a + control_sequence(inside, end) + b) == a + b,
{
    law_plain_keeps_plain_text(a);
    law_plain_keeps_plain_text(b);
    law_control_sequence_is_removed(a, inside, end, b);
}

/// An escape character that begins no sequence takes the one character behind it along,
/// and no more.
pub proof fn law_stray_escape_takes_one_character(a: Seq<char>, c: char, b: Seq<char>)
    requires
        unescaped(a),
        c != '[',
    ensures
        plain(a + seq!['\u{1b}', c] + b) == a + plain(b),
{
    let pair = seq!['\u{1b}', c];
    law_plain_keeps_plain_text(a);
    assert(pair.drop_last() =~= seq!['\u{1b}']);
    assert(pair.drop_last().drop_last() =~= Seq::<char>::empty());
    assert(escape_place(pair.drop_last().drop_last()) == Escape::Plain);
    assert(escape_place(pair.drop_last()) == Escape::Begun);
    assert(plain(pair.drop_last()) == plain(Seq::<char>::empty()));
    assert(plain(pair) =~= Seq::<char>::empty());
    assert(escape_place(pair) == Escape::Plain);
    law_plain_goes_piece_by_piece(a, pair);
    law_plain_goes_piece_by_piece(a + pair, b);
    assert(plain(a) + plain(pair) =~= a);
}

/// A sequence that does not end takes the rest of the text along, and an escape character
/// at the very end goes alone.
pub proof fn law_open_sequence_takes_the_rest(a: Seq<char>, inside: Seq<char>)
    requires
        unescaped(a),
        forall|i: int| 0 <= i < inside.len() ==> !ends_sequence(#[trigger] inside[i]),
    ensures
        plain(a + (seq!['\u{1b}', '['] + inside)) == a,
        plain(a.push('\u{1b}')) == a,
{
    law_plain_keeps_plain_text(a);
    lemma_sequence_is_open(inside);
    law_plain_goes_piece_by_piece(a, seq!['\u{1b}', '['] + inside);
    assert(a + Seq::<char>::empty() =~= a);
    assert(a.push('\u{1b}').drop_last() =~= a);
}

/// Stripping twice is stripping once.
pub proof fn law_plain_is_idempotent(s: Seq<char>)
    ensures
        plain(plain(s)) == plain(s),
{
    law_plain_has_no_escape(s);
    law_plain_keeps_plain_text(plain(s));
}

} // verus!
