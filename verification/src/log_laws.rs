//! How output becomes lines, and lines become what is logged and shown, over all of it.
use crate::decode::{line_text, lossy};
use crate::log::{completed, left_over, shown, shown_line, tagged};
use crate::scan::lemma_drop_trailing;
use crate::scan_laws::{begins, blank, ends_in, law_endings};
use crate::text::{white_space, CharClass};
use vstd::prelude::*;

verus! {

/// A line is logged whole, behind the tag of its stream and one space; an empty one is not
/// logged. So no two lines of a stream are logged alike.
pub proof fn law_lines_are_logged_whole(prefix: Seq<char>, line: Seq<char>, other: Seq<char>)
    ensures
        line.len() == 0 ==> tagged(prefix, line) is None,
        line.len() > 0 ==> (tagged(prefix, line) matches Some(kept) && {
            &&& kept.len() == prefix.len() + 1 + line.len()
            &&& begins(kept, prefix)
            &&& kept[prefix.len() as int] == ' '
            &&& ends_in(kept, line)
        }),
        tagged(prefix, line) == tagged(prefix, other) ==> line == other,
{
    reveal_strlit(" ");
    let n = prefix.len() + 1;
    law_endings(prefix + " "@, line);
    law_endings(prefix, " "@ + line);
    assert(prefix + " "@ + line =~= prefix + (" "@ + line));
    if line.len() > 0 && other.len() > 0 && tagged(prefix, line) == tagged(prefix, other) {
        assert((prefix + " "@ + line).skip(n as int) =~= line);
        assert((prefix + " "@ + other).skip(n as int) =~= other);
    }
    if line.len() == 0 && other.len() == 0 {
        assert(line =~= other);
    }
}

/// A line that was printed is its text without the white space at its end, and with that in
/// front and within.
pub proof fn law_only_the_end_is_trimmed(bytes: Seq<u8>, text: Seq<char>, back: Seq<char>)
    requires
        blank(back),
        lossy(bytes) == text + back,
        text.len() > 0 ==> !white_space(text[text.len() - 1]),
    ensures
        line_text(bytes) == text,
{
    let s = text + back;
    assert forall|i: int| text.len() <= i < s.len() implies white_space(#[trigger] s[i]) by {
        assert(s[i] == back[i - text.len()]);
    }
    if text.len() > 0 {
        assert(s[text.len() - 1] == text[text.len() - 1]);
    }
    lemma_drop_trailing(s, CharClass::White, text.len());
    assert(s.take(text.len() as int) =~= text);
}

/// Whether bytes have neither a line feed nor a carriage return in them.
pub open spec fn unended(bytes: Seq<u8>) -> bool {
    forall|i: int| 0 <= i < bytes.len() ==> #[trigger] bytes[i] != 10 && bytes[i] != 13
}

/// A stream is cut at each line feed and each carriage return: what came before it, with
/// what was pending, is a line of its own, the end is in no line, and what follows starts
/// afresh. Without an end nothing is complete, and nothing lost.
pub proof fn law_lines_are_cut_at_their_ends(
    pending: Seq<u8>,
    line: Seq<u8>,
    end: u8,
    rest: Seq<u8>,
)
    requires
        unended(line),
        end == 10 || end == 13,
    ensures
        completed(pending, line).len() == 0,
        left_over(pending, line) == pending + line,
        completed(pending, line + seq![end] + rest) == seq![pending + line] + completed(
            Seq::empty(),
            rest,
        ),
        left_over(pending, line + seq![end] + rest) == left_over(Seq::empty(), rest),
    decreases line.len() + rest.len(),
{
    lemma_unended(pending, line);
    let all = line + seq![end] + rest;
    if rest.len() == 0 {
        assert(all.drop_last() =~= line);
        assert(all.last() == end);
        assert(completed(pending, all) =~= seq![pending + line] + completed(Seq::empty(), rest));
    } else {
        let fewer = rest.drop_last();
        law_lines_are_cut_at_their_ends(pending, line, end, fewer);
        assert(all.drop_last() =~= line + seq![end] + fewer);
        assert(all.last() == rest.last());
        assert(completed(pending, all) =~= seq![pending + line] + completed(Seq::empty(), rest));
    }
}

proof fn lemma_unended(pending: Seq<u8>, line: Seq<u8>)
    requires
        unended(line),
    ensures
        completed(pending, line).len() == 0,
        left_over(pending, line) == pending + line,
    decreases line.len(),
{
    if line.len() == 0 {
        assert(pending + line =~= pending);
    } else {
        let fewer = line.drop_last();
        assert(line[line.len() - 1] != 10);
        assert forall|i: int| 0 <= i < fewer.len() implies #[trigger] fewer[i] != 10 && fewer[i]
            != 13 by {
            assert(fewer[i] == line[i]);
        }
        lemma_unended(pending, fewer);
        assert((pending + fewer).push(line.last()) =~= pending + line);
    }
}

/// Every line that has text is shown, in its place, and shown as that text; a blank one is
/// not.
pub proof fn law_lines_with_text_are_shown(lines: Seq<Seq<u8>>, line: Seq<u8>)
    requires
        line.len() > 0,
    ensures
        line_text(line).len() > 0 ==> shown(lines.push(line)) == shown(lines).push(line_text(line)),
        line_text(line).len() == 0 ==> shown(lines.push(line)) == shown(lines),
        shown(lines.push(Seq::empty())) == shown(lines),
        shown(Seq::empty()).len() == 0,
        shown_line(line) is Some <==> line_text(line).len() > 0,
{
    assert(lines.push(line).drop_last() =~= lines);
    assert(lines.push(Seq::empty()).drop_last() =~= lines);
}

} // verus!
