//! What a failure says, over the text of the log: which lines count, what is shown of
//! them, and what is left out.
use crate::log::{
    crashed, headline, headlines, leading, mismatched, missing_export, names_the_cause, never_ready,
    summary,
};
use crate::scan::{has_part, occurs_at, split, strip_repeated, trimmed};
use crate::scan_laws::{
    begins, blank, bounded, law_beginnings, law_leading_parts_are_taken_off, law_parts_are_found,
    law_parts_have_surroundings, law_trimming_leaves_nothing_of_a_blank,
    law_trimming_leaves_the_middle, made_of,
};
use crate::text::white_space;
use vstd::prelude::*;

verus! {

// ---------------------------------------------------------------- one line

/// The tag of a stream in front of a line says nothing: neither one, nor both of them,
/// nor one that comes again.
pub proof fn law_stream_tags_say_nothing(line: Seq<char>)
    ensures
        headline("[out] "@ + line) == headline(line),
        !begins(line, "[out] "@) ==> headline("[err] "@ + line) == headline(line),
{
    reveal_strlit("[out] ");
    reveal_strlit("[err] ");
    law_leading_parts_are_taken_off(line, "[out] "@);
    law_beginnings(line, "[out] "@);
    if !begins(line, "[out] "@) {
        let tagged = "[err] "@ + line;
        law_beginnings(tagged, "[out] "@);
        if occurs_at(tagged, "[out] "@, 0) {
            assert(tagged[1] == "[out] "@[1]);
            assert(false);
        }
        law_leading_parts_are_taken_off(tagged, "[out] "@);
        law_leading_parts_are_taken_off(line, "[err] "@);
    }
}

/// A line counts as soon as it has the word `Error` anywhere, unless it is a frame of a
/// stack: then its headline is its text, without the white space around it. In front of a
/// cause, the mark of it is left out.
pub proof fn law_error_lines_are_headlines(
    front: Seq<char>,
    text: Seq<char>,
    back: Seq<char>,
    a: Seq<char>,
    b: Seq<char>,
)
    requires
        blank(front),
        blank(back),
        bounded(text),
        front.len() == 0 ==> !begins(text, "[out] "@) && !begins(text, "[err] "@),
        text == a + "Error"@ + b,
        !begins(text, "at "@),
    ensures
        headline(front + text + back) is Some,
        !begins(text, "[cause]: "@) ==> headline(front + text + back) == Some(text),
        forall|rest: Seq<char>|
            text == #[trigger] ("[cause]: "@ + rest) && !begins(rest, "[cause]: "@) ==> headline(
                (front + text) + back,
            ) == Some(rest),
{
    reveal_strlit("[cause]: ");
    reveal_strlit("Error");
    reveal_strlit("[out]");
    reveal_strlit("[err]");
    assert(text[a.len() as int] == 'E');
    lemma_inner_text(front, text, back);
    law_parts_are_found(a, "Error"@, b);
    law_beginnings(text, "at "@);
    law_beginnings(text, "[cause]: "@);
    law_leading_parts_are_taken_off(text, "[cause]: "@);
    assert forall|rest: Seq<char>|
        text == #[trigger] ("[cause]: "@ + rest) && !begins(rest, "[cause]: "@) implies headline(
        (front + text) + back,
    ) == Some(rest) by {
        law_leading_parts_are_taken_off(rest, "[cause]: "@);
        law_beginnings(rest, "[cause]: "@);
    }
}

/// A frame of a stack never counts, a line without the word `Error` does not, and an empty
/// one does not.
pub proof fn law_other_lines_are_no_headlines(front: Seq<char>, text: Seq<char>, back: Seq<char>)
    requires
        blank(front),
        blank(back),
        bounded(text),
        front.len() == 0 ==> !begins(text, "[out] "@) && !begins(text, "[err] "@),
        text != "[out]"@ && text != "[err]"@,
    ensures
        begins(text, "at "@) ==> headline(front + text + back) is None,
        (forall|a: Seq<char>, b: Seq<char>| !#[trigger] made_of(text, a, "Error"@, b))
            ==> headline(front + text + back) is None,
        headline(front) is None,
{
    lemma_inner_text(front, text, back);
    law_beginnings(text, "at "@);
    law_parts_have_surroundings(text, "Error"@);
    lemma_blank_line(front);
}

proof fn lemma_blank_line(front: Seq<char>)
    requires
        blank(front),
    ensures
        headline(front) is None,
{
    lemma_no_tag(front, "[out] "@);
    lemma_no_tag(front, "[err] "@);
    law_trimming_leaves_nothing_of_a_blank(front);
    reveal_strlit("Error");
    assert(forall|at: int| !occurs_at(trimmed(front), "Error"@, at));
}

/// White space is no tag.
proof fn lemma_no_tag(s: Seq<char>, tag: Seq<char>)
    requires
        tag == "[out] "@ || tag == "[err] "@,
        s.len() == 0 || white_space(s[0]) || !begins(s, tag),
    ensures
        strip_repeated(s, tag) == s,
{
    reveal_strlit("[out] ");
    reveal_strlit("[err] ");
    law_beginnings(s, tag);
    law_beginnings(s, tag);
    if occurs_at(s, tag, 0) {
        assert(s[0] == tag[0]);
    }
    law_leading_parts_are_taken_off(s, tag);
}

proof fn lemma_inner_text(front: Seq<char>, text: Seq<char>, back: Seq<char>)
    requires
        blank(front),
        blank(back),
        bounded(text),
        front.len() == 0 ==> !begins(text, "[out] "@) && !begins(text, "[err] "@),
        text != "[out]"@ && text != "[err]"@,
    ensures
        trimmed(
            strip_repeated(strip_repeated(front + text + back, "[out] "@), "[err] "@),
        ) == text,
{
    let line = front + text + back;
    if front.len() > 0 {
        assert(line[0] == front[0]);
        assert(white_space(front[0]));
    } else {
        lemma_still_no_tag(text, back, "[out] "@);
        lemma_still_no_tag(text, back, "[err] "@);
        assert(line =~= text + back);
    }
    lemma_no_tag(line, "[out] "@);
    lemma_no_tag(line, "[err] "@);
    law_trimming_leaves_the_middle(front, text, back);
}

/// A text that is cut off within a tag has no tag made of what follows it: only a tag's
/// last character is white space.
proof fn lemma_still_no_tag(text: Seq<char>, back: Seq<char>, tag: Seq<char>)
    requires
        tag == "[out] "@ || tag == "[err] "@,
        bounded(text),
        blank(back),
        !begins(text, tag),
        text != "[out]"@ && text != "[err]"@,
    ensures
        !begins(text + back, tag),
{
    reveal_strlit("[out] ");
    reveal_strlit("[err] ");
    reveal_strlit("[out]");
    reveal_strlit("[err]");
    let line = text + back;
    let n = text.len() as int;
    if begins(line, tag) {
        assert forall|i: int| 0 <= i < 6 implies line[i] == tag[i] by {
            assert(line.take(6)[i] == line[i]);
        }
        if n >= 6 {
            assert(text.take(6) =~= tag);
        } else if n == 5 {
            assert forall|i: int| 0 <= i < 5 implies text[i] == tag[i] by {
                assert(line[i] == text[i]);
            }
            assert(text =~= tag.take(5));
            assert("[out]"@ =~= "[out] "@.take(5));
            assert("[err]"@ =~= "[err] "@.take(5));
        } else {
            assert(line[n] == back[0]);
            assert(white_space(back[0]));
        }
    }
}

// ---------------------------------------------------------------- the whole log

/// How many lines have a headline.
pub open spec fn error_lines(lines: Seq<Seq<char>>) -> nat
    decreases lines.len(),
{
    if lines.len() == 0 {
        0
    } else if headline(lines.last()) is Some {
        error_lines(lines.drop_last()) + 1
    } else {
        error_lines(lines.drop_last())
    }
}

/// How many lines have a headline that names a cause.
pub open spec fn cause_lines(lines: Seq<Seq<char>>) -> nat
    decreases lines.len(),
{
    if lines.len() == 0 {
        0
    } else if headline(lines.last()) matches Some(text) && names_the_cause(text) {
        cause_lines(lines.drop_last()) + 1
    } else {
        cause_lines(lines.drop_last())
    }
}

/// Where four lines or fewer count, the summary has the headline of each of them, and
/// where four or fewer name a cause, it has those of all that do, however many others
/// there are.
pub proof fn law_few_headlines_are_all_shown(raw: Seq<char>, k: int)
    requires
        0 <= k < split(raw, '\n').len(),
        headline(split(raw, '\n')[k]) is Some,
    ensures
        error_lines(split(raw, '\n')) <= 4 ==> summary(Some(raw)).contains(
            headline(split(raw, '\n')[k])->0,
        ),
        cause_lines(split(raw, '\n')) <= 4 && names_the_cause(headline(split(raw, '\n')[k])->0)
            ==> summary(Some(raw)).contains(headline(split(raw, '\n')[k])->0),
{
    let lines = split(raw, '\n');
    let text = headline(lines[k])->0;
    let naming = headlines(lines, true);
    let other = headlines(lines, false);
    let all = naming + other;
    lemma_line_is_listed(lines, k);
    lemma_headlines_are_counted(lines);
    let n = if names_the_cause(text) {
        choose|i: int| 0 <= i < naming.len() && naming[i] == text
    } else {
        naming.len() + choose|i: int| 0 <= i < other.len() && other[i] == text
    };
    assert(all[n] == text);
    if n < 4 {
        assert(leading(lines)[n] == text);
        assert(summary(Some(raw))[n] == text);
    }
}

proof fn lemma_line_is_listed(lines: Seq<Seq<char>>, k: int)
    requires
        0 <= k < lines.len(),
        headline(lines[k]) is Some,
    ensures
        headlines(lines, names_the_cause(headline(lines[k])->0)).contains(headline(lines[k])->0),
    decreases lines.len(),
{
    let text = headline(lines[k])->0;
    let naming = names_the_cause(text);
    let earlier = headlines(lines.drop_last(), naming);
    let list = headlines(lines, naming);
    if k < lines.len() - 1 {
        assert(lines.drop_last()[k] == lines[k]);
        lemma_line_is_listed(lines.drop_last(), k);
        let i = choose|i: int| 0 <= i < earlier.len() && earlier[i] == text;
        assert(list[i] == text);
    } else if !earlier.contains(text) {
        assert(list[list.len() - 1] == text);
    }
}

proof fn lemma_headlines_are_counted(lines: Seq<Seq<char>>)
    ensures
        headlines(lines, true).len() + headlines(lines, false).len() <= error_lines(lines),
        headlines(lines, true).len() <= cause_lines(lines),
    decreases lines.len(),
{
    if lines.len() > 0 {
        lemma_headlines_are_counted(lines.drop_last());
    }
}

/// A log with one line that counts has a summary that holds it: whatever tag and white
/// space are around it, and whatever other lines are around that one.
pub proof fn law_one_error_is_shown(
    raw: Seq<char>,
    k: int,
    tag: Seq<char>,
    front: Seq<char>,
    text: Seq<char>,
    back: Seq<char>,
    a: Seq<char>,
    b: Seq<char>,
)
    requires
        0 <= k < split(raw, '\n').len(),
        split(raw, '\n')[k] == tag + (front + text + back),
        tag.len() == 0 || tag == "[out] "@ || tag == "[err] "@,
        blank(front),
        blank(back),
        bounded(text),
        front.len() == 0 ==> !begins(text, "[out] "@) && !begins(text, "[err] "@),
        text == a + "Error"@ + b,
        !begins(text, "at "@),
        error_lines(split(raw, '\n')) <= 4,
    ensures
        !begins(text, "[cause]: "@) ==> summary(Some(raw)).contains(text),
        forall|rest: Seq<char>|
            text == #[trigger] ("[cause]: "@ + rest) && !begins(rest, "[cause]: "@) ==> summary(
                Some(raw),
            ).contains(rest),
{
    let line = front + text + back;
    law_error_lines_are_headlines(front, text, back, a, b);
    law_stream_tags_say_nothing(line);
    if front.len() > 0 {
        assert(line[0] == front[0]);
        assert(white_space(front[0]));
        reveal_strlit("[out] ");
        if begins(line, "[out] "@) {
            assert(line.take(6)[0] == "[out] "@[0]);
        }
    } else {
        reveal_strlit("Error");
        reveal_strlit("[out]");
        reveal_strlit("[err]");
        assert(text[a.len() as int] == 'E');
        lemma_still_no_tag(text, back, "[out] "@);
        assert(line =~= text + back);
    }
    if tag.len() == 0 {
        assert(tag + line =~= line);
    }
    law_few_headlines_are_all_shown(raw, k);
}

/// A text names a cause if and only if it has one of three phrases in it, wherever it
/// stands; one of them tells of a missing export.
pub proof fn law_causes_are_named(text: Seq<char>)
    ensures
        missing_export(text) <==> exists|a: Seq<char>, b: Seq<char>| #[trigger]
            made_of(text, a, "does not provide an export named"@, b),
        names_the_cause(text) <==> {
            ||| exists|a: Seq<char>, b: Seq<char>| #[trigger] made_of(text, a, "Cannot find"@, b)
            ||| exists|a: Seq<char>, b: Seq<char>| #[trigger]
                made_of(text, a, "already owned by"@, b)
            ||| exists|a: Seq<char>, b: Seq<char>| #[trigger]
                made_of(text, a, "does not provide an export named"@, b)
        },
{
    law_parts_have_surroundings(text, "Cannot find"@);
    law_parts_have_surroundings(text, "already owned by"@);
    law_parts_have_surroundings(text, "does not provide an export named"@);
}

/// The headlines come in the order of their lines: those of a log that goes on begin with
/// those of the log so far, and a line adds its own at the end, unless it is listed.
pub proof fn law_headlines_come_in_order(lines: Seq<Seq<char>>, line: Seq<char>, naming: bool)
    ensures
        headline(line) is None ==> headlines(lines.push(line), naming) == headlines(lines, naming),
        headline(line) matches Some(text) ==> headlines(lines.push(line), naming) == if
            names_the_cause(text) != naming || headlines(lines, naming).contains(text) {
            headlines(lines, naming)
        } else {
            headlines(lines, naming).push(text)
        },
        headlines(Seq::empty(), naming).len() == 0,
{
    assert(lines.push(line).drop_last() =~= lines);
}

/// No line that names a cause stands behind one that names none, and no more than four
/// headlines are shown.
pub proof fn law_causes_come_first(raw: Seq<char>, i: int, j: int)
    requires
        0 <= i < j < leading(split(raw, '\n')).len(),
        names_the_cause(leading(split(raw, '\n'))[j]),
    ensures
        names_the_cause(leading(split(raw, '\n'))[i]),
        j < 4,
{
    let lines = split(raw, '\n');
    let naming = headlines(lines, true);
    let other = headlines(lines, false);
    lemma_sorted(lines, true);
    lemma_sorted(lines, false);
    let all = naming + other;
    assert(leading(lines)[j] == all[j]);
    assert(leading(lines)[i] == all[i]);
    if j >= naming.len() {
        assert(all[j] == other[j - naming.len()]);
        assert(!names_the_cause(other[j - naming.len()]));
    }
    assert(all[i] == naming[i]);
}

proof fn lemma_sorted(lines: Seq<Seq<char>>, naming: bool)
    ensures
        forall|i: int|
            0 <= i < headlines(lines, naming).len() ==> names_the_cause(
                #[trigger] headlines(lines, naming)[i],
            ) == naming,
    decreases lines.len(),
{
    if lines.len() > 0 {
        let earlier = headlines(lines.drop_last(), naming);
        lemma_sorted(lines.drop_last(), naming);
        assert forall|i: int| 0 <= i < headlines(lines, naming).len() implies names_the_cause(
            #[trigger] headlines(lines, naming)[i],
        ) == naming by {
            if i < earlier.len() {
                assert(names_the_cause(earlier[i]) == naming);
            }
        }
    }
}

/// Without a headline of a missing export there is no hint: every line of the summary is
/// the headline of a line of the log.
pub proof fn law_no_hint_without_a_missing_export(raw: Seq<char>)
    requires
        forall|k: int|
            0 <= k < split(raw, '\n').len() ==> (headline(#[trigger] split(raw, '\n')[k]) matches Some(
                text,
            ) ==> !missing_export(text)),
    ensures
        summary(Some(raw)) == leading(split(raw, '\n')),
        summary(Some(raw)).len() <= 4,
{
    let lines = split(raw, '\n');
    lemma_quoted(lines, true);
    if mismatched(lines) {
        let i = choose|i: int|
            0 <= i < headlines(lines, true).len() && missing_export(
                #[trigger] headlines(lines, true)[i],
            );
        let j = choose|j: int|
            0 <= j < lines.len() && headline(#[trigger] lines[j]) == Some(
                headlines(lines, true)[i],
            );
        assert(headline(lines[j]) is Some);
    }
}

proof fn lemma_quoted(lines: Seq<Seq<char>>, naming: bool)
    ensures
        forall|i: int|
            0 <= i < headlines(lines, naming).len() ==> exists|j: int|
                0 <= j < lines.len() && headline(#[trigger] lines[j]) == Some(
                    #[trigger] headlines(lines, naming)[i],
                ),
    decreases lines.len(),
{
    if lines.len() > 0 {
        let fewer = lines.drop_last();
        let earlier = headlines(fewer, naming);
        let list = headlines(lines, naming);
        lemma_quoted(fewer, naming);
        assert forall|i: int| 0 <= i < list.len() implies exists|j: int|
            0 <= j < lines.len() && headline(#[trigger] lines[j]) == Some(#[trigger] list[i]) by {
            if i < earlier.len() {
                assert(list[i] == earlier[i]);
                let j = choose|j: int|
                    0 <= j < fewer.len() && headline(#[trigger] fewer[j]) == Some(earlier[i]);
                assert(lines[j] == fewer[j]);
            } else {
                assert(lines[lines.len() - 1] == lines.last());
            }
        }
    }
}

/// A log that cannot be read says nothing; where the log is, is told in any event, behind
/// what the log says.
pub proof fn law_failures_say_where_the_log_is(log: Option<Seq<char>>, path: Seq<char>)
    ensures
        summary(None).len() == 0,
        never_ready(log, path).drop_last() == summary(log),
        has_part(never_ready(log, path).last(), path),
        crashed(log, path).drop_first() == never_ready(log, path),
        crashed(log, path).last() == never_ready(log, path).last(),
        summary(log).len() <= 5,
{
    let pointer = never_ready(log, path).last();
    let empty = Seq::<char>::empty();
    assert(never_ready(log, path).drop_last() =~= summary(log));
    law_parts_are_found("完整日志："@, path, empty);
    assert(pointer =~= "完整日志："@ + path + empty);
    assert(crashed(log, path).drop_first() =~= never_ready(log, path));
}

} // verus!
