//! Versions, over their texts: which one is found, and what decides between two of them.
use crate::scan::{
    before, drop_trailing, lemma_drop_trailing, lemma_drop_trailing_prefix, lemma_position,
    lemma_until, lemma_until_is, numeral, position, split, until, value,
};
use crate::scan_laws::{
    law_cut_at_the_first_mark, law_each_separator_begins_a_piece, law_first_piece,
    law_numbers_are_digits,
};
use crate::text::{digit, in_class, version_char, CharClass};
use crate::version::{
    component, found_version, has_minor, head, part_order, parts_order, precedence, prerelease,
    prerelease_order, relation, release, release_order, tail, text_order, version_at,
    version_from, version_token, without_build, Rank, VersionRelation,
};
use crate::version_laws::{free_of, law_precedence_reverses, lemma_release_and_suffix};
use vstd::prelude::*;

verus! {

// ---------------------------------------------------------------- finding

/// Whether `v` has the shape of a version: digits and letters and `.+-`, a digit in
/// front, no full stop at the end, and behind the first full stop another character
/// that is none.
pub open spec fn version_shaped(v: Seq<char>) -> bool {
    &&& v.len() > 0
    &&& digit(v[0])
    &&& v[v.len() - 1] != '.'
    &&& forall|k: int| 0 <= k < v.len() ==> version_char(#[trigger] v[k])
    &&& exists|p: int| #[trigger] minor_follows(v, p)
}

/// Whether the first full stop of `v` is at `p`, with something in front of it and
/// another character than a full stop behind it.
pub open spec fn minor_follows(v: Seq<char>, p: int) -> bool {
    &&& 0 < p < v.len() - 1
    &&& v[p] == '.'
    &&& v[p + 1] != '.'
    &&& forall|k: int| 0 <= k < p ==> #[trigger] v[k] != '.'
}

/// Whether the version `v` stands in `text` at `i`, as a whole: not as the tail of a
/// number, and with nothing behind it that could belong to it but full stops.
pub open spec fn stands_at(text: Seq<char>, v: Seq<char>, i: int) -> bool {
    &&& 0 <= i
    &&& i + v.len() <= text.len()
    &&& text.subrange(i, i + v.len() as int) == v
    &&& version_shaped(v)
    &&& i > 0 ==> !digit(text[i - 1]) && text[i - 1] != '.'
    &&& exists|end: int| #[trigger] stops_until(text, i + v.len() as int, end)
}

/// Whether `text` has full stops from `from` up to `end`, and there ends, or has a
/// character that cannot stand in a version.
pub open spec fn stops_until(text: Seq<char>, from: int, end: int) -> bool {
    &&& from <= end <= text.len()
    &&& forall|k: int| from <= k < end ==> #[trigger] text[k] == '.'
    &&& end < text.len() ==> !version_char(text[end])
}

proof fn lemma_minor(v: Seq<char>)
    ensures
        has_minor(v) <==> exists|p: int| #[trigger] minor_follows(v, p),
{
    lemma_position(v, '.');
    let p = position(v, '.') as int;
    if p == v.len() {
        law_each_separator_begins_a_piece(v, '.', v);
        assert(forall|q: int| #[trigger] minor_follows(v, q) ==> v[q] == '.');
    } else {
        let first = v.take(p);
        let rest = v.skip(p + 1);
        assert(v =~= first + seq!['.'] + rest);
        law_first_piece(first, '.', rest);
        let parts = split(v, '.');
        assert(parts[0] == first);
        assert(parts[1] == split(rest, '.')[0]);
        lemma_position(rest, '.');
        let q = position(rest, '.') as int;
        if q == rest.len() {
            law_each_separator_begins_a_piece(rest, '.', rest);
            assert(parts[1] == rest);
        } else {
            let second = rest.take(q);
            let third = rest.skip(q + 1);
            assert(rest =~= second + seq!['.'] + third);
            law_first_piece(second, '.', third);
            assert(parts[1] == second);
        }
        if has_minor(v) {
            assert(rest[0] == v[p + 1]);
            assert(minor_follows(v, p));
        }
        if exists|r: int| #[trigger] minor_follows(v, r) {
            let r = choose|r: int| #[trigger] minor_follows(v, r);
            if r < p {
                assert(v[r] != '.');
            } else if p < r {
                assert(v[p] != '.');
            }
            assert(rest[0] == v[p + 1]);
            assert(q != 0);
        }
    }
}

/// What was taken off the end belongs to the class.
proof fn lemma_dropped(s: Seq<char>, class: CharClass)
    ensures
        drop_trailing(s, class).len() <= s.len(),
        forall|k: int|
            drop_trailing(s, class).len() <= k < s.len() ==> in_class(class, #[trigger] s[k]),
    decreases s.len(),
{
    if s.len() > 0 && in_class(class, s.last()) {
        let t = s.drop_last();
        lemma_dropped(t, class);
        assert forall|k: int| drop_trailing(s, class).len() <= k < s.len() implies in_class(
            class,
            #[trigger] s[k],
        ) by {
            if k < t.len() {
                assert(s[k] == t[k]);
            }
        }
    }
}

proof fn lemma_stands(text: Seq<char>, v: Seq<char>, i: int)
    requires
        0 <= i < text.len(),
    ensures
        stands_at(text, v, i) <==> (version_at(text, i) && v == version_token(text, i)),
{
    let rest = text.skip(i);
    if stands_at(text, v, i) {
        let n = i + v.len() as int;
        let end = choose|end: int| #[trigger] stops_until(text, n, end);
        let m = (end - i) as nat;
        assert forall|k: int| 0 <= k < m implies !in_class(
            CharClass::NotVersion,
            #[trigger] rest[k],
        ) by {
            assert(rest[k] == text[i + k]);
            if i + k < n {
                assert(text.subrange(i, n)[k] == v[k]);
                assert(version_char(v[k]));
            }
        }
        if m < rest.len() {
            assert(rest[m as int] == text[end]);
        }
        lemma_until_is(rest, CharClass::NotVersion, m);
        let run = rest.take(m as int);
        assert forall|k: int| v.len() <= k < run.len() implies in_class(
            CharClass::Dot,
            #[trigger] run[k],
        ) by {
            assert(run[k] == text[i + k]);
        }
        assert(run[v.len() - 1] == text.subrange(i, n)[v.len() - 1]);
        lemma_drop_trailing(run, CharClass::Dot, v.len());
        assert(run.take(v.len() as int) =~= text.subrange(i, n));
        assert(version_token(text, i) == v);
        assert(text[i] == text.subrange(i, n)[0]);
        lemma_minor(v);
        assert(version_at(text, i));
    }
    if version_at(text, i) && v == version_token(text, i) {
        let m = until(rest, CharClass::NotVersion);
        lemma_until(rest, CharClass::NotVersion);
        let run = rest.take(m as int);
        lemma_drop_trailing_prefix(run, CharClass::Dot);
        lemma_dropped(run, CharClass::Dot);
        lemma_minor(v);
        let p = choose|p: int| #[trigger] minor_follows(v, p);
        let n = i + v.len() as int;
        let end = i + m as int;
        assert(text.subrange(i, n) =~= v);
        assert forall|k: int| 0 <= k < v.len() implies version_char(#[trigger] v[k]) by {
            assert(v[k] == rest[k]);
            assert(!in_class(CharClass::NotVersion, rest[k]));
        }
        assert(v[0] == text[i]);
        assert forall|k: int| n <= k < end implies #[trigger] text[k] == '.' by {
            assert(run[k - i] == text[k]);
            assert(in_class(CharClass::Dot, run[k - i]));
        }
        if end < text.len() {
            assert(rest[m as int] == text[end]);
        }
        assert(stops_until(text, n, end));
    }
}

/// Whether no version stands in `text` from `from` up to `to`.
pub open spec fn none_between(text: Seq<char>, from: int, to: int) -> bool {
    forall|w: Seq<char>, j: int| from <= j < to ==> !#[trigger] stands_at(text, w, j)
}

/// Whether `v` stands in `text` at `i`, and nothing from `from` up to there.
pub open spec fn first_from(text: Seq<char>, v: Seq<char>, from: int, i: int) -> bool {
    from <= i && stands_at(text, v, i) && none_between(text, from, i)
}

proof fn lemma_first_version(text: Seq<char>, from: int) -> (i: int)
    requires
        0 <= from,
    ensures
        version_from(text, from) is Some ==> first_from(
            text,
            version_from(text, from)->0,
            from,
            i,
        ),
        version_from(text, from) is None ==> none_between(text, from, text.len() as int),
    decreases text.len() - from,
{
    if from >= text.len() {
        from
    } else if version_at(text, from) {
        lemma_stands(text, version_token(text, from), from);
        from
    } else {
        let i = lemma_first_version(text, from + 1);
        assert forall|w: Seq<char>| !#[trigger] stands_at(text, w, from) by {
            lemma_stands(text, w, from);
        }
        if version_from(text, from) is Some {
            lemma_none_between(text, from, i);
        } else {
            lemma_none_between(text, from, text.len() as int);
        }
        i
    }
}

proof fn lemma_none_between(text: Seq<char>, from: int, to: int)
    requires
        none_between(text, from + 1, to),
        forall|w: Seq<char>| !#[trigger] stands_at(text, w, from),
    ensures
        none_between(text, from, to),
{
}

/// The version that is found stands in the text, whole, and no other stands before it;
/// and where none is found, none stands in the text.
pub proof fn law_first_version_is_found(text: Seq<char>)
    ensures
        found_version(text) matches Some(v) ==> exists|i: int| #[trigger]
            first_from(text, v, 0, i),
        found_version(text) is None ==> none_between(text, 0, text.len() as int),
{
    let i = lemma_first_version(text, 0);
    if found_version(text) is Some {
        assert(first_from(text, found_version(text)->0, 0, i));
    }
}

/// Whether `s` can continue a version behind its minor number: nothing, or `.`, `-` or
/// `+` and further characters of a version, the last of them no full stop.
pub open spec fn continues_version(s: Seq<char>) -> bool {
    s.len() == 0 || {
        &&& s[0] == '.' || s[0] == '-' || s[0] == '+'
        &&& s[s.len() - 1] != '.'
        &&& forall|k: int| 0 <= k < s.len() ==> version_char(#[trigger] s[k])
    }
}

/// A major and a minor number, of whatever length, and what may follow them, are a
/// version: it is found as it stands, on its own and within a text.
pub proof fn law_numbers_make_a_version(
    front: Seq<char>,
    major: Seq<char>,
    minor: Seq<char>,
    more: Seq<char>,
    stops: Seq<char>,
    back: Seq<char>,
)
    requires
        numeral(major),
        numeral(minor),
        continues_version(more),
        forall|i: int| 0 <= i < front.len() ==> !digit(#[trigger] front[i]),
        front.len() > 0 ==> front.last() != '.',
        forall|i: int| 0 <= i < stops.len() ==> #[trigger] stops[i] == '.',
        back.len() > 0 ==> !version_char(back[0]),
    ensures
        found_version(major + seq!['.'] + minor + more) == Some(major + seq!['.'] + minor + more),
        found_version(front + (major + seq!['.'] + minor + more) + stops + back) == Some(
            major + seq!['.'] + minor + more,
        ),
{
    let v = major + seq!['.'] + minor + more;
    let p = major.len() as int;
    let q = p + 1 + minor.len() as int;
    assert forall|k: int| 0 <= k < v.len() implies version_char(#[trigger] v[k]) && (k < p ==> v[k]
        != '.') by {
        if k < p {
            assert(v[k] == major[k]);
            assert(digit(major[k]));
        } else if p < k < q {
            assert(v[k] == minor[k - p - 1]);
            assert(digit(minor[k - p - 1]));
        } else if k >= q {
            assert(v[k] == more[k - q]);
            assert(version_char(more[k - q]));
        }
    }
    assert(v[0] == major[0] && digit(major[0]));
    assert(v[p] == '.');
    assert(v[p + 1] == minor[0] && digit(minor[0]));
    if more.len() > 0 {
        assert(v[v.len() - 1] == more[more.len() - 1]);
    } else {
        assert(v[v.len() - 1] == minor[minor.len() - 1]);
        assert(digit(minor[minor.len() - 1]));
    }
    assert(minor_follows(v, p));
    assert(version_shaped(v));
    let empty = Seq::<char>::empty();
    lemma_found(empty, v, empty, empty);
    assert(empty + v + empty + empty =~= v);
    lemma_found(front, v, stops, back);
}

proof fn lemma_found(front: Seq<char>, v: Seq<char>, stops: Seq<char>, back: Seq<char>)
    requires
        version_shaped(v),
        forall|i: int| 0 <= i < front.len() ==> !digit(#[trigger] front[i]),
        front.len() > 0 ==> front.last() != '.',
        forall|i: int| 0 <= i < stops.len() ==> #[trigger] stops[i] == '.',
        back.len() > 0 ==> !version_char(back[0]),
    ensures
        found_version(front + v + stops + back) == Some(v),
{
    let text = front + v + stops + back;
    let n = front.len() as int;
    let from = n + v.len() as int;
    let end = from + stops.len() as int;
    assert(text.subrange(n, from) =~= v);
    assert forall|k: int| from <= k < end implies #[trigger] text[k] == '.' by {
        assert(text[k] == stops[k - from]);
    }
    if back.len() > 0 {
        assert(text[end] == back[0]);
    }
    if n > 0 {
        assert(text[n - 1] == front[n - 1]);
    }
    assert(stops_until(text, from, end));
    assert(stands_at(text, v, n));
    lemma_stands(text, v, n);
    lemma_none_before(text, n, 0);
}

proof fn lemma_none_before(text: Seq<char>, n: int, from: int)
    requires
        0 <= from <= n <= text.len(),
        forall|i: int| 0 <= i < n ==> !digit(#[trigger] text[i]),
    ensures
        version_from(text, from) == version_from(text, n),
    decreases n - from,
{
    if from < n {
        assert(!digit(text[from]));
        lemma_none_before(text, n, from + 1);
    }
}

// ---------------------------------------------------------------- ordering

/// Words are ordered by the first character in which they differ; a word sorts below one
/// that it is the beginning of; and only equal words are level.
pub proof fn law_words_go_by_the_first_difference(a: Seq<char>, b: Seq<char>, k: int)
    requires
        0 <= k <= a.len(),
        k <= b.len(),
        forall|i: int| 0 <= i < k ==> #[trigger] a[i] == b[i],
    ensures
        k < a.len() && k < b.len() && a[k] < b[k] ==> text_order(a, b) == Rank::Below,
        k < a.len() && k < b.len() && a[k] > b[k] ==> text_order(a, b) == Rank::Above,
        k == a.len() && k < b.len() ==> text_order(a, b) == Rank::Below,
        k < a.len() && k == b.len() ==> text_order(a, b) == Rank::Above,
        text_order(a, b) == Rank::Level <==> a == b,
    decreases a.len(),
{
    if a.len() > 0 && b.len() > 0 && a[0] == b[0] {
        let x = a.drop_first();
        let y = b.drop_first();
        let n: int = if k > 0 {
            k - 1
        } else {
            0
        };
        assert forall|i: int| 0 <= i < n implies #[trigger] x[i] == y[i] by {
            assert(a[i + 1] == b[i + 1]);
        }
        law_words_go_by_the_first_difference(x, y, n);
        if x == y {
            assert(a =~= seq![a[0]] + x);
            assert(b =~= seq![b[0]] + y);
        }
    } else if k > 0 {
        assert(a[0] == b[0]);
    } else if a.len() == 0 && b.len() == 0 {
        assert(a =~= b);
    }
}

/// Whether `s` is no number: neither digits alone, nor a plus sign and digits.
pub open spec fn word(s: Seq<char>) -> bool {
    !numeral(s) && !(s.len() > 0 && s[0] == '+' && numeral(s.drop_first()))
}

/// Two parts of a prerelease: numbers go by what they count, a number is below a word,
/// and words go by the first character in which they differ.
pub proof fn law_parts_are_ordered(a: Seq<char>, b: Seq<char>, k: int)
    ensures
        numeral(a) && numeral(b) && value(a) < value(b) ==> part_order(a, b) == Rank::Below,
        numeral(a) && numeral(b) && value(a) > value(b) ==> part_order(a, b) == Rank::Above,
        numeral(a) && numeral(b) && value(a) == value(b) ==> part_order(a, b) == Rank::Level,
        numeral(a) && word(b) ==> part_order(a, b) == Rank::Below,
        word(a) && numeral(b) ==> part_order(a, b) == Rank::Above,
        numeral(a) ==> part_order(seq!['+'] + a, b) == part_order(a, b),
        numeral(b) ==> part_order(a, seq!['+'] + b) == part_order(a, b),
        word(a) && word(b) ==> (part_order(a, b) == Rank::Level <==> a == b),
        word(a) && word(b) && 0 <= k < a.len() && k < b.len() && a.take(k) == b.take(k) && a[k]
            < b[k] ==> part_order(a, b) == Rank::Below,
        word(a) && word(b) && 0 <= k < a.len() && k < b.len() && a.take(k) == b.take(k) && a[k]
            > b[k] ==> part_order(a, b) == Rank::Above,
        word(a) && word(b) && a.len() < b.len() && b.take(a.len() as int) == a ==> part_order(a, b)
            == Rank::Below,
        word(a) && word(b) && b.len() < a.len() && a.take(b.len() as int) == b ==> part_order(a, b)
            == Rank::Above,
{
    law_numbers_are_digits(a, 0);
    law_numbers_are_digits(b, 0);
    law_words_go_by_the_first_difference(a, b, 0);
    if 0 <= k < a.len() && k < b.len() && a.take(k) == b.take(k) {
        assert forall|i: int| 0 <= i < k implies #[trigger] a[i] == b[i] by {
            assert(a.take(k)[i] == b.take(k)[i]);
        }
        law_words_go_by_the_first_difference(a, b, k);
    }
    if a.len() < b.len() && b.take(a.len() as int) == a {
        assert forall|i: int| 0 <= i < a.len() implies #[trigger] a[i] == b[i] by {
            assert(b.take(a.len() as int)[i] == b[i]);
        }
        law_words_go_by_the_first_difference(a, b, a.len() as int);
    }
    if b.len() < a.len() && a.take(b.len() as int) == b {
        assert forall|i: int| 0 <= i < b.len() implies #[trigger] a[i] == b[i] by {
            assert(a.take(b.len() as int)[i] == a[i]);
        }
        law_words_go_by_the_first_difference(a, b, b.len() as int);
    }
    if numeral(a) {
        assert(digit(a[0]));
    }
    if numeral(b) {
        assert(digit(b[0]));
    }
}

/// Prereleases are ordered by the first of their parts in which they are not level; one
/// sorts below another that goes on behind its last part.
pub proof fn law_prereleases_go_by_the_first_difference(a: Seq<char>, b: Seq<char>, k: int)
    requires
        0 <= k <= split(a, '.').len(),
        k <= split(b, '.').len(),
        forall|i: int|
            0 <= i < k ==> part_order(#[trigger] split(a, '.')[i], split(b, '.')[i]) == Rank::Level,
    ensures
        k < split(a, '.').len() && k < split(b, '.').len() && part_order(
            split(a, '.')[k],
            split(b, '.')[k],
        ) != Rank::Level ==> prerelease_order(a, b) == part_order(
            split(a, '.')[k],
            split(b, '.')[k],
        ),
        k == split(a, '.').len() && k < split(b, '.').len() ==> prerelease_order(a, b)
            == Rank::Below,
        k < split(a, '.').len() && k == split(b, '.').len() ==> prerelease_order(a, b)
            == Rank::Above,
        k == split(a, '.').len() && k == split(b, '.').len() ==> prerelease_order(a, b)
            == Rank::Level,
{
    lemma_parts_decided(split(a, '.'), split(b, '.'), k);
}

proof fn lemma_parts_decided(a: Seq<Seq<char>>, b: Seq<Seq<char>>, k: int)
    requires
        0 <= k <= a.len(),
        k <= b.len(),
        forall|i: int| 0 <= i < k ==> part_order(#[trigger] a[i], b[i]) == Rank::Level,
    ensures
        k < a.len() && k < b.len() && part_order(a[k], b[k]) != Rank::Level ==> parts_order(a, b)
            == part_order(a[k], b[k]),
        k == a.len() && k < b.len() ==> parts_order(a, b) == Rank::Below,
        k < a.len() && k == b.len() ==> parts_order(a, b) == Rank::Above,
        k == a.len() && k == b.len() ==> parts_order(a, b) == Rank::Level,
    decreases k,
{
    if k > 0 {
        let x = a.drop_first();
        let y = b.drop_first();
        assert(part_order(a[0], b[0]) == Rank::Level);
        assert forall|i: int| 0 <= i < k - 1 implies part_order(#[trigger] x[i], y[i])
            == Rank::Level by {
            assert(part_order(a[i + 1], b[i + 1]) == Rank::Level);
        }
        lemma_parts_decided(x, y, k - 1);
    }
}

/// What the `i`-th piece of a release counts for: its number, and nothing where it is
/// none or is missing.
pub open spec fn counted(core: Seq<char>, i: int) -> nat {
    if 0 <= i < split(core, '.').len() && numeral(split(core, '.')[i]) {
        value(split(core, '.')[i])
    } else {
        0
    }
}

/// A version, put together: its release, a prerelease behind a hyphen and build metadata
/// behind a plus sign, where there are any.
pub open spec fn version_text(core: Seq<char>, pre: Seq<char>, build: Seq<char>) -> Seq<char> {
    core + suffix_text(pre, build)
}

/// What follows the release in a version.
pub open spec fn suffix_text(pre: Seq<char>, build: Seq<char>) -> Seq<char> {
    (if pre.len() > 0 {
        seq!['-'] + pre
    } else {
        Seq::empty()
    }) + (if build.len() > 0 {
        seq!['+'] + build
    } else {
        Seq::empty()
    })
}

/// The version with the greater number in the first piece of the release in which two of
/// them differ is the newer one, whatever else they say.
pub proof fn law_releases_go_by_the_first_difference(
    a: Seq<char>,
    a_pre: Seq<char>,
    a_build: Seq<char>,
    b: Seq<char>,
    b_pre: Seq<char>,
    b_build: Seq<char>,
    k: int,
)
    requires
        free_of(a, '+') && free_of(a, '-') && free_of(a_pre, '+'),
        free_of(b, '+') && free_of(b, '-') && free_of(b_pre, '+'),
        0 <= k,
        forall|i: int| 0 <= i < k ==> #[trigger] counted(a, i) == counted(b, i),
        counted(a, k) > counted(b, k),
    ensures
        precedence(version_text(a, a_pre, a_build), version_text(b, b_pre, b_build))
            == Rank::Above,
        precedence(version_text(b, b_pre, b_build), version_text(a, a_pre, a_build))
            == Rank::Below,
        relation(version_text(a, a_pre, a_build), version_text(b, b_pre, b_build))
            == VersionRelation::Newer,
        relation(version_text(b, b_pre, b_build), version_text(a, a_pre, a_build))
            == VersionRelation::Older,
{
    lemma_version_text(a, a_pre, a_build);
    lemma_version_text(b, b_pre, b_build);
    let x = version_text(a, a_pre, a_build);
    let y = version_text(b, b_pre, b_build);
    assert forall|i: int| 0 <= i < k implies #[trigger] nth(release(x), i) == nth(
        release(y),
        i,
    ) by {
        assert(counted(a, i) == counted(b, i));
    }
    lemma_release_decided(release(x), release(y), k);
    law_precedence_reverses(x, y);
}

/// Where two versions have the same release, however many zeros either one spells out, a
/// release is newer than a prerelease, two releases are the same, and prereleases go by
/// their own order. Build metadata has no say.
pub proof fn law_same_release_goes_by_prerelease(
    a: Seq<char>,
    a_pre: Seq<char>,
    a_build: Seq<char>,
    b: Seq<char>,
    b_pre: Seq<char>,
    b_build: Seq<char>,
)
    requires
        free_of(a, '+') && free_of(a, '-') && free_of(a_pre, '+'),
        free_of(b, '+') && free_of(b, '-') && free_of(b_pre, '+'),
        forall|i: int| 0 <= i ==> #[trigger] counted(a, i) == counted(b, i),
    ensures
        a_pre.len() == 0 && b_pre.len() == 0 ==> relation(
            version_text(a, a_pre, a_build),
            version_text(b, b_pre, b_build),
        ) == VersionRelation::Same,
        a_pre.len() == 0 && b_pre.len() > 0 ==> relation(
            version_text(a, a_pre, a_build),
            version_text(b, b_pre, b_build),
        ) == VersionRelation::Newer,
        a_pre.len() > 0 && b_pre.len() == 0 ==> relation(
            version_text(a, a_pre, a_build),
            version_text(b, b_pre, b_build),
        ) == VersionRelation::Older,
        a_pre.len() > 0 && b_pre.len() > 0 ==> precedence(
            version_text(a, a_pre, a_build),
            version_text(b, b_pre, b_build),
        ) == prerelease_order(a_pre, b_pre),
        a_pre.len() > 0 && b_pre.len() > 0 ==> relation(
            version_text(a, a_pre, a_build),
            version_text(b, b_pre, b_build),
        ) == (match prerelease_order(a_pre, b_pre) {
            Rank::Above => VersionRelation::Newer,
            Rank::Level => VersionRelation::Same,
            Rank::Below => VersionRelation::Older,
        }),
{
    lemma_version_text(a, a_pre, a_build);
    lemma_version_text(b, b_pre, b_build);
    let x = release(version_text(a, a_pre, a_build));
    let y = release(version_text(b, b_pre, b_build));
    assert forall|i: int| 0 <= i implies #[trigger] nth(x, i) == nth(y, i) by {
        assert(counted(a, i) == counted(b, i));
    }
    lemma_release_level(x, y);
}

spec fn nth(a: Seq<nat>, i: int) -> nat {
    if 0 <= i < a.len() {
        a[i]
    } else {
        0
    }
}

proof fn lemma_release_decided(a: Seq<nat>, b: Seq<nat>, k: int)
    requires
        0 <= k,
        forall|i: int| 0 <= i < k ==> #[trigger] nth(a, i) == nth(b, i),
        nth(a, k) > nth(b, k),
    ensures
        release_order(a, b) == Rank::Above,
    decreases k,
{
    assert(head(a) == nth(a, 0) && head(b) == nth(b, 0));
    if k > 0 {
        assert(forall|i: int| 0 <= i ==> #[trigger] nth(tail(a), i) == nth(a, i + 1));
        assert(forall|i: int| 0 <= i ==> #[trigger] nth(tail(b), i) == nth(b, i + 1));
        lemma_release_decided(tail(a), tail(b), k - 1);
    }
}

proof fn lemma_release_level(a: Seq<nat>, b: Seq<nat>)
    requires
        forall|i: int| 0 <= i ==> #[trigger] nth(a, i) == nth(b, i),
    ensures
        release_order(a, b) == Rank::Level,
    decreases a.len() + b.len(),
{
    assert(head(a) == nth(a, 0) && head(b) == nth(b, 0));
    if a.len() > 0 || b.len() > 0 {
        assert(forall|i: int| 0 <= i ==> #[trigger] nth(tail(a), i) == nth(a, i + 1));
        assert(forall|i: int| 0 <= i ==> #[trigger] nth(tail(b), i) == nth(b, i + 1));
        lemma_release_level(tail(a), tail(b));
    }
}

proof fn lemma_version_text(core: Seq<char>, pre: Seq<char>, build: Seq<char>)
    requires
        free_of(core, '+') && free_of(core, '-') && free_of(pre, '+'),
    ensures
        prerelease(version_text(core, pre, build)) == pre,
        forall|i: int|
            0 <= i ==> #[trigger] nth(release(version_text(core, pre, build)), i) == counted(
                core,
                i,
            ),
{
    let empty = Seq::<char>::empty();
    let suffix = suffix_text(pre, build);
    lemma_release_and_suffix(core, suffix);
    let front = if pre.len() > 0 {
        seq!['-'] + pre
    } else {
        empty
    };
    assert forall|i: int| 0 <= i < front.len() implies #[trigger] front[i] != '+' by {
        if i > 0 {
            assert(front[i] == pre[i - 1]);
        }
    }
    law_cut_at_the_first_mark(front, '+', build);
    if build.len() > 0 {
        assert(suffix =~= front + seq!['+'] + build);
    } else {
        assert(suffix =~= front);
    }
    assert(without_build(suffix) == front);
    law_cut_at_the_first_mark(empty, '-', pre);
    if pre.len() > 0 {
        assert(front =~= empty + seq!['-'] + pre);
    } else {
        assert(pre =~= empty);
    }
    assert(prerelease(suffix) =~= pre);
    let pieces = split(core, '.');
    let parts = release(version_text(core, pre, build));
    assert forall|i: int| 0 <= i implies #[trigger] nth(parts, i) == counted(core, i) by {
        if i < pieces.len() {
            assert(parts[i] == component(pieces[i]));
            lemma_pieces_hold(core, '.', i);
            law_numbers_are_digits(pieces[i], 0);
            let piece = pieces[i];
            if piece.len() > 0 && piece[0] == '+' {
                assert(core.contains(piece[0]));
                assert(false);
            }
        }
    }
}

/// A piece is made of characters of the text.
proof fn lemma_pieces_hold(s: Seq<char>, sep: char, i: int)
    requires
        0 <= i < split(s, sep).len(),
    ensures
        forall|k: int| 0 <= k < split(s, sep)[i].len() ==> s.contains(#[trigger] split(s, sep)[i][k]),
    decreases s.len(),
{
    if s.len() > 0 {
        let t = s.drop_last();
        let earlier = split(t, sep);
        let piece = split(s, sep)[i];
        law_first_piece(Seq::empty(), sep, t);
        assert forall|k: int| 0 <= k < piece.len() implies s.contains(#[trigger] piece[k]) by {
            assert(s[s.len() - 1] == s.last());
            if i < earlier.len() {
                lemma_pieces_hold(t, sep, i);
                if k < earlier[i].len() {
                    assert(t.contains(earlier[i][k]));
                    let j = choose|j: int| 0 <= j < t.len() && t[j] == earlier[i][k];
                    assert(s[j] == t[j]);
                }
            }
        }
    }
}

} // verus!
