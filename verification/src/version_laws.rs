//! What holds of every version number: the shape of one that was found, and the
//! order between any of them.
use crate::scan::{
    before, lemma_drop_trailing, lemma_drop_trailing_prefix, lemma_position, lemma_position_is,
    lemma_until, lemma_until_is, numeral, position, split, until, value,
};
use crate::text::{digit, in_class, version_char, CharClass};
use crate::version::{
    component, found_version, has_minor, head, number_order, part_number, part_order, parts_order,
    precedence, prerelease, prerelease_order, relation, release, release_order, tail, text_order,
    version_at, version_from, version_starts, version_token, without_build, Rank, VersionRelation,
};
use vstd::prelude::*;

verus! {

// ---------------------------------------------------------------- shape

proof fn lemma_version_from(s: Seq<char>, from: int)
    requires
        0 <= from,
        version_from(s, from) is Some,
    ensures
        exists|i: int| #[trigger] version_at(s, i) && version_from(s, from) == Some(version_token(s, i)),
    decreases s.len() - from,
{
    if from < s.len() && !version_at(s, from) {
        lemma_version_from(s, from + 1);
    }
}

proof fn lemma_token_shape(s: Seq<char>, i: int)
    requires
        version_at(s, i),
    ensures
        version_token(s, i).len() > 0,
        digit(version_token(s, i)[0]),
        version_token(s, i).last() != '.',
        forall|k: int|
            0 <= k < version_token(s, i).len() ==> version_char(#[trigger] version_token(s, i)[k]),
{
    let rest = s.skip(i);
    let n = until(rest, CharClass::NotVersion);
    lemma_until(rest, CharClass::NotVersion);
    let run = rest.take(n as int);
    let token = version_token(s, i);
    lemma_drop_trailing_prefix(run, CharClass::Dot);
    if token.len() == 0 {
        assert(token =~= Seq::<char>::empty());
        assert(split(token, '.').len() == 1);
        assert(false);
    }
    assert(token[0] == s[i]);
    assert forall|k: int| 0 <= k < token.len() implies version_char(#[trigger] token[k]) by {
        assert(token[k] == rest[k]);
        assert(!in_class(CharClass::NotVersion, rest[k]));
    }
}

/// A version that was found is plain: it starts with a digit, has a minor part, does
/// not end in a full stop, and holds nothing but `[0-9A-Za-z.+-]`. So it can stand on
/// a command line, or in a file name, as it is.
pub proof fn law_found_version_is_plain(text: Seq<char>)
    ensures
        found_version(text) matches Some(v) ==> {
            &&& v.len() > 0
            &&& digit(v[0])
            &&& v.last() != '.'
            &&& has_minor(v)
            &&& forall|k: int| 0 <= k < v.len() ==> version_char(#[trigger] v[k])
        },
{
    if found_version(text) is Some {
        lemma_version_from(text, 0);
        let i = choose|i: int| #[trigger]
            version_at(text, i) && version_from(text, 0) == Some(version_token(text, i));
        lemma_token_shape(text, i);
    }
}

/// Looking for a version in a version that was found gives that version back.
pub proof fn law_found_version_is_found_again(text: Seq<char>)
    ensures
        found_version(text) matches Some(v) ==> found_version(v) == Some(v),
{
    if let Some(v) = found_version(text) {
        law_found_version_is_plain(text);
        assert(v.skip(0) =~= v);
        assert forall|k: int| 0 <= k < v.len() implies !in_class(CharClass::NotVersion, #[trigger] v[k]) by {
            assert(version_char(v[k]));
        }
        lemma_until_is(v, CharClass::NotVersion, v.len());
        assert(v.take(v.len() as int) =~= v);
        assert(version_token(v, 0) == v);
        assert(version_starts(v, 0));
    }
}

/// What surrounds a version does not matter: text without digits in front of it, a full
/// stop or more behind it, and then anything that cannot stand in a version.
pub proof fn law_surroundings_do_not_matter(
    front: Seq<char>,
    version: Seq<char>,
    stops: Seq<char>,
    back: Seq<char>,
)
    requires
        found_version(version) == Some(version),
        forall|i: int| 0 <= i < front.len() ==> !digit(#[trigger] front[i]),
        front.len() > 0 ==> front.last() != '.',
        forall|i: int| 0 <= i < stops.len() ==> #[trigger] stops[i] == '.',
        back.len() > 0 ==> !version_char(back[0]),
    ensures
        found_version(front + version + stops + back) == Some(version),
{
    let text = front + version + stops + back;
    let n = front.len() as int;
    law_found_version_is_plain(version);
    lemma_no_version_before(text, n, 0);
    let rest = text.skip(n);
    let run = version + stops;
    assert(rest =~= run + back);
    assert forall|k: int| 0 <= k < run.len() implies !in_class(
        CharClass::NotVersion,
        #[trigger] rest[k],
    ) by {
        if k < version.len() {
            assert(rest[k] == version[k]);
            assert(version_char(version[k]));
        } else {
            assert(rest[k] == stops[k - version.len()]);
        }
    }
    if back.len() > 0 {
        assert(rest[run.len() as int] == back[0]);
    }
    lemma_until_is(rest, CharClass::NotVersion, run.len());
    assert(rest.take(run.len() as int) =~= run);
    assert forall|k: int| version.len() <= k < run.len() implies in_class(
        CharClass::Dot,
        #[trigger] run[k],
    ) by {
        assert(run[k] == stops[k - version.len()]);
    }
    assert(run[version.len() - 1] == version.last());
    lemma_drop_trailing(run, CharClass::Dot, version.len());
    assert(run.take(version.len() as int) =~= version);
    assert(version_token(text, n) == version);
    assert(text[n] == version[0]);
    if n > 0 {
        assert(text[n - 1] == front[n - 1]);
    }
    assert(version_starts(text, n));
    assert(version_at(text, n));
}

proof fn lemma_no_version_before(text: Seq<char>, n: int, from: int)
    requires
        0 <= from <= n <= text.len(),
        forall|i: int| 0 <= i < n ==> !digit(#[trigger] text[i]),
    ensures
        version_from(text, from) == version_from(text, n),
    decreases n - from,
{
    if from < n {
        assert(!digit(text[from]));
        lemma_no_version_before(text, n, from + 1);
    }
}

// ---------------------------------------------------------------- order

/// The rank seen from the other side.
pub open spec fn reversed(rank: Rank) -> Rank {
    match rank {
        Rank::Below => Rank::Above,
        Rank::Level => Rank::Level,
        Rank::Above => Rank::Below,
    }
}

/// The rank of `a` to `c`, where it follows from that of `a` to `b` and of `b` to
/// `c`: neither may be `Above`.
pub open spec fn chained(first: Rank, second: Rank) -> Rank {
    if first == Rank::Level {
        second
    } else {
        first
    }
}

proof fn lemma_text_reversed(a: Seq<char>, b: Seq<char>)
    ensures
        text_order(a, b) == reversed(text_order(b, a)),
    decreases a.len(),
{
    if a.len() > 0 && b.len() > 0 && a[0] == b[0] {
        lemma_text_reversed(a.drop_first(), b.drop_first());
    }
}

proof fn lemma_text_chain(a: Seq<char>, b: Seq<char>, c: Seq<char>)
    requires
        text_order(a, b) != Rank::Above,
        text_order(b, c) != Rank::Above,
    ensures
        text_order(a, c) == chained(text_order(a, b), text_order(b, c)),
    decreases a.len(),
{
    if a.len() > 0 && b.len() > 0 && c.len() > 0 && a[0] == b[0] && b[0] == c[0] {
        lemma_text_chain(a.drop_first(), b.drop_first(), c.drop_first());
    }
}

proof fn lemma_part_reversed(a: Seq<char>, b: Seq<char>)
    ensures
        part_order(a, b) == reversed(part_order(b, a)),
{
    lemma_text_reversed(a, b);
}

proof fn lemma_part_chain(a: Seq<char>, b: Seq<char>, c: Seq<char>)
    requires
        part_order(a, b) != Rank::Above,
        part_order(b, c) != Rank::Above,
    ensures
        part_order(a, c) == chained(part_order(a, b), part_order(b, c)),
{
    if text_order(a, b) != Rank::Above && text_order(b, c) != Rank::Above {
        lemma_text_chain(a, b, c);
    }
}

proof fn lemma_parts_reversed(a: Seq<Seq<char>>, b: Seq<Seq<char>>)
    ensures
        parts_order(a, b) == reversed(parts_order(b, a)),
    decreases a.len(),
{
    if a.len() > 0 && b.len() > 0 {
        lemma_part_reversed(a[0], b[0]);
        lemma_parts_reversed(a.drop_first(), b.drop_first());
    }
}

proof fn lemma_parts_chain(a: Seq<Seq<char>>, b: Seq<Seq<char>>, c: Seq<Seq<char>>)
    requires
        parts_order(a, b) != Rank::Above,
        parts_order(b, c) != Rank::Above,
    ensures
        parts_order(a, c) == chained(parts_order(a, b), parts_order(b, c)),
    decreases a.len(),
{
    if a.len() > 0 && b.len() > 0 && c.len() > 0 {
        lemma_part_chain(a[0], b[0], c[0]);
        if part_order(a[0], b[0]) == Rank::Level && part_order(b[0], c[0]) == Rank::Level {
            lemma_parts_chain(a.drop_first(), b.drop_first(), c.drop_first());
        }
    }
}

proof fn lemma_release_reversed(a: Seq<nat>, b: Seq<nat>)
    ensures
        release_order(a, b) == reversed(release_order(b, a)),
    decreases a.len() + b.len(),
{
    if (a.len() > 0 || b.len() > 0) && head(a) == head(b) {
        lemma_release_reversed(tail(a), tail(b));
    }
}

proof fn lemma_release_chain(a: Seq<nat>, b: Seq<nat>, c: Seq<nat>)
    requires
        release_order(a, b) != Rank::Above,
        release_order(b, c) != Rank::Above,
    ensures
        release_order(a, c) == chained(release_order(a, b), release_order(b, c)),
    decreases a.len() + b.len() + c.len(),
{
    lemma_release_one(a, b);
    lemma_release_one(b, c);
    lemma_release_one(a, c);
    if (a.len() > 0 || b.len() > 0 || c.len() > 0) && head(a) == head(b) && head(b) == head(c) {
        lemma_release_chain(tail(a), tail(b), tail(c));
    }
}

/// One step of `release_order` holds of exhausted releases too.
proof fn lemma_release_one(a: Seq<nat>, b: Seq<nat>)
    ensures
        release_order(a, b) == if head(a) == head(b) {
            release_order(tail(a), tail(b))
        } else {
            number_order(head(a), head(b))
        },
{
}

/// A version is level with itself.
pub proof fn law_precedence_is_reflexive(a: Seq<char>)
    ensures
        precedence(a, a) == Rank::Level,
{
    law_precedence_reverses(a, a);
}

/// Comparing the other way round gives the opposite answer.
pub proof fn law_precedence_reverses(a: Seq<char>, b: Seq<char>)
    ensures
        precedence(a, b) == reversed(precedence(b, a)),
{
    lemma_release_reversed(release(a), release(b));
    lemma_parts_reversed(split(prerelease(a), '.'), split(prerelease(b), '.'));
}

/// Precedence is transitive: from `a` not above `b` and `b` not above `c` it follows
/// how `a` stands to `c`, and below as soon as one of the two steps is.
pub proof fn law_precedence_is_transitive(a: Seq<char>, b: Seq<char>, c: Seq<char>)
    requires
        precedence(a, b) != Rank::Above,
        precedence(b, c) != Rank::Above,
    ensures
        precedence(a, c) == chained(precedence(a, b), precedence(b, c)),
{
    lemma_release_chain(release(a), release(b), release(c));
    if prerelease(a).len() > 0 && prerelease(b).len() > 0 && prerelease(c).len() > 0
        && release_order(release(a), release(b)) == Rank::Level && release_order(
        release(b),
        release(c),
    ) == Rank::Level {
        lemma_parts_chain(
            split(prerelease(a), '.'),
            split(prerelease(b), '.'),
            split(prerelease(c), '.'),
        );
    }
}

/// What is an update in one direction is a rollback in the other, and nothing else.
pub proof fn law_relation_reverses(a: Seq<char>, b: Seq<char>)
    ensures
        relation(a, b) == VersionRelation::Newer <==> relation(b, a) == VersionRelation::Older,
        relation(a, b) == VersionRelation::Same <==> relation(b, a) == VersionRelation::Same,
        relation(a, a) == VersionRelation::Same,
{
    law_precedence_reverses(a, b);
    law_precedence_is_reflexive(a);
}

/// Prereleases on their own are ordered too: each is level with itself, and comparing
/// the other way round gives the opposite answer.
pub proof fn law_prerelease_order_reverses(a: Seq<char>, b: Seq<char>)
    ensures
        prerelease_order(a, a) == Rank::Level,
        prerelease_order(a, b) == reversed(prerelease_order(b, a)),
{
    lemma_parts_reversed(split(a, '.'), split(a, '.'));
    lemma_parts_reversed(split(a, '.'), split(b, '.'));
}

/// The order of prereleases on their own is transitive.
pub proof fn law_prerelease_order_is_transitive(a: Seq<char>, b: Seq<char>, c: Seq<char>)
    requires
        prerelease_order(a, b) != Rank::Above,
        prerelease_order(b, c) != Rank::Above,
    ensures
        prerelease_order(a, c) == chained(prerelease_order(a, b), prerelease_order(b, c)),
{
    lemma_parts_chain(split(a, '.'), split(b, '.'), split(c, '.'));
}

/// Numbers go by value, whatever their size and whatever zeros stand in front, and
/// below every word.
pub proof fn law_numeric_parts_go_by_value(a: Seq<char>, b: Seq<char>)
    requires
        numeral(a),
    ensures
        numeral(b) ==> part_order(a, b) == number_order(value(a), value(b)),
        part_number(b) is None ==> part_order(a, b) == Rank::Below,
{
}

// ---------------------------------------------------------------- parts

/// Build metadata never affects precedence.
pub proof fn law_build_metadata_is_ignored(a: Seq<char>, build: Seq<char>, b: Seq<char>)
    ensures
        precedence(a + seq!['+'] + build, b) == precedence(a, b),
        precedence(b, a + seq!['+'] + build) == precedence(b, a),
{
    let long = a + seq!['+'] + build;
    lemma_position(a, '+');
    let n = position(a, '+');
    assert forall|i: int| 0 <= i < n implies #[trigger] long[i] != '+' by {
        assert(long[i] == a[i]);
    }
    assert(long[n as int] == '+');
    lemma_position_is(long, '+', n);
    assert(without_build(long) =~= without_build(a));
}

/// Whether `s` holds no `c`.
pub open spec fn free_of(s: Seq<char>, c: char) -> bool {
    forall|i: int| 0 <= i < s.len() ==> #[trigger] s[i] != c
}

proof fn lemma_release_text(core: Seq<char>)
    requires
        free_of(core, '+'),
        free_of(core, '-'),
    ensures
        without_build(core) == core,
        before(core, '-') == core,
        prerelease(core).len() == 0,
{
    lemma_position_is(core, '+', core.len());
    lemma_position_is(core, '-', core.len());
    assert(core.take(core.len() as int) =~= core);
}

/// A release outranks every prerelease of it.
pub proof fn law_release_outranks_its_prereleases(core: Seq<char>, pre: Seq<char>)
    requires
        free_of(core, '+'),
        free_of(core, '-'),
        free_of(pre, '+'),
        pre.len() > 0,
    ensures
        precedence(core, core + seq!['-'] + pre) == Rank::Above,
        precedence(core + seq!['-'] + pre, core) == Rank::Below,
{
    let full = core + seq!['-'] + pre;
    lemma_release_text(core);
    lemma_prerelease_text(core, pre);
    lemma_release_reversed(release(core), release(core));
    law_precedence_reverses(core, full);
}

proof fn lemma_prerelease_text(core: Seq<char>, pre: Seq<char>)
    requires
        free_of(core, '+'),
        free_of(core, '-'),
        free_of(pre, '+'),
    ensures
        release(core + seq!['-'] + pre) == release(core),
        prerelease(core + seq!['-'] + pre) == pre,
{
    let full = core + seq!['-'] + pre;
    lemma_release_text(core);
    assert forall|i: int| 0 <= i < full.len() implies #[trigger] full[i] != '+' by {
        if i < core.len() {
            assert(full[i] == core[i]);
        } else if i > core.len() {
            assert(full[i] == pre[i - core.len() - 1]);
        }
    }
    lemma_position_is(full, '+', full.len());
    assert(full.take(full.len() as int) =~= full);
    assert forall|i: int| 0 <= i < core.len() implies #[trigger] full[i] != '-' by {
        assert(full[i] == core[i]);
    }
    lemma_position_is(full, '-', core.len());
    assert(full.take(core.len() as int) =~= core);
    assert(full.skip(core.len() as int + 1) =~= pre);
}

/// Splitting a text that goes on after a separator.
proof fn lemma_split_more(s: Seq<char>, sep: char, last: Seq<char>)
    requires
        free_of(last, sep),
    ensures
        split(s + seq![sep] + last, sep) == split(s, sep).push(last),
    decreases last.len(),
{
    let long = s + seq![sep] + last;
    if last.len() == 0 {
        assert(long.drop_last() =~= s);
        assert(last =~= Seq::<char>::empty());
    } else {
        let shorter = last.drop_last();
        assert forall|i: int| 0 <= i < shorter.len() implies #[trigger] shorter[i] != sep by {
            assert(shorter[i] == last[i]);
        }
        lemma_split_more(s, sep, shorter);
        assert(long.drop_last() =~= s + seq![sep] + shorter);
        assert(long.last() == last.last());
        assert(last[last.len() - 1] != sep);
        let before = split(s + seq![sep] + shorter, sep);
        assert(before.drop_last() =~= split(s, sep));
        assert(before.last() == shorter);
        assert(shorter.push(last.last()) =~= last);
    }
}

proof fn lemma_release_zero(a: Seq<nat>, b: Seq<nat>)
    ensures
        release_order(a.push(0), b) == release_order(a, b),
    decreases a.len() + b.len(),
{
    let long = a.push(0);
    lemma_release_one(long, b);
    lemma_release_one(a, b);
    if a.len() == 0 {
        assert(tail(long) =~= Seq::<nat>::empty());
        assert(tail(a) =~= Seq::<nat>::empty());
    } else {
        assert(tail(long) =~= tail(a).push(0));
        lemma_release_zero(tail(a), tail(b));
    }
}

/// Whether a text is what may follow the release in a version: nothing, a prerelease or
/// build metadata.
pub open spec fn is_suffix(s: Seq<char>) -> bool {
    s.len() == 0 || s[0] == '-' || s[0] == '+'
}

/// A version's release is what stands before its suffix, and its prerelease is in that.
pub proof fn lemma_release_and_suffix(core: Seq<char>, suffix: Seq<char>)
    requires
        free_of(core, '+'),
        free_of(core, '-'),
        is_suffix(suffix),
    ensures
        before(without_build(core + suffix), '-') == core,
        prerelease(core + suffix) == prerelease(suffix),
{
    let full = core + suffix;
    let n = core.len();
    lemma_position(suffix, '+');
    let p = position(suffix, '+');
    assert forall|i: int| 0 <= i < n + p implies #[trigger] full[i] != '+' by {
        if i < n {
            assert(full[i] == core[i]);
        } else {
            assert(full[i] == suffix[i - n]);
        }
    }
    if p < suffix.len() {
        assert(full[(n + p) as int] == suffix[p as int]);
    }
    lemma_position_is(full, '+', n + p);
    let bare = without_build(full);
    let tail_part = without_build(suffix);
    assert(bare =~= core + tail_part);
    lemma_position(tail_part, '-');
    let q = position(tail_part, '-');
    if tail_part.len() > 0 {
        assert(suffix[0] == '-');
        assert(tail_part[0] == '-');
    }
    assert(q == 0);
    assert forall|i: int| 0 <= i < n implies #[trigger] bare[i] != '-' by {
        assert(bare[i] == core[i]);
    }
    if tail_part.len() > 0 {
        assert(bare[n as int] == '-');
    }
    lemma_position_is(bare, '-', n);
    assert(bare.take(n as int) =~= core);
    assert(prerelease(full) =~= prerelease(suffix));
}

/// A missing component is zero, before any suffix and against any version: `1.2.0-rc`
/// stands where `1.2-rc` stands.
pub proof fn law_missing_component_is_zero(core: Seq<char>, suffix: Seq<char>, other: Seq<char>)
    requires
        free_of(core, '+'),
        free_of(core, '-'),
        is_suffix(suffix),
    ensures
        precedence(core + seq!['.', '0'] + suffix, other) == precedence(core + suffix, other),
        precedence(other, core + seq!['.', '0'] + suffix) == precedence(other, core + suffix),
        precedence(core + seq!['.', '0'] + suffix, core + suffix) == Rank::Level,
{
    let long = core + seq!['.', '0'];
    assert(free_of(long, '+') && free_of(long, '-')) by {
        assert forall|i: int| 0 <= i < long.len() implies #[trigger] long[i] != '+' && long[i]
            != '-' by {
            if i < core.len() {
                assert(long[i] == core[i]);
            }
        }
    }
    lemma_release_and_suffix(core, suffix);
    lemma_release_and_suffix(long, suffix);
    assert(long =~= core + seq!['.'] + seq!['0']);
    lemma_split_more(core, '.', seq!['0']);
    assert(component(seq!['0']) == 0) by {
        let zero = seq!['0'];
        assert(zero.drop_last() =~= Seq::<char>::empty());
        reveal_with_fuel(crate::scan::value, 2);
    }
    assert(release(long + suffix) =~= release(core + suffix).push(0));
    lemma_release_zero(release(core + suffix), release(other));
    law_precedence_reverses(other, long + suffix);
    law_precedence_reverses(other, core + suffix);
    lemma_release_zero(release(core + suffix), release(core + suffix));
    law_precedence_is_reflexive(core + suffix);
    lemma_parts_reversed(split(prerelease(suffix), '.'), split(prerelease(suffix), '.'));
    lemma_release_reversed(release(core + suffix), release(core + suffix));
}

proof fn lemma_parts_extended(a: Seq<Seq<char>>, more: Seq<char>)
    ensures
        parts_order(a, a.push(more)) == Rank::Below,
    decreases a.len(),
{
    if a.len() > 0 {
        lemma_part_reversed(a[0], a[0]);
        assert(a.push(more).drop_first() =~= a.drop_first().push(more));
        lemma_parts_extended(a.drop_first(), more);
    }
}

/// A prerelease sorts below one that continues it: `1.0.0-rc` below `1.0.0-rc.1`.
pub proof fn law_longer_prerelease_outranks(core: Seq<char>, pre: Seq<char>, part: Seq<char>)
    requires
        free_of(core, '+'),
        free_of(core, '-'),
        free_of(pre, '+'),
        free_of(part, '+'),
        free_of(part, '.'),
        pre.len() > 0,
    ensures
        precedence(core + seq!['-'] + pre, core + seq!['-'] + (pre + seq!['.'] + part))
            == Rank::Below,
{
    let longer = pre + seq!['.'] + part;
    assert(free_of(longer, '+')) by {
        assert forall|i: int| 0 <= i < longer.len() implies #[trigger] longer[i] != '+' by {
            if i < pre.len() {
                assert(longer[i] == pre[i]);
            } else if i > pre.len() {
                assert(longer[i] == part[i - pre.len() - 1]);
            }
        }
    }
    lemma_prerelease_text(core, pre);
    lemma_prerelease_text(core, longer);
    lemma_release_reversed(release(core), release(core));
    lemma_split_more(pre, '.', part);
    lemma_parts_extended(split(pre, '.'), part);
}

} // verus!
