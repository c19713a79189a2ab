//! Version numbers: finding one in a program's output, and ordering two of them.
use crate::scan::{
    after, before, cut_after, cut_before, digit_value, digits_of, drop_trailing, find_class,
    natural, split, split_at_each, trim_trailing, until, value,
};
use crate::text::{chars_of, digit, is_digit, opt_text, rows, slice, to_text, CharClass};
use std::cmp::Ordering;
use vstd::prelude::*;

verus! {

// ---------------------------------------------------------------- finding

/// Whether a run of digits starts at `i` that is not the tail of a number.
pub open spec fn version_starts(s: Seq<char>, i: int) -> bool {
    &&& 0 <= i < s.len()
    &&& digit(s[i])
    &&& i > 0 ==> !digit(s[i - 1]) && s[i - 1] != '.'
}

/// The characters of a version from `i` on, without full stops at the end.
pub open spec fn version_token(s: Seq<char>, i: int) -> Seq<char> {
    let rest = s.skip(i);
    drop_trailing(rest.take(until(rest, CharClass::NotVersion) as int), CharClass::Dot)
}

/// Whether a token has a major and a minor part.
pub open spec fn has_minor(token: Seq<char>) -> bool {
    let parts = split(token, '.');
    parts.len() >= 2 && parts[0].len() > 0 && parts[1].len() > 0
}

/// Whether a version number stands at `i`.
pub open spec fn version_at(s: Seq<char>, i: int) -> bool {
    version_starts(s, i) && has_minor(version_token(s, i))
}

/// The first version number of `s` at or after `from`.
pub open spec fn version_from(s: Seq<char>, from: int) -> Option<Seq<char>>
    decreases s.len() - from,
{
    if from >= s.len() {
        None
    } else if version_at(s, from) {
        Some(version_token(s, from))
    } else {
        version_from(s, from + 1)
    }
}

/// The first version number of `s`.
pub open spec fn found_version(s: Seq<char>) -> Option<Seq<char>> {
    version_from(s, 0)
}

/// The first version-like token of a command's output.
///
/// What surrounds it does not matter: `npm view` prints a bare `1.2.3`, a command
/// asked for its version may print `dsh/1.2.3` or a whole sentence. The token is
/// taken whole, never from its tail, and a lone integer is not one.
pub fn parse_version(text: &str) -> (version: Option<String>)
    ensures
        opt_text(version) == found_version(text@),
{
    let chars = chars_of(text);
    let mut i: usize = 0;
    while i < chars.len()
        invariant
            i <= chars.len(),
            chars@ == text@,
            found_version(text@) == version_from(text@, i as int),
        decreases chars.len() - i,
    {
        let starts: bool = is_digit(chars[i]) && (i == 0 || !(is_digit(chars[i - 1]) || chars[i - 1]
            == '.'));
        if starts {
            let rest = slice(&chars, i, chars.len());
            let end = find_class(&rest, CharClass::NotVersion);
            let token = trim_trailing(&slice(&rest, 0, end), CharClass::Dot);
            proof {
                assert(rest@ =~= chars@.skip(i as int));
                assert(rest@.subrange(0, end as int) =~= rest@.take(end as int));
                assert(token@ == version_token(text@, i as int));
            }
            let parts = split_at_each(&token, '.');
            assert(rows(parts@).len() == parts@.len());
            if parts.len() >= 2 {
                assert(rows(parts@)[0] == parts@[0]@ && rows(parts@)[1] == parts@[1]@);
                if parts[0].len() > 0 && parts[1].len() > 0 {
                    return Some(to_text(&token));
                }
            }
        }
        i = i + 1;
    }
    None
}

// ---------------------------------------------------------------- ordering

/// Where one thing stands relative to another.
#[derive(Clone, Copy, PartialEq, Eq, Debug, Structural)]
pub enum Rank {
    Below,
    Level,
    Above,
}

/// The order of two numbers.
pub open spec fn number_order(a: nat, b: nat) -> Rank {
    if a < b {
        Rank::Below
    } else if a == b {
        Rank::Level
    } else {
        Rank::Above
    }
}

/// The order of two texts, character by character; a text sorts below one that
/// it is the beginning of.
pub open spec fn text_order(a: Seq<char>, b: Seq<char>) -> Rank
    decreases a.len(),
{
    if a.len() == 0 || b.len() == 0 {
        number_order(a.len(), b.len())
    } else if a[0] == b[0] {
        text_order(a.drop_first(), b.drop_first())
    } else if a[0] < b[0] {
        Rank::Below
    } else {
        Rank::Above
    }
}

/// A part of a version read as a number, where it is one. There is no limit to it.
pub open spec fn part_number(part: Seq<char>) -> Option<nat> {
    natural(part)
}

/// The order of two parts of a prerelease: numbers by value, words as text, and
/// every number below every word.
pub open spec fn part_order(a: Seq<char>, b: Seq<char>) -> Rank {
    match (part_number(a), part_number(b)) {
        (Some(x), Some(y)) => number_order(x, y),
        (Some(_), None) => Rank::Below,
        (None, Some(_)) => Rank::Above,
        (None, None) => text_order(a, b),
    }
}

/// The order of two prereleases, part by part; one sorts below another that
/// continues it.
pub open spec fn parts_order(a: Seq<Seq<char>>, b: Seq<Seq<char>>) -> Rank
    decreases a.len(),
{
    if a.len() == 0 || b.len() == 0 {
        number_order(a.len(), b.len())
    } else {
        match part_order(a[0], b[0]) {
            Rank::Level => parts_order(a.drop_first(), b.drop_first()),
            other => other,
        }
    }
}

/// The order of two prereleases, as `rc.1` and `rc.2`.
pub open spec fn prerelease_order(a: Seq<char>, b: Seq<char>) -> Rank {
    parts_order(split(a, '.'), split(b, '.'))
}

/// The first component of a release, zero where there is none.
pub open spec fn head(a: Seq<nat>) -> nat {
    if a.len() > 0 {
        a[0]
    } else {
        0
    }
}

/// The components of a release after the first.
pub open spec fn tail(a: Seq<nat>) -> Seq<nat> {
    if a.len() > 0 {
        a.drop_first()
    } else {
        a
    }
}

/// The order of two releases, component by component, a missing one being zero.
pub open spec fn release_order(a: Seq<nat>, b: Seq<nat>) -> Rank
    decreases a.len() + b.len(),
{
    if a.len() == 0 && b.len() == 0 {
        Rank::Level
    } else if head(a) == head(b) {
        release_order(tail(a), tail(b))
    } else {
        number_order(head(a), head(b))
    }
}

/// A part of a release as a number; what is no number counts as zero.
pub open spec fn component(part: Seq<char>) -> nat {
    match part_number(part) {
        Some(n) => n,
        None => 0,
    }
}

/// A version without its build metadata.
pub open spec fn without_build(version: Seq<char>) -> Seq<char> {
    before(version, '+')
}

/// The components of the release that a version names.
pub open spec fn release(version: Seq<char>) -> Seq<nat> {
    split(before(without_build(version), '-'), '.').map_values(|p: Seq<char>| component(p))
}

/// The prerelease that a version names; empty for a release.
pub open spec fn prerelease(version: Seq<char>) -> Seq<char> {
    after(without_build(version), '-')
}

/// Semantic-version precedence: by release, then a prerelease below the release
/// that it leads up to, then by prerelease. Build metadata has no say.
pub open spec fn precedence(a: Seq<char>, b: Seq<char>) -> Rank {
    match release_order(release(a), release(b)) {
        Rank::Level => {
            if prerelease(a).len() == 0 || prerelease(b).len() == 0 {
                number_order(
                    if prerelease(a).len() == 0 {
                        1
                    } else {
                        0
                    },
                    if prerelease(b).len() == 0 {
                        1
                    } else {
                        0
                    },
                )
            } else {
                prerelease_order(prerelease(a), prerelease(b))
            }
        },
        other => other,
    }
}

/// The `Ordering` that a rank is.
pub open spec fn ordering(rank: Rank) -> Ordering {
    match rank {
        Rank::Below => Ordering::Less,
        Rank::Level => Ordering::Equal,
        Rank::Above => Ordering::Greater,
    }
}

fn to_ordering(rank: Rank) -> (order: Ordering)
    ensures
        order == ordering(rank),
{
    match rank {
        Rank::Below => Ordering::Less,
        Rank::Level => Ordering::Equal,
        Rank::Above => Ordering::Greater,
    }
}

/// The digit of a number that has `after` more digits behind it; zero in front of the
/// number.
fn digit_before(digits: &Vec<char>, after: usize) -> (c: char)
    requires
        forall|j: int| 0 <= j < digits.len() ==> digit(#[trigger] digits@[j]),
    ensures
        c == if after < digits.len() {
            digits@[digits.len() - 1 - after]
        } else {
            '0'
        },
        digit(c),
{
    if after < digits.len() {
        digits[digits.len() - 1 - after]
    } else {
        '0'
    }
}

/// What stands in front of the last `after` digits.
spec fn without_last(digits: Seq<char>, after: int) -> Seq<char> {
    if after < digits.len() {
        digits.take(digits.len() - after)
    } else {
        Seq::empty()
    }
}

proof fn lemma_one_more_digit(digits: Seq<char>, after: int)
    requires
        0 <= after,
    ensures
        value(without_last(digits, after)) == value(without_last(digits, after + 1)) * 10 + if after
            < digits.len() {
            digit_value(digits[digits.len() - 1 - after])
        } else {
            0
        },
{
    if after < digits.len() {
        assert(without_last(digits, after).drop_last() =~= without_last(digits, after + 1));
    }
}

/// Orders two numbers by their digits, from the front; the shorter one is taken to have
/// zeros there.
fn rank_digits(a: &Vec<char>, b: &Vec<char>) -> (rank: Rank)
    requires
        forall|j: int| 0 <= j < a.len() ==> digit(#[trigger] a@[j]),
        forall|j: int| 0 <= j < b.len() ==> digit(#[trigger] b@[j]),
    ensures
        rank == number_order(value(a@), value(b@)),
{
    let mut after: usize = if a.len() > b.len() {
        a.len()
    } else {
        b.len()
    };
    let mut rank = Rank::Level;
    while after > 0
        invariant
            forall|j: int| 0 <= j < a.len() ==> digit(#[trigger] a@[j]),
            forall|j: int| 0 <= j < b.len() ==> digit(#[trigger] b@[j]),
            rank == number_order(
                value(without_last(a@, after as int)),
                value(without_last(b@, after as int)),
            ),
        decreases after,
    {
        after = after - 1;
        let x = digit_before(a, after);
        let y = digit_before(b, after);
        proof {
            lemma_one_more_digit(a@, after as int);
            lemma_one_more_digit(b@, after as int);
        }
        if rank == Rank::Level {
            rank = if x < y {
                Rank::Below
            } else if x > y {
                Rank::Above
            } else {
                Rank::Level
            };
        }
    }
    assert(without_last(a@, 0) =~= a@);
    assert(without_last(b@, 0) =~= b@);
    rank
}

fn rank_texts(a: &Vec<char>, b: &Vec<char>) -> (rank: Rank)
    ensures
        rank == text_order(a@, b@),
{
    let mut i: usize = 0;
    assert(a@.skip(0) =~= a@ && b@.skip(0) =~= b@);
    while i < a.len() && i < b.len()
        invariant
            i <= a.len(),
            i <= b.len(),
            text_order(a@, b@) == text_order(a@.skip(i as int), b@.skip(i as int)),
        decreases a.len() - i,
    {
        if a[i] < b[i] {
            return Rank::Below;
        }
        if a[i] > b[i] {
            return Rank::Above;
        }
        proof {
            assert(a@.skip(i as int).drop_first() =~= a@.skip(i + 1));
            assert(b@.skip(i as int).drop_first() =~= b@.skip(i + 1));
        }
        i = i + 1;
    }
    if i < a.len() {
        Rank::Above
    } else if i < b.len() {
        Rank::Below
    } else {
        Rank::Level
    }
}

fn rank_parts(a: &Vec<char>, b: &Vec<char>) -> (rank: Rank)
    ensures
        rank == part_order(a@, b@),
{
    match (digits_of(a), digits_of(b)) {
        (Some(x), Some(y)) => rank_digits(&x, &y),
        (Some(_), None) => Rank::Below,
        (None, Some(_)) => Rank::Above,
        (None, None) => rank_texts(a, b),
    }
}

fn rank_prereleases(a: &Vec<char>, b: &Vec<char>) -> (rank: Rank)
    ensures
        rank == prerelease_order(a@, b@),
{
    let a_parts = split_at_each(a, '.');
    let b_parts = split_at_each(b, '.');
    let ghost x = rows(a_parts@);
    let ghost y = rows(b_parts@);
    let mut i: usize = 0;
    assert(x.skip(0) =~= x && y.skip(0) =~= y);
    while i < a_parts.len() && i < b_parts.len()
        invariant
            i <= a_parts.len(),
            i <= b_parts.len(),
            x == rows(a_parts@),
            y == rows(b_parts@),
            x == split(a@, '.'),
            y == split(b@, '.'),
            parts_order(x, y) == parts_order(x.skip(i as int), y.skip(i as int)),
        decreases a_parts.len() - i,
    {
        assert(x[i as int] == a_parts@[i as int]@ && y[i as int] == b_parts@[i as int]@);
        match rank_parts(&a_parts[i], &b_parts[i]) {
            Rank::Level => {},
            rank => {
                return rank;
            },
        }
        proof {
            assert(x.skip(i as int).drop_first() =~= x.skip(i + 1));
            assert(y.skip(i as int).drop_first() =~= y.skip(i + 1));
        }
        i = i + 1;
    }
    if i < a_parts.len() {
        Rank::Above
    } else if i < b_parts.len() {
        Rank::Below
    } else {
        Rank::Level
    }
}

/// The numbers that rows of digits spell.
spec fn values(list: Seq<Vec<char>>) -> Seq<nat> {
    list.map_values(|d: Vec<char>| value(d@))
}

/// Whether rows are made of digits alone.
spec fn all_digits(list: Seq<Vec<char>>) -> bool {
    forall|i: int, j: int|
        0 <= i < list.len() && 0 <= j < list[i]@.len() ==> digit(#[trigger] list[i]@[j])
}

/// The digits of each component; none for one that is no number.
fn release_of(core: &Vec<char>) -> (numbers: Vec<Vec<char>>)
    ensures
        all_digits(numbers@),
        values(numbers@) == split(core@, '.').map_values(|p: Seq<char>| component(p)),
{
    let parts = split_at_each(core, '.');
    let ghost model = split(core@, '.');
    let mut numbers: Vec<Vec<char>> = Vec::new();
    for i in 0..parts.len()
        invariant
            model == rows(parts@),
            numbers.len() == i,
            all_digits(numbers@),
            forall|j: int| 0 <= j < i ==> value(#[trigger] numbers@[j]@) == component(model[j]),
    {
        assert(model[i as int] == parts@[i as int]@);
        numbers.push(
            match digits_of(&parts[i]) {
                Some(digits) => digits,
                None => Vec::new(),
            },
        );
    }
    assert(values(numbers@) =~= model.map_values(|p: Seq<char>| component(p)));
    numbers
}

proof fn lemma_release_step(a: Seq<nat>, i: int)
    requires
        0 <= i,
    ensures
        tail(rest_from(a, i)) =~= rest_from(a, i + 1),
        head(rest_from(a, i)) == if i < a.len() {
            a[i]
        } else {
            0
        },
{
}

/// The components from the `i`-th on.
spec fn rest_from(a: Seq<nat>, i: int) -> Seq<nat> {
    if i < a.len() {
        a.skip(i)
    } else {
        Seq::empty()
    }
}

fn rank_releases(a: &Vec<Vec<char>>, b: &Vec<Vec<char>>) -> (rank: Rank)
    requires
        all_digits(a@),
        all_digits(b@),
    ensures
        rank == release_order(values(a@), values(b@)),
{
    let ghost x = values(a@);
    let ghost y = values(b@);
    let none: Vec<char> = Vec::new();
    let mut i: usize = 0;
    assert(rest_from(x, 0) =~= x && rest_from(y, 0) =~= y);
    while i < a.len() || i < b.len()
        invariant
            all_digits(a@),
            all_digits(b@),
            none@ == Seq::<char>::empty(),
            x == values(a@),
            y == values(b@),
            release_order(x, y) == release_order(rest_from(x, i as int), rest_from(y, i as int)),
        decreases a.len() + b.len() - i,
    {
        let p = if i < a.len() {
            &a[i]
        } else {
            &none
        };
        let q = if i < b.len() {
            &b[i]
        } else {
            &none
        };
        proof {
            lemma_release_step(x, i as int);
            lemma_release_step(y, i as int);
        }
        match rank_digits(p, q) {
            Rank::Level => {},
            rank => {
                return rank;
            },
        }
        i = i + 1;
    }
    Rank::Level
}

fn rank_versions(a: &str, b: &str) -> (rank: Rank)
    ensures
        rank == precedence(a@, b@),
{
    let a_bare = cut_before(&chars_of(a), '+');
    let b_bare = cut_before(&chars_of(b), '+');
    let a_pre = cut_after(&a_bare, '-');
    let b_pre = cut_after(&b_bare, '-');
    let releases = rank_releases(
        &release_of(&cut_before(&a_bare, '-')),
        &release_of(&cut_before(&b_bare, '-')),
    );
    match releases {
        Rank::Level => {
            if a_pre.len() == 0 && b_pre.len() == 0 {
                Rank::Level
            } else if a_pre.len() == 0 {
                Rank::Above
            } else if b_pre.len() == 0 {
                Rank::Below
            } else {
                rank_prereleases(&a_pre, &b_pre)
            }
        },
        other => other,
    }
}

/// Orders two versions by precedence.
pub fn compare_versions(a: &str, b: &str) -> (order: Ordering)
    ensures
        order == ordering(precedence(a@, b@)),
{
    to_ordering(rank_versions(a, b))
}

/// Orders two prereleases, as `rc.1` and `rc.2`, part by part.
pub fn compare_prerelease(a: &str, b: &str) -> (order: Ordering)
    ensures
        order == ordering(prerelease_order(a@, b@)),
{
    to_ordering(rank_prereleases(&chars_of(a), &chars_of(b)))
}

/// Where a channel's version sits relative to what is installed.
///
/// `Older` exists because leaving a channel is a supported move: going from an
/// alpha back to the stable line is a downgrade that has to be on offer.
#[derive(Clone, Copy, PartialEq, Eq, Debug, Structural)]
pub enum VersionRelation {
    Same,
    Newer,
    Older,
}

/// How `target` relates to `installed`.
pub open spec fn relation(target: Seq<char>, installed: Seq<char>) -> VersionRelation {
    match precedence(target, installed) {
        Rank::Above => VersionRelation::Newer,
        Rank::Below => VersionRelation::Older,
        Rank::Level => VersionRelation::Same,
    }
}

/// The word that the page switches on for a relation.
pub open spec fn relation_state(relation: VersionRelation) -> Seq<char> {
    match relation {
        VersionRelation::Same => "current"@,
        VersionRelation::Newer => "outdated"@,
        VersionRelation::Older => "rollback"@,
    }
}

impl VersionRelation {
    /// The `state` string the page switches on.
    pub fn state(self) -> (state: &'static str)
        ensures
            state@ == relation_state(self),
    {
        match self {
            VersionRelation::Same => "current",
            VersionRelation::Newer => "outdated",
            VersionRelation::Older => "rollback",
        }
    }
}

/// Compares a channel's version against the installed one.
pub fn relate(target: &str, installed: &str) -> (related: VersionRelation)
    ensures
        related == relation(target@, installed@),
{
    match compare_versions(target, installed) {
        Ordering::Greater => VersionRelation::Newer,
        Ordering::Less => VersionRelation::Older,
        Ordering::Equal => VersionRelation::Same,
    }
}

} // verus!
