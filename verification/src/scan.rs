//! Cutting and searching text: trimming, splitting, substrings, numbers.
use crate::text::{chars_of, digit, in_class, is_digit, rows, slice, CharClass};
use vstd::prelude::*;

verus! {

// ---------------------------------------------------------------- runs and trims

/// How many characters come before the first one of `class`; all of them when
/// there is none.
pub open spec fn until(s: Seq<char>, class: CharClass) -> nat
    decreases s.len(),
{
    if s.len() == 0 || in_class(class, s[0]) {
        0
    } else {
        1 + until(s.drop_first(), class)
    }
}

/// `s` without the leading characters that belong to `class`.
pub open spec fn drop_leading(s: Seq<char>, class: CharClass) -> Seq<char>
    decreases s.len(),
{
    if s.len() > 0 && in_class(class, s[0]) {
        drop_leading(s.drop_first(), class)
    } else {
        s
    }
}

/// `s` without the trailing characters that belong to `class`.
pub open spec fn drop_trailing(s: Seq<char>, class: CharClass) -> Seq<char>
    decreases s.len(),
{
    if s.len() > 0 && in_class(class, s.last()) {
        drop_trailing(s.drop_last(), class)
    } else {
        s
    }
}

/// `s` without white space at either end.
pub open spec fn trimmed(s: Seq<char>) -> Seq<char> {
    drop_trailing(drop_leading(s, CharClass::White), CharClass::White)
}

/// `until` is the one index with nothing of the class before it and, unless it
/// is the end, a character of the class at it.
pub proof fn lemma_until(s: Seq<char>, class: CharClass)
    ensures
        until(s, class) <= s.len(),
        forall|i: int| 0 <= i < until(s, class) ==> !in_class(class, #[trigger] s[i]),
        until(s, class) < s.len() ==> in_class(class, s[until(s, class) as int]),
    decreases s.len(),
{
    if s.len() > 0 && !in_class(class, s[0]) {
        lemma_until(s.drop_first(), class);
        assert forall|i: int| 0 <= i < until(s, class) implies !in_class(class, #[trigger] s[i]) by {
            if i > 0 {
                assert(s[i] == s.drop_first()[i - 1]);
            }
        }
    }
}

pub proof fn lemma_until_is(s: Seq<char>, class: CharClass, n: nat)
    requires
        n <= s.len(),
        forall|i: int| 0 <= i < n ==> !in_class(class, #[trigger] s[i]),
        n < s.len() ==> in_class(class, s[n as int]),
    ensures
        until(s, class) == n,
{
    lemma_until(s, class);
    let u = until(s, class);
    if u < n {
        assert(!in_class(class, s[u as int]));
    } else if n < u {
        assert(!in_class(class, s[n as int]));
    }
}

pub fn find_class(chars: &Vec<char>, class: CharClass) -> (n: usize)
    ensures
        n == until(chars@, class),
        n <= chars.len(),
{
    let mut n: usize = 0;
    while n < chars.len() && !class.has(chars[n])
        invariant
            n <= chars.len(),
            forall|i: int| 0 <= i < n ==> !in_class(class, #[trigger] chars@[i]),
        decreases chars.len() - n,
    {
        n = n + 1;
    }
    proof {
        lemma_until_is(chars@, class, n as nat);
    }
    n
}

pub proof fn lemma_drop_leading(s: Seq<char>, class: CharClass, n: nat)
    requires
        n <= s.len(),
        forall|i: int| 0 <= i < n ==> in_class(class, #[trigger] s[i]),
        n < s.len() ==> !in_class(class, s[n as int]),
    ensures
        drop_leading(s, class) == s.skip(n as int),
    decreases s.len(),
{
    if n > 0 {
        assert(in_class(class, s[0]));
        let t = s.drop_first();
        assert forall|i: int| 0 <= i < n - 1 implies in_class(class, #[trigger] t[i]) by {
            assert(t[i] == s[i + 1]);
        }
        lemma_drop_leading(t, class, (n - 1) as nat);
        assert(t.skip(n - 1) =~= s.skip(n as int));
    } else {
        assert(s.skip(0) =~= s);
    }
}

pub proof fn lemma_drop_trailing(s: Seq<char>, class: CharClass, n: nat)
    requires
        n <= s.len(),
        forall|i: int| n <= i < s.len() ==> in_class(class, #[trigger] s[i]),
        n > 0 ==> !in_class(class, s[n - 1]),
    ensures
        drop_trailing(s, class) == s.take(n as int),
    decreases s.len(),
{
    if n < s.len() {
        assert(in_class(class, s[s.len() - 1]));
        let t = s.drop_last();
        assert forall|i: int| n <= i < t.len() implies in_class(class, #[trigger] t[i]) by {
            assert(t[i] == s[i]);
        }
        lemma_drop_trailing(t, class, n);
        assert(t.take(n as int) =~= s.take(n as int));
    } else {
        assert(s.take(n as int) =~= s);
    }
}

/// `drop_trailing` keeps a prefix, and that prefix does not end in the class.
pub proof fn lemma_drop_trailing_prefix(s: Seq<char>, class: CharClass)
    ensures
        drop_trailing(s, class).len() <= s.len(),
        drop_trailing(s, class) == s.take(drop_trailing(s, class).len() as int),
        drop_trailing(s, class).len() > 0 ==> !in_class(class, drop_trailing(s, class).last()),
    decreases s.len(),
{
    if s.len() > 0 && in_class(class, s.last()) {
        lemma_drop_trailing_prefix(s.drop_last(), class);
        let k = drop_trailing(s, class).len() as int;
        assert(s.drop_last().take(k) =~= s.take(k));
    } else {
        assert(s.take(s.len() as int) =~= s);
    }
}

/// Trimming at the end leaves the first `n` characters alone when the last of them
/// does not belong to the class.
pub proof fn lemma_drop_trailing_keeps(s: Seq<char>, class: CharClass, n: int)
    requires
        0 < n <= s.len(),
        !in_class(class, s[n - 1]),
    ensures
        drop_trailing(s, class).len() >= n,
    decreases s.len(),
{
    if in_class(class, s.last()) {
        lemma_drop_trailing_keeps(s.drop_last(), class, n);
    }
}

pub fn trim_leading(chars: &Vec<char>, class: CharClass) -> (rest: Vec<char>)
    ensures
        rest@ == drop_leading(chars@, class),
{
    let mut n: usize = 0;
    while n < chars.len() && class.has(chars[n])
        invariant
            n <= chars.len(),
            forall|i: int| 0 <= i < n ==> in_class(class, #[trigger] chars@[i]),
        decreases chars.len() - n,
    {
        n = n + 1;
    }
    proof {
        lemma_drop_leading(chars@, class, n as nat);
        assert(chars@.subrange(n as int, chars@.len() as int) =~= chars@.skip(n as int));
    }
    slice(chars, n, chars.len())
}

pub fn trim_trailing(chars: &Vec<char>, class: CharClass) -> (rest: Vec<char>)
    ensures
        rest@ == drop_trailing(chars@, class),
{
    let mut n: usize = chars.len();
    while n > 0 && class.has(chars[n - 1])
        invariant
            n <= chars.len(),
            forall|i: int| n <= i < chars.len() ==> in_class(class, #[trigger] chars@[i]),
        decreases n,
    {
        n = n - 1;
    }
    proof {
        lemma_drop_trailing(chars@, class, n as nat);
        assert(chars@.subrange(0, n as int) =~= chars@.take(n as int));
    }
    slice(chars, 0, n)
}

pub fn trim(chars: &Vec<char>) -> (rest: Vec<char>)
    ensures
        rest@ == trimmed(chars@),
{
    trim_trailing(&trim_leading(chars, CharClass::White), CharClass::White)
}

// ---------------------------------------------------------------- substrings

/// Whether `part` stands in `s` at index `at`.
pub open spec fn occurs_at(s: Seq<char>, part: Seq<char>, at: int) -> bool {
    0 <= at && at + part.len() <= s.len() && s.subrange(at, at + part.len() as int) == part
}

/// Whether `part` stands anywhere in `s`.
pub open spec fn has_part(s: Seq<char>, part: Seq<char>) -> bool {
    exists|at: int| occurs_at(s, part, at)
}

pub fn is_at(s: &Vec<char>, part: &Vec<char>, at: usize) -> (yes: bool)
    ensures
        yes == occurs_at(s@, part@, at as int),
{
    if at > s.len() || part.len() > s.len() - at {
        return false;
    }
    for i in 0..part.len()
        invariant
            at + part.len() <= s.len(),
            forall|j: int| 0 <= j < i ==> s@[at + j] == part@[j],
    {
        if s[at + i] != part[i] {
            assert(s@.subrange(at as int, at + part.len() as int)[i as int] != part@[i as int]);
            return false;
        }
    }
    assert(s@.subrange(at as int, at + part.len() as int) =~= part@);
    true
}

pub fn contains(s: &Vec<char>, part: &str) -> (yes: bool)
    ensures
        yes == has_part(s@, part@),
{
    let pattern = chars_of(part);
    if pattern.len() > s.len() {
        return false;
    }
    let last: usize = s.len() - pattern.len();
    let mut at: usize = 0;
    while at < last
        invariant
            at <= last,
            last == s.len() - pattern.len(),
            pattern@ == part@,
            forall|j: int| 0 <= j < at ==> !occurs_at(s@, pattern@, j),
        decreases last - at,
    {
        if is_at(s, &pattern, at) {
            return true;
        }
        at = at + 1;
    }
    is_at(s, &pattern, last)
}

pub fn starts_with(s: &Vec<char>, part: &str) -> (yes: bool)
    ensures
        yes == occurs_at(s@, part@, 0),
{
    is_at(s, &chars_of(part), 0)
}

/// `s` with every copy of `part` taken off its front.
pub open spec fn strip_repeated(s: Seq<char>, part: Seq<char>) -> Seq<char>
    decreases s.len(),
{
    if part.len() > 0 && occurs_at(s, part, 0) {
        strip_repeated(s.skip(part.len() as int), part)
    } else {
        s
    }
}

pub fn strip_all(s: &Vec<char>, part: &str) -> (rest: Vec<char>)
    ensures
        rest@ == strip_repeated(s@, part@),
{
    let part = chars_of(part);
    let mut rest = slice(s, 0, s.len());
    assert(rest@ =~= s@);
    while part.len() > 0 && is_at(&rest, &part, 0)
        invariant
            strip_repeated(s@, part@) == strip_repeated(rest@, part@),
        decreases rest.len(),
    {
        let next = slice(&rest, part.len(), rest.len());
        assert(next@ =~= rest@.skip(part@.len() as int));
        rest = next;
    }
    rest
}

// ---------------------------------------------------------------- splitting

/// The index of the first `c` in `s`; the length of `s` when there is none.
pub open spec fn position(s: Seq<char>, c: char) -> nat
    decreases s.len(),
{
    if s.len() == 0 || s[0] == c {
        0
    } else {
        1 + position(s.drop_first(), c)
    }
}

/// What stands before the first `c`; all of `s` when there is none.
pub open spec fn before(s: Seq<char>, c: char) -> Seq<char> {
    s.take(position(s, c) as int)
}

/// What stands after the first `c`; nothing when there is none.
pub open spec fn after(s: Seq<char>, c: char) -> Seq<char> {
    if position(s, c) < s.len() {
        s.skip(position(s, c) as int + 1)
    } else {
        Seq::empty()
    }
}

/// `position` is the one index with no `c` before it and, unless it is the end,
/// a `c` at it.
pub proof fn lemma_position(s: Seq<char>, c: char)
    ensures
        position(s, c) <= s.len(),
        forall|i: int| 0 <= i < position(s, c) ==> #[trigger] s[i] != c,
        position(s, c) < s.len() ==> s[position(s, c) as int] == c,
    decreases s.len(),
{
    if s.len() > 0 && s[0] != c {
        lemma_position(s.drop_first(), c);
        assert forall|i: int| 0 <= i < position(s, c) implies #[trigger] s[i] != c by {
            if i > 0 {
                assert(s[i] == s.drop_first()[i - 1]);
            }
        }
    }
}

pub proof fn lemma_position_is(s: Seq<char>, c: char, n: nat)
    requires
        n <= s.len(),
        forall|i: int| 0 <= i < n ==> #[trigger] s[i] != c,
        n < s.len() ==> s[n as int] == c,
    ensures
        position(s, c) == n,
{
    lemma_position(s, c);
    let p = position(s, c);
    if p < n {
        assert(s[p as int] != c);
    } else if n < p {
        assert(s[n as int] != c);
    }
}

pub fn find_char(chars: &Vec<char>, c: char) -> (n: usize)
    ensures
        n == position(chars@, c),
        n <= chars.len(),
{
    let mut n: usize = 0;
    while n < chars.len() && chars[n] != c
        invariant
            n <= chars.len(),
            forall|i: int| 0 <= i < n ==> #[trigger] chars@[i] != c,
        decreases chars.len() - n,
    {
        n = n + 1;
    }
    proof {
        lemma_position_is(chars@, c, n as nat);
    }
    n
}

pub fn cut_before(chars: &Vec<char>, c: char) -> (part: Vec<char>)
    ensures
        part@ == before(chars@, c),
{
    let n = find_char(chars, c);
    assert(chars@.subrange(0, n as int) =~= chars@.take(n as int));
    slice(chars, 0, n)
}

pub fn cut_after(chars: &Vec<char>, c: char) -> (part: Vec<char>)
    ensures
        part@ == after(chars@, c),
{
    let n = find_char(chars, c);
    if n < chars.len() {
        assert(chars@.subrange(n + 1, chars@.len() as int) =~= chars@.skip(n + 1));
        slice(chars, n + 1, chars.len())
    } else {
        Vec::new()
    }
}

/// The pieces of `s` between the occurrences of `sep`.
pub open spec fn split(s: Seq<char>, sep: char) -> Seq<Seq<char>>
    decreases s.len(),
{
    if s.len() == 0 {
        seq![s]
    } else {
        let before = split(s.drop_last(), sep);
        if s.last() == sep {
            before.push(Seq::empty())
        } else {
            before.drop_last().push(before.last().push(s.last()))
        }
    }
}

pub fn split_at_each(chars: &Vec<char>, sep: char) -> (pieces: Vec<Vec<char>>)
    ensures
        rows(pieces@) == split(chars@, sep),
{
    let mut done: Vec<Vec<char>> = Vec::new();
    let mut current: Vec<char> = Vec::new();
    proof {
        assert(chars@.take(0) =~= current@);
        assert(rows(done@).push(current@) =~= seq![current@]);
    }
    for i in 0..chars.len()
        invariant
            rows(done@).push(current@) == split(chars@.take(i as int), sep),
    {
        let ghost before = rows(done@).push(current@);
        let c = chars[i];
        proof {
            assert(chars@.take(i + 1).drop_last() =~= chars@.take(i as int));
            assert(chars@.take(i + 1).last() == c);
            assert(before.drop_last() =~= rows(done@));
        }
        if c == sep {
            done.push(current);
            current = Vec::new();
            proof {
                assert(rows(done@) =~= before);
                assert(current@ =~= Seq::<char>::empty());
            }
        } else {
            current.push(c);
        }
    }
    let ghost old_done = done@;
    let ghost last = current@;
    done.push(current);
    proof {
        assert(chars@.take(chars.len() as int) =~= chars@);
        assert(rows(done@) =~= rows(old_done).push(last));
    }
    done
}

// ---------------------------------------------------------------- numbers

/// The number that a digit stands for.
pub open spec fn digit_value(c: char) -> nat {
    (c as nat - '0' as nat) as nat
}

/// The number that a row of digits spells in base ten.
pub open spec fn value(s: Seq<char>) -> nat
    decreases s.len(),
{
    if s.len() == 0 {
        0
    } else {
        value(s.drop_last()) * 10 + digit_value(s.last())
    }
}

/// Whether `s` is made of digits, at least one.
pub open spec fn numeral(s: Seq<char>) -> bool {
    s.len() > 0 && forall|i: int| 0 <= i < s.len() ==> digit(#[trigger] s[i])
}

/// `s` without a plus sign in front.
pub open spec fn unsigned(s: Seq<char>) -> Seq<char> {
    if s.len() > 0 && s[0] == '+' {
        s.drop_first()
    } else {
        s
    }
}

/// `s` read as a natural number of any size: an optional `+` and digits, nothing else.
pub open spec fn natural(s: Seq<char>) -> Option<nat> {
    if numeral(unsigned(s)) {
        Some(value(unsigned(s)))
    } else {
        None
    }
}

/// `s` read as a natural number no greater than `max`.
pub open spec fn number(s: Seq<char>, max: nat) -> Option<nat> {
    match natural(s) {
        Some(n) => if n <= max {
            Some(n)
        } else {
            None
        },
        None => None,
    }
}

proof fn lemma_value_grows(s: Seq<char>, n: int)
    requires
        0 <= n <= s.len(),
    ensures
        value(s.take(n)) <= value(s),
    decreases s.len() - n,
{
    if n < s.len() {
        lemma_value_grows(s, n + 1);
        assert(s.take(n + 1).drop_last() =~= s.take(n));
    } else {
        assert(s.take(n) =~= s);
    }
}

pub fn parse_number(chars: &Vec<char>, max: u64) -> (n: Option<u64>)
    ensures
        match n {
            Some(n) => number(chars@, max as nat) == Some(n as nat),
            None => number(chars@, max as nat) is None,
        },
{
    let signed: bool = chars.len() > 0 && chars[0] == '+';
    let from: usize = if signed {
        1
    } else {
        0
    };
    let ghost body = chars@.skip(from as int);
    assert(body =~= unsigned(chars@));
    if chars.len() == from {
        return None;
    }
    let mut total: u64 = 0;
    for i in from..chars.len()
        invariant
            from <= chars.len(),
            from <= i <= chars.len(),
            body == chars@.skip(from as int),
            number(chars@, max as nat) == if numeral(body) && value(body) <= max {
                Some(value(body))
            } else {
                None
            },
            total == value(body.take(i - from)),
            total <= max,
            forall|j: int| 0 <= j < i - from ==> digit(#[trigger] body[j]),
    {
        let c = chars[i];
        assert(body[i - from] == c);
        if !is_digit(c) {
            assert(!digit(body[i - from]));
            return None;
        }
        let d: u64 = c as u64 - '0' as u64;
        proof {
            assert(body.take(i + 1 - from).drop_last() =~= body.take(i - from));
            lemma_value_grows(body, i + 1 - from);
            assert(value(body.take(i + 1 - from)) == total * 10 + d);
        }
        if d > max || total > (max - d) / 10 {
            return None;
        }
        total = total * 10 + d;
    }
    assert(body.take(chars.len() - from) =~= body);
    Some(total)
}

/// The digits of a natural number of any size, where `chars` is one.
pub fn digits_of(chars: &Vec<char>) -> (digits: Option<Vec<char>>)
    ensures
        match digits {
            Some(digits) => numeral(digits@) && natural(chars@) == Some(value(digits@)),
            None => natural(chars@) is None,
        },
{
    let from: usize = if chars.len() > 0 && chars[0] == '+' {
        1
    } else {
        0
    };
    let digits = slice(chars, from, chars.len());
    assert(digits@ =~= unsigned(chars@));
    if digits.len() == 0 {
        return None;
    }
    for i in 0..digits.len()
        invariant
            digits@ == unsigned(chars@),
            forall|j: int| 0 <= j < i ==> digit(#[trigger] digits@[j]),
    {
        if !is_digit(digits[i]) {
            assert(!digit(digits@[i as int]));
            return None;
        }
    }
    Some(digits)
}

/// The character for a number below ten.
pub open spec fn digit_char(d: nat) -> char {
    (d + '0' as nat) as char
}

/// The number `n` written in base ten.
pub open spec fn decimal(n: nat) -> Seq<char>
    decreases n,
{
    if n < 10 {
        seq![digit_char(n)]
    } else {
        decimal(n / 10).push(digit_char(n % 10))
    }
}

/// A number written in base ten reads back as itself.
pub proof fn law_decimal_reads_back(n: nat)
    ensures
        numeral(decimal(n)),
        value(decimal(n)) == n,
    decreases n,
{
    if n < 10 {
        let s = seq![digit_char(n)];
        assert(s.drop_last() =~= Seq::<char>::empty());
        reveal_with_fuel(value, 2);
    } else {
        law_decimal_reads_back(n / 10);
        let s = decimal(n);
        assert(s.drop_last() =~= decimal(n / 10));
        assert(s.last() == digit_char(n % 10));
        assert forall|i: int| 0 <= i < s.len() implies digit(#[trigger] s[i]) by {
            if i < s.len() - 1 {
                assert(s[i] == decimal(n / 10)[i]);
            }
        }
    }
}

fn decimal_chars(n: u64) -> (chars: Vec<char>)
    ensures
        chars@ == decimal(n as nat),
    decreases n,
{
    let d: u8 = (n % 10) as u8;
    let c: char = (d + 48u8) as char;
    if n < 10 {
        let mut chars: Vec<char> = Vec::new();
        chars.push(c);
        assert(chars@ =~= seq![digit_char(n as nat)]);
        chars
    } else {
        let mut chars = decimal_chars(n / 10);
        chars.push(c);
        chars
    }
}

/// `n` in base ten.
pub fn decimal_text(n: u64) -> (s: String)
    ensures
        s@ == decimal(n as nat),
{
    crate::text::to_text(&decimal_chars(n))
}

} // verus!
