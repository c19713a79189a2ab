//! Which address is found in the output, and which port is probed, over the texts.
use crate::address::{
    address_from, address_on, authority, candidate_at, gui_address, has_port, is_dsh_page,
    probe_finds, probe_target, probed_port, url_in, Address,
};
use crate::scan::{
    decimal, drop_trailing, lemma_drop_trailing, lemma_drop_trailing_prefix, lemma_until,
    lemma_until_is, number, numeral, occurs_at, trimmed, until, value,
};
use crate::scan_laws::{
    begins, blank, bounded, ends_in, law_decimal_has_no_zero_in_front, law_endings,
    law_numbers_are_digits,
    law_parts_have_surroundings, law_trimming_leaves_nothing_of_a_blank,
    law_trimming_leaves_the_middle, made_of,
};
use crate::text::{digit, in_class, CharClass};
use vstd::prelude::*;

verus! {

// ---------------------------------------------------------------- what counts

/// Whether `url` is `http://`, a host, a colon and the digits of a port, and then nothing
/// or a path, a query or a fragment.
pub open spec fn with_port(
    url: Seq<char>,
    host: Seq<char>,
    port: Seq<char>,
    rest: Seq<char>,
) -> bool {
    &&& url == "http://"@ + host + ":"@ + port + rest
    &&& forall|i: int| 0 <= i < host.len() ==> !in_class(CharClass::AuthorityEnd, #[trigger] host[i])
    &&& numeral(port)
    &&& rest.len() > 0 ==> in_class(CharClass::AuthorityEnd, rest[0])
}

/// Whether an address is plain HTTP on this machine, by any of its names.
pub open spec fn local_http(address: Option<Address>) -> bool {
    address matches Some(a) && a.scheme == "http"@ && (a.host == Some("127.0.0.1"@) || a.host
        == Some("localhost"@) || a.host == Some("[::1]"@) || a.host == Some("0.0.0.0"@))
}

/// What begins with `http://` is the address of a GUI if and only if it parses as plain
/// HTTP on this machine and spells a port out in front of any path, query or fragment.
pub proof fn law_gui_address_spells_its_port(url: Seq<char>)
    requires
        begins(url, "http://"@),
    ensures
        gui_address(url) <==> local_http(url_in(url)) && exists|
            host: Seq<char>,
            port: Seq<char>,
            rest: Seq<char>,
        | #[trigger] with_port(url, host, port, rest),
{
    reveal_strlit("http://");
    reveal_strlit(":");
    let body = url.skip(7);
    let n = until(body, CharClass::AuthorityEnd) as int;
    lemma_until(body, CharClass::AuthorityEnd);
    let front = body.take(n);
    assert(authority(url) == front);
    if has_port(front) {
        let i = choose|i: int|
            0 <= i < front.len() && #[trigger] front[i] == ':' && numeral(front.skip(i + 1));
        let host = front.take(i);
        let port = front.skip(i + 1);
        let rest = body.skip(n);
        assert forall|k: int| 0 <= k < host.len() implies !in_class(
            CharClass::AuthorityEnd,
            #[trigger] host[k],
        ) by {
            assert(host[k] == body[k]);
        }
        assert(url.take(7) =~= "http://"@);
        assert(front =~= host + ":"@ + port);
        assert(url =~= "http://"@ + front + rest);
        assert("http://"@ + front + rest =~= "http://"@ + host + ":"@ + port + rest);
        assert(with_port(url, host, port, rest));
    }
    if exists|host: Seq<char>, port: Seq<char>, rest: Seq<char>| #[trigger]
        with_port(url, host, port, rest) {
        let (host, port, rest) = choose|host: Seq<char>, port: Seq<char>, rest: Seq<char>|
         #[trigger]
            with_port(url, host, port, rest);
        let m = host.len() + 1 + port.len();
        assert(body =~= host + ":"@ + port + rest);
        assert forall|k: int| 0 <= k < m implies !in_class(
            CharClass::AuthorityEnd,
            #[trigger] body[k],
        ) by {
            if k < host.len() {
                assert(body[k] == host[k]);
            } else if k > host.len() {
                assert(body[k] == port[k - host.len() - 1]);
                assert(digit(port[k - host.len() - 1]));
            }
        }
        if rest.len() > 0 {
            assert(body[m as int] == rest[0]);
        }
        lemma_until_is(body, CharClass::AuthorityEnd, m);
        assert(front =~= host + ":"@ + port);
        assert(front[host.len() as int] == ':');
        assert(front.skip(host.len() as int + 1) =~= port);
    }
}

// ---------------------------------------------------------------- what is found

/// Whether the address of a GUI stands in a line at `i`: up to the next gap or the end of
/// the line, but for the punctuation of the sentence around it.
pub open spec fn gui_stands_at(line: Seq<char>, url: Seq<char>, i: int) -> bool {
    &&& 0 <= i
    &&& i + url.len() <= line.len()
    &&& line.subrange(i, i + url.len() as int) == url
    &&& begins(url, "http://"@)
    &&& gui_address(url)
    &&& !in_class(CharClass::Prose, url[url.len() - 1])
    &&& forall|k: int| 0 <= k < url.len() ==> !in_class(CharClass::Gap, #[trigger] url[k])
    &&& exists|end: int| #[trigger] prose_until(line, i + url.len() as int, end)
}

/// Whether a line has only punctuation from `from` up to `end`, and there ends or has a
/// gap.
pub open spec fn prose_until(line: Seq<char>, from: int, end: int) -> bool {
    &&& from <= end <= line.len()
    &&& forall|k: int|
        from <= k < end ==> in_class(CharClass::Prose, #[trigger] line[k]) && !in_class(
            CharClass::Gap,
            line[k],
        )
    &&& end < line.len() ==> in_class(CharClass::Gap, line[end])
}

/// Whether the first address of a GUI from `from` on stands at `i`.
pub open spec fn first_gui(line: Seq<char>, url: Seq<char>, from: int, i: int) -> bool {
    from <= i && gui_stands_at(line, url, i) && no_gui_between(line, from, i)
}

/// Whether no address of a GUI stands in a line from `from` up to `to`.
pub open spec fn no_gui_between(line: Seq<char>, from: int, to: int) -> bool {
    forall|w: Seq<char>, j: int| from <= j < to ==> !#[trigger] gui_stands_at(line, w, j)
}

proof fn lemma_gui_stands(line: Seq<char>, url: Seq<char>, i: int)
    requires
        0 <= i < line.len(),
    ensures
        gui_stands_at(line, url, i) <==> (occurs_at(line, "http://"@, i) && gui_address(
            candidate_at(line, i),
        ) && url == candidate_at(line, i)),
{
    reveal_strlit("http://");
    let rest = line.skip(i);
    if gui_stands_at(line, url, i) {
        let n = i + url.len() as int;
        let end = choose|end: int| #[trigger] prose_until(line, n, end);
        let m = (end - i) as nat;
        assert forall|k: int| 0 <= k < m implies !in_class(CharClass::Gap, #[trigger] rest[k]) by {
            assert(rest[k] == line[i + k]);
            if i + k < n {
                assert(line.subrange(i, n)[k] == url[k]);
            }
        }
        if m < rest.len() {
            assert(rest[m as int] == line[end]);
        }
        lemma_until_is(rest, CharClass::Gap, m);
        let run = rest.take(m as int);
        assert forall|k: int| url.len() <= k < run.len() implies in_class(
            CharClass::Prose,
            #[trigger] run[k],
        ) by {
            assert(run[k] == line[i + k]);
        }
        assert(run[url.len() - 1] == line.subrange(i, n)[url.len() - 1]);
        lemma_drop_trailing(run, CharClass::Prose, url.len());
        assert(run.take(url.len() as int) =~= line.subrange(i, n));
        assert(line.subrange(i, i + 7) =~= url.take(7)) by {
            assert forall|k: int| 0 <= k < 7 implies line[i + k] == url[k] by {
                assert(line.subrange(i, n)[k] == url[k]);
            }
        }
    }
    if occurs_at(line, "http://"@, i) && gui_address(candidate_at(line, i)) && url == candidate_at(
        line,
        i,
    ) {
        let m = until(rest, CharClass::Gap);
        lemma_until(rest, CharClass::Gap);
        let run = rest.take(m as int);
        lemma_drop_trailing_prefix(run, CharClass::Prose);
        lemma_dropped_prose(run);
        lemma_kept(line, i);
        let n = i + url.len() as int;
        let end = i + m as int;
        assert(line.subrange(i, n) =~= url);
        assert forall|k: int| 0 <= k < url.len() implies !in_class(
            CharClass::Gap,
            #[trigger] url[k],
        ) by {
            assert(url[k] == rest[k]);
        }
        assert forall|k: int| n <= k < end implies in_class(CharClass::Prose, #[trigger] line[k])
            && !in_class(CharClass::Gap, line[k]) by {
            assert(run[k - i] == line[k]);
            assert(rest[k - i] == line[k]);
        }
        if end < line.len() {
            assert(rest[m as int] == line[end]);
        }
        assert(prose_until(line, n, end));
    }
}

/// What was taken off the end is punctuation, and what is left does not end in any.
proof fn lemma_dropped_prose(s: Seq<char>)
    ensures
        drop_trailing(s, CharClass::Prose).len() <= s.len(),
        forall|k: int|
            drop_trailing(s, CharClass::Prose).len() <= k < s.len() ==> in_class(
                CharClass::Prose,
                #[trigger] s[k],
            ),
        drop_trailing(s, CharClass::Prose).len() > 0 ==> !in_class(
            CharClass::Prose,
            drop_trailing(s, CharClass::Prose).last(),
        ),
    decreases s.len(),
{
    if s.len() > 0 && in_class(CharClass::Prose, s.last()) {
        let t = s.drop_last();
        lemma_dropped_prose(t);
        assert forall|k: int| drop_trailing(s, CharClass::Prose).len() <= k < s.len() implies
            in_class(CharClass::Prose, #[trigger] s[k]) by {
            if k < t.len() {
                assert(s[k] == t[k]);
            }
        }
    }
}

/// What begins with `http://` still does without its punctuation.
proof fn lemma_kept(line: Seq<char>, i: int)
    requires
        0 <= i < line.len(),
        occurs_at(line, "http://"@, i),
    ensures
        begins(candidate_at(line, i), "http://"@),
{
    reveal_strlit("http://");
    let rest = line.skip(i);
    let m = until(rest, CharClass::Gap);
    lemma_until(rest, CharClass::Gap);
    let run = rest.take(m as int);
    let url = candidate_at(line, i);
    assert forall|k: int| 0 <= k < 7 implies rest[k] == "http://"@[k] by {
        assert(line.subrange(i, i + 7)[k] == rest[k]);
    }
    if m < 7 {
        assert(in_class(CharClass::Gap, rest[m as int]));
        assert(false);
    }
    lemma_drop_trailing_prefix(run, CharClass::Prose);
    lemma_dropped_prose(run);
    if url.len() < 7 {
        assert(in_class(CharClass::Prose, run[6]));
        assert(run[6] == rest[6]);
        assert(false);
    }
    assert(url.take(7) =~= "http://"@);
}

proof fn lemma_first_gui(line: Seq<char>, from: int) -> (i: int)
    requires
        0 <= from,
    ensures
        address_from(line, from) is Some ==> first_gui(line, address_from(line, from)->0, from, i),
        address_from(line, from) is None ==> no_gui_between(line, from, line.len() as int),
    decreases line.len() - from,
{
    if from >= line.len() {
        from
    } else if occurs_at(line, "http://"@, from) && gui_address(candidate_at(line, from)) {
        lemma_gui_stands(line, candidate_at(line, from), from);
        from
    } else {
        let i = lemma_first_gui(line, from + 1);
        assert forall|w: Seq<char>| !#[trigger] gui_stands_at(line, w, from) by {
            lemma_gui_stands(line, w, from);
        }
        if address_from(line, from) is Some {
            lemma_no_gui(line, from, i);
        } else {
            lemma_no_gui(line, from, line.len() as int);
        }
        i
    }
}

proof fn lemma_no_gui(line: Seq<char>, from: int, to: int)
    requires
        no_gui_between(line, from + 1, to),
        forall|w: Seq<char>| !#[trigger] gui_stands_at(line, w, from),
    ensures
        no_gui_between(line, from, to),
{
}

/// The address that is found is the first one of a GUI that stands in the line; what
/// looks like an address and is none of a GUI is passed over; and where none is found,
/// none stands in the line.
pub proof fn law_first_gui_is_found(line: Seq<char>)
    ensures
        address_from(line, 0) matches Some(url) ==> exists|i: int| #[trigger]
            first_gui(line, url, 0, i),
        address_from(line, 0) is None ==> no_gui_between(line, 0, line.len() as int),
{
    let i = lemma_first_gui(line, 0);
    if address_from(line, 0) is Some {
        assert(first_gui(line, address_from(line, 0)->0, 0, i));
    }
}

/// The address of a GUI is found in a line whatever text without another address stands
/// around it.
pub proof fn law_address_is_found_in_a_sentence(
    front: Seq<char>,
    url: Seq<char>,
    prose: Seq<char>,
    back: Seq<char>,
)
    requires
        begins(url, "http://"@),
        gui_address(url),
        !in_class(CharClass::Prose, url[url.len() - 1]),
        forall|k: int| 0 <= k < url.len() ==> !in_class(CharClass::Gap, #[trigger] url[k]),
        forall|k: int| 0 <= k < front.len() ==> #[trigger] front[k] != 'h',
        forall|k: int|
            0 <= k < prose.len() ==> in_class(CharClass::Prose, #[trigger] prose[k]) && !in_class(
                CharClass::Gap,
                prose[k],
            ),
        back.len() > 0 ==> in_class(CharClass::Gap, back[0]),
    ensures
        address_from(front + url + prose + back, 0) == Some(url),
{
    reveal_strlit("http://");
    let line = front + url + prose + back;
    let n = front.len() as int;
    let from = n + url.len() as int;
    let end = from + prose.len() as int;
    assert(line.subrange(n, from) =~= url);
    assert forall|k: int| from <= k < end implies in_class(CharClass::Prose, #[trigger] line[k])
        && !in_class(CharClass::Gap, line[k]) by {
        assert(line[k] == prose[k - from]);
    }
    if back.len() > 0 {
        assert(line[end] == back[0]);
    }
    assert(prose_until(line, from, end));
    assert(gui_stands_at(line, url, n));
    lemma_gui_stands(line, url, n);
    lemma_passed_over(line, n, 0);
}

proof fn lemma_passed_over(line: Seq<char>, n: int, from: int)
    requires
        0 <= from <= n <= line.len(),
        forall|k: int| 0 <= k < n ==> #[trigger] line[k] != 'h',
    ensures
        address_from(line, from) == address_from(line, n),
    decreases n - from,
{
    if from < n {
        reveal_strlit("http://");
        if occurs_at(line, "http://"@, from) {
            assert(line.subrange(from, from + 7)[0] == line[from]);
        }
        lemma_passed_over(line, n, from + 1);
    }
}

// ---------------------------------------------------------------- probing

/// The port to probe is the number that the environment spells, if it is one that a port
/// can have, with white space around it or not; in any other event it is 3080.
pub proof fn law_probed_port_is_the_one_that_is_named(
    front: Seq<char>,
    text: Seq<char>,
    back: Seq<char>,
)
    requires
        blank(front),
        blank(back),
    ensures
        numeral(text) && value(text) <= 65535 ==> probed_port(Some(front + text + back)) == value(
            text,
        ),
        numeral(text) && value(text) > 65535 ==> probed_port(Some(front + text + back)) == 3080,
        bounded(text) && text[0] != '+' && !numeral(text) ==> probed_port(
            Some(front + text + back),
        ) == 3080,
        probed_port(Some(front)) == 3080,
        probed_port(None) == 3080,
{
    law_trimming_leaves_nothing_of_a_blank(front);
    law_numbers_are_digits(trimmed(front), 65535);
    law_numbers_are_digits(text, 65535);
    if numeral(text) {
        assert(digit(text[0]) && digit(text[text.len() - 1]));
        assert(bounded(text));
    }
    if bounded(text) {
        law_trimming_leaves_the_middle(front, text, back);
        if text[0] != '+' && !numeral(text) {
            let i = choose|i: int| 0 <= i < text.len() && !digit(#[trigger] text[i]);
            assert(number(text, 65535) is None);
        }
    }
}

/// A response is that of a dsh page as soon as it has one of two marks in it, wherever it
/// stands, and only then.
pub proof fn law_dsh_page_bears_its_mark(response: Seq<char>)
    ensures
        is_dsh_page(response) <==> {
            ||| exists|a: Seq<char>, b: Seq<char>| #[trigger]
                made_of(response, a, "<title>DeepSeek Harness"@, b)
            ||| exists|a: Seq<char>, b: Seq<char>| #[trigger]
                made_of(response, a, "window.__DSH_BOOT__"@, b)
        },
{
    law_parts_have_surroundings(response, "<title>DeepSeek Harness"@);
    law_parts_have_surroundings(response, "window.__DSH_BOOT__"@);
}

/// A probe goes to the port that it is for, and one that is answered by a dsh page finds the
/// GUI on that port of this machine; any other answer finds none.
pub proof fn law_probe_finds_the_port_that_it_asked(port: nat, response: Seq<char>)
    ensures
        begins(probe_target(port), "127.0.0.1:"@),
        ends_in(probe_target(port), decimal(port)),
        numeral(decimal(port)) && value(decimal(port)) == port,
        probe_finds(port, response) is Some <==> is_dsh_page(response),
        probe_finds(port, response) matches Some(url) ==> begins(url, "http://127.0.0.1:"@)
            && ends_in(url, decimal(port)) && url.len() == "http://127.0.0.1:"@.len() + decimal(
            port,
        ).len(),
{
    law_decimal_has_no_zero_in_front(port);
    law_endings("127.0.0.1:"@, decimal(port));
    reveal_strlit("http://");
    reveal_strlit("127.0.0.1");
    reveal_strlit(":");
    reveal_strlit("http://127.0.0.1:");
    assert("http://127.0.0.1:"@ =~= "http://"@ + "127.0.0.1"@ + ":"@);
    law_endings("http://127.0.0.1:"@, decimal(port));
}

/// The address of a port names the host and the port: the number behind the last colon
/// reads back as the port.
pub proof fn law_address_names_its_port(host: Seq<char>, port: nat)
    ensures
        with_port(address_on(host, port), host, decimal(port), Seq::empty()) || exists|i: int|
            0 <= i < host.len() && in_class(CharClass::AuthorityEnd, #[trigger] host[i]),
        begins(address_on(host, port), "http://"@ + host + ":"@),
        numeral(address_on(host, port).skip(("http://"@ + host + ":"@).len() as int)),
        value(address_on(host, port).skip(("http://"@ + host + ":"@).len() as int)) == port,
{
    law_decimal_has_no_zero_in_front(port);
    let start = "http://"@ + host + ":"@;
    let address = address_on(host, port);
    assert(address.take(start.len() as int) =~= start);
    assert(address.skip(start.len() as int) =~= decimal(port));
    assert(address =~= "http://"@ + host + ":"@ + decimal(port) + Seq::empty());
}

} // verus!
