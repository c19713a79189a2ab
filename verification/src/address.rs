//! The address of the GUI: found in the backend's output, or on the probe port.
use crate::ansi::{is_escape, law_plain_keeps_plain_text, plain, strip_ansi};
use crate::scan::{
    contains, decimal, decimal_text, drop_trailing, find_class, has_part, is_at,
    law_decimal_reads_back, lemma_drop_trailing_keeps, lemma_drop_trailing_prefix, lemma_until,
    lemma_until_is, number, numeral, occurs_at, parse_number, trim, trim_trailing, trimmed, until,
    value,
};
use crate::text::{
    cat2, cat4, chars_of, digit, in_class, is_digit, opt_str, opt_text, same_text, slice, to_text,
    CharClass,
};
use vstd::prelude::*;

verus! {

/// A parsed URL, as far as it is looked at.
pub struct UrlParts {
    /// The URL written out in its normal form.
    pub href: String,
    pub scheme: String,
    pub host: Option<String>,
}

/// What a parsed URL holds.
pub struct Address {
    pub href: Seq<char>,
    pub scheme: Seq<char>,
    pub host: Option<Seq<char>>,
}

impl View for UrlParts {
    type V = Address;

    open spec fn view(&self) -> Address {
        Address { href: self.href@, scheme: self.scheme@, host: opt_text(self.host) }
    }
}

/// What an optional parsed URL holds.
pub open spec fn opt_address(parts: Option<UrlParts>) -> Option<Address> {
    match parts {
        Some(parts) => Some(parts@),
        None => None,
    }
}

/// The URL that a text spells, if it spells an absolute one.
pub uninterp spec fn url_in(text: Seq<char>) -> Option<Address>;

/// The names of this machine. An address of IPv6 stands in brackets as a host.
pub open spec fn loopback_name(host: Seq<char>) -> bool {
    host == "127.0.0.1"@ || host == "localhost"@ || host == "[::1]"@ || host == "0.0.0.0"@
}

/// What stands before the port in the URL of a host.
pub open spec fn before_port(host: Seq<char>) -> Seq<char> {
    "http://"@ + host + ":"@
}

/// Whether a text is `http://`, a name of this machine, a colon and a port number.
pub open spec fn local_url(text: Seq<char>, host: Seq<char>) -> bool {
    &&& loopback_name(host)
    &&& occurs_at(text, before_port(host), 0)
    &&& numeral(text.skip(before_port(host).len() as int))
    &&& value(text.skip(before_port(host).len() as int)) <= u16::MAX
}

/// Whether an address is plain HTTP on `host`.
pub open spec fn on_host(address: Option<Address>, host: Seq<char>) -> bool {
    address matches Some(a) && a.scheme == "http"@ && a.host == Some(host)
}

/// `url::Url::parse`, and of its result `as_str`, `scheme` and `host_str`. They depend
/// on the text alone. A text that is `http://`, a name of this machine, a colon and a
/// port number is a URL with that scheme and that host.
#[verifier::external_body]
pub(crate) fn parse_url(text: &str) -> (parts: Option<UrlParts>)
    ensures
        opt_address(parts) == url_in(text@),
        forall|host: Seq<char>| #[trigger]
            local_url(text@, host) ==> on_host(opt_address(parts), host),
{
    match url::Url::parse(text) {
        Ok(parsed) => Some(
            UrlParts {
                href: parsed.as_str().to_string(),
                scheme: parsed.scheme().to_string(),
                host: parsed.host_str().map(|host| host.to_string()),
            },
        ),
        Err(_) => None,
    }
}

// ---------------------------------------------------------------- in the output

/// The text from `i` to the next gap, without the punctuation of the sentence that it
/// stands in.
pub open spec fn candidate_at(line: Seq<char>, i: int) -> Seq<char> {
    let rest = line.skip(i);
    drop_trailing(rest.take(until(rest, CharClass::Gap) as int), CharClass::Prose)
}

/// What stands behind `http://` and before the path, query or fragment.
pub open spec fn authority(candidate: Seq<char>) -> Seq<char> {
    let body = candidate.skip("http://"@.len() as int);
    body.take(until(body, CharClass::AuthorityEnd) as int)
}

/// Whether an authority ends in a colon and digits.
pub open spec fn has_port(authority: Seq<char>) -> bool {
    exists|i: int|
        0 <= i < authority.len() && #[trigger] authority[i] == ':' && numeral(authority.skip(i + 1))
}

/// Whether a host is this machine.
pub open spec fn loopback(host: Option<Seq<char>>) -> bool {
    host matches Some(h) && loopback_name(h)
}

/// Whether a candidate is the address of a GUI on this machine: plain HTTP, loopback,
/// with an explicit port.
pub open spec fn gui_address(candidate: Seq<char>) -> bool {
    &&& url_in(candidate) matches Some(a) && a.scheme == "http"@ && loopback(a.host)
    &&& has_port(authority(candidate))
}

/// The first address of a GUI in `line` at or after `from`.
pub open spec fn address_from(line: Seq<char>, from: int) -> Option<Seq<char>>
    decreases line.len() - from,
{
    if from >= line.len() {
        None
    } else if occurs_at(line, "http://"@, from) && gui_address(candidate_at(line, from)) {
        Some(candidate_at(line, from))
    } else {
        address_from(line, from + 1)
    }
}

fn port_is_explicit(authority: &Vec<char>) -> (yes: bool)
    ensures
        yes == has_port(authority@),
{
    let mut at: usize = authority.len();
    while at > 0 && is_digit(authority[at - 1])
        invariant
            at <= authority.len(),
            forall|j: int| at <= j < authority.len() ==> digit(#[trigger] authority@[j]),
        decreases at,
    {
        at = at - 1;
    }
    let yes: bool = at > 0 && at < authority.len() && authority[at - 1] == ':';
    proof {
        if yes {
            assert(numeral(authority@.skip(at as int)));
            assert(authority@[at - 1] == ':');
        } else if has_port(authority@) {
            let i = choose|i: int|
                0 <= i < authority@.len() && #[trigger] authority@[i] == ':' && numeral(
                    authority@.skip(i + 1),
                );
            assert forall|j: int| i < j < authority@.len() implies digit(#[trigger] authority@[j]) by {
                assert(authority@.skip(i + 1)[j - i - 1] == authority@[j]);
            }
            assert(at == i + 1);
            assert(false);
        }
    }
    yes
}

fn is_loopback(host: &Option<String>) -> (yes: bool)
    ensures
        yes == loopback(opt_text(*host)),
{
    match host {
        Some(host) => same_text(host.as_str(), "127.0.0.1") || same_text(host.as_str(), "localhost")
            || same_text(host.as_str(), "[::1]") || same_text(host.as_str(), "0.0.0.0"),
        None => false,
    }
}

/// Whether a candidate that was parsed into `parts` is the address of a GUI on this
/// machine.
pub fn serves_gui(candidate: &str, parts: &Option<UrlParts>) -> (yes: bool)
    requires
        occurs_at(candidate@, "http://"@, 0),
    ensures
        yes == ((opt_address(*parts) matches Some(a) && a.scheme == "http"@ && loopback(a.host))
            && has_port(authority(candidate@))),
{
    match parts {
        Some(parsed) => {
            let chars = chars_of(candidate);
            proof {
                reveal_strlit("http://");
            }
            let body = slice(&chars, 7, chars.len());
            let end = find_class(&body, CharClass::AuthorityEnd);
            let host_and_port = slice(&body, 0, end);
            proof {
                assert(body@ =~= candidate@.skip(7));
                assert(host_and_port@ =~= body@.take(end as int));
            }
            same_text(parsed.scheme.as_str(), "http") && is_loopback(&parsed.host)
                && port_is_explicit(&host_and_port)
        },
        None => false,
    }
}

/// A candidate that begins with `http://` still does once its punctuation is gone.
proof fn lemma_candidate_begins(line: Seq<char>, i: int)
    requires
        0 <= i,
        occurs_at(line, "http://"@, i),
    ensures
        occurs_at(candidate_at(line, i), "http://"@, 0),
{
    reveal_strlit("http://");
    let rest = line.skip(i);
    let n = until(rest, CharClass::Gap);
    lemma_until(rest, CharClass::Gap);
    assert forall|k: int| 0 <= k < 7 implies rest[k] == "http://"@[k] by {
        assert(line.subrange(i, i + 7)[k] == "http://"@[k]);
    }
    assert(n >= 7) by {
        if n < 7 {
            assert(in_class(CharClass::Gap, rest[n as int]));
        }
    }
    let run = rest.take(n as int);
    lemma_drop_trailing_keeps(run, CharClass::Prose, 7);
    lemma_drop_trailing_prefix(run, CharClass::Prose);
    assert(candidate_at(line, i).subrange(0, 7) =~= "http://"@);
}

/// Whatever a line holds, an address that is found in it is that of a GUI on this
/// machine, begins with `http://`, stands in the line as it is, has no gap in it, and
/// does not end in the punctuation of a sentence.
pub proof fn law_found_address_is_a_gui(line: Seq<char>, from: int)
    requires
        0 <= from,
    ensures
        address_from(line, from) matches Some(url) ==> {
            &&& gui_address(url)
            &&& occurs_at(url, "http://"@, 0)
            &&& has_part(line, url)
            &&& forall|k: int| 0 <= k < url.len() ==> !in_class(CharClass::Gap, #[trigger] url[k])
            &&& !in_class(CharClass::Prose, url.last())
        },
    decreases line.len() - from,
{
    if from < line.len() {
        if occurs_at(line, "http://"@, from) && gui_address(candidate_at(line, from)) {
            let rest = line.skip(from);
            let run = rest.take(until(rest, CharClass::Gap) as int);
            let url = candidate_at(line, from);
            lemma_candidate_begins(line, from);
            reveal_strlit("http://");
            lemma_until(rest, CharClass::Gap);
            lemma_drop_trailing_prefix(run, CharClass::Prose);
            assert forall|k: int| 0 <= k < url.len() implies !in_class(
                CharClass::Gap,
                #[trigger] url[k],
            ) by {
                assert(url[k] == run[k]);
                assert(run[k] == rest[k]);
            }
            assert(line.subrange(from, from + url.len() as int) =~= url);
            assert(occurs_at(line, url, from));
        } else {
            law_found_address_is_a_gui(line, from + 1);
        }
    }
}

/// Finds the local GUI's address in a line of the backend's output.
///
/// Strict on purpose: the backend prints other addresses too, and showing one of those
/// parks the window on something that is not the GUI. An address counts only when it
/// is plain HTTP, loopback, and carries an explicit port; the line is searched on when
/// one does not. The line that announces the GUI is always understood.
pub fn extract_url(line: &str) -> (url: Option<String>)
    ensures
        opt_text(url) == address_from(plain(line@), 0),
        forall|host: Seq<char>, port: nat| #[trigger]
            announces(line@, host, port) ==> opt_text(url) == Some(address_on(host, port)),
{
    let url = first_address(line);
    proof {
        assert forall|host: Seq<char>, port: nat| #[trigger]
            announces(line@, host, port) implies opt_text(url) == Some(address_on(host, port)) by {
            assert(line@.skip(announced_at()) =~= address_on(host, port));
        }
    }
    url
}

fn first_address(line: &str) -> (url: Option<String>)
    ensures
        opt_text(url) == address_from(plain(line@), 0),
        (exists|host: Seq<char>, port: nat| #[trigger] announces(line@, host, port)) ==> opt_text(
            url,
        ) == Some(line@.skip(announced_at())),
{
    let text = strip_ansi(line);
    let clean = chars_of(text.as_str());
    let marker = chars_of("http://");
    let ghost announced = exists|host: Seq<char>, port: nat| #[trigger] announces(line@, host, port);
    let ghost (host, port) = choose|host: Seq<char>, port: nat| #[trigger]
        announces(line@, host, port);
    proof {
        reveal_strlit("http://");
        reveal_strlit("dsh web: ");
    }
    let mut i: usize = 0;
    while i < clean.len()
        invariant
            i <= clean.len(),
            clean@ == plain(line@),
            marker@ == "http://"@,
            address_from(plain(line@), 0) == address_from(plain(line@), i as int),
            announced ==> announces(line@, host, port) && i <= announced_at(),
            announced == exists|host: Seq<char>, port: nat| #[trigger]
                announces(line@, host, port),
        decreases clean.len() - i,
    {
        proof {
            if announced {
                lemma_announced(line@, host, port, i as int);
            }
        }
        if is_at(&clean, &marker, i) {
            let rest = slice(&clean, i, clean.len());
            let end = find_class(&rest, CharClass::Gap);
            let run = slice(&rest, 0, end);
            let chars = trim_trailing(&run, CharClass::Prose);
            let candidate = to_text(&chars);
            proof {
                assert(rest@ =~= clean@.skip(i as int));
                assert(run@ =~= rest@.take(end as int));
                assert(candidate@ == candidate_at(clean@, i as int));
                lemma_candidate_begins(clean@, i as int);
            }
            let parts = parse_url(candidate.as_str());
            if serves_gui(candidate.as_str(), &parts) {
                return Some(candidate);
            }
            assert(announced ==> i < announced_at());
        }
        i = i + 1;
    }
    proof {
        if announced {
            lemma_announced(line@, host, port, announced_at());
        }
    }
    None
}

/// Whether a line announces a GUI on a port of `host`, a name of this machine.
pub open spec fn announces(line: Seq<char>, host: Seq<char>, port: nat) -> bool {
    loopback_name(host) && port <= u16::MAX && line == announcement(host, port)
}

/// The address of a GUI on a port of `host`.
pub open spec fn address_on(host: Seq<char>, port: nat) -> Seq<char> {
    before_port(host) + decimal(port)
}

/// The line in which the backend announces its GUI.
pub open spec fn announcement(host: Seq<char>, port: nat) -> Seq<char> {
    "dsh web: "@ + address_on(host, port)
}

/// Where the address stands in an announcement.
pub open spec fn announced_at() -> int {
    "dsh web: "@.len() as int
}

/// A name of this machine is free of what would end it in an address.
proof fn lemma_loopback_name(host: Seq<char>)
    requires
        loopback_name(host),
    ensures
        forall|k: int|
            0 <= k < host.len() ==> !in_class(CharClass::Gap, #[trigger] host[k]) && !in_class(
                CharClass::AuthorityEnd,
                host[k],
            ) && !is_escape(host[k]),
{
    reveal_strlit("127.0.0.1");
    reveal_strlit("localhost");
    reveal_strlit("[::1]");
    reveal_strlit("0.0.0.0");
}

/// The address of a port of this machine has all that an address needs.
proof fn lemma_address_on(host: Seq<char>, port: nat)
    requires
        loopback_name(host),
        port <= u16::MAX,
    ensures
        occurs_at(address_on(host, port), "http://"@, 0),
        forall|k: int|
            0 <= k < address_on(host, port).len() ==> !in_class(
                CharClass::Gap,
                #[trigger] address_on(host, port)[k],
            ) && !is_escape(address_on(host, port)[k]),
        !in_class(CharClass::Prose, address_on(host, port).last()),
        local_url(address_on(host, port), host),
        has_port(authority(address_on(host, port))),
{
    reveal_strlit("http://");
    reveal_strlit(":");
    lemma_loopback_name(host);
    law_decimal_reads_back(port);
    let digits = decimal(port);
    let address = address_on(host, port);
    let start = before_port(host);
    assert forall|k: int| 0 <= k < address.len() implies !in_class(
        CharClass::Gap,
        #[trigger] address[k],
    ) && !is_escape(address[k]) && (k >= 7 ==> !in_class(CharClass::AuthorityEnd, address[k])) by {
        if k < 7 {
            assert(address[k] == "http://"@[k]);
        } else if k < 7 + host.len() {
            assert(address[k] == host[k - 7]);
        } else if k >= start.len() {
            assert(address[k] == digits[k - start.len()]);
            assert(digit(digits[k - start.len()]));
        }
    }
    assert(address.subrange(0, 7) =~= "http://"@);
    assert(address.last() == digits.last());
    assert(digit(digits[digits.len() - 1]));
    assert(address.subrange(0, start.len() as int) =~= start);
    assert(address.skip(start.len() as int) =~= digits);
    let body = address.skip(7);
    assert forall|k: int| 0 <= k < body.len() implies !in_class(
        CharClass::AuthorityEnd,
        #[trigger] body[k],
    ) by {
        assert(body[k] == address[k + 7]);
    }
    lemma_until_is(body, CharClass::AuthorityEnd, body.len());
    assert(body.take(body.len() as int) =~= body);
    assert(body[host.len() as int] == ':');
    assert(body.skip(host.len() as int + 1) =~= digits);
}

/// An announcement has no address before the announced one, and the announced one has
/// all that an address needs.
proof fn lemma_announced(line: Seq<char>, host: Seq<char>, port: nat, i: int)
    requires
        announces(line, host, port),
        0 <= i <= announced_at(),
    ensures
        plain(line) == line,
        i < announced_at() ==> !occurs_at(line, "http://"@, i),
        announced_at() < line.len(),
        occurs_at(line, "http://"@, announced_at()),
        candidate_at(line, announced_at()) == address_on(host, port),
        line.skip(announced_at()) == address_on(host, port),
        local_url(address_on(host, port), host),
        has_port(authority(address_on(host, port))),
{
    let address = address_on(host, port);
    assert(announced_at() == 9) by {
        reveal_strlit("dsh web: ");
    }
    lemma_address_on(host, port);
    assert(line.skip(9) =~= address);
    lemma_nothing_before(line, address, i);
    assert(plain(line) == line) by {
        assert forall|k: int| 0 <= k < line.len() implies !is_escape(#[trigger] line[k]) by {
            if k >= 9 {
                assert(line[k] == address[k - 9]);
            } else {
                reveal_strlit("dsh web: ");
            }
        }
        law_plain_keeps_plain_text(line);
    }
    assert("http://"@.len() == 7) by {
        reveal_strlit("http://");
    }
    assert(line.subrange(9, 16) =~= address.subrange(0, 7));
    lemma_until_is(address, CharClass::Gap, address.len());
    assert(address.take(address.len() as int) =~= address);
}

/// No address stands before the announced one.
proof fn lemma_nothing_before(line: Seq<char>, address: Seq<char>, i: int)
    requires
        line == "dsh web: "@ + address,
        0 <= i,
    ensures
        i < announced_at() ==> !occurs_at(line, "http://"@, i),
{
    reveal_strlit("http://");
    reveal_strlit("dsh web: ");
    if i < 9 && occurs_at(line, "http://"@, i) {
        let part = line.subrange(i, i + 7);
        assert(part[0] == 'h' && part[1] == 't');
        assert(line[i] == 'h' && line[i + 1] == 't');
        assert(line[i] == "dsh web: "@[i]);
        assert(i == 2);
        assert(line[3] == "dsh web: "@[3]);
    }
}

// ---------------------------------------------------------------- on the probe port

/// The port to probe: the one that the environment names, else 3080.
pub open spec fn probed_port(raw: Option<Seq<char>>) -> nat {
    match raw {
        Some(raw) => match number(trimmed(raw), u16::MAX as nat) {
            Some(port) => port,
            None => 3080,
        },
        None => 3080,
    }
}

/// The port to probe for a `dsh web` that is already running. `raw` is the value of
/// `DSH_DESKTOP_PROBE_PORT`, if it is set.
pub fn probe_port(raw: Option<&str>) -> (port: u16)
    ensures
        port == probed_port(opt_str(raw)),
{
    match raw {
        Some(raw) => match parse_number(&trim(&chars_of(raw)), 65535) {
            Some(port) => port as u16,
            None => 3080,
        },
        None => 3080,
    }
}

/// Where to connect to for a probe of `port`.
pub open spec fn probe_target(port: nat) -> Seq<char> {
    "127.0.0.1:"@ + decimal(port)
}

/// What a probe of `port` that was answered by `response` finds.
pub open spec fn probe_finds(port: nat, response: Seq<char>) -> Option<Seq<char>> {
    if is_dsh_page(response) {
        Some(address_on("127.0.0.1"@, port))
    } else {
        None
    }
}

/// Where to connect to for a probe of `port`.
pub fn probe_address(port: u16) -> (address: String)
    ensures
        address@ == "127.0.0.1:"@ + decimal(port as nat),
        address@ == probe_target(port as nat),
{
    cat2("127.0.0.1:", decimal_text(port as u64).as_str())
}

/// The request that a probe sends.
pub fn probe_request() -> (request: &'static str)
    ensures
        request@ == "GET / HTTP/1.0\r\nHost: 127.0.0.1\r\nConnection: close\r\n\r\n"@,
{
    "GET / HTTP/1.0\r\nHost: 127.0.0.1\r\nConnection: close\r\n\r\n"
}

/// Whether a response is that of a `dsh web` page: it titles itself, or boots itself,
/// as one.
pub open spec fn is_dsh_page(response: Seq<char>) -> bool {
    has_part(response, "<title>DeepSeek Harness"@) || has_part(response, "window.__DSH_BOOT__"@)
}

/// The address to reuse when the probe of `port` was answered by `response`.
pub fn probe_existing_web(port: u16, response: &str) -> (url: Option<String>)
    ensures
        opt_text(url) == if is_dsh_page(response@) {
            Some(address_on("127.0.0.1"@, port as nat))
        } else {
            None
        },
        opt_text(url) == probe_finds(port as nat, response@),
{
    let chars = chars_of(response);
    if contains(&chars, "<title>DeepSeek Harness") || contains(&chars, "window.__DSH_BOOT__") {
        Some(cat4("http://", "127.0.0.1", ":", decimal_text(port as u64).as_str()))
    } else {
        None
    }
}

} // verus!
