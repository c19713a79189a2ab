//! The backend's output: its lines, the log that keeps them, and what the log says of a
//! failure.
use crate::address::{address_from, extract_url, law_found_address_is_a_gui};
use crate::ansi::plain;
use crate::decode::{decode_line, line_text};
use crate::scan::{
    contains, has_part, occurs_at, split, split_at_each, starts_with, strip_all, strip_repeated,
    trim, trimmed,
};
use crate::text::{cat2, cat3, chars_of, opt_str, opt_text, rows, same, texts, to_text};
use std::collections::VecDeque;
use vstd::prelude::*;

verus! {

// ---------------------------------------------------------------- tagged lines

/// A line as the log keeps it: behind the tag of its stream. An empty one is not kept.
pub open spec fn tagged(prefix: Seq<char>, line: Seq<char>) -> Option<Seq<char>> {
    if line.len() == 0 {
        None
    } else {
        Some(prefix + " "@ + line)
    }
}

/// A line as the log keeps it.
pub fn tag_line(prefix: &str, line: &str) -> (kept: Option<String>)
    ensures
        opt_text(kept) == tagged(prefix@, line@),
{
    if chars_of(line).len() == 0 {
        None
    } else {
        Some(cat3(prefix, " ", line))
    }
}

/// What the log keeps of one line of a stream, up to and with its end.
pub fn pump_log(prefix: &str, bytes: &[u8]) -> (kept: Option<String>)
    ensures
        opt_text(kept) == tagged(prefix@, line_text(bytes@)),
{
    tag_line(prefix, decode_line(bytes).as_str())
}

// ---------------------------------------------------------------- watching for the address

/// Reads the backend's standard output, line by line: each line is logged, and the
/// first address of the GUI is handed on.
#[derive(Debug)]
pub struct Reader {
    /// Whether the address was handed on.
    pub sent: bool,
}

/// What a reader hands on for a line.
pub open spec fn handed_on(sent: bool, line: Seq<char>) -> Option<Seq<char>> {
    if sent {
        None
    } else {
        address_from(plain(line), 0)
    }
}

/// Whether an address was handed on once a reader has heard a line.
pub open spec fn sent_after(sent: bool, line: Seq<char>) -> bool {
    sent || address_from(plain(line), 0) is Some
}

/// What one line of output comes to.
pub struct Heard {
    pub log: Option<String>,
    pub url: Option<String>,
}

impl Reader {
    pub fn new() -> (reader: Reader)
        ensures
            !reader.sent,
    {
        Reader { sent: false }
    }

    /// Takes one line of output, as text without white space at its end.
    pub fn hear(&mut self, line: &str) -> (heard: Heard)
        ensures
            opt_text(heard.log) == tagged("[out]"@, line@),
            opt_text(heard.url) == handed_on(old(self).sent, line@),
            final(self).sent == (old(self).sent || heard.url is Some),
            final(self).sent == sent_after(old(self).sent, line@),
    {
        let log = tag_line("[out]", line);
        let found = extract_url(line);
        if self.sent {
            return Heard { log, url: None };
        }
        self.sent = found.is_some();
        Heard { log, url: found }
    }

    /// Takes one line of output, up to and with its end.
    pub fn read(&mut self, bytes: &[u8]) -> (heard: Heard)
        ensures
            opt_text(heard.log) == tagged("[out]"@, line_text(bytes@)),
            opt_text(heard.url) == handed_on(old(self).sent, line_text(bytes@)),
            final(self).sent == (old(self).sent || heard.url is Some),
            final(self).sent == sent_after(old(self).sent, line_text(bytes@)),
    {
        self.hear(decode_line(bytes).as_str())
    }
}

/// The addresses that a new reader hands on for a row of lines.
pub open spec fn addresses(lines: Seq<Seq<char>>) -> Seq<Seq<char>>
    decreases lines.len(),
{
    if lines.len() == 0 {
        Seq::empty()
    } else {
        let before = addresses(lines.drop_last());
        match handed_on(before.len() > 0, lines.last()) {
            Some(url) => before.push(url),
            None => before,
        }
    }
}

/// A reader hands one address on at most: that of the first line that has one.
pub proof fn law_first_address_is_handed_on(lines: Seq<Seq<char>>, i: int)
    requires
        0 <= i < lines.len(),
        address_from(plain(lines[i]), 0) is Some,
        forall|j: int| 0 <= j < i ==> address_from(plain(#[trigger] lines[j]), 0) is None,
    ensures
        addresses(lines) == seq![address_from(plain(lines[i]), 0)->0],
    decreases lines.len(),
{
    if i == lines.len() - 1 {
        lemma_no_address(lines.drop_last());
    } else {
        let fewer = lines.drop_last();
        assert(fewer[i] == lines[i]);
        assert forall|j: int| 0 <= j < i implies address_from(plain(#[trigger] fewer[j]), 0) is None by {
            assert(fewer[j] == lines[j]);
        }
        law_first_address_is_handed_on(fewer, i);
    }
}

/// Whether a new reader has handed an address on once it has heard a row of lines.
pub open spec fn has_sent(lines: Seq<Seq<char>>) -> bool
    decreases lines.len(),
{
    if lines.len() == 0 {
        false
    } else {
        sent_after(has_sent(lines.drop_last()), lines.last())
    }
}

/// A reader that has handed an address on stays so, and hands none on again, whatever it
/// hears; one that has not hands the next one on.
pub proof fn law_reader_hands_on_once(lines: Seq<Seq<char>>, line: Seq<char>)
    ensures
        has_sent(lines) ==> has_sent(lines.push(line)) && handed_on(has_sent(lines), line) is None,
        !has_sent(lines) ==> handed_on(has_sent(lines), line) == address_from(plain(line), 0),
        has_sent(lines.push(line)) <==> has_sent(lines) || address_from(plain(line), 0) is Some,
        has_sent(lines) <==> addresses(lines).len() > 0,
        addresses(lines).len() <= 1,
    decreases lines.len(),
{
    assert(lines.push(line).drop_last() =~= lines);
    if lines.len() > 0 {
        law_reader_hands_on_once(lines.drop_last(), lines.last());
    }
}

proof fn lemma_no_address(lines: Seq<Seq<char>>)
    requires
        forall|j: int| 0 <= j < lines.len() ==> address_from(plain(#[trigger] lines[j]), 0) is None,
    ensures
        addresses(lines) == Seq::<Seq<char>>::empty(),
    decreases lines.len(),
{
    if lines.len() > 0 {
        let fewer = lines.drop_last();
        assert forall|j: int| 0 <= j < fewer.len() implies address_from(
            plain(#[trigger] fewer[j]),
            0,
        ) is None by {
            assert(fewer[j] == lines[j]);
        }
        lemma_no_address(fewer);
        assert(lines.last() == lines[lines.len() - 1]);
    }
}

// ---------------------------------------------------------------- waiting for the end

/// Whether a row of messages from the reader says that the backend is gone. Only the
/// empty message, sent at the end of the output, says so; an address does not.
pub open spec fn exit_seen(messages: Seq<Seq<char>>) -> bool {
    exists|i: int| 0 <= i < messages.len() && (#[trigger] messages[i]).len() == 0
}

/// Whether one message says that the backend is gone: then the wait has ended, else it
/// goes on.
pub fn is_exit(message: &str) -> (exit: bool)
    ensures
        exit == (message@.len() == 0),
{
    chars_of(message).len() == 0
}

/// How many of a row of messages are read by one who waits for the backend to be gone:
/// up to and with the first empty one, or all of them.
pub open spec fn read_until_exit(messages: Seq<Seq<char>>) -> nat
    decreases messages.len(),
{
    if messages.len() == 0 {
        0
    } else if messages[0].len() == 0 {
        1
    } else {
        1 + read_until_exit(messages.drop_first())
    }
}

/// Reads the messages that have come, in order, until one says that the backend is gone.
/// Says whether one did; what stands behind it is left in the inbox. When none did, all
/// of them were read, and there is no news of an end: the wait goes on with what comes
/// next.
pub fn wait_for_backend_exit(inbox: &mut VecDeque<String>) -> (gone: bool)
    ensures
        gone == exit_seen(texts(old(inbox)@)),
        final(inbox)@ == old(inbox)@.skip(read_until_exit(texts(old(inbox)@)) as int),
        !gone ==> final(inbox)@.len() == 0,
{
    let ghost all = inbox@;
    let ghost mut read: int = 0;
    assert(all.skip(0) =~= all);
    while inbox.len() > 0
        invariant
            all == old(inbox)@,
            0 <= read <= all.len(),
            inbox@ == all.skip(read),
            forall|j: int| 0 <= j < read ==> (#[trigger] texts(all)[j]).len() != 0,
        decreases inbox@.len(),
    {
        let message = match inbox.pop_front() {
            Some(message) => message,
            None => {
                return false;
            },
        };
        assert(message@ == texts(all)[read]);
        assert(inbox@ =~= all.skip(read + 1));
        if is_exit(message.as_str()) {
            proof {
                lemma_read_until_exit(texts(all), read);
            }
            return true;
        }
        proof {
            read = read + 1;
        }
    }
    proof {
        lemma_read_until_exit(texts(all), read);
    }
    false
}

proof fn lemma_read_until_exit(messages: Seq<Seq<char>>, k: int)
    requires
        0 <= k <= messages.len(),
        forall|j: int| 0 <= j < k ==> (#[trigger] messages[j]).len() != 0,
    ensures
        k < messages.len() && messages[k].len() == 0 ==> read_until_exit(messages) == k + 1,
        k == messages.len() ==> read_until_exit(messages) == k,
        read_until_exit(messages) <= messages.len(),
    decreases messages.len(),
{
    if messages.len() > 0 {
        let rest = messages.drop_first();
        if k > 0 {
            assert(messages[0].len() != 0);
            assert forall|j: int| 0 <= j < k - 1 implies (#[trigger] rest[j]).len() != 0 by {
                assert(rest[j] == messages[j + 1]);
            }
            lemma_read_until_exit(rest, k - 1);
        } else if messages[0].len() != 0 {
            lemma_read_until_exit(rest, 0);
        }
    }
}

/// The wait ends at the first empty message: that is the last one read, and those behind
/// it are not. Without one, every message is read.
pub proof fn law_wait_ends_at_the_first_exit(messages: Seq<Seq<char>>, k: int)
    requires
        0 <= k <= messages.len(),
        forall|j: int| 0 <= j < k ==> (#[trigger] messages[j]).len() != 0,
        k < messages.len() ==> messages[k].len() == 0,
    ensures
        exit_seen(messages) == (k < messages.len()),
        read_until_exit(messages) == if k < messages.len() {
            k + 1
        } else {
            k
        },
{
    lemma_read_until_exit(messages, k);
}

/// It does not matter in which portions the messages come: a wait that goes on with the
/// second portion only when the first has no end in it sees, and reads, what one over
/// both at once does.
pub proof fn law_wait_goes_on_in_portions(a: Seq<Seq<char>>, b: Seq<Seq<char>>)
    ensures
        exit_seen(a + b) == (exit_seen(a) || exit_seen(b)),
        read_until_exit(a + b) == if exit_seen(a) {
            read_until_exit(a)
        } else {
            a.len() + read_until_exit(b)
        },
    decreases a.len(),
{
    if exit_seen(a) {
        let i = choose|i: int| 0 <= i < a.len() && (#[trigger] a[i]).len() == 0;
        assert((a + b)[i].len() == 0);
    }
    if exit_seen(b) {
        let i = choose|i: int| 0 <= i < b.len() && (#[trigger] b[i]).len() == 0;
        assert((a + b)[a.len() + i].len() == 0);
    }
    if exit_seen(a + b) {
        let i = choose|i: int| 0 <= i < (a + b).len() && (#[trigger] (a + b)[i]).len() == 0;
        if i < a.len() {
            assert(a[i].len() == 0);
        } else {
            assert(b[i - a.len()].len() == 0);
        }
    }
    if a.len() == 0 {
        assert(a + b =~= b);
    } else {
        assert((a + b).drop_first() =~= a.drop_first() + b);
        law_wait_goes_on_in_portions(a.drop_first(), b);
        if a[0].len() != 0 {
            assert(exit_seen(a) == exit_seen(a.drop_first())) by {
                if exit_seen(a) {
                    let i = choose|i: int| 0 <= i < a.len() && (#[trigger] a[i]).len() == 0;
                    assert(a.drop_first()[i - 1].len() == 0);
                }
                if exit_seen(a.drop_first()) {
                    let i = choose|i: int|
                        0 <= i < a.drop_first().len() && (#[trigger] a.drop_first()[i]).len() == 0;
                    assert(a[i + 1].len() == 0);
                }
            }
        }
    }
}

/// What a reader sends is never taken for the end before the end, and always then.
pub proof fn law_only_the_end_is_an_exit(lines: Seq<Seq<char>>)
    ensures
        !exit_seen(addresses(lines)),
        exit_seen(addresses(lines).push(Seq::empty())),
    decreases lines.len(),
{
    let sent = addresses(lines).push(Seq::empty());
    assert(sent[sent.len() - 1].len() == 0);
    if lines.len() > 0 {
        law_only_the_end_is_an_exit(lines.drop_last());
        let before = addresses(lines.drop_last());
        law_found_address_is_a_gui(plain(lines.last()), 0);
        reveal_strlit("http://");
        assert forall|i: int| 0 <= i < addresses(lines).len() implies (#[trigger] addresses(
            lines,
        )[i]).len() != 0 by {
            if i < before.len() {
                assert(before[i].len() != 0);
            }
        }
    }
}

// ---------------------------------------------------------------- splitting npm's output

/// Whether a byte ends a line. A carriage return does too: what redraws a line in place
/// sends nothing else, and would be held back until the very end.
pub open spec fn line_end(b: u8) -> bool {
    b == 10 || b == 13
}

/// The lines that `bytes` complete when `pending` was left of what came before.
pub open spec fn completed(pending: Seq<u8>, bytes: Seq<u8>) -> Seq<Seq<u8>>
    decreases bytes.len(),
{
    if bytes.len() == 0 {
        Seq::empty()
    } else if line_end(bytes.last()) {
        completed(pending, bytes.drop_last()).push(left_over(pending, bytes.drop_last()))
    } else {
        completed(pending, bytes.drop_last())
    }
}

/// What is left of the last line, not yet complete.
pub open spec fn left_over(pending: Seq<u8>, bytes: Seq<u8>) -> Seq<u8>
    decreases bytes.len(),
{
    if bytes.len() == 0 {
        pending
    } else if line_end(bytes.last()) {
        Seq::empty()
    } else {
        left_over(pending, bytes.drop_last()).push(bytes.last())
    }
}

/// What is shown of one line, if anything.
pub open spec fn shown_line(line: Seq<u8>) -> Option<Seq<char>> {
    if line.len() == 0 || line_text(line).len() == 0 {
        None
    } else {
        Some(line_text(line))
    }
}

/// What is shown of a row of lines.
pub open spec fn shown(lines: Seq<Seq<u8>>) -> Seq<Seq<char>>
    decreases lines.len(),
{
    if lines.len() == 0 {
        Seq::empty()
    } else {
        match shown_line(lines.last()) {
            Some(text) => shown(lines.drop_last()).push(text),
            None => shown(lines.drop_last()),
        }
    }
}

/// A line to show, unless it is empty.
pub fn line_to_show(line: String) -> (kept: Option<String>)
    ensures
        opt_text(kept) == if line@.len() == 0 {
            None
        } else {
            Some(line@)
        },
{
    if chars_of(line.as_str()).len() == 0 {
        None
    } else {
        Some(line)
    }
}

/// Cuts a stream of bytes into lines to show, whatever the chunks in which it comes.
#[derive(Debug)]
pub struct LinePump {
    pub pending: Vec<u8>,
}

impl LinePump {
    pub fn new() -> (pump: LinePump)
        ensures
            pump.pending@ == Seq::<u8>::empty(),
    {
        LinePump { pending: Vec::new() }
    }

    /// Ends the current line, and gives what is shown of it.
    pub fn flush(&mut self) -> (line: Option<String>)
        ensures
            opt_text(line) == shown_line(old(self).pending@),
            final(self).pending@ == Seq::<u8>::empty(),
    {
        let mut line: Vec<u8> = Vec::new();
        line.append(&mut self.pending);
        if line.len() == 0 {
            return None;
        }
        line_to_show(decode_line(line.as_slice()))
    }

    /// Takes a chunk of the stream, and gives the lines that it completes.
    pub fn pump_lines(&mut self, chunk: &[u8]) -> (lines: Vec<String>)
        ensures
            texts(lines@) == shown(completed(old(self).pending@, chunk@)),
            final(self).pending@ == left_over(old(self).pending@, chunk@),
    {
        let ghost before = self.pending@;
        let mut lines: Vec<String> = Vec::new();
        assert(texts(lines@) =~= Seq::<Seq<char>>::empty());
        assert(chunk@.take(0) =~= Seq::<u8>::empty());
        for i in 0..chunk.len()
            invariant
                before == old(self).pending@,
                texts(lines@) == shown(completed(before, chunk@.take(i as int))),
                self.pending@ == left_over(before, chunk@.take(i as int)),
        {
            let b = chunk[i];
            assert(chunk@.take(i + 1).drop_last() =~= chunk@.take(i as int));
            let ghost done = completed(before, chunk@.take(i as int));
            if b == 10 || b == 13 {
                let ghost row = self.pending@;
                let ghost kept = lines@;
                match self.flush() {
                    Some(line) => {
                        lines.push(line);
                        assert(texts(lines@) =~= texts(kept).push(line@));
                    },
                    None => {},
                }
                assert(done.push(row).drop_last() =~= done);
            } else {
                self.pending.push(b);
            }
        }
        assert(chunk@.take(chunk.len() as int) =~= chunk@);
        lines
    }
}

/// The lines do not depend on where the stream is cut into chunks.
pub proof fn law_chunks_do_not_matter(pending: Seq<u8>, a: Seq<u8>, b: Seq<u8>)
    ensures
        completed(pending, a + b) == completed(pending, a) + completed(left_over(pending, a), b),
        left_over(pending, a + b) == left_over(left_over(pending, a), b),
        shown(completed(pending, a + b)) == shown(completed(pending, a)) + shown(
            completed(left_over(pending, a), b),
        ),
    decreases b.len(),
{
    if b.len() == 0 {
        assert(a + b =~= a);
        assert(completed(pending, a) + completed(left_over(pending, a), b) =~= completed(
            pending,
            a,
        ));
    } else {
        law_chunks_do_not_matter(pending, a, b.drop_last());
        assert((a + b).drop_last() =~= a + b.drop_last());
        assert((a + b).last() == b.last());
        assert(completed(pending, a + b) =~= completed(pending, a) + completed(
            left_over(pending, a),
            b,
        ));
    }
    lemma_shown_of_both(completed(pending, a), completed(left_over(pending, a), b));
}

proof fn lemma_shown_of_both(x: Seq<Seq<u8>>, y: Seq<Seq<u8>>)
    ensures
        shown(x + y) == shown(x) + shown(y),
    decreases y.len(),
{
    if y.len() == 0 {
        assert(x + y =~= x);
        assert(shown(x) + shown(y) =~= shown(x));
    } else {
        lemma_shown_of_both(x, y.drop_last());
        assert((x + y).drop_last() =~= x + y.drop_last());
        assert((x + y).last() == y.last());
        assert(shown(x + y) =~= shown(x) + shown(y));
    }
}

/// A line that ends in a carriage return and a line feed is shown once, as one that
/// ends in either.
pub proof fn law_line_ends_do_not_double_up(pending: Seq<u8>, bytes: Seq<u8>)
    ensures
        shown(completed(pending, bytes + seq![13u8, 10u8])) == shown(
            completed(pending, bytes.push(10u8)),
        ),
        shown(completed(pending, bytes.push(13u8))) == shown(completed(pending, bytes.push(10u8))),
        left_over(pending, bytes + seq![13u8, 10u8]) == left_over(pending, bytes.push(10u8)),
{
    let both = bytes + seq![13u8, 10u8];
    let row = left_over(pending, bytes);
    let done = completed(pending, bytes);
    assert(both.drop_last() =~= bytes.push(13u8));
    assert(bytes.push(13u8).drop_last() =~= bytes);
    assert(bytes.push(10u8).drop_last() =~= bytes);
    assert(completed(pending, bytes.push(13u8)) == done.push(row));
    assert(left_over(pending, bytes.push(13u8)) == Seq::<u8>::empty());
    assert(both.last() == 10u8);
    assert(completed(pending, both) == done.push(row).push(Seq::empty()));
    assert(done.push(row).push(Seq::empty()).drop_last() =~= done.push(row));
}

// ---------------------------------------------------------------- the log file

/// The size at which the log starts anew.
pub const LOG_MAX_BYTES: u64 = 5 * 1024 * 1024;

/// Whether a line of `len` bytes has to go to a new file, after `size` bytes.
pub open spec fn must_rotate(size: nat, len: nat) -> bool {
    size + len > LOG_MAX_BYTES
}

/// Counts what the log file holds.
#[derive(Clone, Copy, PartialEq, Eq, Debug, Structural)]
pub struct LogSize {
    pub bytes: u64,
}

impl LogSize {
    /// A file that was just opened holds nothing: it tells of this launch only.
    pub fn new() -> (size: LogSize)
        ensures
            size.bytes == 0,
    {
        LogSize { bytes: 0 }
    }

    /// Whether the file has to be set aside and started anew before a line of `len`
    /// bytes is written.
    pub fn make_room(&mut self, len: usize) -> (rotate: bool)
        ensures
            rotate == must_rotate(old(self).bytes as nat, len as nat),
            final(self).bytes == if rotate {
                0
            } else {
                old(self).bytes
            },
            final(self).bytes == size_with_room(old(self).bytes as nat, len as nat),
    {
        let rotate: bool = self.bytes > LOG_MAX_BYTES || len as u64 > LOG_MAX_BYTES - self.bytes;
        if rotate {
            self.bytes = 0;
        }
        rotate
    }

    /// Counts a line of `len` bytes that was written, with its end.
    pub fn wrote(&mut self, len: usize)
        requires
            old(self).bytes + len < u64::MAX,
        ensures
            final(self).bytes == old(self).bytes + len + 1,
            final(self).bytes == size_written(old(self).bytes as nat, len as nat),
    {
        self.bytes = self.bytes + len as u64 + 1;
    }
}

/// What the file holds once there is room for a line of `len` bytes.
pub open spec fn size_with_room(size: nat, len: nat) -> nat {
    if must_rotate(size, len) {
        0
    } else {
        size
    }
}

/// What the file holds once a line of `len` bytes was written, with its end.
pub open spec fn size_written(size: nat, len: nat) -> nat {
    size + len + 1
}

/// What the file holds after a line of `len` bytes was given room and written.
pub open spec fn size_after(size: nat, len: nat) -> nat {
    size_written(size_with_room(size, len), len)
}

/// Whatever the log held, after a line it is over its limit by no more than the end of
/// that line, unless the line alone is larger. It starts anew only where the line does not
/// fit, and counts every byte of what it holds, with one for the end of each line.
pub proof fn law_log_stays_bounded(size: nat, len: nat)
    ensures
        len <= LOG_MAX_BYTES ==> size_after(size, len) <= LOG_MAX_BYTES + 1,
        len > LOG_MAX_BYTES ==> size_after(size, len) == len + 1,
        LOG_MAX_BYTES == 5 * 1024 * 1024,
        size + len <= 5 * 1024 * 1024 ==> !must_rotate(size, len) && size_after(size, len) == size
            + len + 1,
        size + len > 5 * 1024 * 1024 ==> must_rotate(size, len) && size_after(size, len) == len + 1,
{
}

// ---------------------------------------------------------------- what a failure says

/// The headline of an error that a line of the log carries, if it carries one: without
/// the tag of its stream and without the mark of a cause. Stack frames are no headlines.
pub open spec fn headline(line: Seq<char>) -> Option<Seq<char>> {
    let text = trimmed(strip_repeated(strip_repeated(line, "[out] "@), "[err] "@));
    if occurs_at(text, "at "@, 0) || !has_part(text, "Error"@) {
        None
    } else {
        Some(strip_repeated(text, "[cause]: "@))
    }
}

/// Whether a headline says that a plugin wants what dsh does not provide.
pub open spec fn missing_export(text: Seq<char>) -> bool {
    has_part(text, "does not provide an export named"@)
}

/// Whether a headline names what is broken, and not only that something is.
pub open spec fn names_the_cause(text: Seq<char>) -> bool {
    has_part(text, "Cannot find"@) || has_part(text, "already owned by"@) || missing_export(text)
}

/// The headlines of a log that name a cause, or those that do not: each once, in the
/// order in which they first come.
pub open spec fn headlines(lines: Seq<Seq<char>>, naming: bool) -> Seq<Seq<char>>
    decreases lines.len(),
{
    if lines.len() == 0 {
        Seq::empty()
    } else {
        let before = headlines(lines.drop_last(), naming);
        match headline(lines.last()) {
            Some(text) => if names_the_cause(text) == naming && !before.contains(text) {
                before.push(text)
            } else {
                before
            },
            None => before,
        }
    }
}

/// What to do about a plugin that wants what dsh does not provide.
pub open spec fn mismatch_hint() -> Seq<char> {
    "这是 dsh 内核与已装插件的接口不一致（常见于装了预发布版本），插件文件本身没坏。可在标题栏「检查更新」里把 dsh 换回 latest 通道的版本，或更新/卸载报错的那个插件。"@
}

/// Whether a log has a headline of a missing export.
pub open spec fn mismatched(lines: Seq<Seq<char>>) -> bool {
    exists|i: int|
        0 <= i < headlines(lines, true).len() && missing_export(
            #[trigger] headlines(lines, true)[i],
        )
}

/// The headlines to show: those that name a cause first, four at most.
pub open spec fn leading(lines: Seq<Seq<char>>) -> Seq<Seq<char>> {
    let all = headlines(lines, true) + headlines(lines, false);
    if all.len() > 4 {
        all.take(4)
    } else {
        all
    }
}

/// What a log says of a failure: the headlines to show, and what to do about a missing
/// export behind them. A log that cannot be read says nothing.
pub open spec fn summary(log: Option<Seq<char>>) -> Seq<Seq<char>> {
    match log {
        Some(raw) => {
            let lines = split(raw, '\n');
            if mismatched(lines) {
                leading(lines).push(mismatch_hint())
            } else {
                leading(lines)
            }
        },
        None => Seq::empty(),
    }
}

fn headline_of(line: &Vec<char>) -> (text: Option<Vec<char>>)
    ensures
        match text {
            Some(text) => headline(line@) == Some(text@),
            None => headline(line@) is None,
        },
{
    let text = trim(&strip_all(&strip_all(line, "[out] "), "[err] "));
    if starts_with(&text, "at ") || !contains(&text, "Error") {
        None
    } else {
        Some(strip_all(&text, "[cause]: "))
    }
}

fn names_a_cause(text: &Vec<char>) -> (yes: bool)
    ensures
        yes == names_the_cause(text@),
{
    contains(text, "Cannot find") || contains(text, "already owned by") || contains(
        text,
        "does not provide an export named",
    )
}

/// Adds a row to a list, unless the list has it.
fn push_new(list: &mut Vec<Vec<char>>, row: Vec<char>)
    ensures
        rows(final(list)@) == if rows(old(list)@).contains(row@) {
            rows(old(list)@)
        } else {
            rows(old(list)@).push(row@)
        },
{
    for i in 0..list.len()
        invariant
            list@ == old(list)@,
            forall|j: int| 0 <= j < i ==> (#[trigger] rows(list@)[j]) != row@,
    {
        assert(rows(list@)[i as int] == list@[i as int]@);
        if same(&list[i], &row) {
            assert(rows(list@).contains(row@));
            return ;
        }
    }
    let ghost before = list@;
    list.push(row);
    assert(rows(list@) =~= rows(before).push(row@));
}

fn strings(list: &Vec<Vec<char>>, max: usize, into: &mut Vec<String>)
    ensures
        texts(final(into)@) == texts(old(into)@) + rows(list@).take(
            if list.len() > max {
                max as int
            } else {
                list.len() as int
            },
        ),
{
    let n: usize = if list.len() > max {
        max
    } else {
        list.len()
    };
    assert(rows(list@).take(0) =~= Seq::<Seq<char>>::empty());
    assert(texts(into@) + rows(list@).take(0) =~= texts(into@));
    for i in 0..n
        invariant
            n <= list.len(),
            texts(into@) == texts(old(into)@) + rows(list@).take(i as int),
    {
        let ghost before = into@;
        into.push(to_text(&list[i]));
        assert(texts(into@) =~= texts(before).push(list@[i as int]@));
        assert(rows(list@).take(i + 1) =~= rows(list@).take(i as int).push(rows(list@)[i as int]));
        assert(texts(into@) =~= texts(old(into)@) + rows(list@).take(i + 1));
    }
}

/// Pulls the lines out of a log that say why the backend failed. `log` is its content,
/// or nothing when it cannot be read.
///
/// The outermost lines of a failure are the same for any of them, and the one that
/// names what is broken stands at the bottom of a chain of causes: so the lines that
/// name a cause come first.
pub fn backend_error_summary(log: Option<&str>) -> (lines: Vec<String>)
    ensures
        texts(lines@) == summary(opt_str(log)),
{
    let mut lines: Vec<String> = Vec::new();
    assert(texts(lines@) =~= Seq::<Seq<char>>::empty());
    let raw = match log {
        Some(raw) => raw,
        None => {
            return lines;
        },
    };
    let pieces = split_at_each(&chars_of(raw), '\n');
    let ghost all = split(raw@, '\n');
    let mut naming: Vec<Vec<char>> = Vec::new();
    let mut other: Vec<Vec<char>> = Vec::new();
    assert(rows(naming@) =~= Seq::<Seq<char>>::empty());
    assert(rows(other@) =~= Seq::<Seq<char>>::empty());
    assert(all.take(0) =~= Seq::<Seq<char>>::empty());
    for i in 0..pieces.len()
        invariant
            rows(pieces@) == all,
            rows(naming@) == headlines(all.take(i as int), true),
            rows(other@) == headlines(all.take(i as int), false),
    {
        assert(all.take(i + 1).drop_last() =~= all.take(i as int));
        assert(all.take(i + 1).last() == pieces@[i as int]@);
        if let Some(text) = headline_of(&pieces[i]) {
            if names_a_cause(&text) {
                push_new(&mut naming, text);
            } else {
                push_new(&mut other, text);
            }
        }
    }
    assert(all.take(pieces.len() as int) =~= all);
    let mut mismatch: bool = false;
    for i in 0..naming.len()
        invariant
            rows(naming@) == headlines(all, true),
            mismatch == exists|j: int|
                0 <= j < i && missing_export(#[trigger] headlines(all, true)[j]),
    {
        assert(headlines(all, true)[i as int] == naming@[i as int]@);
        if contains(&naming[i], "does not provide an export named") {
            mismatch = true;
        }
    }
    strings(&naming, 4, &mut lines);
    let taken: usize = if naming.len() > 4 {
        4
    } else {
        naming.len()
    };
    strings(&other, 4 - taken, &mut lines);
    assert(texts(lines@) =~= leading(all));
    if mismatch {
        let ghost before = lines@;
        lines.push(
            "这是 dsh 内核与已装插件的接口不一致（常见于装了预发布版本），插件文件本身没坏。可在标题栏「检查更新」里把 dsh 换回 latest 通道的版本，或更新/卸载报错的那个插件。".to_string(),
        );
        assert(texts(lines@) =~= texts(before).push(mismatch_hint()));
    }
    lines
}

/// Where to read the whole log.
pub open spec fn log_pointer(path: Seq<char>) -> Seq<char> {
    "完整日志："@ + path
}

/// What is shown of a backend that never gave its address: what its log says, and where
/// the log is.
pub open spec fn never_ready(log: Option<Seq<char>>, path: Seq<char>) -> Seq<Seq<char>> {
    summary(log).push(log_pointer(path))
}

pub fn never_ready_detail(log: Option<&str>, path: &str) -> (detail: Vec<String>)
    ensures
        texts(detail@) == never_ready(opt_str(log), path@),
{
    let mut detail = backend_error_summary(log);
    let ghost before = detail@;
    detail.push(cat2("完整日志：", path));
    assert(texts(detail@) =~= texts(before).push(log_pointer(path@)));
    detail
}

/// What is shown of a backend that died while its GUI was up.
pub open spec fn crashed(log: Option<Seq<char>>, path: Seq<char>) -> Seq<Seq<char>> {
    seq!["后端 `dsh web` 意外退出了。"@] + never_ready(log, path)
}

pub fn crash_detail(log: Option<&str>, path: &str) -> (detail: Vec<String>)
    ensures
        texts(detail@) == crashed(opt_str(log), path@),
{
    let mut detail: Vec<String> = Vec::new();
    detail.push("后端 `dsh web` 意外退出了。".to_string());
    assert(texts(detail@) =~= seq!["后端 `dsh web` 意外退出了。"@]);
    let ghost before = detail@;
    let mut rest = never_ready_detail(log, path);
    let ghost added = rest@;
    detail.append(&mut rest);
    assert(detail@ =~= before + added);
    assert(texts(detail@) =~= texts(before) + texts(added));
    detail
}

/// Headlines are listed once each, and each is that of a line of the log.
proof fn lemma_headlines(lines: Seq<Seq<char>>, naming: bool)
    ensures
        headlines(lines, naming).no_duplicates(),
        forall|i: int|
            0 <= i < headlines(lines, naming).len() ==> names_the_cause(
                #[trigger] headlines(lines, naming)[i],
            ) == naming && exists|j: int|
                0 <= j < lines.len() && headline(#[trigger] lines[j]) == Some(
                    headlines(lines, naming)[i],
                ),
    decreases lines.len(),
{
    if lines.len() > 0 {
        let fewer = lines.drop_last();
        lemma_headlines(fewer, naming);
        let list = headlines(lines, naming);
        let before = headlines(fewer, naming);
        assert forall|i: int| 0 <= i < list.len() implies names_the_cause(#[trigger] list[i])
            == naming && exists|j: int|
            0 <= j < lines.len() && headline(#[trigger] lines[j]) == Some(list[i]) by {
            if i < before.len() {
                assert(names_the_cause(before[i]) == naming);
                let j = choose|j: int|
                    0 <= j < fewer.len() && headline(#[trigger] fewer[j]) == Some(before[i]);
                assert(lines[j] == fewer[j]);
            } else {
                assert(lines[lines.len() - 1] == lines.last());
            }
        }
    }
}

/// A summary makes nothing up: each line, but for the hint, is the headline of a line of
/// the log, and no headline comes twice.
pub proof fn law_summary_quotes_the_log(raw: Seq<char>)
    ensures
        leading(split(raw, '\n')).no_duplicates(),
        forall|i: int|
            0 <= i < leading(split(raw, '\n')).len() ==> exists|j: int|
                0 <= j < split(raw, '\n').len() && headline(#[trigger] split(raw, '\n')[j]) == Some(
                    #[trigger] leading(split(raw, '\n'))[i],
                ),
{
    let lines = split(raw, '\n');
    lemma_headlines(lines, true);
    lemma_headlines(lines, false);
    let naming = headlines(lines, true);
    let other = headlines(lines, false);
    let all = naming + other;
    let top = leading(lines);
    assert forall|i: int, j: int| 0 <= i < all.len() && 0 <= j < all.len() && i != j implies all[i]
        != all[j] by {
        if i < naming.len() {
            assert(names_the_cause(naming[i]));
        } else {
            assert(!names_the_cause(other[i - naming.len()]));
        }
        if j < naming.len() {
            assert(names_the_cause(naming[j]));
        } else {
            assert(!names_the_cause(other[j - naming.len()]));
        }
    }
    assert forall|i: int| 0 <= i < top.len() implies exists|j: int|
        0 <= j < lines.len() && headline(#[trigger] lines[j]) == Some(#[trigger] top[i]) by {
        if i < naming.len() {
            assert(top[i] == naming[i]);
        } else {
            assert(top[i] == other[i - naming.len()]);
        }
    }
}

/// A summary leads with a line that names a cause wherever the log has one.
pub proof fn law_summary_leads_with_a_cause(raw: Seq<char>, k: int)
    requires
        0 <= k < split(raw, '\n').len(),
        headline(split(raw, '\n')[k]) matches Some(text) && names_the_cause(text),
    ensures
        summary(Some(raw)).len() > 0,
        names_the_cause(summary(Some(raw))[0]),
{
    let lines = split(raw, '\n');
    lemma_headlines(lines, true);
    lemma_listed(lines, k);
    let naming = headlines(lines, true);
    assert(names_the_cause(naming[0]));
    assert(leading(lines)[0] == naming[0]);
}

proof fn lemma_listed(lines: Seq<Seq<char>>, k: int)
    requires
        0 <= k < lines.len(),
        headline(lines[k]) matches Some(text) && names_the_cause(text),
    ensures
        headlines(lines, true).contains(headline(lines[k])->0),
    decreases lines.len(),
{
    let before = headlines(lines.drop_last(), true);
    let text = headline(lines[k])->0;
    if k < lines.len() - 1 {
        assert(lines.drop_last()[k] == lines[k]);
        lemma_listed(lines.drop_last(), k);
        let i = choose|i: int| 0 <= i < before.len() && before[i] == text;
        assert(headlines(lines, true)[i] == text);
    } else if !before.contains(text) {
        let list = headlines(lines, true);
        assert(list[list.len() - 1] == text);
    }
}

/// Where the log has a headline of a missing export, the hint stands at the end of the
/// summary; however long the log is, it cannot be pushed out.
pub proof fn law_hint_is_never_cut(raw: Seq<char>, k: int)
    requires
        0 <= k < split(raw, '\n').len(),
        headline(split(raw, '\n')[k]) matches Some(text) && missing_export(text),
    ensures
        summary(Some(raw)).last() == mismatch_hint(),
        2 <= summary(Some(raw)).len() <= 5,
{
    let lines = split(raw, '\n');
    lemma_listed(lines, k);
    let text = headline(lines[k])->0;
    let i = choose|i: int| 0 <= i < headlines(lines, true).len() && headlines(lines, true)[i] == text;
    assert(missing_export(headlines(lines, true)[i]));
}

} // verus!
