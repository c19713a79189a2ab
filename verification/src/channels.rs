//! Release channels: the two on offer, the one followed on each side, and the file
//! that remembers it.
use crate::json::{
    empty_object, get_text, object_in, object_text, parse_object, put_text, text_field, write_object,
    Field,
};
use crate::scan::{trim, trimmed};
use crate::scan_laws::{
    blank, bounded, law_trimming_leaves_nothing_of_a_blank, law_trimming_leaves_the_middle,
};
use crate::status::borrowed;
use crate::text::{chars_of, opt_str, same_text};
use vstd::prelude::*;

verus! {

/// The channels on offer, for the shell and for dsh. For dsh they are npm dist-tags,
/// for the shell they pick an updater manifest.
pub const CHANNELS: [&'static str; 2] = ["latest", "alpha"];

/// The channel that is followed until another is chosen.
pub const DEFAULT_CHANNEL: &'static str = "latest";

/// `c` in lower case, where it is an ASCII letter.
pub open spec fn lower(c: char) -> char {
    if 'A' <= c <= 'Z' {
        (c as u8 + 32) as char
    } else {
        c
    }
}

/// Whether two texts are the same but for the case of ASCII letters.
pub open spec fn same_but_case(a: Seq<char>, b: Seq<char>) -> bool {
    a.len() == b.len() && forall|i: int| 0 <= i < a.len() ==> lower(#[trigger] a[i]) == lower(b[i])
}

/// Whether a name is one of the channels on offer.
pub open spec fn is_channel(name: Seq<char>) -> bool {
    exists|i: int| 0 <= i < CHANNELS@.len() && name == #[trigger] CHANNELS@[i]@
}

/// The channel that `raw` asks for: white space around it and the case of its letters
/// do not matter, and what is no channel is the default.
pub open spec fn channel_named(raw: Seq<char>) -> Seq<char> {
    if same_but_case("latest"@, trimmed(raw)) {
        "latest"@
    } else if same_but_case("alpha"@, trimmed(raw)) {
        "alpha"@
    } else {
        DEFAULT_CHANNEL@
    }
}

fn to_lower(c: char) -> (l: char)
    ensures
        l == lower(c),
{
    if 'A' <= c && c <= 'Z' {
        (c as u8 + 32) as char
    } else {
        c
    }
}

fn equal_but_case(a: &str, b: &Vec<char>) -> (yes: bool)
    ensures
        yes == same_but_case(a@, b@),
{
    let chars = chars_of(a);
    if chars.len() != b.len() {
        return false;
    }
    for i in 0..chars.len()
        invariant
            chars@ == a@,
            chars.len() == b.len(),
            forall|j: int| 0 <= j < i ==> lower(#[trigger] a@[j]) == lower(b@[j]),
    {
        if to_lower(chars[i]) != to_lower(b[i]) {
            assert(lower(a@[i as int]) != lower(b@[i as int]));
            return false;
        }
    }
    true
}

/// Maps whatever the page sent to one of `CHANNELS`, falling back to the default.
///
/// The result comes out of a fixed table, so nothing that the page makes up can reach
/// the command lines that it is put into.
pub fn normalize_channel(raw: &str) -> (channel: &'static str)
    ensures
        channel@ == channel_named(raw@),
        is_channel(channel@),
{
    let name = trim(&chars_of(raw));
    assert(CHANNELS@[0]@ == "latest"@ && CHANNELS@[1]@ == "alpha"@);
    if equal_but_case("latest", &name) {
        "latest"
    } else if equal_but_case("alpha", &name) {
        "alpha"
    } else {
        DEFAULT_CHANNEL
    }
}

/// The channel that is followed on each side.
#[derive(Clone, Copy, Debug)]
pub struct Channels {
    pub dsh: &'static str,
    pub shell: &'static str,
}

/// The names of the channels that are followed.
pub struct Followed {
    pub dsh: Seq<char>,
    pub shell: Seq<char>,
}

impl View for Channels {
    type V = Followed;

    open spec fn view(&self) -> Followed {
        Followed { dsh: self.dsh@, shell: self.shell@ }
    }
}

impl Followed {
    /// Whether both names are channels on offer.
    pub open spec fn on_offer(self) -> bool {
        is_channel(self.dsh) && is_channel(self.shell)
    }
}

impl Default for Channels {
    fn default() -> (channels: Self)
        ensures
            channels@ == (Followed { dsh: DEFAULT_CHANNEL@, shell: DEFAULT_CHANNEL@ }),
            channels@.on_offer(),
    {
        assert(CHANNELS@[0]@ == DEFAULT_CHANNEL@);
        Channels { dsh: DEFAULT_CHANNEL, shell: DEFAULT_CHANNEL }
    }
}

/// One side after it was told `name`; a side that was told nothing stays.
pub open spec fn side_told(side: Seq<char>, name: Option<Seq<char>>) -> Seq<char> {
    match name {
        Some(name) => channel_named(name),
        None => side,
    }
}

/// The channels after a remembered text was read: each side that the text names is
/// taken over as a channel, and nothing else changes. A text that is missing, is no
/// JSON or is no object changes nothing.
pub open spec fn loaded(before: Followed, text: Option<Seq<char>>) -> Followed {
    match text {
        Some(text) => match object_in(text) {
            Some(fields) => Followed {
                dsh: side_told(before.dsh, text_field(fields, "dsh"@)),
                shell: side_told(before.shell, text_field(fields, "shell"@)),
            },
            None => before,
        },
        None => before,
    }
}

/// The channels after side `which` was switched to what `channel` asks for; any other
/// side leaves both as they were.
pub open spec fn switched(before: Followed, which: Seq<char>, channel: Seq<char>) -> Followed {
    if which == "dsh"@ {
        Followed { dsh: channel_named(channel), ..before }
    } else if which == "shell"@ {
        Followed { shell: channel_named(channel), ..before }
    } else {
        before
    }
}

impl Channels {
    /// Takes over the channels that a file remembers. `text` is the content of the
    /// file, or nothing when it cannot be read.
    pub fn load_channels(&mut self, text: Option<&str>)
        requires
            old(self)@.on_offer(),
        ensures
            final(self)@ == loaded(old(self)@, opt_str(text)),
            final(self)@.on_offer(),
    {
        if let Some(text) = text {
            if let Some(object) = parse_object(text) {
                let dsh = get_text(&object, "dsh");
                let shell = get_text(&object, "shell");
                self.take_over(borrowed(&dsh), borrowed(&shell));
            }
        }
    }

    /// Takes over the channels that each side is told to follow; a side that is told
    /// nothing stays.
    pub fn take_over(&mut self, dsh: Option<&str>, shell: Option<&str>)
        requires
            old(self)@.on_offer(),
        ensures
            final(self)@ == (Followed {
                dsh: side_told(old(self)@.dsh, opt_str(dsh)),
                shell: side_told(old(self)@.shell, opt_str(shell)),
            }),
            final(self)@.on_offer(),
    {
        if let Some(name) = dsh {
            self.dsh = normalize_channel(name);
        }
        if let Some(name) = shell {
            self.shell = normalize_channel(name);
        }
    }

    /// The text that remembers the channels. Loading it, whatever was followed before,
    /// brings these channels back.
    pub fn save_channels(&self) -> (text: String)
        requires
            self@.on_offer(),
        ensures
            text@ == object_text(remembered(self@)),
            object_in(text@) == Some(remembered(self@)),
            forall|before: Followed| loaded(before, Some(text@)) == self@,
    {
        let mut object = empty_object();
        put_text(&mut object, "dsh", self.dsh);
        put_text(&mut object, "shell", self.shell);
        let text = write_object(object);
        proof {
            reveal_strlit("dsh");
            reveal_strlit("shell");
            assert("dsh"@.len() != "shell"@.len());
            lemma_channel_named_of_channel(self.dsh@);
            lemma_channel_named_of_channel(self.shell@);
        }
        text
    }

    /// Remembers the channel that side `which` switched to. Says whether there was
    /// such a side, and so something to save.
    pub fn set_channel(&mut self, which: &str, channel: &str) -> (changed: bool)
        requires
            old(self)@.on_offer(),
        ensures
            final(self)@ == switched(old(self)@, which@, channel@),
            final(self)@.on_offer(),
            changed == (which@ == "dsh"@ || which@ == "shell"@),
            which@ == "dsh"@ ==> final(self).dsh@ == channel_named(channel@) && final(self).shell@
                == old(self).shell@,
            which@ == "shell"@ ==> final(self).dsh@ == old(self).dsh@ && final(self).shell@
                == channel_named(channel@),
            !changed ==> final(self).dsh@ == old(self).dsh@ && final(self).shell@
                == old(self).shell@,
    {
        proof {
            law_sides_are_picked_apart(self@, channel@);
        }
        let channel = normalize_channel(channel);
        if same_text(which, "dsh") {
            self.dsh = channel;
            true
        } else if same_text(which, "shell") {
            self.shell = channel;
            true
        } else {
            false
        }
    }
}

/// The fields of the text that remembers the channels.
pub open spec fn remembered(followed: Followed) -> Map<Seq<char>, Field> {
    Map::empty().insert("dsh"@, Field::Text(followed.dsh)).insert(
        "shell"@,
        Field::Text(followed.shell),
    )
}

/// A channel asked for by its own name is that channel.
proof fn lemma_channel_named_of_channel(name: Seq<char>)
    requires
        is_channel(name),
    ensures
        channel_named(name) == name,
{
    reveal_strlit("latest");
    reveal_strlit("alpha");
    assert(CHANNELS@[0]@ == "latest"@ && CHANNELS@[1]@ == "alpha"@);
    lemma_untrimmed(name);
}

proof fn lemma_untrimmed(name: Seq<char>)
    requires
        name.len() > 0,
        !crate::text::white_space(name[0]),
        !crate::text::white_space(name.last()),
    ensures
        trimmed(name) == name,
{
}

/// The letters from `A` to `Z` have one in lower case, 32 code points on; every other
/// character stays.
pub proof fn law_lower_case(c: char)
    ensures
        0x41 <= c as int <= 0x5a ==> lower(c) as int == c as int + 32,
        c as int <= 0x40 || 0x5b <= c as int ==> lower(c) == c,
{
}

/// Every value of the page becomes a channel on offer, and a channel stays what it is.
pub proof fn law_channel_named_is_on_offer(raw: Seq<char>)
    ensures
        is_channel(channel_named(raw)),
        channel_named(channel_named(raw)) == channel_named(raw),
{
    assert(CHANNELS@[0]@ == "latest"@ && CHANNELS@[1]@ == "alpha"@);
    lemma_channel_named_of_channel(channel_named(raw));
}

/// Switching one side sets that side to the channel asked for and leaves the other, and
/// a side that does not exist leaves both.
pub proof fn law_sides_are_picked_apart(before: Followed, channel: Seq<char>)
    ensures
        switched(before, "dsh"@, channel).dsh == channel_named(channel),
        switched(before, "dsh"@, channel).shell == before.shell,
        switched(before, "shell"@, channel).shell == channel_named(channel),
        switched(before, "shell"@, channel).dsh == before.dsh,
        forall|which: Seq<char>|
            which != "dsh"@ && which != "shell"@ ==> #[trigger] switched(before, which, channel)
                == before,
{
    reveal_strlit("dsh");
    reveal_strlit("shell");
    assert("dsh"@.len() != "shell"@.len());
}

/// Switching the two sides comes to the same in either order, and the last switch of a
/// side is what counts.
pub proof fn law_switches_do_not_interfere(before: Followed, a: Seq<char>, b: Seq<char>)
    ensures
        switched(switched(before, "dsh"@, a), "shell"@, b) == switched(
            switched(before, "shell"@, b),
            "dsh"@,
            a,
        ),
        switched(switched(before, "dsh"@, a), "dsh"@, b) == switched(before, "dsh"@, b),
        switched(switched(before, "shell"@, a), "shell"@, b) == switched(before, "shell"@, b),
{
    law_sides_are_picked_apart(before, a);
    law_sides_are_picked_apart(before, b);
    law_sides_are_picked_apart(switched(before, "dsh"@, a), b);
    law_sides_are_picked_apart(switched(before, "shell"@, b), a);
    law_sides_are_picked_apart(switched(before, "shell"@, a), b);
}

/// A remembered text tells each side by the string under that side's name, and by
/// nothing else: a side that is not told, or told something that is no string, stays.
pub proof fn law_memory_tells_each_side(before: Followed, text: Seq<char>, name: Seq<char>)
    ensures
        object_in(text) is None ==> loaded(before, Some(text)) == before,
        loaded(before, None) == before,
        object_in(text) matches Some(fields) ==> {
            let told = loaded(before, Some(text));
            &&& fields.contains_key("dsh"@) && fields["dsh"@] == Field::Text(name) ==> told.dsh
                == channel_named(name)
            &&& !(fields.contains_key("dsh"@) && fields["dsh"@] is Text) ==> told.dsh == before.dsh
            &&& fields.contains_key("shell"@) && fields["shell"@] == Field::Text(name)
                ==> told.shell == channel_named(name)
            &&& !(fields.contains_key("shell"@) && fields["shell"@] is Text) ==> told.shell
                == before.shell
        },
{
}

/// Whether `s` is a lower-case word, each letter of it in either case.
pub open spec fn spelled_in_any_case(s: Seq<char>, word: Seq<char>) -> bool {
    s.len() == word.len() && forall|i: int|
        0 <= i < s.len() ==> (#[trigger] s[i] == word[i] || s[i] as int + 32 == word[i] as int)
}

/// A channel is named by its own letters, in either case, and white space around them;
/// by nothing less and nothing more.
pub proof fn law_channel_is_named_by_its_letters(
    front: Seq<char>,
    word: Seq<char>,
    back: Seq<char>,
)
    requires
        blank(front),
        blank(back),
    ensures
        spelled_in_any_case(word, "alpha"@) ==> channel_named(front + word + back) == "alpha"@,
        spelled_in_any_case(word, "latest"@) ==> channel_named(front + word + back) == "latest"@,
        bounded(word) && !spelled_in_any_case(word, "alpha"@) ==> channel_named(
            front + word + back,
        ) == "latest"@,
        channel_named(front) == "latest"@,
{
    reveal_strlit("alpha");
    reveal_strlit("latest");
    assert("alpha"@.len() != "latest"@.len());
    law_trimming_leaves_nothing_of_a_blank(front);
    if spelled_in_any_case(word, "alpha"@) {
        lemma_letters_are_no_blanks(word, "alpha"@);
    }
    if spelled_in_any_case(word, "latest"@) {
        lemma_letters_are_no_blanks(word, "latest"@);
    }
    if bounded(word) {
        law_trimming_leaves_the_middle(front, word, back);
        lemma_spelled(word, "alpha"@);
        lemma_spelled(word, "latest"@);
    }
}

proof fn lemma_letters_are_no_blanks(s: Seq<char>, word: Seq<char>)
    requires
        word.len() > 0,
        spelled_in_any_case(s, word),
        forall|i: int| 0 <= i < word.len() ==> 'a' <= #[trigger] word[i] <= 'z',
    ensures
        bounded(s),
{
    assert(s[0] == word[0] || s[0] as int + 32 == word[0] as int);
    assert('a' <= word[0] <= 'z');
    let last = s.len() - 1;
    assert(s[last] == word[last] || s[last] as int + 32 == word[last] as int);
    assert('a' <= word[last] <= 'z');
}

proof fn lemma_spelled(s: Seq<char>, word: Seq<char>)
    requires
        forall|i: int| 0 <= i < word.len() ==> 'a' <= #[trigger] word[i] <= 'z',
    ensures
        same_but_case(word, s) <==> spelled_in_any_case(s, word),
{
    if same_but_case(word, s) {
        assert forall|i: int| 0 <= i < s.len() implies (#[trigger] s[i] == word[i] || s[i] as int
            + 32 == word[i] as int) by {
            assert('a' <= word[i] <= 'z');
            assert(lower(word[i]) == lower(s[i]));
        }
    }
    if spelled_in_any_case(s, word) {
        assert forall|i: int| 0 <= i < word.len() implies lower(#[trigger] word[i]) == lower(
            s[i],
        ) by {
            assert('a' <= word[i] <= 'z');
            assert(s[i] == word[i] || s[i] as int + 32 == word[i] as int);
        }
    }
}

// ---------------------------------------------------------------- manifests

/// The updater manifest of each channel. `latest` is the host's own alias for the
/// newest full release; a prerelease never shows up there, so alpha has a fixed tag.
pub open spec fn manifest_of(channel: Seq<char>) -> Option<Seq<char>> {
    if channel == "latest"@ {
        Some("https://github.com/ColdSand803/dsh-desktop/releases/latest/download/latest.json"@)
    } else if channel == "alpha"@ {
        Some("https://github.com/ColdSand803/dsh-desktop/releases/download/alpha/latest.json"@)
    } else {
        None
    }
}

pub fn shell_manifest(channel: &str) -> (url: Option<&'static str>)
    ensures
        opt_str(url) == manifest_of(channel@),
{
    if same_text(channel, "latest") {
        Some("https://github.com/ColdSand803/dsh-desktop/releases/latest/download/latest.json")
    } else if same_text(channel, "alpha") {
        Some("https://github.com/ColdSand803/dsh-desktop/releases/download/alpha/latest.json")
    } else {
        None
    }
}

/// Every manifest is a release file of the same project: that of `latest` of its newest
/// full release, that of any other channel of a release by the channel's own name.
pub proof fn law_manifests_are_told_apart(channel: Seq<char>)
    ensures
        manifest_of(channel) matches Some(url) ==> url
            == "https://github.com/ColdSand803/dsh-desktop/releases/"@ + (if channel == "latest"@ {
            "latest/download"@
        } else {
            "download/"@ + channel
        }) + "/latest.json"@,
        is_channel(channel) ==> manifest_of(channel) is Some,
{
    law_every_channel_has_a_manifest(channel);
    reveal_strlit("download/");
    reveal_strlit("latest");
    reveal_strlit("alpha");
    assert("latest"@.len() != "alpha"@.len());
    reveal_strlit("https://github.com/ColdSand803/dsh-desktop/releases/");
    reveal_strlit("latest/download");
    reveal_strlit("/latest.json");
    reveal_strlit("https://github.com/ColdSand803/dsh-desktop/releases/latest/download/latest.json");
    reveal_strlit("https://github.com/ColdSand803/dsh-desktop/releases/download/alpha/latest.json");
    assert("https://github.com/ColdSand803/dsh-desktop/releases/latest/download/latest.json"@
        =~= "https://github.com/ColdSand803/dsh-desktop/releases/"@ + "latest/download"@
        + "/latest.json"@);
    assert("https://github.com/ColdSand803/dsh-desktop/releases/download/alpha/latest.json"@
        =~= "https://github.com/ColdSand803/dsh-desktop/releases/"@ + ("download/"@ + "alpha"@)
        + "/latest.json"@);
}

/// Every channel on offer has a manifest, so every one of them can be checked.
pub proof fn law_every_channel_has_a_manifest(channel: Seq<char>)
    ensures
        is_channel(channel) <==> manifest_of(channel) is Some,
{
    assert(CHANNELS@[0]@ == "latest"@ && CHANNELS@[1]@ == "alpha"@);
}

} // verus!
