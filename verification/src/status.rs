//! What the page is told: the state of the app, and of each side's version.
use crate::text::{opt_str, opt_text, texts};
use crate::version::{relation_state, VersionRelation};
use vstd::prelude::*;

verus! {

/// What the page shows.
#[derive(Clone, Copy, PartialEq, Eq, Debug, Structural)]
pub enum PageState {
    /// Looking at the environment, or starting the backend.
    Booting,
    /// The GUI is up.
    Ready,
    /// No dsh, but npm to install it with.
    MissingDsh,
    /// Neither dsh nor npm.
    MissingNode,
    /// npm is at work.
    Installing,
    /// Something failed.
    Error,
}

/// The word that the page switches on.
pub open spec fn page_word(state: PageState) -> Seq<char> {
    match state {
        PageState::Booting => "booting"@,
        PageState::Ready => "ready"@,
        PageState::MissingDsh => "missing-dsh"@,
        PageState::MissingNode => "missing-node"@,
        PageState::Installing => "installing"@,
        PageState::Error => "error"@,
    }
}

impl PageState {
    pub fn word(self) -> (word: &'static str)
        ensures
            word@ == page_word(self),
    {
        match self {
            PageState::Booting => "booting",
            PageState::Ready => "ready",
            PageState::MissingDsh => "missing-dsh",
            PageState::MissingNode => "missing-node",
            PageState::Installing => "installing",
            PageState::Error => "error",
        }
    }
}

/// A status for the page, with lines to show.
#[derive(Debug)]
pub struct Status {
    pub state: PageState,
    pub detail: Vec<String>,
}

/// What a status says.
pub struct Shown {
    pub state: PageState,
    pub detail: Seq<Seq<char>>,
}

impl View for Status {
    type V = Shown;

    open spec fn view(&self) -> Shown {
        Shown { state: self.state, detail: texts(self.detail@) }
    }
}

/// A status with the given lines.
pub fn status_payload(state: PageState, detail: Vec<String>) -> (status: Status)
    ensures
        status@ == (Shown { state, detail: texts(detail@) }),
{
    Status { state, detail }
}

/// A status without lines.
pub open spec fn bare(state: PageState) -> Shown {
    Shown { state, detail: Seq::empty() }
}

/// A status with one line.
pub open spec fn saying(state: PageState, line: Seq<char>) -> Shown {
    Shown { state, detail: seq![line] }
}

pub fn bare_status(state: PageState) -> (status: Status)
    ensures
        status@ == bare(state),
{
    let detail: Vec<String> = Vec::new();
    assert(texts(detail@) =~= Seq::<Seq<char>>::empty());
    Status { state, detail }
}

pub fn line_status(state: PageState, line: String) -> (status: Status)
    ensures
        status@ == saying(state, line@),
{
    let mut detail: Vec<String> = Vec::new();
    detail.push(line);
    assert(texts(detail@) =~= seq![line@]);
    Status { state, detail }
}

pub fn two_line_status(state: PageState, first: String, second: String) -> (status: Status)
    ensures
        status@ == (Shown { state, detail: seq![first@, second@] }),
{
    let mut detail: Vec<String> = Vec::new();
    detail.push(first);
    detail.push(second);
    assert(texts(detail@) =~= seq![first@, second@]);
    Status { state, detail }
}

/// The status that a boot sequence which failed leaves behind.
pub fn failed_boot_status(detail: Vec<String>) -> (status: Status)
    ensures
        status@ == (Shown { state: PageState::Error, detail: texts(detail@) }),
{
    Status { state: PageState::Error, detail }
}

/// Whether the window shows the GUI, going by the last status. While it does, a failed
/// lookup must not take the content area over.
pub fn gui_is_up(status: &Status) -> (up: bool)
    ensures
        up == (status@.state == PageState::Ready),
{
    match status.state {
        PageState::Ready => true,
        _ => false,
    }
}

// ---------------------------------------------------------------- versions

/// How far a version check, or the update behind it, has come.
#[derive(Clone, Copy, PartialEq, Eq, Debug, Structural)]
pub enum CheckState {
    /// Nothing was checked yet.
    Unknown,
    /// A check is under way.
    Checking,
    /// An update is asked for and its target being looked up.
    Resolving,
    /// Both versions are known.
    Related(VersionRelation),
    /// The channel has nothing published.
    ChannelEmpty,
    /// There is nothing to compare with.
    NotInstalled,
    /// The update is being installed.
    Installing,
    /// The check, or the update, failed.
    Failed,
}

/// The word that the page switches on.
pub open spec fn check_word(state: CheckState) -> Seq<char> {
    match state {
        CheckState::Unknown => "unknown"@,
        CheckState::Checking => "checking"@,
        CheckState::Resolving => "resolving"@,
        CheckState::Related(relation) => relation_state(relation),
        CheckState::ChannelEmpty => "channel-empty"@,
        CheckState::NotInstalled => "not-installed"@,
        CheckState::Installing => "installing"@,
        CheckState::Failed => "error"@,
    }
}

impl CheckState {
    pub fn word(self) -> (word: &'static str)
        ensures
            word@ == check_word(self),
    {
        match self {
            CheckState::Unknown => "unknown",
            CheckState::Checking => "checking",
            CheckState::Resolving => "resolving",
            CheckState::Related(relation) => relation.state(),
            CheckState::ChannelEmpty => "channel-empty",
            CheckState::NotInstalled => "not-installed",
            CheckState::Installing => "installing",
            CheckState::Failed => "error",
        }
    }
}

/// What the page is told of one side's version. `target` is the version that the
/// channel points at; it may be older than `installed`.
#[derive(Debug)]
pub struct VersionReport {
    pub state: CheckState,
    pub channel: String,
    pub installed: Option<String>,
    pub target: Option<String>,
    pub reason: Option<String>,
}

/// What a version report says.
pub struct Reported {
    pub state: CheckState,
    pub channel: Seq<char>,
    pub installed: Option<Seq<char>>,
    pub target: Option<Seq<char>>,
    pub reason: Option<Seq<char>>,
}

impl View for VersionReport {
    type V = Reported;

    open spec fn view(&self) -> Reported {
        Reported {
            state: self.state,
            channel: self.channel@,
            installed: opt_text(self.installed),
            target: opt_text(self.target),
            reason: opt_text(self.reason),
        }
    }
}

/// A copy of an optional text.
pub fn owned(text: Option<&str>) -> (copy: Option<String>)
    ensures
        opt_text(copy) == opt_str(text),
{
    match text {
        Some(text) => Some(text.to_string()),
        None => None,
    }
}

/// An optional text, borrowed.
pub fn borrowed(text: &Option<String>) -> (same: Option<&str>)
    ensures
        opt_str(same) == opt_text(*text),
{
    match text {
        Some(text) => Some(text.as_str()),
        None => None,
    }
}

pub fn version_payload(
    state: CheckState,
    channel: &str,
    installed: Option<&str>,
    target: Option<&str>,
    reason: Option<&str>,
) -> (report: VersionReport)
    ensures
        report@ == (Reported {
            state,
            channel: channel@,
            installed: opt_str(installed),
            target: opt_str(target),
            reason: opt_str(reason),
        }),
{
    VersionReport {
        state,
        channel: channel.to_string(),
        installed: owned(installed),
        target: owned(target),
        reason: owned(reason),
    }
}

/// What is known before the first check.
pub open spec fn nothing_checked() -> Reported {
    Reported {
        state: CheckState::Unknown,
        channel: crate::channels::DEFAULT_CHANNEL@,
        installed: None,
        target: None,
        reason: None,
    }
}

impl Default for VersionReport {
    fn default() -> (report: Self)
        ensures
            report@ == nothing_checked(),
    {
        version_payload(CheckState::Unknown, crate::channels::DEFAULT_CHANNEL, None, None, None)
    }
}

// ---------------------------------------------------------------- telling states apart

/// No two states of the page go by one word.
pub proof fn law_page_words_differ(a: PageState, b: PageState)
    ensures
        page_word(a) == page_word(b) ==> a == b,
{
    reveal_strlit("booting");
    reveal_strlit("ready");
    reveal_strlit("missing-dsh");
    reveal_strlit("missing-node");
    reveal_strlit("installing");
    reveal_strlit("error");
    if page_word(a) == page_word(b) {
        assert(page_word(a).len() == page_word(b).len());
        assert(page_word(a)[0] == page_word(b)[0]);
    }
}

/// No two states of a check go by one word. So the one word that raises the page's pill
/// comes only with a newer version, and a version to go back to does not nag.
pub proof fn law_check_words_differ(a: CheckState, b: CheckState)
    ensures
        check_word(a) == check_word(b) ==> a == b,
        check_word(a) == "outdated"@ <==> a == CheckState::Related(VersionRelation::Newer),
{
    reveal_strlit("unknown");
    reveal_strlit("checking");
    reveal_strlit("resolving");
    reveal_strlit("current");
    reveal_strlit("outdated");
    reveal_strlit("rollback");
    reveal_strlit("channel-empty");
    reveal_strlit("not-installed");
    reveal_strlit("installing");
    reveal_strlit("error");
    if check_word(a) == check_word(b) {
        assert(check_word(a).len() == check_word(b).len());
        assert(check_word(a)[0] == check_word(b)[0]);
    }
    if check_word(a) == "outdated"@ {
        assert(check_word(a).len() == 8);
        assert(check_word(a)[0] == 'o');
    }
}

} // verus!
