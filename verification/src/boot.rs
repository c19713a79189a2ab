//! Booting: reuse a backend or start one, and show its GUI, or say what is missing.
use crate::address::{local_url, opt_address, parse_url, url_in, Address, UrlParts};
use crate::json::{quote, quoted};
use crate::log::{never_ready, never_ready_detail};
use crate::status::{
    bare, bare_status, failed_boot_status, line_status, saying, two_line_status, PageState, Shown,
    Status,
};
use crate::text::{cat2, cat3, chars_of, opt_text};
use crate::theme::or_empty_literal;
use vstd::prelude::*;

verus! {

// ---------------------------------------------------------------- the backend we own

/// The backend that this app started, if there is one. It is empty while none was
/// started, and while one is reused that somebody else owns.
///
/// `generation` counts how often a backend was given up on purpose. To the one who
/// watches it, a backend that was killed looks like one that died: a watcher remembers
/// the generation that it was born into, and keeps quiet once that has passed.
#[derive(Clone, Copy, PartialEq, Eq, Debug, Structural)]
pub struct Backend {
    pub child: Option<u32>,
    pub generation: u64,
}

impl Default for Backend {
    fn default() -> (backend: Self)
        ensures
            backend == (Backend { child: None, generation: 0 }),
    {
        Backend { child: None, generation: 0 }
    }
}

/// The generation after `times` more backends were given up. It counts in 64 bits.
pub open spec fn generation_after(generation: u64, times: nat) -> int {
    (generation + times) % 0x1_0000_0000_0000_0000
}

/// Whether a watcher that was born into `born`, and saw its backend end or did not, has a
/// crash to report while the generation is `current`.
pub open spec fn crash_to_report(current: u64, born: u64, exit_seen: bool) -> bool {
    exit_seen && current == born
}

/// What is held once a backend was given up.
pub open spec fn given_up(backend: Backend) -> Backend {
    Backend { child: None, generation: generation_after(backend.generation, 1) as u64 }
}

/// What is held once a backend was started.
pub open spec fn holding(backend: Backend, child: u32) -> Backend {
    Backend { child: Some(child), generation: backend.generation }
}

impl Backend {
    /// Gives the backend up: it is to be killed. The generation moves on even when
    /// there is none, so that no watcher outlives what is about to be replaced.
    pub fn take_backend(&mut self) -> (child: Option<u32>)
        ensures
            child == old(self).child,
            final(self).child is None,
            final(self).generation == generation_after(old(self).generation, 1),
            *final(self) == given_up(*old(self)),
    {
        let child = self.child;
        self.child = None;
        self.generation = self.generation.wrapping_add(1);
        child
    }

    /// Holds on to a backend that was started. Gives the generation that its watcher is
    /// born into.
    pub fn store(&mut self, child: u32) -> (generation: u64)
        ensures
            *final(self) == (Backend { child: Some(child), ..*old(self) }),
            *final(self) == holding(*old(self), child),
            generation == old(self).generation,
    {
        self.child = Some(child);
        self.generation
    }

    /// Whether the backend that serves is one that this app started. Only then may the
    /// files that it runs from be replaced.
    pub fn backend_is_ours(&self) -> (ours: bool)
        ensures
            ours == (self.child is Some),
    {
        self.child.is_some()
    }

    /// Whether a watcher that was born into `generation` and saw, or did not see, its
    /// backend end has a crash to report.
    pub fn has_crashed(&self, generation: u64, exit_seen: bool) -> (crashed: bool)
        ensures
            crashed == (exit_seen && self.generation == generation),
            crashed == crash_to_report(self.generation, generation, exit_seen),
    {
        exit_seen && self.generation == generation
    }
}

/// A backend that was given up is never reported as a crash by its watcher, however many
/// more are given up: a generation comes again only after 2^64 of them.
pub proof fn law_retired_backend_is_no_crash(born: u64, times: nat)
    requires
        0 < times < 0x1_0000_0000_0000_0000,
    ensures
        generation_after(born, times) != born,
{
    let m: int = 0x1_0000_0000_0000_0000;
    let sum = born + times;
    if sum < m {
        assert(sum % m == sum);
    } else {
        assert(sum % m == sum - m) by (nonlinear_arith)
            requires
                m <= sum < 2 * m,
                m == 0x1_0000_0000_0000_0000,
        ;
    }
}

/// A backend that ends while it is held is reported, one that did not end is not, and one
/// that was given up is not, however many more are given up.
pub proof fn law_only_a_held_backend_crashes(born: u64, times: nat, later: u64, exit_seen: bool)
    requires
        0 < times < 0x1_0000_0000_0000_0000,
        later == generation_after(born, times),
    ensures
        crash_to_report(born, born, exit_seen) == exit_seen,
        !crash_to_report(later, born, exit_seen),
        !crash_to_report(born, later, exit_seen),
{
    law_retired_backend_is_no_crash(born, times);
}

/// A backend that is held is the one that was started, and holding it does not move the
/// generation on; giving it up does, and leaves nothing held.
pub proof fn law_backend_is_held_until_given_up(backend: Backend, child: u32)
    ensures
        holding(backend, child).child == Some(child),
        holding(backend, child).generation == backend.generation,
        given_up(backend).child is None,
        given_up(backend).generation != backend.generation,
        given_up(holding(backend, child)) == given_up(backend),
{
    law_retired_backend_is_no_crash(backend.generation, 1);
    let m: int = 0x1_0000_0000_0000_0000;
    vstd::arithmetic::div_mod::lemma_mod_bound(backend.generation + 1, m);
}

/// Giving up one backend after another adds up.
pub proof fn law_generations_add_up(born: u64, times: nat, then: u64)
    requires
        then == generation_after(born, times),
    ensures
        generation_after(then, 1) == generation_after(born, times + 1),
{
    let m: int = 0x1_0000_0000_0000_0000;
    vstd::arithmetic::div_mod::lemma_add_mod_noop(born + times, 1, m);
    vstd::arithmetic::div_mod::lemma_mod_twice(born + times, m);
    vstd::arithmetic::div_mod::lemma_add_mod_noop((born + times) % m, 1, m);
}

// ---------------------------------------------------------------- gates

/// Lets one boot through at a time.
#[derive(Clone, Copy, PartialEq, Eq, Debug, Structural)]
pub struct BootLock {
    pub busy: bool,
}

impl BootLock {
    pub fn new() -> (lock: BootLock)
        ensures
            !lock.busy,
    {
        BootLock { busy: false }
    }

    /// Whether a boot may begin; if so, no other may until it ends.
    pub fn enter(&mut self) -> (entered: bool)
        ensures
            entered == !old(self).busy,
            final(self).busy,
    {
        let entered = !self.busy;
        self.busy = true;
        entered
    }

    /// Ends a boot.
    pub fn leave(&mut self)
        ensures
            !final(self).busy,
    {
        self.busy = false;
    }
}

/// Lets the check at startup through once.
#[derive(Clone, Copy, PartialEq, Eq, Debug, Structural)]
pub struct AutoCheck {
    pub done: bool,
}

impl AutoCheck {
    pub fn new() -> (gate: AutoCheck)
        ensures
            !gate.done,
    {
        AutoCheck { done: false }
    }

    /// Whether the check at startup is to run now. Without dsh there is nothing to
    /// check, and the one check is kept for the boot that follows an install.
    pub fn auto_check_dsh_version(&mut self, has_dsh: bool) -> (run: bool)
        ensures
            run == (has_dsh && !old(self).done),
            final(self).done == (old(self).done || has_dsh),
    {
        if !has_dsh {
            return false;
        }
        let run = !self.done;
        self.done = true;
        run
    }
}

// ---------------------------------------------------------------- looking around

/// Whether a backend can be started.
#[derive(Clone, Copy, PartialEq, Eq, Debug, Structural)]
pub enum Preflight {
    Ready,
    /// There is no `dsh`. With npm it can be installed.
    NoDsh { has_npm: bool },
}

/// What there is to start with. Whether npm is there matters only without dsh.
pub fn preflight(has_dsh: bool, has_npm: bool) -> (found: Preflight)
    ensures
        found == if has_dsh {
            Preflight::Ready
        } else {
            Preflight::NoDsh { has_npm }
        },
{
    if has_dsh {
        Preflight::Ready
    } else {
        Preflight::NoDsh { has_npm }
    }
}

/// What the page shows when dsh is missing.
pub open spec fn missing_state(has_npm: bool) -> PageState {
    if has_npm {
        PageState::MissingDsh
    } else {
        PageState::MissingNode
    }
}

// ---------------------------------------------------------------- showing the GUI

/// The status of a GUI that is up: its address, and whose backend it is. The page needs
/// the second to say what an update costs.
pub open spec fn gui_status(href: Seq<char>, ours: bool) -> Shown {
    Shown {
        state: PageState::Ready,
        detail: seq![
            href,
            if ours {
                "owned"@
            } else {
                "foreign"@
            },
        ],
    }
}

/// The script that points the page's frame at an address.
pub open spec fn frame_script(href: Seq<char>) -> Seq<char> {
    "window.__dshSetFrame && window.__dshSetFrame("@ + quoted(href) + ")"@
}

/// What it takes to show a GUI.
#[derive(Debug)]
pub struct Gui {
    pub status: Status,
    pub script: String,
}

/// What is shown for a parsed address: nothing for one that did not parse.
pub open spec fn gui_at(address: Option<Address>, ours: bool) -> Option<(Shown, Seq<char>)> {
    match address {
        Some(address) => Some((gui_status(address.href, ours), frame_script(address.href))),
        None => None,
    }
}

pub open spec fn opt_gui(gui: Option<Gui>) -> Option<(Shown, Seq<char>)> {
    match gui {
        Some(gui) => Some((gui.status@, gui.script@)),
        None => None,
    }
}

/// What is shown for a parsed address.
pub fn show_parsed(parts: &Option<UrlParts>, ours: bool) -> (gui: Option<Gui>)
    ensures
        opt_gui(gui) == gui_at(opt_address(*parts), ours),
{
    match parts {
        Some(parts) => {
            let owner = if ours {
                "owned"
            } else {
                "foreign"
            };
            let literal = or_empty_literal(quote(parts.href.as_str()));
            Some(
                Gui {
                    status: two_line_status(
                        PageState::Ready,
                        parts.href.as_str().to_string(),
                        owner.to_string(),
                    ),
                    script: cat3(
                        "window.__dshSetFrame && window.__dshSetFrame(",
                        literal.as_str(),
                        ")",
                    ),
                },
            )
        },
        None => None,
    }
}

/// What is shown for an address: nothing for one that does not parse, which is where a
/// malformed one out of the backend's output stops. An address on a port of this
/// machine is always shown.
pub fn show_gui(url: &str, ours: bool) -> (gui: Option<Gui>)
    ensures
        opt_gui(gui) == gui_at(url_in(url@), ours),
        forall|host: Seq<char>| #[trigger] local_url(url@, host) ==> gui is Some,
{
    show_parsed(&parse_url(url), ours)
}

/// How long to wait, in milliseconds, before the script is run for the `attempt`-th time.
pub open spec fn pause_before(attempt: u32) -> Option<u64> {
    if attempt == 0 {
        Some(0)
    } else if attempt < 6 {
        Some(350)
    } else {
        None
    }
}

/// How long to wait, in milliseconds, before the script is run for the `attempt`-th time,
/// counted from zero; nothing when it was run often enough. The backend can be ready
/// before the page has loaded, and the page does not say whether it was.
pub fn push_pause(attempt: u32) -> (pause_ms: Option<u64>)
    ensures
        pause_ms == pause_before(attempt),
        pause_ms == if attempt == 0 {
            Some(0u64)
        } else if attempt < 6 {
            Some(350u64)
        } else {
            None
        },
{
    if attempt == 0 {
        Some(0)
    } else if attempt < 6 {
        Some(350)
    } else {
        None
    }
}

// ---------------------------------------------------------------- the boot sequence

/// What to do next in a boot, and report back.
#[derive(Debug)]
pub enum BootStep {
    /// Probe for a `dsh web` that is already serving.
    Probe,
    /// Look for `dsh` on the path, and without it for `npm`.
    Look,
    /// Start the backend.
    Spawn,
    /// Open the backend's log.
    OpenLog,
    /// Wait for the backend to give its address.
    AwaitUrl { log: String },
    /// Read the log of the backend, once it is complete.
    ReadLog { log: String },
    /// Nothing more.
    Finished,
}

/// What came of a step.
#[derive(Debug)]
pub enum BootEvent {
    /// The address of the `dsh web` that is already serving, if there is one.
    Probed(Option<String>),
    /// What there is to start with.
    Looked(Preflight),
    /// The error, if the backend did not start.
    Spawned(Option<String>),
    /// Where the log is, or the error.
    LogOpened(Result<String, String>),
    /// The first message from the backend's reader, if there was one in time. It is an
    /// address, or empty when the backend is gone.
    Waited(Option<String>),
    /// What the log holds, if it can be read.
    LogRead(Option<String>),
}

/// What to do before the next step.
#[derive(Debug)]
pub enum BootEffect {
    /// Show a status on the page.
    Show(Status),
    /// Show the GUI at an address.
    ShowGui(String),
    /// Drop the task board's lock, if it is stale.
    ClearLock,
    /// Give up the backend that is owned, if there is one.
    Retire,
    /// Hold on to the backend that was started, and begin to log its output.
    Keep,
    /// Watch for the backend to die.
    Watch { log: String },
}

/// A step in a boot.
#[allow(inconsistent_fields)]
pub enum BootStage {
    Probe,
    Look,
    Spawn,
    OpenLog,
    AwaitUrl { log: Seq<char> },
    ReadLog { log: Seq<char> },
    Finished,
}

/// What came of a step.
pub enum BootNews {
    Probed(Option<Seq<char>>),
    Looked(Preflight),
    Spawned(Option<Seq<char>>),
    LogOpened(Result<Seq<char>, Seq<char>>),
    Waited(Option<Seq<char>>),
    LogRead(Option<Seq<char>>),
}

/// What a boot does.
pub enum BootDeed {
    Show(Shown),
    ShowGui(Seq<char>),
    ClearLock,
    Retire,
    Keep,
    Watch { log: Seq<char> },
}

impl View for BootStep {
    type V = BootStage;

    open spec fn view(&self) -> BootStage {
        match self {
            BootStep::Probe => BootStage::Probe,
            BootStep::Look => BootStage::Look,
            BootStep::Spawn => BootStage::Spawn,
            BootStep::OpenLog => BootStage::OpenLog,
            BootStep::AwaitUrl { log } => BootStage::AwaitUrl { log: log@ },
            BootStep::ReadLog { log } => BootStage::ReadLog { log: log@ },
            BootStep::Finished => BootStage::Finished,
        }
    }
}

/// What a text or an error holds.
pub open spec fn either_text(r: Result<String, String>) -> Result<Seq<char>, Seq<char>> {
    match r {
        Ok(text) => Ok(text@),
        Err(error) => Err(error@),
    }
}

impl View for BootEvent {
    type V = BootNews;

    open spec fn view(&self) -> BootNews {
        match self {
            BootEvent::Probed(url) => BootNews::Probed(opt_text(*url)),
            BootEvent::Looked(found) => BootNews::Looked(*found),
            BootEvent::Spawned(error) => BootNews::Spawned(opt_text(*error)),
            BootEvent::LogOpened(log) => BootNews::LogOpened(either_text(*log)),
            BootEvent::Waited(url) => BootNews::Waited(opt_text(*url)),
            BootEvent::LogRead(text) => BootNews::LogRead(opt_text(*text)),
        }
    }
}

impl View for BootEffect {
    type V = BootDeed;

    open spec fn view(&self) -> BootDeed {
        match self {
            BootEffect::Show(status) => BootDeed::Show(status@),
            BootEffect::ShowGui(url) => BootDeed::ShowGui(url@),
            BootEffect::ClearLock => BootDeed::ClearLock,
            BootEffect::Retire => BootDeed::Retire,
            BootEffect::Keep => BootDeed::Keep,
            BootEffect::Watch { log } => BootDeed::Watch { log: log@ },
        }
    }
}

/// What a row of effects does.
pub open spec fn boot_deeds(effects: Seq<BootEffect>) -> Seq<BootDeed> {
    effects.map_values(|e: BootEffect| e@)
}

/// The status of a boot that failed for one reason.
pub open spec fn failed_with(what: Seq<char>, error: Seq<char>) -> BootDeed {
    BootDeed::Show(saying(PageState::Error, what + error))
}

/// What to do on some news, and the step after it. News that a step does not wait for
/// changes nothing.
pub open spec fn boot_next(stage: BootStage, news: BootNews) -> (Seq<BootDeed>, BootStage) {
    match (stage, news) {
        (BootStage::Probe, BootNews::Probed(Some(url))) => (
            seq![BootDeed::ShowGui(url)],
            BootStage::Finished,
        ),
        (BootStage::Probe, BootNews::Probed(None)) => (Seq::empty(), BootStage::Look),
        (BootStage::Look, BootNews::Looked(Preflight::Ready)) => (
            seq![
                BootDeed::Show(saying(PageState::Booting, "正在启动 DeepSeek Harness…"@)),
                BootDeed::ClearLock,
                BootDeed::Retire,
            ],
            BootStage::Spawn,
        ),
        (BootStage::Look, BootNews::Looked(Preflight::NoDsh { has_npm })) => (
            seq![BootDeed::Show(bare(missing_state(has_npm)))],
            BootStage::Finished,
        ),
        (BootStage::Spawn, BootNews::Spawned(None)) => (Seq::empty(), BootStage::OpenLog),
        (BootStage::Spawn, BootNews::Spawned(Some(error))) => (
            seq![failed_with("无法启动 `dsh web`："@, error)],
            BootStage::Finished,
        ),
        (BootStage::OpenLog, BootNews::LogOpened(Ok(log))) => (
            seq![BootDeed::Keep],
            BootStage::AwaitUrl { log },
        ),
        (BootStage::OpenLog, BootNews::LogOpened(Err(error))) => (
            seq![failed_with("无法打开后端日志："@, error)],
            BootStage::Finished,
        ),
        (BootStage::AwaitUrl { log }, BootNews::Waited(url)) => match url {
            Some(url) => if url.len() > 0 {
                (seq![BootDeed::ShowGui(url), BootDeed::Watch { log }], BootStage::Finished)
            } else {
                (Seq::empty(), BootStage::ReadLog { log })
            },
            None => (Seq::empty(), BootStage::ReadLog { log }),
        },
        (BootStage::ReadLog { log }, BootNews::LogRead(text)) => (
            seq![BootDeed::Show(Shown { state: PageState::Error, detail: never_ready(text, log) })],
            BootStage::Finished,
        ),
        _ => (Seq::empty(), stage),
    }
}

/// What to do, in order, and then the next step.
#[derive(Debug)]
pub struct BootMove {
    pub effects: Vec<BootEffect>,
    pub step: BootStep,
}

fn quiet(step: BootStep) -> (m: BootMove)
    ensures
        boot_deeds(m.effects@) == Seq::<BootDeed>::empty(),
        m.step == step,
{
    let effects: Vec<BootEffect> = Vec::new();
    assert(boot_deeds(effects@) =~= Seq::<BootDeed>::empty());
    BootMove { effects, step }
}

impl BootMove {
    fn also(self, effect: BootEffect) -> (m: BootMove)
        ensures
            boot_deeds(m.effects@) == boot_deeds(self.effects@).push(effect@),
            m.step == self.step,
    {
        let mut effects = self.effects;
        let ghost before = effects@;
        effects.push(effect);
        assert(boot_deeds(effects@) =~= boot_deeds(before).push(effect@));
        BootMove { effects, step: self.step }
    }
}

impl BootStep {
    /// The first step of a boot.
    pub fn boot_sequence() -> (step: BootStep)
        ensures
            step@ == BootStage::Probe,
    {
        BootStep::Probe
    }

    /// What to do on some news, and the step after it.
    pub fn try_boot(self, event: BootEvent) -> (m: BootMove)
        ensures
            (boot_deeds(m.effects@), m.step@) == boot_next(self@, event@),
    {
        let ghost expected = boot_next(self@, event@).0;
        let m = match (self, event) {
            (BootStep::Probe, BootEvent::Probed(Some(url))) => quiet(BootStep::Finished).also(
                BootEffect::ShowGui(url),
            ),
            (BootStep::Probe, BootEvent::Probed(None)) => quiet(BootStep::Look),
            (BootStep::Look, BootEvent::Looked(Preflight::Ready)) => quiet(BootStep::Spawn).also(
                BootEffect::Show(
                    line_status(PageState::Booting, "正在启动 DeepSeek Harness…".to_string()),
                ),
            ).also(BootEffect::ClearLock).also(BootEffect::Retire),
            (BootStep::Look, BootEvent::Looked(Preflight::NoDsh { has_npm })) => quiet(
                BootStep::Finished,
            ).also(
                BootEffect::Show(
                    bare_status(
                        if has_npm {
                            PageState::MissingDsh
                        } else {
                            PageState::MissingNode
                        },
                    ),
                ),
            ),
            (BootStep::Spawn, BootEvent::Spawned(None)) => quiet(BootStep::OpenLog),
            (BootStep::Spawn, BootEvent::Spawned(Some(error))) => quiet(BootStep::Finished).also(
                BootEffect::Show(
                    line_status(
                        PageState::Error,
                        cat2("无法启动 `dsh web`：", error.as_str()),
                    ),
                ),
            ),
            (BootStep::OpenLog, BootEvent::LogOpened(Ok(log))) => quiet(
                BootStep::AwaitUrl { log },
            ).also(BootEffect::Keep),
            (BootStep::OpenLog, BootEvent::LogOpened(Err(error))) => quiet(BootStep::Finished).also(
                BootEffect::Show(
                    line_status(
                        PageState::Error,
                        cat2("无法打开后端日志：", error.as_str()),
                    ),
                ),
            ),
            (BootStep::AwaitUrl { log }, BootEvent::Waited(url)) => match url {
                Some(url) => if chars_of(url.as_str()).len() > 0 {
                    quiet(BootStep::Finished).also(BootEffect::ShowGui(url)).also(
                        BootEffect::Watch { log },
                    )
                } else {
                    quiet(BootStep::ReadLog { log })
                },
                None => quiet(BootStep::ReadLog { log }),
            },
            (BootStep::ReadLog { log }, BootEvent::LogRead(text)) => {
                let raw = match &text {
                    Some(text) => Some(text.as_str()),
                    None => None,
                };
                quiet(BootStep::Finished).also(
                    BootEffect::Show(failed_boot_status(never_ready_detail(raw, log.as_str()))),
                )
            },
            (step, _) => quiet(step),
        };
        assert(boot_deeds(m.effects@) =~= expected);
        m
    }
}

/// All that a boot may find.
pub struct Surroundings {
    pub serving: Option<Seq<char>>,
    pub found: Preflight,
    pub spawn_error: Option<Seq<char>>,
    pub log: Result<Seq<char>, Seq<char>>,
    pub url: Option<Seq<char>>,
    pub log_text: Option<Seq<char>>,
}

/// What a step finds.
pub open spec fn boot_finds(around: Surroundings, stage: BootStage) -> BootNews {
    match stage {
        BootStage::Look => BootNews::Looked(around.found),
        BootStage::Spawn => BootNews::Spawned(around.spawn_error),
        BootStage::OpenLog => BootNews::LogOpened(around.log),
        BootStage::AwaitUrl { .. } => BootNews::Waited(around.url),
        BootStage::ReadLog { .. } => BootNews::LogRead(around.log_text),
        _ => BootNews::Probed(around.serving),
    }
}

/// What a boot has done after `steps` steps, and where it is then.
pub open spec fn boot_run(around: Surroundings, steps: nat) -> (Seq<BootDeed>, BootStage)
    decreases steps,
{
    if steps == 0 {
        (Seq::empty(), BootStage::Probe)
    } else {
        let (done, stage) = boot_run(around, (steps - 1) as nat);
        let (more, next) = boot_next(stage, boot_finds(around, stage));
        (done + more, next)
    }
}

/// What a boot does up to the start of a backend of its own.
pub open spec fn clearing_the_way() -> Seq<BootDeed> {
    seq![
        BootDeed::Show(saying(PageState::Booting, "正在启动 DeepSeek Harness…"@)),
        BootDeed::ClearLock,
        BootDeed::Retire,
    ]
}

/// What a whole boot does.
pub open spec fn whole_boot(around: Surroundings) -> Seq<BootDeed> {
    match around.serving {
        Some(url) => seq![BootDeed::ShowGui(url)],
        None => match around.found {
            Preflight::NoDsh { has_npm } => seq![BootDeed::Show(bare(missing_state(has_npm)))],
            Preflight::Ready => clearing_the_way() + match around.spawn_error {
                Some(error) => seq![failed_with("无法启动 `dsh web`："@, error)],
                None => match around.log {
                    Err(error) => seq![failed_with("无法打开后端日志："@, error)],
                    Ok(log) => if around.url matches Some(url) && url.len() > 0 {
                        seq![
                            BootDeed::Keep,
                            BootDeed::ShowGui(around.url->0),
                            BootDeed::Watch { log },
                        ]
                    } else {
                        seq![
                            BootDeed::Keep,
                            BootDeed::Show(
                                Shown {
                                    state: PageState::Error,
                                    detail: never_ready(around.log_text, log),
                                },
                            ),
                        ]
                    },
                },
            },
        },
    }
}

/// A boot comes to an end within six steps, and does what `whole_boot` says. So a
/// backend that is already serving is reused and nothing is started, given up or
/// cleared; and a backend is started only once the way is clear.
pub proof fn law_boot_comes_to_an_end(around: Surroundings)
    ensures
        boot_run(around, 6) == (whole_boot(around), BootStage::Finished),
{
    reveal_with_fuel(boot_run, 7);
    assert(boot_run(around, 6).0 =~= whole_boot(around));
}

/// A backend that is reused never becomes one of ours: it is not held on to, so that
/// neither giving a backend up nor quitting can reach it.
pub proof fn law_reused_backend_is_not_ours(around: Surroundings)
    requires
        around.serving is Some,
    ensures
        !whole_boot(around).contains(BootDeed::Keep),
        !whole_boot(around).contains(BootDeed::Retire),
        !whole_boot(around).contains(BootDeed::ClearLock),
{
}

/// A boot that has ended does nothing more.
pub proof fn law_finished_boot_is_still(news: BootNews)
    ensures
        boot_next(BootStage::Finished, news) == (Seq::<BootDeed>::empty(), BootStage::Finished),
{
}

/// A boot always leaves the page with something to show: a GUI or a status that is not
/// the one of a start under way.
pub proof fn law_boot_never_leaves_the_splash(around: Surroundings)
    ensures
        exists|i: int|
            0 <= i < whole_boot(around).len() && ((#[trigger] whole_boot(around)[i]) is ShowGui || (
            whole_boot(around)[i] matches BootDeed::Show(shown) && shown.state
                != PageState::Booting)),
{
    let deeds = whole_boot(around);
    if deeds.last() is Watch {
        assert(deeds[deeds.len() - 2] is ShowGui);
    } else {
        assert(deeds[deeds.len() - 1] == deeds.last());
    }
}

} // verus!
