//! The checks that are asked for in the tray, from the question to what the answer sets
//! off. Nothing is replaced without a click.
use crate::check::{report_dsh_version, report_of, Checked, VersionCheck};
use crate::dialog::{
    check_dsh_update_interactive, check_for_update, dsh_answer, replace_failed, shell_answer,
    update_failed, Asked, Dialog,
};
use crate::shell_update::{
    check_shell_update, shell_reported, shell_target, ShellCheck, ShellOffer,
};
use crate::status::{Reported, VersionReport};
use crate::text::{opt_str, opt_text};
use crate::upgrade::{checking, checking_report};
use crate::version::VersionRelation;
use vstd::prelude::*;

verus! {

// ---------------------------------------------------------------- the answer

/// The version of the shell to install once the user has answered: the one on offer, if
/// it is another than the one that runs and the user goes on.
pub fn shell_confirmed(offer: &ShellCheck, yes: bool) -> (install: Option<String>)
    ensures
        opt_text(install) == if yes {
            shell_target(offer@)
        } else {
            None
        },
{
    match offer {
        ShellCheck::Release { version, relation } => {
            if yes && *relation != VersionRelation::Same {
                Some(version.as_str().to_string())
            } else {
                None
            }
        },
        _ => None,
    }
}

/// What follows the install of another shell.
#[derive(Debug)]
pub enum AfterReplace {
    /// Restart into it.
    Restart,
    /// Say that it failed.
    Tell(Dialog),
}

/// What follows the install of another shell; `error` is why it failed, if it did.
pub fn shell_replaced(error: Option<&str>) -> (next: AfterReplace)
    ensures
        next is Restart <==> error is None,
        next matches AfterReplace::Tell(dialog) ==> dialog@ == replace_failed(opt_str(error)->0),
{
    match error {
        None => AfterReplace::Restart,
        Some(error) => AfterReplace::Tell(update_failed(error)),
    }
}

/// Whether a check of dsh has another version to offer.
pub open spec fn offers_move(check: Checked) -> bool {
    check matches Checked::Compared { relation, .. } && relation != VersionRelation::Same
}

/// Whether dsh is to be moved once the user has answered: there is another version, and
/// the user goes on.
pub fn dsh_confirmed(check: &VersionCheck, yes: bool) -> (upgrade: bool)
    ensures
        upgrade == (yes && offers_move(check@)),
{
    match check {
        VersionCheck::Compared { relation, .. } => yes && *relation != VersionRelation::Same,
        _ => false,
    }
}

// ---------------------------------------------------------------- dsh

/// What to do next in a check of dsh, and report back.
#[derive(Debug)]
pub enum DshTrayStep {
    /// Check dsh on the channel that it follows.
    Check,
    /// Wait for the answer to the question that was asked.
    Await { check: VersionCheck },
    /// Nothing more.
    Finished,
}

/// What came of a step.
#[derive(Debug)]
pub enum DshTrayEvent {
    Checked(VersionCheck),
    /// Whether the user goes on.
    Answered(bool),
}

/// What to do before the next step.
#[derive(Debug)]
pub enum DshTrayEffect {
    /// Report a version to the page.
    Report(VersionReport),
    /// Show a dialog that asks nothing.
    Tell(Dialog),
    /// Show a dialog that asks whether to go on.
    Ask(Dialog),
    /// Bring the window up, and move dsh to what the channel points at.
    Upgrade { channel: &'static str },
}

/// A step in a check of dsh.
pub enum DshTrayStage {
    Check,
    Await { check: Checked },
    Finished,
}

/// What came of a step.
pub enum DshTrayNews {
    Checked(Checked),
    Answered(bool),
}

/// What a check of dsh does.
pub enum DshTrayDeed {
    Report(Reported),
    Tell(Asked),
    Ask(Asked),
    Upgrade { channel: Seq<char> },
}

impl View for DshTrayStep {
    type V = DshTrayStage;

    open spec fn view(&self) -> DshTrayStage {
        match self {
            DshTrayStep::Check => DshTrayStage::Check,
            DshTrayStep::Await { check } => DshTrayStage::Await { check: check@ },
            DshTrayStep::Finished => DshTrayStage::Finished,
        }
    }
}

impl View for DshTrayEvent {
    type V = DshTrayNews;

    open spec fn view(&self) -> DshTrayNews {
        match self {
            DshTrayEvent::Checked(check) => DshTrayNews::Checked(check@),
            DshTrayEvent::Answered(yes) => DshTrayNews::Answered(*yes),
        }
    }
}

impl View for DshTrayEffect {
    type V = DshTrayDeed;

    open spec fn view(&self) -> DshTrayDeed {
        match self {
            DshTrayEffect::Report(report) => DshTrayDeed::Report(report@),
            DshTrayEffect::Tell(dialog) => DshTrayDeed::Tell(dialog@),
            DshTrayEffect::Ask(dialog) => DshTrayDeed::Ask(dialog@),
            DshTrayEffect::Upgrade { channel } => DshTrayDeed::Upgrade { channel: channel@ },
        }
    }
}

/// What a row of effects does.
pub open spec fn dsh_tray_deeds(effects: Seq<DshTrayEffect>) -> Seq<DshTrayDeed> {
    effects.map_values(|e: DshTrayEffect| e@)
}

/// What to do on some news, and the step after it, for a check on `channel`. News that a
/// step does not wait for changes nothing.
pub open spec fn dsh_tray_next(channel: Seq<char>, stage: DshTrayStage, news: DshTrayNews) -> (
    Seq<DshTrayDeed>,
    DshTrayStage,
) {
    match (stage, news) {
        (DshTrayStage::Check, DshTrayNews::Checked(check)) => {
            let report = DshTrayDeed::Report(report_of(check, channel));
            let answer = dsh_answer(check, channel);
            if answer.confirm is Some {
                (seq![report, DshTrayDeed::Ask(answer)], DshTrayStage::Await { check })
            } else {
                (seq![report, DshTrayDeed::Tell(answer)], DshTrayStage::Finished)
            }
        },
        (DshTrayStage::Await { check }, DshTrayNews::Answered(yes)) => (
            if yes && offers_move(check) {
                seq![DshTrayDeed::Upgrade { channel }]
            } else {
                Seq::empty()
            },
            DshTrayStage::Finished,
        ),
        _ => (Seq::empty(), stage),
    }
}

/// What to do, in order, and then the next step.
#[derive(Debug)]
pub struct DshTrayMove {
    pub effects: Vec<DshTrayEffect>,
    pub step: DshTrayStep,
}

fn dsh_quiet(step: DshTrayStep) -> (m: DshTrayMove)
    ensures
        dsh_tray_deeds(m.effects@) == Seq::<DshTrayDeed>::empty(),
        m.step == step,
{
    let effects: Vec<DshTrayEffect> = Vec::new();
    assert(dsh_tray_deeds(effects@) =~= Seq::<DshTrayDeed>::empty());
    DshTrayMove { effects, step }
}

impl DshTrayMove {
    fn also(self, effect: DshTrayEffect) -> (m: DshTrayMove)
        ensures
            dsh_tray_deeds(m.effects@) == dsh_tray_deeds(self.effects@).push(effect@),
            m.step == self.step,
    {
        let mut effects = self.effects;
        let ghost before = effects@;
        effects.push(effect);
        assert(dsh_tray_deeds(effects@) =~= dsh_tray_deeds(before).push(effect@));
        DshTrayMove { effects, step: self.step }
    }
}

impl DshTrayStep {
    /// The first step of a check of dsh on `channel`, the one that it follows.
    pub fn begin(channel: &'static str) -> (m: DshTrayMove)
        ensures
            dsh_tray_deeds(m.effects@) == seq![DshTrayDeed::Report(checking(channel@, None))],
            m.step@ == DshTrayStage::Check,
    {
        let m = dsh_quiet(DshTrayStep::Check).also(
            DshTrayEffect::Report(checking_report(channel, None)),
        );
        assert(dsh_tray_deeds(m.effects@) =~= seq![
            DshTrayDeed::Report(checking(channel@, None)),
        ]);
        m
    }

    /// What to do on some news, and the step after it.
    pub fn next(self, channel: &'static str, event: DshTrayEvent) -> (m: DshTrayMove)
        ensures
            (dsh_tray_deeds(m.effects@), m.step@) == dsh_tray_next(channel@, self@, event@),
    {
        let ghost expected = dsh_tray_next(channel@, self@, event@).0;
        let m = match (self, event) {
            (DshTrayStep::Check, DshTrayEvent::Checked(check)) => {
                let report = DshTrayEffect::Report(report_dsh_version(&check, channel));
                let answer = check_dsh_update_interactive(&check, channel);
                if answer.confirm.is_some() {
                    dsh_quiet(DshTrayStep::Await { check }).also(report).also(
                        DshTrayEffect::Ask(answer),
                    )
                } else {
                    dsh_quiet(DshTrayStep::Finished).also(report).also(DshTrayEffect::Tell(answer))
                }
            },
            (DshTrayStep::Await { check }, DshTrayEvent::Answered(yes)) => {
                if dsh_confirmed(&check, yes) {
                    dsh_quiet(DshTrayStep::Finished).also(DshTrayEffect::Upgrade { channel })
                } else {
                    dsh_quiet(DshTrayStep::Finished)
                }
            },
            (step, _) => dsh_quiet(step),
        };
        assert(dsh_tray_deeds(m.effects@) =~= expected);
        m
    }
}

/// What a check of dsh on `channel` has done after a row of news, and where it is then.
pub open spec fn dsh_tray_run(channel: Seq<char>, news: Seq<DshTrayNews>) -> (
    Seq<DshTrayDeed>,
    DshTrayStage,
)
    decreases news.len(),
{
    if news.len() == 0 {
        (seq![DshTrayDeed::Report(checking(channel, None))], DshTrayStage::Check)
    } else {
        let (done, stage) = dsh_tray_run(channel, news.drop_last());
        let (more, next) = dsh_tray_next(channel, stage, news.last());
        (done + more, next)
    }
}

/// What a whole check of dsh does: it is reported, answered in exactly one dialog, and
/// dsh is moved, on the channel that was checked, if and only if there is another version
/// and the user goes on.
pub open spec fn whole_dsh_check(channel: Seq<char>, check: Checked, yes: bool) -> Seq<DshTrayDeed> {
    let answer = dsh_answer(check, channel);
    seq![
        DshTrayDeed::Report(checking(channel, None)),
        DshTrayDeed::Report(report_of(check, channel)),
        if offers_move(check) {
            DshTrayDeed::Ask(answer)
        } else {
            DshTrayDeed::Tell(answer)
        },
    ] + if yes && offers_move(check) {
        seq![DshTrayDeed::Upgrade { channel }]
    } else {
        Seq::empty()
    }
}

/// A check of dsh does what `whole_dsh_check` says, and is over then.
pub proof fn law_dsh_check_comes_to_an_end(channel: Seq<char>, check: Checked, yes: bool)
    ensures
        dsh_tray_run(channel, seq![DshTrayNews::Checked(check), DshTrayNews::Answered(yes)]) == (
            whole_dsh_check(channel, check, yes),
            DshTrayStage::Finished,
        ),
{
    let news = seq![DshTrayNews::Checked(check), DshTrayNews::Answered(yes)];
    assert(news.drop_last() =~= seq![DshTrayNews::Checked(check)]);
    assert(news.drop_last().drop_last() =~= Seq::<DshTrayNews>::empty());
    reveal_with_fuel(dsh_tray_run, 3);
    assert(dsh_tray_run(channel, news).0 =~= whole_dsh_check(channel, check, yes));
}

/// dsh is never moved from the tray without consent: whatever happens, it is moved on
/// the channel that was checked, and only after a check that found another version and
/// then an answer to go on.
pub proof fn law_dsh_moves_with_consent_only(
    channel: Seq<char>,
    news: Seq<DshTrayNews>,
    other: Seq<char>,
)
    ensures
        dsh_tray_run(channel, news).0.contains(DshTrayDeed::Upgrade { channel: other }) ==> other
            == channel && exists|j: int, k: int|
            0 <= j < k < news.len() && (#[trigger] news[j] matches DshTrayNews::Checked(check)
                && offers_move(check)) && #[trigger] news[k] == DshTrayNews::Answered(true),
        dsh_tray_run(channel, news).1 matches DshTrayStage::Await { check } ==> exists|j: int|
            0 <= j < news.len() && #[trigger] news[j] == DshTrayNews::Checked(check),
    decreases news.len(),
{
    if news.len() > 0 {
        let fewer = news.drop_last();
        law_dsh_moves_with_consent_only(channel, fewer, other);
        let (done, stage) = dsh_tray_run(channel, fewer);
        let (more, next) = dsh_tray_next(channel, stage, news.last());
        let deed = DshTrayDeed::Upgrade { channel: other };
        let last = news.len() - 1;
        assert(news[last] == news.last());
        if (done + more).contains(deed) {
            let i = choose|i: int| 0 <= i < (done + more).len() && (done + more)[i] == deed;
            if i < done.len() {
                assert(done[i] == deed);
                assert(done.contains(deed));
                let (j, k) = choose|j: int, k: int|
                    0 <= j < k < fewer.len() && (#[trigger] fewer[j] matches DshTrayNews::Checked(
                        check,
                    ) && offers_move(check)) && #[trigger] fewer[k] == DshTrayNews::Answered(true);
                assert(news[j] == fewer[j] && news[k] == fewer[k]);
            } else {
                assert(more[i - done.len()] == deed);
                assert(stage is Await);
                let check = stage->check;
                let j = choose|j: int|
                    0 <= j < fewer.len() && #[trigger] fewer[j] == DshTrayNews::Checked(check);
                assert(news[j] == fewer[j]);
                assert(news[last] == DshTrayNews::Answered(true));
            }
        }
        if next is Await && stage is Await {
            let check = stage->check;
            let j = choose|j: int|
                0 <= j < fewer.len() && #[trigger] fewer[j] == DshTrayNews::Checked(check);
            assert(news[j] == fewer[j]);
        }
    } else {
        let first = dsh_tray_run(channel, news).0;
        assert(first.len() == 1 && first[0] is Report);
    }
}

// ---------------------------------------------------------------- the shell

/// What to do next in a check of the shell, and report back.
#[derive(Debug)]
pub enum ShellTrayStep {
    /// Ask the updater what the channel offers.
    Resolve,
    /// Wait for the answer to the question that was asked.
    Await { offer: ShellCheck },
    /// Download the version on offer and install it.
    Install { version: String },
    /// Nothing more.
    Finished,
}

/// What came of a step.
#[derive(Debug)]
pub enum ShellTrayEvent {
    Resolved(ShellCheck),
    /// Whether the user goes on.
    Answered(bool),
    /// Why the install failed, if it did.
    Installed(Option<String>),
}

/// What to do before the next step.
#[derive(Debug)]
pub enum ShellTrayEffect {
    /// Report a version to the page.
    Report(VersionReport),
    /// Show a dialog that asks nothing.
    Tell(Dialog),
    /// Show a dialog that asks whether to go on.
    Ask(Dialog),
    /// Restart into what was installed.
    Restart,
}

/// A step in a check of the shell.
pub enum ShellTrayStage {
    Resolve,
    Await { offer: ShellOffer },
    Install { version: Seq<char> },
    Finished,
}

/// What came of a step.
pub enum ShellTrayNews {
    Resolved(ShellOffer),
    Answered(bool),
    Installed(Option<Seq<char>>),
}

/// What a check of the shell does.
pub enum ShellTrayDeed {
    Report(Reported),
    Tell(Asked),
    Ask(Asked),
    Restart,
}

impl View for ShellTrayStep {
    type V = ShellTrayStage;

    open spec fn view(&self) -> ShellTrayStage {
        match self {
            ShellTrayStep::Resolve => ShellTrayStage::Resolve,
            ShellTrayStep::Await { offer } => ShellTrayStage::Await { offer: offer@ },
            ShellTrayStep::Install { version } => ShellTrayStage::Install { version: version@ },
            ShellTrayStep::Finished => ShellTrayStage::Finished,
        }
    }
}

impl View for ShellTrayEvent {
    type V = ShellTrayNews;

    open spec fn view(&self) -> ShellTrayNews {
        match self {
            ShellTrayEvent::Resolved(offer) => ShellTrayNews::Resolved(offer@),
            ShellTrayEvent::Answered(yes) => ShellTrayNews::Answered(*yes),
            ShellTrayEvent::Installed(error) => ShellTrayNews::Installed(opt_text(*error)),
        }
    }
}

impl View for ShellTrayEffect {
    type V = ShellTrayDeed;

    open spec fn view(&self) -> ShellTrayDeed {
        match self {
            ShellTrayEffect::Report(report) => ShellTrayDeed::Report(report@),
            ShellTrayEffect::Tell(dialog) => ShellTrayDeed::Tell(dialog@),
            ShellTrayEffect::Ask(dialog) => ShellTrayDeed::Ask(dialog@),
            ShellTrayEffect::Restart => ShellTrayDeed::Restart,
        }
    }
}

/// What a row of effects does.
pub open spec fn shell_tray_deeds(effects: Seq<ShellTrayEffect>) -> Seq<ShellTrayDeed> {
    effects.map_values(|e: ShellTrayEffect| e@)
}

/// What to do on some news, and the step after it, for a check on `channel` by version
/// `installed`. News that a step does not wait for changes nothing.
pub open spec fn shell_tray_next(
    channel: Seq<char>,
    installed: Seq<char>,
    stage: ShellTrayStage,
    news: ShellTrayNews,
) -> (Seq<ShellTrayDeed>, ShellTrayStage) {
    match (stage, news) {
        (ShellTrayStage::Resolve, ShellTrayNews::Resolved(offer)) => {
            let report = ShellTrayDeed::Report(shell_reported(offer, channel, installed));
            let answer = shell_answer(offer, channel, installed);
            if answer.confirm is Some {
                (seq![report, ShellTrayDeed::Ask(answer)], ShellTrayStage::Await { offer })
            } else {
                (seq![report, ShellTrayDeed::Tell(answer)], ShellTrayStage::Finished)
            }
        },
        (ShellTrayStage::Await { offer }, ShellTrayNews::Answered(yes)) => (
            Seq::empty(),
            match shell_target(offer) {
                Some(version) => if yes {
                    ShellTrayStage::Install { version }
                } else {
                    ShellTrayStage::Finished
                },
                None => ShellTrayStage::Finished,
            },
        ),
        (ShellTrayStage::Install { .. }, ShellTrayNews::Installed(error)) => (
            match error {
                None => seq![ShellTrayDeed::Restart],
                Some(error) => seq![ShellTrayDeed::Tell(replace_failed(error))],
            },
            ShellTrayStage::Finished,
        ),
        _ => (Seq::empty(), stage),
    }
}

/// What to do, in order, and then the next step.
#[derive(Debug)]
pub struct ShellTrayMove {
    pub effects: Vec<ShellTrayEffect>,
    pub step: ShellTrayStep,
}

fn shell_quiet(step: ShellTrayStep) -> (m: ShellTrayMove)
    ensures
        shell_tray_deeds(m.effects@) == Seq::<ShellTrayDeed>::empty(),
        m.step == step,
{
    let effects: Vec<ShellTrayEffect> = Vec::new();
    assert(shell_tray_deeds(effects@) =~= Seq::<ShellTrayDeed>::empty());
    ShellTrayMove { effects, step }
}

impl ShellTrayMove {
    fn also(self, effect: ShellTrayEffect) -> (m: ShellTrayMove)
        ensures
            shell_tray_deeds(m.effects@) == shell_tray_deeds(self.effects@).push(effect@),
            m.step == self.step,
    {
        let mut effects = self.effects;
        let ghost before = effects@;
        effects.push(effect);
        assert(shell_tray_deeds(effects@) =~= shell_tray_deeds(before).push(effect@));
        ShellTrayMove { effects, step: self.step }
    }
}

impl ShellTrayStep {
    /// The first step of a check of the shell on `channel`, the one that it follows, by
    /// version `installed`, the one that runs.
    pub fn begin(channel: &str, installed: &str) -> (m: ShellTrayMove)
        ensures
            shell_tray_deeds(m.effects@) == seq![
                ShellTrayDeed::Report(checking(channel@, Some(installed@))),
            ],
            m.step@ == ShellTrayStage::Resolve,
    {
        let m = shell_quiet(ShellTrayStep::Resolve).also(
            ShellTrayEffect::Report(checking_report(channel, Some(installed))),
        );
        assert(shell_tray_deeds(m.effects@) =~= seq![
            ShellTrayDeed::Report(checking(channel@, Some(installed@))),
        ]);
        m
    }

    /// What to do on some news, and the step after it.
    pub fn next(self, channel: &str, installed: &str, event: ShellTrayEvent) -> (m: ShellTrayMove)
        ensures
            (shell_tray_deeds(m.effects@), m.step@) == shell_tray_next(
                channel@,
                installed@,
                self@,
                event@,
            ),
    {
        let ghost expected = shell_tray_next(channel@, installed@, self@, event@).0;
        let m = match (self, event) {
            (ShellTrayStep::Resolve, ShellTrayEvent::Resolved(offer)) => {
                let report = ShellTrayEffect::Report(
                    check_shell_update(&offer, channel, installed),
                );
                let answer = check_for_update(&offer, channel, installed);
                if answer.confirm.is_some() {
                    shell_quiet(ShellTrayStep::Await { offer }).also(report).also(
                        ShellTrayEffect::Ask(answer),
                    )
                } else {
                    shell_quiet(ShellTrayStep::Finished).also(report).also(
                        ShellTrayEffect::Tell(answer),
                    )
                }
            },
            (ShellTrayStep::Await { offer }, ShellTrayEvent::Answered(yes)) => {
                match shell_confirmed(&offer, yes) {
                    Some(version) => shell_quiet(ShellTrayStep::Install { version }),
                    None => shell_quiet(ShellTrayStep::Finished),
                }
            },
            (ShellTrayStep::Install { .. }, ShellTrayEvent::Installed(error)) => {
                let next = match &error {
                    Some(error) => shell_replaced(Some(error.as_str())),
                    None => shell_replaced(None),
                };
                match next {
                    AfterReplace::Restart => shell_quiet(ShellTrayStep::Finished).also(
                        ShellTrayEffect::Restart,
                    ),
                    AfterReplace::Tell(dialog) => shell_quiet(ShellTrayStep::Finished).also(
                        ShellTrayEffect::Tell(dialog),
                    ),
                }
            },
            (step, _) => shell_quiet(step),
        };
        assert(shell_tray_deeds(m.effects@) =~= expected);
        m
    }
}

/// What a check of the shell has done after a row of news, and where it is then.
pub open spec fn shell_tray_run(
    channel: Seq<char>,
    installed: Seq<char>,
    news: Seq<ShellTrayNews>,
) -> (Seq<ShellTrayDeed>, ShellTrayStage)
    decreases news.len(),
{
    if news.len() == 0 {
        (
            seq![ShellTrayDeed::Report(checking(channel, Some(installed)))],
            ShellTrayStage::Resolve,
        )
    } else {
        let (done, stage) = shell_tray_run(channel, installed, news.drop_last());
        let (more, next) = shell_tray_next(channel, installed, stage, news.last());
        (done + more, next)
    }
}

/// What a check of the shell does up to the user's answer.
pub open spec fn shell_question(
    channel: Seq<char>,
    installed: Seq<char>,
    offer: ShellOffer,
) -> Seq<ShellTrayDeed> {
    let answer = shell_answer(offer, channel, installed);
    seq![
        ShellTrayDeed::Report(checking(channel, Some(installed))),
        ShellTrayDeed::Report(shell_reported(offer, channel, installed)),
        if shell_target(offer) is Some {
            ShellTrayDeed::Ask(answer)
        } else {
            ShellTrayDeed::Tell(answer)
        },
    ]
}

/// What follows the question: nothing without another version and an answer to go on;
/// else a restart when the install went well, and a dialog when it did not.
pub open spec fn shell_outcome(
    offer: ShellOffer,
    yes: bool,
    error: Option<Seq<char>>,
) -> Seq<ShellTrayDeed> {
    if yes && shell_target(offer) is Some {
        match error {
            None => seq![ShellTrayDeed::Restart],
            Some(error) => seq![ShellTrayDeed::Tell(replace_failed(error))],
        }
    } else {
        Seq::empty()
    }
}

/// A check of the shell asks its question; an install follows if and only if there is
/// another version and the user goes on, and it is that version; and then the check is
/// over, with a restart if and only if there was an install and it went well.
pub proof fn law_shell_check_comes_to_an_end(
    channel: Seq<char>,
    installed: Seq<char>,
    offer: ShellOffer,
    yes: bool,
    error: Option<Seq<char>>,
)
    ensures
        ({
            let resolved = ShellTrayNews::Resolved(offer);
            let answered = ShellTrayNews::Answered(yes);
            let ended = ShellTrayNews::Installed(error);
            let (asked, stage) = shell_tray_run(channel, installed, seq![resolved, answered]);
            &&& asked == shell_question(channel, installed, offer)
            &&& stage == match shell_target(offer) {
                Some(version) => if yes {
                    ShellTrayStage::Install { version }
                } else {
                    ShellTrayStage::Finished
                },
                None => ShellTrayStage::Finished,
            }
            &&& shell_tray_run(channel, installed, seq![resolved, answered, ended]) == (
                shell_question(channel, installed, offer) + shell_outcome(offer, yes, error),
                ShellTrayStage::Finished,
            )
        }),
{
    let resolved = ShellTrayNews::Resolved(offer);
    let answered = ShellTrayNews::Answered(yes);
    let ended = ShellTrayNews::Installed(error);
    let three = seq![resolved, answered, ended];
    let two = seq![resolved, answered];
    let one = seq![resolved];
    assert(three.drop_last() =~= two);
    assert(two.drop_last() =~= one);
    assert(one.drop_last() =~= Seq::<ShellTrayNews>::empty());
    assert(three.last() == ended && two.last() == answered && one.last() == resolved);
    let none = shell_tray_run(channel, installed, Seq::empty());
    assert(none.1 == ShellTrayStage::Resolve);
    let first = shell_tray_run(channel, installed, one);
    assert(first.0 =~= shell_question(channel, installed, offer));
    let second = shell_tray_run(channel, installed, two);
    assert(second.0 =~= shell_question(channel, installed, offer));
    assert(shell_tray_run(channel, installed, three).0 =~= shell_question(
        channel,
        installed,
        offer,
    ) + shell_outcome(offer, yes, error));
}

/// Whether a row of news has an offer of `version`, and then an answer to go on.
pub open spec fn consented(news: Seq<ShellTrayNews>, version: Seq<char>) -> bool {
    exists|j: int, k: int|
        0 <= j < k < news.len() && (#[trigger] news[j] matches ShellTrayNews::Resolved(offer)
            && shell_target(offer) == Some(version)) && #[trigger] news[k]
            == ShellTrayNews::Answered(true)
}

/// The shell is never replaced from the tray without consent: whatever happens, a version
/// is installed only after it was on offer, as another than the one that runs, and the
/// user then went on.
pub proof fn law_shell_installs_with_consent_only(
    channel: Seq<char>,
    installed: Seq<char>,
    news: Seq<ShellTrayNews>,
)
    ensures
        shell_tray_run(channel, installed, news).1 matches ShellTrayStage::Install { version }
            ==> consented(news, version),
        shell_tray_run(channel, installed, news).1 matches ShellTrayStage::Await { offer }
            ==> exists|j: int|
            0 <= j < news.len() && #[trigger] news[j] == ShellTrayNews::Resolved(offer),
    decreases news.len(),
{
    if news.len() > 0 {
        let fewer = news.drop_last();
        law_shell_installs_with_consent_only(channel, installed, fewer);
        let (done, stage) = shell_tray_run(channel, installed, fewer);
        let next = shell_tray_run(channel, installed, news).1;
        let last = news.len() - 1;
        assert(news[last] == news.last());
        if stage is Install && next is Install {
            let version = stage->version;
            let (j, k) = choose|j: int, k: int|
                0 <= j < k < fewer.len() && (#[trigger] fewer[j] matches ShellTrayNews::Resolved(
                    offer,
                ) && shell_target(offer) == Some(version)) && #[trigger] fewer[k]
                    == ShellTrayNews::Answered(true);
            assert(news[j] == fewer[j] && news[k] == fewer[k]);
        }
        if stage is Await {
            let offer = stage->offer;
            let j = choose|j: int|
                0 <= j < fewer.len() && #[trigger] fewer[j] == ShellTrayNews::Resolved(offer);
            assert(news[j] == fewer[j]);
            if next is Install {
                assert(news[last] == ShellTrayNews::Answered(true));
                assert(shell_target(offer) == Some(next->version));
            }
        }
    }
}

/// There is no restart without an install that went well, of a version that the user
/// agreed to.
pub proof fn law_restart_follows_an_install(
    channel: Seq<char>,
    installed: Seq<char>,
    news: Seq<ShellTrayNews>,
)
    ensures
        shell_tray_run(channel, installed, news).0.contains(ShellTrayDeed::Restart) ==> exists|
            k: int,
        |
            0 <= k < news.len() && #[trigger] news[k] == ShellTrayNews::Installed(None)
                && agreed_to_install(channel, installed, news.take(k)),
    decreases news.len(),
{
    if news.len() > 0 {
        let fewer = news.drop_last();
        law_restart_follows_an_install(channel, installed, fewer);
        let (done, stage) = shell_tray_run(channel, installed, fewer);
        let (more, next) = shell_tray_next(channel, installed, stage, news.last());
        let last = news.len() - 1;
        assert(news[last] == news.last());
        if (done + more).contains(ShellTrayDeed::Restart) {
            let i = choose|i: int|
                0 <= i < (done + more).len() && (done + more)[i] == ShellTrayDeed::Restart;
            if i < done.len() {
                assert(done[i] == ShellTrayDeed::Restart);
                assert(done.contains(ShellTrayDeed::Restart));
                let k = choose|k: int|
                    0 <= k < fewer.len() && #[trigger] fewer[k] == ShellTrayNews::Installed(None)
                        && agreed_to_install(channel, installed, fewer.take(k));
                assert(news[k] == fewer[k]);
                assert(news.take(k) =~= fewer.take(k));
            } else {
                assert(more[i - done.len()] == ShellTrayDeed::Restart);
                assert(stage is Install);
                assert(news.take(last) =~= fewer);
                law_shell_installs_with_consent_only(channel, installed, fewer);
                assert(agreed_to_install(channel, installed, fewer));
            }
        }
    } else {
        let first = shell_tray_run(channel, installed, news).0;
        assert(first.len() == 1 && first[0] is Report);
    }
}

/// Whether a check has come to the install of a version that the user agreed to.
pub open spec fn agreed_to_install(
    channel: Seq<char>,
    installed: Seq<char>,
    news: Seq<ShellTrayNews>,
) -> bool {
    shell_tray_run(channel, installed, news).1 matches ShellTrayStage::Install { version }
        && consented(news, version)
}

} // verus!
