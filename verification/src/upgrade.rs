//! Installing dsh, and moving it to what a channel points at.
use crate::channels::{channel_named, is_channel, normalize_channel};
use crate::check::{
    checked, report_dsh_version, report_of, Checked, VersionCheck, DSH_PACKAGE,
};
use crate::scan::{decimal, decimal_text};
use crate::status::{
    borrowed, line_status, saying, two_line_status, version_payload, CheckState, PageState,
    Reported, Shown, Status, VersionReport,
};
use crate::text::{cat2, cat3, cat4, cat5, opt_str, opt_text, version_char};
use crate::version::VersionRelation;
use crate::version_laws::law_found_version_is_plain;
use vstd::prelude::*;

verus! {

// ---------------------------------------------------------------- what is asked for

/// The channel to move to: the one that the page asks for, else the one followed.
pub open spec fn channel_to_move_to(asked: Option<Seq<char>>, followed: Seq<char>) -> Seq<char> {
    match asked {
        Some(asked) => channel_named(asked),
        None => followed,
    }
}

/// The channel to move to: the one that the page asks for, else the one followed.
pub fn upgrade_dsh(asked: Option<&str>, followed: &'static str) -> (channel: &'static str)
    requires
        is_channel(followed@),
    ensures
        channel@ == match asked {
            Some(asked) => channel_named(asked@),
            None => followed@,
        },
        channel@ == channel_to_move_to(opt_str(asked), followed@),
        is_channel(channel@),
{
    match asked {
        Some(asked) => normalize_channel(asked),
        None => followed,
    }
}

/// The report of a check that begins.
pub open spec fn checking(channel: Seq<char>, installed: Option<Seq<char>>) -> Reported {
    Reported { state: CheckState::Checking, channel, installed, target: None, reason: None }
}

pub fn checking_report(channel: &str, installed: Option<&str>) -> (report: VersionReport)
    ensures
        report@ == checking(channel@, opt_str(installed)),
{
    version_payload(CheckState::Checking, channel, installed, None, None)
}

/// The report of an update that begins: the versions that the page has already, so that
/// they do not vanish and come back.
pub open spec fn resolving(
    channel: Seq<char>,
    installed: Option<Seq<char>>,
    target: Option<Seq<char>>,
) -> Reported {
    Reported { state: CheckState::Resolving, channel, installed, target, reason: None }
}

/// The report of an update on `channel` that begins after the report `last`.
pub open spec fn resolving_after(channel: Seq<char>, last: Reported) -> Reported {
    resolving(channel, last.installed, last.target)
}

/// The report of a dsh update that begins; `last` is the last report.
pub fn resolving_report(channel: &str, last: &VersionReport) -> (report: VersionReport)
    ensures
        report@ == resolving(channel@, last@.installed, last@.target),
        report@ == resolving_after(channel@, last@),
{
    version_payload(
        CheckState::Resolving,
        channel,
        borrowed(&last.installed),
        borrowed(&last.target),
        None,
    )
}

// ---------------------------------------------------------------- what is installed

/// What npm is told to install: exactly the version that was resolved, and no tag, which
/// may have moved since.
pub open spec fn package_at(target: Seq<char>) -> Seq<char> {
    DSH_PACKAGE@ + "@"@ + target
}

pub fn package_spec(target: &str) -> (package: String)
    ensures
        package@ == package_at(target@),
{
    cat3(DSH_PACKAGE, "@", target)
}

/// What npm is told to install ends in the whole target: the package, one `@`, and then
/// every character of the target. So two targets are never told alike.
pub proof fn law_whole_target_is_installed(target: Seq<char>, other: Seq<char>)
    ensures
        package_at(target).len() == DSH_PACKAGE@.len() + 1 + target.len(),
        package_at(target).take(DSH_PACKAGE@.len() as int) == DSH_PACKAGE@,
        package_at(target)[DSH_PACKAGE@.len() as int] == '@',
        package_at(target).skip(package_at(target).len() - target.len()) == target,
        package_at(target) == package_at(other) ==> target == other,
{
    reveal_strlit("@");
    let n = DSH_PACKAGE@.len() as int;
    assert(package_at(target).take(n) =~= DSH_PACKAGE@);
    assert(package_at(target).skip(n + 1) =~= target);
    assert(package_at(other).skip(n + 1) =~= other);
}

/// The version that a check compares with is one that stands in plain characters only,
/// whatever the registry says, and so is what npm is told to install.
pub proof fn law_target_is_plain(
    channel: Seq<char>,
    has_dsh: bool,
    version_output: Option<Seq<char>>,
    has_npm: bool,
    tags_output: Option<Seq<char>>,
    i: int,
)
    requires
        checked(channel, has_dsh, version_output, has_npm, tags_output) is Compared,
    ensures
        ({
            let check = checked(channel, has_dsh, version_output, has_npm, tags_output);
            &&& 0 <= i < check->Compared_target.len() ==> version_char(check->Compared_target[i])
            &&& 0 <= i < check->Compared_installed.len() ==> version_char(
                check->Compared_installed[i],
            )
        }),
{
    let output = version_output->0;
    law_found_version_is_plain(output);
    let tags = crate::check::tags_printed(tags_output)->0;
    let raw = crate::json::text_field(tags, channel)->0;
    law_found_version_is_plain(raw);
}

// ---------------------------------------------------------------- moving to a version

/// A move from one version to another.
#[derive(Debug)]
pub struct Plan {
    pub installed: String,
    pub target: String,
    /// Whether the target is the older one.
    pub down: bool,
}

/// What a plan is.
pub struct Planned {
    pub installed: Seq<char>,
    pub target: Seq<char>,
    pub down: bool,
}

impl View for Plan {
    type V = Planned;

    open spec fn view(&self) -> Planned {
        Planned { installed: self.installed@, target: self.target@, down: self.down }
    }
}

/// What to do next in an upgrade, and report back.
#[derive(Debug)]
pub enum UpgradeStep {
    /// Check what the channel points at.
    Resolve,
    /// See whether the backend that serves is owned.
    AskOwner(Plan),
    /// Probe for a `dsh web` of somebody else.
    Probe(Plan),
    /// Back dsh's home up.
    BackUp(Plan),
    /// Install the target.
    Install(Plan),
    /// Check again, on the channel that is followed.
    Recheck(Plan),
    /// Nothing more.
    Finished,
}

/// What came of a backup.
#[derive(Debug)]
pub enum Backup {
    /// There was nothing to back up.
    Nothing,
    Copied { home: String, dest: String },
    Failed { home: String, error: String },
}

/// What came of a step.
#[derive(Debug)]
pub enum UpgradeEvent {
    /// What the check found, the channel that is followed, and whether the GUI is up.
    Resolved { check: VersionCheck, followed: String, gui_up: bool },
    /// Whether the backend is owned.
    Owner { ours: bool },
    /// Whether a `dsh web` serves on the port that was probed.
    Probed { serving: bool, port: u16 },
    BackedUp(Backup),
    /// The error, if the install failed.
    Installed(Option<String>),
    /// What the second check found, and the channel that is followed.
    Rechecked { check: VersionCheck, followed: String },
}

/// What to do before the next step.
#[derive(Debug)]
pub enum UpgradeEffect {
    /// Report a version to the page.
    Report(VersionReport),
    /// Show a status on the page.
    Show(Status),
    /// Add a line to the page's log.
    Log(String),
    /// Give up the backend that is owned, if there is one.
    Retire,
    /// Drop the task board's lock, if it is stale.
    ClearLock,
    /// Boot.
    Boot,
}

/// A step in an upgrade.
pub enum UpgradeStage {
    Resolve,
    AskOwner(Planned),
    Probe(Planned),
    BackUp(Planned),
    Install(Planned),
    Recheck(Planned),
    Finished,
}

/// What came of a backup.
#[allow(inconsistent_fields)]
pub enum BackupNews {
    Nothing,
    Copied { home: Seq<char>, dest: Seq<char> },
    Failed { home: Seq<char>, error: Seq<char> },
}

/// What came of a step.
#[allow(inconsistent_fields)]
pub enum UpgradeNews {
    Resolved { check: Checked, followed: Seq<char>, gui_up: bool },
    Owner { ours: bool },
    Probed { serving: bool, port: u16 },
    BackedUp(BackupNews),
    Installed(Option<Seq<char>>),
    Rechecked { check: Checked, followed: Seq<char> },
}

/// What an upgrade does.
pub enum UpgradeDeed {
    Report(Reported),
    Show(Shown),
    Log(Seq<char>),
    Retire,
    ClearLock,
    Boot,
}

impl View for UpgradeStep {
    type V = UpgradeStage;

    open spec fn view(&self) -> UpgradeStage {
        match self {
            UpgradeStep::Resolve => UpgradeStage::Resolve,
            UpgradeStep::AskOwner(plan) => UpgradeStage::AskOwner(plan@),
            UpgradeStep::Probe(plan) => UpgradeStage::Probe(plan@),
            UpgradeStep::BackUp(plan) => UpgradeStage::BackUp(plan@),
            UpgradeStep::Install(plan) => UpgradeStage::Install(plan@),
            UpgradeStep::Recheck(plan) => UpgradeStage::Recheck(plan@),
            UpgradeStep::Finished => UpgradeStage::Finished,
        }
    }
}

impl View for Backup {
    type V = BackupNews;

    open spec fn view(&self) -> BackupNews {
        match self {
            Backup::Nothing => BackupNews::Nothing,
            Backup::Copied { home, dest } => BackupNews::Copied { home: home@, dest: dest@ },
            Backup::Failed { home, error } => BackupNews::Failed { home: home@, error: error@ },
        }
    }
}

impl View for UpgradeEvent {
    type V = UpgradeNews;

    open spec fn view(&self) -> UpgradeNews {
        match self {
            UpgradeEvent::Resolved { check, followed, gui_up } => UpgradeNews::Resolved {
                check: check@,
                followed: followed@,
                gui_up: *gui_up,
            },
            UpgradeEvent::Owner { ours } => UpgradeNews::Owner { ours: *ours },
            UpgradeEvent::Probed { serving, port } => UpgradeNews::Probed {
                serving: *serving,
                port: *port,
            },
            UpgradeEvent::BackedUp(backup) => UpgradeNews::BackedUp(backup@),
            UpgradeEvent::Installed(error) => UpgradeNews::Installed(opt_text(*error)),
            UpgradeEvent::Rechecked { check, followed } => UpgradeNews::Rechecked {
                check: check@,
                followed: followed@,
            },
        }
    }
}

impl View for UpgradeEffect {
    type V = UpgradeDeed;

    open spec fn view(&self) -> UpgradeDeed {
        match self {
            UpgradeEffect::Report(report) => UpgradeDeed::Report(report@),
            UpgradeEffect::Show(status) => UpgradeDeed::Show(status@),
            UpgradeEffect::Log(line) => UpgradeDeed::Log(line@),
            UpgradeEffect::Retire => UpgradeDeed::Retire,
            UpgradeEffect::ClearLock => UpgradeDeed::ClearLock,
            UpgradeEffect::Boot => UpgradeDeed::Boot,
        }
    }
}

/// What a row of effects does.
pub open spec fn upgrade_deeds(effects: Seq<UpgradeEffect>) -> Seq<UpgradeDeed> {
    effects.map_values(|e: UpgradeEffect| e@)
}

/// Why there is nothing to install. Only a check that compared two versions has a
/// target.
pub open spec fn no_target(check: Checked) -> Seq<char> {
    match check {
        Checked::ChannelEmpty { channel, .. } => DSH_PACKAGE@ + " 的 "@ + channel
            + " 通道还没有发布过版本，没有可安装的目标。"@,
        Checked::NotInstalled => "本机还没有安装 dsh。"@,
        Checked::Failed { reason, .. } => reason,
        Checked::Compared { .. } => Seq::empty(),
    }
}

/// What is said of a `dsh web` of somebody else that holds the files to be replaced.
pub open spec fn held_by_another(port: u16) -> Shown {
    saying(
        PageState::Error,
        "另一个 `dsh web` 正在运行（端口 "@ + decimal(port as nat)
            + "），它占用着要被替换的文件。请先关掉它，再回来更新。"@,
    )
}

/// What is said while the target is installed.
pub open spec fn installing(plan: Planned) -> Shown {
    Shown {
        state: PageState::Installing,
        detail: seq![
            if plan.down {
                "正在把 dsh 回退到 "@ + plan.target
            } else {
                "正在把 dsh 更新到 "@ + plan.target
            },
            "装完会自动重新启动，稍等一下~"@,
        ],
    }
}

/// What is said when the backup failed, and with it the downgrade.
pub open spec fn backup_failed(home: Seq<char>, error: Seq<char>, target: Seq<char>) -> Shown {
    saying(
        PageState::Error,
        "回退前备份 "@ + home + " 失败，已中止："@ + error
            + "\n手动备份后再试，或直接执行 npm i -g "@ + package_at(target) + "。"@,
    )
}

/// What is said once the target is installed.
pub open spec fn moved(plan: Planned) -> Shown {
    saying(
        PageState::Booting,
        if plan.down {
            "回退完成，正在启动…"@
        } else {
            "更新完成，正在启动…"@
        },
    )
}

/// The start of an install: the backend lets go of the files before npm touches them,
/// and a downgrade, which may meet state that it does not understand, is backed up.
pub open spec fn begun(plan: Planned) -> (Seq<UpgradeDeed>, UpgradeStage) {
    (
        seq![UpgradeDeed::Show(installing(plan)), UpgradeDeed::Retire, UpgradeDeed::ClearLock],
        if plan.down {
            UpgradeStage::BackUp(plan)
        } else {
            UpgradeStage::Install(plan)
        },
    )
}

/// What to do once the check is done.
pub open spec fn target_resolved(check: Checked, followed: Seq<char>, gui_up: bool) -> (
    Seq<UpgradeDeed>,
    UpgradeStage,
) {
    let report = UpgradeDeed::Report(report_of(check, followed));
    match check {
        Checked::Compared { installed, target, relation, .. } => (
            seq![report],
            if relation == VersionRelation::Same {
                UpgradeStage::Finished
            } else {
                UpgradeStage::AskOwner(
                    Planned { installed, target, down: relation == VersionRelation::Older },
                )
            },
        ),
        _ => if gui_up {
            (seq![report], UpgradeStage::Finished)
        } else {
            (
                seq![report, UpgradeDeed::Show(saying(PageState::Error, no_target(check)))],
                UpgradeStage::Finished,
            )
        },
    }
}

/// What to do on some news, and the step after it. News that a step does not wait for
/// changes nothing.
pub open spec fn upgrade_next(stage: UpgradeStage, news: UpgradeNews) -> (
    Seq<UpgradeDeed>,
    UpgradeStage,
) {
    match (stage, news) {
        (UpgradeStage::Resolve, UpgradeNews::Resolved { check, followed, gui_up }) => {
            target_resolved(check, followed, gui_up)
        },
        (UpgradeStage::AskOwner(plan), UpgradeNews::Owner { ours }) => if ours {
            begun(plan)
        } else {
            (Seq::empty(), UpgradeStage::Probe(plan))
        },
        (UpgradeStage::Probe(plan), UpgradeNews::Probed { serving, port }) => if serving {
            (seq![UpgradeDeed::Show(held_by_another(port))], UpgradeStage::Finished)
        } else {
            begun(plan)
        },
        (UpgradeStage::BackUp(plan), UpgradeNews::BackedUp(backup)) => match backup {
            BackupNews::Nothing => (Seq::empty(), UpgradeStage::Install(plan)),
            BackupNews::Copied { home, dest } => (
                seq![UpgradeDeed::Log("已备份 "@ + home + " → "@ + dest)],
                UpgradeStage::Install(plan),
            ),
            BackupNews::Failed { home, error } => (
                seq![UpgradeDeed::Show(backup_failed(home, error, plan.target))],
                UpgradeStage::Finished,
            ),
        },
        (UpgradeStage::Install(plan), UpgradeNews::Installed(error)) => match error {
            None => (Seq::empty(), UpgradeStage::Recheck(plan)),
            Some(detail) => (
                seq![UpgradeDeed::Show(saying(PageState::Error, detail))],
                UpgradeStage::Finished,
            ),
        },
        (UpgradeStage::Recheck(plan), UpgradeNews::Rechecked { check, followed }) => (
            seq![
                UpgradeDeed::Report(report_of(check, followed)),
                UpgradeDeed::Show(moved(plan)),
                UpgradeDeed::Boot,
            ],
            UpgradeStage::Finished,
        ),
        _ => (Seq::empty(), stage),
    }
}

/// What to do, in order, and then the next step.
#[derive(Debug)]
pub struct UpgradeMove {
    pub effects: Vec<UpgradeEffect>,
    pub step: UpgradeStep,
}

fn quiet(step: UpgradeStep) -> (m: UpgradeMove)
    ensures
        upgrade_deeds(m.effects@) == Seq::<UpgradeDeed>::empty(),
        m.step == step,
{
    let effects: Vec<UpgradeEffect> = Vec::new();
    assert(upgrade_deeds(effects@) =~= Seq::<UpgradeDeed>::empty());
    UpgradeMove { effects, step }
}

impl UpgradeMove {
    fn also(self, effect: UpgradeEffect) -> (m: UpgradeMove)
        ensures
            upgrade_deeds(m.effects@) == upgrade_deeds(self.effects@).push(effect@),
            m.step == self.step,
    {
        let mut effects = self.effects;
        let ghost before = effects@;
        effects.push(effect);
        assert(upgrade_deeds(effects@) =~= upgrade_deeds(before).push(effect@));
        UpgradeMove { effects, step: self.step }
    }
}

fn begin_install(plan: Plan) -> (m: UpgradeMove)
    ensures
        (upgrade_deeds(m.effects@), m.step@) == begun(plan@),
{
    let headline = if plan.down {
        cat2("正在把 dsh 回退到 ", plan.target.as_str())
    } else {
        cat2("正在把 dsh 更新到 ", plan.target.as_str())
    };
    let status = two_line_status(
        PageState::Installing,
        headline,
        "装完会自动重新启动，稍等一下~".to_string(),
    );
    let ghost expected = begun(plan@).0;
    let step = if plan.down {
        UpgradeStep::BackUp(plan)
    } else {
        UpgradeStep::Install(plan)
    };
    let m = quiet(step).also(UpgradeEffect::Show(status)).also(UpgradeEffect::Retire).also(
        UpgradeEffect::ClearLock,
    );
    assert(upgrade_deeds(m.effects@) =~= expected);
    m
}

/// Why there is nothing to install.
fn no_target_detail(check: &VersionCheck) -> (detail: String)
    ensures
        detail@ == no_target(check@),
{
    match check {
        VersionCheck::ChannelEmpty { channel, .. } => cat4(
            DSH_PACKAGE,
            " 的 ",
            channel,
            " 通道还没有发布过版本，没有可安装的目标。",
        ),
        VersionCheck::NotInstalled => "本机还没有安装 dsh。".to_string(),
        VersionCheck::Failed { reason, .. } => reason.as_str().to_string(),
        VersionCheck::Compared { .. } => String::new(),
    }
}

fn after_check(check: VersionCheck, followed: &str, gui_up: bool) -> (m: UpgradeMove)
    ensures
        (upgrade_deeds(m.effects@), m.step@) == target_resolved(check@, followed@, gui_up),
{
    let ghost expected = target_resolved(check@, followed@, gui_up).0;
    let report = UpgradeEffect::Report(report_dsh_version(&check, followed));
    let detail = no_target_detail(&check);
    let m = match check {
        VersionCheck::Compared { installed, target, relation, .. } => {
            let step = match relation {
                VersionRelation::Same => UpgradeStep::Finished,
                VersionRelation::Newer => UpgradeStep::AskOwner(
                    Plan { installed, target, down: false },
                ),
                VersionRelation::Older => UpgradeStep::AskOwner(
                    Plan { installed, target, down: true },
                ),
            };
            quiet(step).also(report)
        },
        _ => if gui_up {
            quiet(UpgradeStep::Finished).also(report)
        } else {
            quiet(UpgradeStep::Finished).also(report).also(
                UpgradeEffect::Show(line_status(PageState::Error, detail)),
            )
        },
    };
    assert(upgrade_deeds(m.effects@) =~= expected);
    m
}

fn backup_failed_status(home: &str, error: &str, target: &str) -> (status: Status)
    ensures
        status@ == backup_failed(home@, error@, target@),
{
    let start = cat5(
        "回退前备份 ",
        home,
        " 失败，已中止：",
        error,
        "\n手动备份后再试，或直接执行 npm i -g ",
    );
    line_status(
        PageState::Error,
        cat3(start.as_str(), package_spec(target).as_str(), "。"),
    )
}

/// The first step of an upgrade to what `channel` points at. It is reported before any
/// of it is done, because finding the target takes seconds; `last` is the last report.
pub fn upgrade_dsh_to(channel: &str, last: &VersionReport) -> (m: UpgradeMove)
    ensures
        upgrade_deeds(m.effects@) == seq![
            UpgradeDeed::Report(resolving(channel@, last@.installed, last@.target)),
        ],
        upgrade_deeds(m.effects@) == seq![UpgradeDeed::Report(resolving_after(channel@, last@))],
        m.step@ == UpgradeStage::Resolve,
{
    let m = quiet(UpgradeStep::Resolve).also(
        UpgradeEffect::Report(resolving_report(channel, last)),
    );
    assert(upgrade_deeds(m.effects@) =~= seq![
        UpgradeDeed::Report(resolving(channel@, last@.installed, last@.target)),
    ]);
    m
}

impl UpgradeStep {
    /// What to do on some news, and the step after it.
    pub fn upgrade_dsh_now(self, event: UpgradeEvent) -> (m: UpgradeMove)
        ensures
            (upgrade_deeds(m.effects@), m.step@) == upgrade_next(self@, event@),
    {
        let ghost expected = upgrade_next(self@, event@).0;
        let m = match (self, event) {
            (UpgradeStep::Resolve, UpgradeEvent::Resolved { check, followed, gui_up }) => {
                after_check(check, followed.as_str(), gui_up)
            },
            (UpgradeStep::AskOwner(plan), UpgradeEvent::Owner { ours }) => if ours {
                begin_install(plan)
            } else {
                quiet(UpgradeStep::Probe(plan))
            },
            (UpgradeStep::Probe(plan), UpgradeEvent::Probed { serving, port }) => if serving {
                let line = cat3(
                    "另一个 `dsh web` 正在运行（端口 ",
                    decimal_text(port as u64).as_str(),
                    "），它占用着要被替换的文件。请先关掉它，再回来更新。",
                );
                quiet(UpgradeStep::Finished).also(
                    UpgradeEffect::Show(line_status(PageState::Error, line)),
                )
            } else {
                begin_install(plan)
            },
            (UpgradeStep::BackUp(plan), UpgradeEvent::BackedUp(backup)) => match backup {
                Backup::Nothing => quiet(UpgradeStep::Install(plan)),
                Backup::Copied { home, dest } => quiet(UpgradeStep::Install(plan)).also(
                    UpgradeEffect::Log(cat4("已备份 ", home.as_str(), " → ", dest.as_str())),
                ),
                Backup::Failed { home, error } => quiet(UpgradeStep::Finished).also(
                    UpgradeEffect::Show(
                        backup_failed_status(home.as_str(), error.as_str(), plan.target.as_str()),
                    ),
                ),
            },
            (UpgradeStep::Install(plan), UpgradeEvent::Installed(error)) => match error {
                None => quiet(UpgradeStep::Recheck(plan)),
                Some(detail) => quiet(UpgradeStep::Finished).also(
                    UpgradeEffect::Show(line_status(PageState::Error, detail)),
                ),
            },
            (UpgradeStep::Recheck(plan), UpgradeEvent::Rechecked { check, followed }) => {
                let line = if plan.down {
                    "回退完成，正在启动…".to_string()
                } else {
                    "更新完成，正在启动…".to_string()
                };
                quiet(UpgradeStep::Finished).also(
                    UpgradeEffect::Report(report_dsh_version(&check, followed.as_str())),
                ).also(UpgradeEffect::Show(line_status(PageState::Booting, line))).also(
                    UpgradeEffect::Boot,
                )
            },
            (step, _) => quiet(step),
        };
        assert(upgrade_deeds(m.effects@) =~= expected);
        m
    }
}

// ---------------------------------------------------------------- laws of an upgrade

/// What an upgrade has done after a row of news, and where it is then.
pub open spec fn upgrade_run(news: Seq<UpgradeNews>) -> (Seq<UpgradeDeed>, UpgradeStage)
    decreases news.len(),
{
    if news.len() == 0 {
        (Seq::empty(), UpgradeStage::Resolve)
    } else {
        let (done, stage) = upgrade_run(news.drop_last());
        let (more, next) = upgrade_next(stage, news.last());
        (done + more, next)
    }
}

/// The plan that a stage works on.
pub open spec fn plan_of(stage: UpgradeStage) -> Option<Planned> {
    match stage {
        UpgradeStage::AskOwner(plan) => Some(plan),
        UpgradeStage::Probe(plan) => Some(plan),
        UpgradeStage::BackUp(plan) => Some(plan),
        UpgradeStage::Install(plan) => Some(plan),
        UpgradeStage::Recheck(plan) => Some(plan),
        _ => None,
    }
}

/// Whether a stage comes after the start of the install.
pub open spec fn under_way(stage: UpgradeStage) -> bool {
    stage is BackUp || stage is Install || stage is Recheck
}

/// Whether some news is a check that asks for `plan`.
pub open spec fn asks_for(news: UpgradeNews, plan: Planned) -> bool {
    news matches UpgradeNews::Resolved { check: Checked::Compared { installed, target, relation, .. }, .. }
        && relation != VersionRelation::Same && plan == (Planned {
        installed,
        target,
        down: relation == VersionRelation::Older,
    })
}

/// Whether some news is a backup that did not fail.
pub open spec fn backed_up(news: UpgradeNews) -> bool {
    news matches UpgradeNews::BackedUp(backup) && !(backup is Failed)
}

proof fn lemma_contains_in_sum(a: Seq<UpgradeDeed>, b: Seq<UpgradeDeed>, deed: UpgradeDeed)
    ensures
        (a + b).contains(deed) <==> a.contains(deed) || b.contains(deed),
{
    if a.contains(deed) {
        let i = choose|i: int| 0 <= i < a.len() && a[i] == deed;
        assert((a + b)[i] == deed);
    }
    if b.contains(deed) {
        let i = choose|i: int| 0 <= i < b.len() && b[i] == deed;
        assert((a + b)[a.len() + i] == deed);
    }
}

proof fn lemma_begun(plan: Planned)
    ensures
        begun(plan).0.contains(UpgradeDeed::Retire),
        begun(plan).0.contains(UpgradeDeed::ClearLock),
        !begun(plan).0.contains(UpgradeDeed::Boot),
{
    assert(begun(plan).0[1] == UpgradeDeed::Retire);
    assert(begun(plan).0[2] == UpgradeDeed::ClearLock);
}

/// npm never touches files that the backend has open: whatever happens, by the time
/// that anything is backed up or installed the backend was given up and its lock
/// cleared.
pub proof fn law_backend_lets_go_first(news: Seq<UpgradeNews>)
    ensures
        under_way(upgrade_run(news).1) ==> upgrade_run(news).0.contains(UpgradeDeed::Retire)
            && upgrade_run(news).0.contains(UpgradeDeed::ClearLock),
    decreases news.len(),
{
    if news.len() > 0 {
        law_backend_lets_go_first(news.drop_last());
        let (done, stage) = upgrade_run(news.drop_last());
        let (more, next) = upgrade_next(stage, news.last());
        lemma_contains_in_sum(done, more, UpgradeDeed::Retire);
        lemma_contains_in_sum(done, more, UpgradeDeed::ClearLock);
        if plan_of(stage) is Some {
            lemma_begun(plan_of(stage)->0);
        }
    }
}

/// Until it is known that no one else's backend is served, nothing is given up, no lock
/// is cleared, and nothing boots.
proof fn lemma_quiet_so_far(news: Seq<UpgradeNews>)
    ensures
        ({
            let (done, stage) = upgrade_run(news);
            &&& stage is Resolve || stage is AskOwner || stage is Probe ==> !done.contains(
                UpgradeDeed::Retire,
            ) && !done.contains(UpgradeDeed::ClearLock)
            &&& !(stage is Finished) ==> !done.contains(UpgradeDeed::Boot)
        }),
    decreases news.len(),
{
    if news.len() > 0 {
        lemma_quiet_so_far(news.drop_last());
        let (done, stage) = upgrade_run(news.drop_last());
        let (more, next) = upgrade_next(stage, news.last());
        lemma_contains_in_sum(done, more, UpgradeDeed::Retire);
        lemma_contains_in_sum(done, more, UpgradeDeed::ClearLock);
        lemma_contains_in_sum(done, more, UpgradeDeed::Boot);
        if plan_of(stage) is Some {
            lemma_begun(plan_of(stage)->0);
        }
    }
}

/// A backend of somebody else is left alone: once the probe finds one, the upgrade is
/// over, and it has neither given a backend up nor cleared a lock nor booted, nor will it.
pub proof fn law_foreign_backend_is_left_alone(
    news: Seq<UpgradeNews>,
    port: u16,
    later: UpgradeNews,
)
    requires
        upgrade_run(news).1 is Probe,
    ensures
        ({
            let (done, stage) = upgrade_run(news.push(UpgradeNews::Probed { serving: true, port }));
            &&& stage == UpgradeStage::Finished
            &&& !done.contains(UpgradeDeed::Retire)
            &&& !done.contains(UpgradeDeed::ClearLock)
            &&& !done.contains(UpgradeDeed::Boot)
            &&& upgrade_next(stage, later) == (Seq::<UpgradeDeed>::empty(), UpgradeStage::Finished)
        }),
{
    lemma_quiet_so_far(news);
    let all = news.push(UpgradeNews::Probed { serving: true, port });
    assert(all.drop_last() =~= news);
    let (done, stage) = upgrade_run(news);
    let (more, next) = upgrade_next(stage, all.last());
    lemma_contains_in_sum(done, more, UpgradeDeed::Retire);
    lemma_contains_in_sum(done, more, UpgradeDeed::ClearLock);
    lemma_contains_in_sum(done, more, UpgradeDeed::Boot);
}

/// What is installed is what a check asked for: the plan is always that of a check that
/// compared two versions and found them different.
pub proof fn law_plan_comes_from_a_check(news: Seq<UpgradeNews>)
    ensures
        plan_of(upgrade_run(news).1) matches Some(plan) ==> exists|k: int|
            0 <= k < news.len() && asks_for(#[trigger] news[k], plan),
    decreases news.len(),
{
    if news.len() > 0 {
        law_plan_comes_from_a_check(news.drop_last());
        let (done, stage) = upgrade_run(news.drop_last());
        if plan_of(upgrade_run(news).1) is Some {
            let plan = plan_of(upgrade_run(news).1)->0;
            if plan_of(stage) is Some {
                assert(plan_of(stage) == Some(plan));
                let k = choose|k: int|
                    0 <= k < news.drop_last().len() && asks_for(
                        #[trigger] news.drop_last()[k],
                        plan,
                    );
                assert(news[k] == news.drop_last()[k]);
            } else {
                assert(asks_for(news[news.len() - 1], plan));
            }
        }
    }
}

/// There is no downgrade without a backup: an older version is installed only after one
/// that did not fail.
pub proof fn law_downgrade_is_backed_up(news: Seq<UpgradeNews>)
    ensures
        (upgrade_run(news).1 is Install || upgrade_run(news).1 is Recheck) && plan_of(
            upgrade_run(news).1,
        )->0.down ==> exists|k: int| 0 <= k < news.len() && backed_up(#[trigger] news[k]),
    decreases news.len(),
{
    if news.len() > 0 {
        law_downgrade_is_backed_up(news.drop_last());
        let (done, stage) = upgrade_run(news.drop_last());
        let next = upgrade_run(news).1;
        if (next is Install || next is Recheck) && plan_of(next)->0.down {
            if stage is BackUp {
                assert(backed_up(news[news.len() - 1]));
            } else {
                let k = choose|k: int|
                    0 <= k < news.drop_last().len() && backed_up(#[trigger] news.drop_last()[k]);
                assert(news[k] == news.drop_last()[k]);
            }
        }
    }
}

/// An upgrade boots only at its end, after an install that did not fail.
pub proof fn law_boot_follows_an_install(news: Seq<UpgradeNews>)
    ensures
        upgrade_run(news).0.contains(UpgradeDeed::Boot) || upgrade_run(news).1 is Recheck
            ==> exists|k: int|
            0 <= k < news.len() && #[trigger] news[k] == UpgradeNews::Installed(None),
    decreases news.len(),
{
    if news.len() > 0 {
        law_boot_follows_an_install(news.drop_last());
        let (done, stage) = upgrade_run(news.drop_last());
        let (more, next) = upgrade_next(stage, news.last());
        lemma_contains_in_sum(done, more, UpgradeDeed::Boot);
        if plan_of(stage) is Some {
            lemma_begun(plan_of(stage)->0);
        }
        if done.contains(UpgradeDeed::Boot) || stage is Recheck {
            let k = choose|k: int|
                0 <= k < news.drop_last().len() && #[trigger] news.drop_last()[k]
                    == UpgradeNews::Installed(None);
            assert(news[k] == news.drop_last()[k]);
        } else if next is Recheck {
            assert(news[news.len() - 1] == UpgradeNews::Installed(None));
        }
    }
}

/// A GUI that is up is not taken over to say that there is nothing to install.
pub proof fn law_failed_check_spares_the_gui(check: Checked, followed: Seq<char>)
    ensures
        !(check is Compared) ==> target_resolved(check, followed, true) == (
            seq![UpgradeDeed::Report(report_of(check, followed))],
            UpgradeStage::Finished,
        ),
{
}

// ---------------------------------------------------------------- the first install

/// What is said when the package is there and the command is not.
pub open spec fn still_missing() -> Seq<char> {
    DSH_PACKAGE@
        + " 安装完成，但 PATH 中仍找不到 `dsh` 命令。请重开一次应用；若仍不行，检查 npm 全局目录（npm prefix）是否在 PATH 中。"@
}

/// What follows a first install.
#[derive(Debug)]
pub struct AfterInstall {
    pub status: Status,
    pub boot: bool,
}

/// What is shown after a first install.
pub open spec fn install_told(error: Option<Seq<char>>, has_dsh: bool) -> Shown {
    match error {
        Some(detail) => saying(PageState::Error, detail),
        None => if has_dsh {
            saying(PageState::Booting, "安装完成，正在启动…"@)
        } else {
            saying(PageState::Error, still_missing())
        },
    }
}

/// What follows a first install: `error` is that of npm, if it failed, and `has_dsh`
/// says whether the command is on the path now.
pub fn install_dsh(error: Option<String>, has_dsh: bool) -> (after: AfterInstall)
    ensures
        after.status@ == install_told(opt_text(error), has_dsh),
        after.status@ == match error {
            Some(detail) => saying(PageState::Error, detail@),
            None => if has_dsh {
                saying(PageState::Booting, "安装完成，正在启动…"@)
            } else {
                saying(PageState::Error, still_missing())
            },
        },
        after.boot == (error is None && has_dsh),
{
    match error {
        Some(detail) => AfterInstall { status: line_status(PageState::Error, detail), boot: false },
        None => if has_dsh {
            AfterInstall {
                status: line_status(PageState::Booting, "安装完成，正在启动…".to_string()),
                boot: true,
            }
        } else {
            let line = cat2(
                DSH_PACKAGE,
                " 安装完成，但 PATH 中仍找不到 `dsh` 命令。请重开一次应用；若仍不行，检查 npm 全局目录（npm prefix）是否在 PATH 中。",
            );
            AfterInstall { status: line_status(PageState::Error, line), boot: false }
        },
    }
}

} // verus!
