//! What an upgrade says and does, over what it is told.
use crate::channels::channel_named;
use crate::check::{report_of, Checked, DSH_PACKAGE};
use crate::scan::{decimal, has_part, numeral, value};
use crate::scan_laws::{
    begins, ends_in, law_decimal_has_no_zero_in_front, law_endings, law_parts_are_found,
};
use crate::status::{CheckState, PageState, Reported};
use crate::upgrade::{
    backup_failed, channel_to_move_to, checking, held_by_another, install_told, installing,
    no_target, package_at, resolving, resolving_after, still_missing, upgrade_next, upgrade_run,
    BackupNews, Planned, UpgradeDeed, UpgradeNews, UpgradeStage,
};
use crate::version::VersionRelation;
use vstd::prelude::*;

verus! {

// ---------------------------------------------------------------- what is said

/// The version that is being installed is told whole, at the end of the first line.
pub proof fn law_target_is_told_whole(plan: Planned)
    ensures
        installing(plan).state == PageState::Installing,
        installing(plan).detail.len() == 2,
        ends_in(installing(plan).detail[0], plan.target),
{
    law_endings("正在把 dsh 回退到 "@, plan.target);
    law_endings("正在把 dsh 更新到 "@, plan.target);
}

/// The port of a backend that is in the way is told, as the number that it is.
pub proof fn law_port_in_the_way_is_told(port: u16)
    ensures
        held_by_another(port).state == PageState::Error,
        held_by_another(port).detail.len() == 1,
        has_part(held_by_another(port).detail[0], decimal(port as nat)),
        numeral(decimal(port as nat)) && value(decimal(port as nat)) == port,
{
    law_decimal_has_no_zero_in_front(port as nat);
    law_parts_are_found(
        "另一个 `dsh web` 正在运行（端口 "@,
        decimal(port as nat),
        "），它占用着要被替换的文件。请先关掉它，再回来更新。"@,
    );
}

/// A backup that failed is told with the directory, the error and what to install by hand,
/// each of them whole.
pub proof fn law_failed_backup_is_told_whole(
    home: Seq<char>,
    error: Seq<char>,
    target: Seq<char>,
)
    ensures
        backup_failed(home, error, target).state == PageState::Error,
        backup_failed(home, error, target).detail.len() == 1,
        has_part(backup_failed(home, error, target).detail[0], home),
        has_part(backup_failed(home, error, target).detail[0], error),
        has_part(backup_failed(home, error, target).detail[0], package_at(target)),
{
    let a = "回退前备份 "@;
    let b = " 失败，已中止："@;
    let c = "\n手动备份后再试，或直接执行 npm i -g "@;
    let d = "。"@;
    let line = backup_failed(home, error, target).detail[0];
    let package = package_at(target);
    assert(line == a + home + b + error + c + package + d);
    law_parts_are_found(a, home, b + error + c + package + d);
    assert(line =~= a + home + (b + error + c + package + d));
    law_parts_are_found(a + home + b, error, c + package + d);
    assert(line =~= a + home + b + error + (c + package + d));
    law_parts_are_found(a + home + b + error + c, package, d);
}

/// Why there is nothing to install is the reason of the check that failed, as it is, or
/// names the channel that has nothing.
pub proof fn law_reason_is_told_whole(
    installed: Option<Seq<char>>,
    there: Seq<char>,
    channel: Seq<char>,
    reason: Seq<char>,
)
    ensures
        no_target(Checked::Failed { installed, channel, reason }) == reason,
        has_part(no_target(Checked::ChannelEmpty { installed: there, channel }), channel),
        begins(no_target(Checked::ChannelEmpty { installed: there, channel }), DSH_PACKAGE@),
{
    let tail = " 通道还没有发布过版本，没有可安装的目标。"@;
    let text = no_target(Checked::ChannelEmpty { installed: there, channel });
    assert(has_part(text, channel)) by {
        law_parts_are_found(DSH_PACKAGE@ + " 的 "@, channel, tail);
    }
    assert(begins(text, DSH_PACKAGE@)) by {
        assert(text.take(DSH_PACKAGE@.len() as int) =~= DSH_PACKAGE@);
    }
}

/// What is told of a first install that failed is the error of npm, whole; one that went
/// well is told as a start, and one that left no command behind as an error that names the
/// package.
pub proof fn law_first_install_is_told(detail: Seq<char>, has_dsh: bool)
    ensures
        install_told(Some(detail), has_dsh).state == PageState::Error,
        install_told(Some(detail), has_dsh).detail == seq![detail],
        install_told(None, true).state == PageState::Booting,
        install_told(None, false).state == PageState::Error,
        install_told(None, false).detail == seq![still_missing()],
        begins(still_missing(), DSH_PACKAGE@),
{
    law_endings(
        DSH_PACKAGE@,
        " 安装完成，但 PATH 中仍找不到 `dsh` 命令。请重开一次应用；若仍不行，检查 npm 全局目录（npm prefix）是否在 PATH 中。"@,
    );
}

/// The reports of a check and of an update that begin name the channel asked for, and keep
/// the versions that are known.
pub proof fn law_beginnings_are_reported(
    channel: Seq<char>,
    installed: Option<Seq<char>>,
    target: Option<Seq<char>>,
)
    ensures
        checking(channel, installed).state == CheckState::Checking,
        checking(channel, installed).channel == channel,
        checking(channel, installed).installed == installed,
        checking(channel, installed).target is None,
        checking(channel, installed).reason is None,
        resolving(channel, installed, target).state == CheckState::Resolving,
        resolving(channel, installed, target).channel == channel,
        resolving(channel, installed, target).installed == installed,
        resolving(channel, installed, target).target == target,
        resolving(channel, installed, target).reason is None,
{
}

/// An update that begins takes the versions of the last report over, and nothing else of
/// it; it is on the channel that the page asks for, and else on the one that is followed.
pub proof fn law_last_report_is_carried_on(
    channel: Seq<char>,
    last: Reported,
    asked: Seq<char>,
    followed: Seq<char>,
)
    ensures
        resolving_after(channel, last).channel == channel,
        resolving_after(channel, last).installed == last.installed,
        resolving_after(channel, last).target == last.target,
        resolving_after(channel, last).reason is None,
        resolving_after(channel, last).state == CheckState::Resolving,
        channel_to_move_to(None, followed) == followed,
        channel_to_move_to(Some(asked), followed) == channel_named(asked),
{
}

// ---------------------------------------------------------------- what is done

/// A check that found two versions the same ends the upgrade, and one that found them
/// different asks whose backend serves, to move from the one to the other: down if and only
/// if the target is the older one. Either way the page is told what was found.
pub proof fn law_difference_decides(
    installed: Seq<char>,
    channel: Seq<char>,
    target: Seq<char>,
    relation: VersionRelation,
    followed: Seq<char>,
    gui_up: bool,
)
    ensures
        ({
            let check = Checked::Compared { installed, channel, target, relation };
            let (deeds, stage) = upgrade_next(
                UpgradeStage::Resolve,
                UpgradeNews::Resolved { check, followed, gui_up },
            );
            &&& deeds == seq![UpgradeDeed::Report(report_of(check, followed))]
            &&& relation == VersionRelation::Same ==> stage is Finished
            &&& relation == VersionRelation::Newer ==> stage == UpgradeStage::AskOwner(
                Planned { installed, target, down: false },
            )
            &&& relation == VersionRelation::Older ==> stage == UpgradeStage::AskOwner(
                Planned { installed, target, down: true },
            )
        }),
{
}

/// Without two versions to compare, the upgrade is over; where no GUI is up, why is shown.
pub proof fn law_nothing_to_compare_is_told(check: Checked, followed: Seq<char>)
    requires
        !(check is Compared),
    ensures
        ({
            let (deeds, stage) = upgrade_next(
                UpgradeStage::Resolve,
                UpgradeNews::Resolved { check, followed, gui_up: false },
            );
            &&& stage is Finished
            &&& deeds.len() == 2
            &&& deeds[0] == UpgradeDeed::Report(report_of(check, followed))
            &&& deeds[1] matches UpgradeDeed::Show(shown) && shown.state == PageState::Error
                && shown.detail == seq![no_target(check)]
        }),
{
}

/// A backend of our own, or none that serves, lets the upgrade begin: it is shown, the
/// backend given up and its lock cleared, in that order; then an older version is backed up
/// first, and a newer one installed at once.
pub proof fn law_free_files_are_replaced(plan: Planned, port: u16)
    ensures
        ({
            let owned = upgrade_next(
                UpgradeStage::AskOwner(plan),
                UpgradeNews::Owner { ours: true },
            );
            let alone = upgrade_next(
                UpgradeStage::Probe(plan),
                UpgradeNews::Probed { serving: false, port },
            );
            &&& owned == alone
            &&& owned.0 == seq![
                UpgradeDeed::Show(installing(plan)),
                UpgradeDeed::Retire,
                UpgradeDeed::ClearLock,
            ]
            &&& plan.down ==> owned.1 == UpgradeStage::BackUp(plan)
            &&& !plan.down ==> owned.1 == UpgradeStage::Install(plan)
            &&& upgrade_next(UpgradeStage::AskOwner(plan), UpgradeNews::Owner { ours: false }) == (
                Seq::<UpgradeDeed>::empty(),
                UpgradeStage::Probe(plan),
            )
        }),
{
}

/// A backup that did not fail leads to the install of the same plan, and where files were
/// copied it is logged from where and to where; one that failed ends the upgrade.
pub proof fn law_backup_leads_to_the_install(
    plan: Planned,
    home: Seq<char>,
    dest: Seq<char>,
    error: Seq<char>,
)
    ensures
        upgrade_next(UpgradeStage::BackUp(plan), UpgradeNews::BackedUp(BackupNews::Nothing)) == (
            Seq::<UpgradeDeed>::empty(),
            UpgradeStage::Install(plan),
        ),
        ({
            let (deeds, stage) = upgrade_next(
                UpgradeStage::BackUp(plan),
                UpgradeNews::BackedUp(BackupNews::Copied { home, dest }),
            );
            &&& stage == UpgradeStage::Install(plan)
            &&& deeds.len() == 1
            &&& deeds[0] matches UpgradeDeed::Log(line) && has_part(line, home) && ends_in(
                line,
                dest,
            )
        }),
        upgrade_next(
            UpgradeStage::BackUp(plan),
            UpgradeNews::BackedUp(BackupNews::Failed { home, error }),
        ) == (
            seq![UpgradeDeed::Show(backup_failed(home, error, plan.target))],
            UpgradeStage::Finished,
        ),
{
    let a = "已备份 "@;
    let b = " → "@;
    law_parts_are_found(a, home, b + dest);
    assert(a + home + b + dest =~= a + home + (b + dest));
    law_endings(a + home + b, dest);
}

/// An install that failed is shown with what npm said, whole, and ends the upgrade; one that
/// went well is checked again, reported, and booted into.
pub proof fn law_install_decides(
    plan: Planned,
    detail: Seq<char>,
    check: Checked,
    followed: Seq<char>,
)
    ensures
        ({
            let (deeds, stage) = upgrade_next(
                UpgradeStage::Install(plan),
                UpgradeNews::Installed(Some(detail)),
            );
            &&& stage is Finished
            &&& deeds.len() == 1
            &&& deeds[0] matches UpgradeDeed::Show(shown) && shown.state == PageState::Error
                && shown.detail == seq![detail]
        }),
        upgrade_next(UpgradeStage::Install(plan), UpgradeNews::Installed(None)) == (
            Seq::<UpgradeDeed>::empty(),
            UpgradeStage::Recheck(plan),
        ),
        ({
            let (deeds, stage) = upgrade_next(
                UpgradeStage::Recheck(plan),
                UpgradeNews::Rechecked { check, followed },
            );
            &&& stage is Finished
            &&& deeds.len() == 3
            &&& deeds[0] == UpgradeDeed::Report(report_of(check, followed))
            &&& deeds[1] matches UpgradeDeed::Show(shown) && shown.state == PageState::Booting
            &&& deeds[2] == UpgradeDeed::Boot
        }),
{
}

/// An upgrade whose backend is our own, and whose install goes well, gets from the check to
/// the boot: what is installed on the way is the target of that check.
pub proof fn law_upgrade_goes_through(
    installed: Seq<char>,
    channel: Seq<char>,
    target: Seq<char>,
    followed: Seq<char>,
    gui_up: bool,
    after: Checked,
)
    ensures
        ({
            let check = Checked::Compared {
                installed,
                channel,
                target,
                relation: VersionRelation::Newer,
            };
            let found = UpgradeNews::Resolved { check, followed, gui_up };
            let ours = UpgradeNews::Owner { ours: true };
            let done = UpgradeNews::Installed(None);
            let again = UpgradeNews::Rechecked { check: after, followed };
            &&& upgrade_run(seq![found, ours]).1 == UpgradeStage::Install(
                Planned { installed, target, down: false },
            )
            &&& upgrade_run(seq![found, ours, done, again]).1 is Finished
            &&& upgrade_run(seq![found, ours, done, again]).0.last() == UpgradeDeed::Boot
        }),
{
    let check = Checked::Compared { installed, channel, target, relation: VersionRelation::Newer };
    let found = UpgradeNews::Resolved { check, followed, gui_up };
    let ours = UpgradeNews::Owner { ours: true };
    let done = UpgradeNews::Installed(None);
    let again = UpgradeNews::Rechecked { check: after, followed };
    let four = seq![found, ours, done, again];
    assert(four.drop_last() =~= seq![found, ours, done]);
    assert(seq![found, ours, done].drop_last() =~= seq![found, ours]);
    assert(seq![found, ours].drop_last() =~= seq![found]);
    assert(seq![found].drop_last() =~= Seq::<UpgradeNews>::empty());
    reveal_with_fuel(upgrade_run, 5);
}

} // verus!
