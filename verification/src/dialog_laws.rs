//! What the user is told of an update, of dsh and of the shell, over what was found.
use crate::check::{Checked, DSH_PACKAGE};
use crate::dialog::{confirm_label, dsh_answer, replace_failed, shell_answer, DSH_TITLE, SHELL_TITLE};
use crate::scan::has_part;
use crate::scan_laws::{begins, ends_in, law_endings, law_parts_are_found};
use crate::shell_update::{
    no_updater, no_url, not_replaced, offered, shell_move_reported, shell_reported,
    shell_resolving_after, shell_target, unknown_channel, Reply, ShellOffer,
};
use crate::status::{CheckState, Reported};
use crate::tray_check::offers_move;
use crate::version::{relation, VersionRelation};
use vstd::prelude::*;

verus! {

// ---------------------------------------------------------------- dsh

/// The answer to a check that compared two versions of dsh names the one that is installed,
/// and the other where it is another, each of them whole; an older one, and one that is the
/// newest already, with the channel.
pub proof fn law_dsh_answer_names_the_versions(
    installed: Seq<char>,
    channel: Seq<char>,
    target: Seq<char>,
    relation: VersionRelation,
    asked: Seq<char>,
)
    ensures
        ({
            let answer = dsh_answer(
                Checked::Compared { installed, channel, target, relation },
                asked,
            );
            &&& answer.title == DSH_TITLE@
            &&& answer.confirm == confirm_label(relation)
            &&& has_part(answer.message, installed)
            &&& relation != VersionRelation::Same ==> has_part(answer.message, target)
            &&& relation != VersionRelation::Newer ==> has_part(answer.message, asked)
        }),
{
    match relation {
        VersionRelation::Same => {
            lemma_two_named("dsh 已经是 "@, asked, " 通道的最新版本（"@, installed, "）。"@);
        },
        VersionRelation::Newer => {
            lemma_two_named(
                "发现新版本 dsh "@,
                target,
                "（当前 "@,
                installed,
                "）。\n更新期间后端会短暂停止，完成后自动重新启动。"@,
            );
        },
        VersionRelation::Older => {
            let a = " 通道当前是 dsh "@;
            let b = "，比本机的 "@;
            let c = " 旧。\n继续会回退到 "@;
            let d = "；回退前会先把 ~/.dsh 备份一份，但里面的状态不会被迁移回旧格式。"@;
            lemma_older_named(asked, a, target, b, installed, c, d);
        },
    }
}

proof fn lemma_two_named(
    a: Seq<char>,
    first: Seq<char>,
    b: Seq<char>,
    second: Seq<char>,
    c: Seq<char>,
)
    ensures
        has_part(a + first + b + second + c, first),
        has_part(a + first + b + second + c, second),
{
    let text = a + first + b + second + c;
    assert(has_part(text, first)) by {
        law_parts_are_found(a, first, b + second + c);
        assert(text =~= a + first + (b + second + c));
    }
    assert(has_part(text, second)) by {
        law_parts_are_found(a + first + b, second, c);
    }
}

proof fn lemma_older_named(
    channel: Seq<char>,
    a: Seq<char>,
    target: Seq<char>,
    b: Seq<char>,
    installed: Seq<char>,
    c: Seq<char>,
    d: Seq<char>,
)
    ensures
        has_part(channel + a + target + b + installed + c + target + d, channel),
        has_part(channel + a + target + b + installed + c + target + d, target),
        has_part(channel + a + target + b + installed + c + target + d, installed),
{
    let empty = Seq::<char>::empty();
    let text = channel + a + target + b + installed + c + target + d;
    assert(has_part(text, channel)) by {
        let rest = a + target + b + installed + c + target + d;
        law_parts_are_found(empty, channel, rest);
        assert(text =~= empty + channel + rest);
    }
    assert(has_part(text, target)) by {
        law_parts_are_found(channel + a + target + b + installed + c, target, d);
    }
    assert(has_part(text, installed)) by {
        let front = channel + a + target + b;
        let rest = c + target + d;
        law_parts_are_found(front, installed, rest);
        assert(text =~= front + installed + rest);
    }
}

/// Where nothing could be compared, there is nothing to confirm, and the answer says why: a
/// channel without a version by its name, with the version that is installed, and a check
/// that failed by its whole reason.
pub proof fn law_dsh_answer_says_why_not(
    installed: Seq<char>,
    known: Option<Seq<char>>,
    channel: Seq<char>,
    reason: Seq<char>,
    asked: Seq<char>,
)
    ensures
        ({
            let empty = dsh_answer(Checked::ChannelEmpty { installed, channel }, asked);
            let failed = dsh_answer(Checked::Failed { installed: known, channel, reason }, asked);
            &&& empty.title == DSH_TITLE@
            &&& empty.confirm is None
            &&& has_part(empty.message, asked)
            &&& has_part(empty.message, installed)
            &&& begins(empty.message, DSH_PACKAGE@)
            &&& failed.title == DSH_TITLE@
            &&& failed.confirm is None
            &&& ends_in(failed.message, reason)
            &&& dsh_answer(Checked::NotInstalled, asked).confirm is None
            &&& dsh_answer(Checked::NotInstalled, asked).title == DSH_TITLE@
        }),
{
    lemma_two_named(
        DSH_PACKAGE@ + " 的 "@,
        asked,
        " 通道还没有发布过版本。本机是 "@,
        installed,
        "。"@,
    );
    let message = dsh_answer(Checked::ChannelEmpty { installed, channel }, asked).message;
    assert(begins(message, DSH_PACKAGE@)) by {
        assert(message.take(DSH_PACKAGE@.len() as int) =~= DSH_PACKAGE@);
    }
    law_endings("检查 dsh 更新失败："@, reason);
}

/// There is something to confirm where the two versions differ, an update or a rollback, and
/// the two are labelled apart.
pub proof fn law_only_a_difference_is_confirmed(relation: VersionRelation, check: Checked)
    ensures
        confirm_label(relation) is Some <==> relation == VersionRelation::Newer || relation
            == VersionRelation::Older,
        confirm_label(VersionRelation::Newer) != confirm_label(VersionRelation::Older),
        offers_move(check) <==> (check matches Checked::Compared { relation, .. } && (relation
            == VersionRelation::Newer || relation == VersionRelation::Older)),
{
    reveal_strlit("立即更新");
    reveal_strlit("回退");
    assert("立即更新"@.len() != "回退"@.len());
}

// ---------------------------------------------------------------- the shell

/// A release on a channel is offered as it is, with how it relates to the version that runs;
/// no manifest and no content are nothing on offer; a failure keeps its reason.
pub proof fn law_replies_are_kept(version: Seq<char>, current: Seq<char>, reason: Seq<char>)
    ensures
        offered(Reply::Release { version, current }) == (ShellOffer::Release {
            version,
            relation: relation(version, current),
        }),
        offered(Reply::NoContent) == ShellOffer::Nothing,
        offered(Reply::NotFound) == ShellOffer::Nothing,
        offered(Reply::Failed { reason }) == (ShellOffer::Failed { reason }),
{
}

/// What is installed is the version on offer, whole, whether newer or older; the version
/// that runs, and what is not on offer, is not installed.
pub proof fn law_shell_on_offer_is_installed(
    version: Seq<char>,
    relation: VersionRelation,
    reason: Seq<char>,
)
    ensures
        relation != VersionRelation::Same ==> shell_target(ShellOffer::Release { version, relation })
            == Some(version),
        relation == VersionRelation::Same ==> shell_target(
            ShellOffer::Release { version, relation },
        ) is None,
        shell_target(ShellOffer::Nothing) is None,
        shell_target(ShellOffer::Failed { reason }) is None,
{
}

/// The page is told all of what a channel offers, with the channel and the version that
/// runs: two offers that are told alike are the same.
pub proof fn law_shell_reports_leave_nothing_out(
    a: ShellOffer,
    b: ShellOffer,
    channel: Seq<char>,
    installed: Seq<char>,
)
    ensures
        shell_reported(a, channel, installed) == shell_reported(b, channel, installed) ==> a == b,
        shell_reported(a, channel, installed).channel == channel,
        shell_reported(a, channel, installed).installed == Some(installed),
        a matches ShellOffer::Release { version, relation } ==> shell_reported(
            a,
            channel,
            installed,
        ).state == CheckState::Related(relation) && shell_reported(a, channel, installed).target
            == Some(version),
        a matches ShellOffer::Failed { reason } ==> shell_reported(a, channel, installed).state
            == CheckState::Failed && shell_reported(a, channel, installed).reason == Some(reason),
        a is Nothing ==> shell_reported(a, channel, installed).state == CheckState::ChannelEmpty
            && shell_reported(a, channel, installed).target is None,
{
}

/// An update of the shell begins with the target of the last report and the version that
/// runs; then what is being installed is reported, or else what the channel offers.
pub proof fn law_shell_update_is_reported(
    offer: ShellOffer,
    channel: Seq<char>,
    installed: Seq<char>,
    last: Reported,
)
    ensures
        shell_target(offer) matches Some(version) ==> {
            let report = shell_move_reported(offer, channel, installed);
            &&& report.state == CheckState::Installing
            &&& report.channel == channel
            &&& report.installed == Some(installed)
            &&& report.target == Some(version)
            &&& report.reason is None
        },
        shell_target(offer) is None ==> shell_move_reported(offer, channel, installed)
            == shell_reported(offer, channel, installed),
        shell_resolving_after(channel, installed, last).state == CheckState::Resolving,
        shell_resolving_after(channel, installed, last).channel == channel,
        shell_resolving_after(channel, installed, last).installed == Some(installed),
        shell_resolving_after(channel, installed, last).target == last.target,
{
}

/// The answer to a check of the shell names the version that runs, and the one on offer
/// where it is another, each of them whole; an older one, and one that runs already, with
/// the channel.
pub proof fn law_shell_answer_names_the_versions(
    version: Seq<char>,
    relation: VersionRelation,
    channel: Seq<char>,
    installed: Seq<char>,
)
    ensures
        ({
            let answer = shell_answer(
                ShellOffer::Release { version, relation },
                channel,
                installed,
            );
            &&& answer.title == SHELL_TITLE@
            &&& answer.confirm == confirm_label(relation)
            &&& has_part(answer.message, installed)
            &&& relation != VersionRelation::Same ==> has_part(answer.message, version)
            &&& relation != VersionRelation::Newer ==> has_part(answer.message, channel)
        }),
{
    match relation {
        VersionRelation::Same => {
            lemma_two_named("已经是最新版本（"@, installed, "，"@, channel, " 通道）。"@);
        },
        VersionRelation::Newer => {
            lemma_two_named(
                "发现新版本 "@,
                version,
                "（当前 "@,
                installed,
                "）。\n更新后应用会自动重启。"@,
            );
        },
        VersionRelation::Older => {
            let a = " 通道当前是 "@;
            let b = "，比本机的 "@;
            let c = " 旧。\n继续会回退到 "@;
            let d = "，之后应用自动重启。"@;
            lemma_older_named(channel, a, version, b, installed, c, d);
        },
    }
}

/// Where nothing is on offer there is nothing to confirm, and the answer says why: the
/// channel and the version that runs, or the whole reason of a failure.
pub proof fn law_shell_answer_says_why_not(
    channel: Seq<char>,
    installed: Seq<char>,
    reason: Seq<char>,
)
    ensures
        ({
            let empty = shell_answer(ShellOffer::Nothing, channel, installed);
            let failed = shell_answer(ShellOffer::Failed { reason }, channel, installed);
            &&& empty.title == SHELL_TITLE@
            &&& empty.confirm is None
            &&& begins(empty.message, channel)
            &&& has_part(empty.message, installed)
            &&& failed.title == SHELL_TITLE@
            &&& failed.confirm is None
            &&& ends_in(failed.message, reason)
            &&& replace_failed(reason).title == SHELL_TITLE@
            &&& replace_failed(reason).confirm is None
            &&& ends_in(replace_failed(reason).message, reason)
        }),
{
    let a = " 通道还没有发布过版本，没有可安装的目标。本机是 "@;
    let message = shell_answer(ShellOffer::Nothing, channel, installed).message;
    assert(begins(message, channel)) by {
        assert(message.take(channel.len() as int) =~= channel);
    }
    assert(has_part(message, installed)) by {
        law_parts_are_found(channel + a, installed, "。"@);
    }
    law_endings("检查更新失败："@, reason);
    law_endings("更新失败："@, reason);
}

/// Why the shell cannot be checked or replaced is told whole.
pub proof fn law_shell_errors_are_told_whole(channel: Seq<char>, error: Seq<char>)
    ensures
        has_part(unknown_channel(channel), channel),
        ends_in(no_url(error), error),
        ends_in(no_updater(error), error),
        ends_in(not_replaced(error), error),
{
    law_parts_are_found("未知的通道 "@, channel, "。"@);
    law_endings("更新清单地址无效："@, error);
    law_endings("更新器初始化失败："@, error);
    law_endings("更新失败："@, error);
}

} // verus!
