//! Native dialogs: the answers to a check that was asked for in the tray.
use crate::check::{report_of, Checked, VersionCheck, DSH_PACKAGE};
use crate::shell_update::{shell_reported, ShellCheck, ShellOffer};
use crate::status::CheckState;
use crate::text::{cat2, cat4, cat5, opt_str};
use crate::version::VersionRelation;
use vstd::prelude::*;

verus! {

/// A dialog. With a button to confirm it also has one to put the matter off.
#[derive(Debug)]
pub struct Dialog {
    pub title: &'static str,
    pub message: String,
    pub confirm: Option<&'static str>,
}

/// What a dialog says.
pub struct Asked {
    pub title: Seq<char>,
    pub message: Seq<char>,
    pub confirm: Option<Seq<char>>,
}

impl View for Dialog {
    type V = Asked;

    open spec fn view(&self) -> Asked {
        Asked { title: self.title@, message: self.message@, confirm: opt_str(self.confirm) }
    }
}

/// The title of the dialogs about dsh.
pub const DSH_TITLE: &'static str = "dsh 更新";

/// The title of the dialogs about the shell.
pub const SHELL_TITLE: &'static str = "DSH Desktop 更新";

/// The button that puts an update off.
pub const LATER: &'static str = "稍后";

/// The button that goes on, where the two versions differ.
pub open spec fn confirm_label(relation: VersionRelation) -> Option<Seq<char>> {
    match relation {
        VersionRelation::Same => None,
        VersionRelation::Newer => Some("立即更新"@),
        VersionRelation::Older => Some("回退"@),
    }
}

fn confirm_button(relation: VersionRelation) -> (label: Option<&'static str>)
    ensures
        opt_str(label) == confirm_label(relation),
{
    match relation {
        VersionRelation::Same => None,
        VersionRelation::Newer => Some("立即更新"),
        VersionRelation::Older => Some("回退"),
    }
}

// ---------------------------------------------------------------- dsh

/// What a comparison of two versions of dsh is answered with.
pub open spec fn dsh_compared(
    channel: Seq<char>,
    installed: Seq<char>,
    target: Seq<char>,
    relation: VersionRelation,
) -> Seq<char> {
    match relation {
        VersionRelation::Same => "dsh 已经是 "@ + channel + " 通道的最新版本（"@ + installed + "）。"@,
        VersionRelation::Newer => "发现新版本 dsh "@ + target + "（当前 "@ + installed
            + "）。\n更新期间后端会短暂停止，完成后自动重新启动。"@,
        VersionRelation::Older => channel + " 通道当前是 dsh "@ + target + "，比本机的 "@ + installed
            + " 旧。\n继续会回退到 "@ + target
            + "；回退前会先把 ~/.dsh 备份一份，但里面的状态不会被迁移回旧格式。"@,
    }
}

/// What a check of dsh on `channel` is answered with. It always says something, because
/// it was asked for.
pub open spec fn dsh_answer(check: Checked, channel: Seq<char>) -> Asked {
    match check {
        Checked::Compared { installed, target, relation, .. } => Asked {
            title: DSH_TITLE@,
            message: dsh_compared(channel, installed, target, relation),
            confirm: confirm_label(relation),
        },
        Checked::ChannelEmpty { installed, .. } => Asked {
            title: DSH_TITLE@,
            message: DSH_PACKAGE@ + " 的 "@ + channel + " 通道还没有发布过版本。本机是 "@ + installed
                + "。"@,
            confirm: None,
        },
        Checked::NotInstalled => Asked {
            title: DSH_TITLE@,
            message: "本机还没有安装 dsh，没有可比较的版本。"@,
            confirm: None,
        },
        Checked::Failed { reason, .. } => Asked {
            title: DSH_TITLE@,
            message: "检查 dsh 更新失败："@ + reason,
            confirm: None,
        },
    }
}

fn dsh_message(
    channel: &str,
    installed: &str,
    target: &str,
    relation: VersionRelation,
) -> (message: String)
    ensures
        message@ == dsh_compared(channel@, installed@, target@, relation),
{
    match relation {
        VersionRelation::Same => cat5(
            "dsh 已经是 ",
            channel,
            " 通道的最新版本（",
            installed,
            "）。",
        ),
        VersionRelation::Newer => cat5(
            "发现新版本 dsh ",
            target,
            "（当前 ",
            installed,
            "）。\n更新期间后端会短暂停止，完成后自动重新启动。",
        ),
        VersionRelation::Older => cat4(
            cat5(channel, " 通道当前是 dsh ", target, "，比本机的 ", installed).as_str(),
            " 旧。\n继续会回退到 ",
            target,
            "；回退前会先把 ~/.dsh 备份一份，但里面的状态不会被迁移回旧格式。",
        ),
    }
}

/// The dialog that answers a check of dsh on `channel`.
pub fn check_dsh_update_interactive(check: &VersionCheck, channel: &str) -> (dialog: Dialog)
    ensures
        dialog@ == dsh_answer(check@, channel@),
{
    match check {
        VersionCheck::Compared { installed, target, relation, .. } => Dialog {
            title: DSH_TITLE,
            message: dsh_message(channel, installed.as_str(), target.as_str(), *relation),
            confirm: confirm_button(*relation),
        },
        VersionCheck::ChannelEmpty { installed, .. } => Dialog {
            title: DSH_TITLE,
            message: cat2(
                cat5(
                    DSH_PACKAGE,
                    " 的 ",
                    channel,
                    " 通道还没有发布过版本。本机是 ",
                    installed.as_str(),
                ).as_str(),
                "。",
            ),
            confirm: None,
        },
        VersionCheck::NotInstalled => Dialog {
            title: DSH_TITLE,
            message: "本机还没有安装 dsh，没有可比较的版本。".to_string(),
            confirm: None,
        },
        VersionCheck::Failed { reason, .. } => Dialog {
            title: DSH_TITLE,
            message: cat2("检查 dsh 更新失败：", reason.as_str()),
            confirm: None,
        },
    }
}

/// The dialog offers to go on exactly where the page is told that the versions differ.
pub proof fn law_dsh_dialog_agrees_with_the_page(
    check: Checked,
    channel: Seq<char>,
    followed: Seq<char>,
)
    ensures
        dsh_answer(check, channel).confirm is Some <==> (report_of(check, followed).state
            matches CheckState::Related(relation) && relation != VersionRelation::Same),
{
}

// ---------------------------------------------------------------- the shell

/// What a check of the shell on `channel` is answered with.
pub open spec fn shell_answer(offer: ShellOffer, channel: Seq<char>, installed: Seq<char>) -> Asked {
    match offer {
        ShellOffer::Release { version, relation } => Asked {
            title: SHELL_TITLE@,
            message: match relation {
                VersionRelation::Same => "已经是最新版本（"@ + installed + "，"@ + channel
                    + " 通道）。"@,
                VersionRelation::Newer => "发现新版本 "@ + version + "（当前 "@ + installed
                    + "）。\n更新后应用会自动重启。"@,
                VersionRelation::Older => channel + " 通道当前是 "@ + version + "，比本机的 "@
                    + installed + " 旧。\n继续会回退到 "@ + version + "，之后应用自动重启。"@,
            },
            confirm: confirm_label(relation),
        },
        ShellOffer::Nothing => Asked {
            title: SHELL_TITLE@,
            message: channel + " 通道还没有发布过版本，没有可安装的目标。本机是 "@ + installed + "。"@,
            confirm: None,
        },
        ShellOffer::Failed { reason } => Asked {
            title: SHELL_TITLE@,
            message: "检查更新失败："@ + reason,
            confirm: None,
        },
    }
}

/// The dialog that answers a check of the shell on `channel`.
pub fn check_for_update(offer: &ShellCheck, channel: &str, installed: &str) -> (dialog: Dialog)
    ensures
        dialog@ == shell_answer(offer@, channel@, installed@),
{
    match offer {
        ShellCheck::Release { version, relation } => Dialog {
            title: SHELL_TITLE,
            message: match *relation {
                VersionRelation::Same => cat5(
                    "已经是最新版本（",
                    installed,
                    "，",
                    channel,
                    " 通道）。",
                ),
                VersionRelation::Newer => cat5(
                    "发现新版本 ",
                    version.as_str(),
                    "（当前 ",
                    installed,
                    "）。\n更新后应用会自动重启。",
                ),
                VersionRelation::Older => cat4(
                    cat5(
                        channel,
                        " 通道当前是 ",
                        version.as_str(),
                        "，比本机的 ",
                        installed,
                    ).as_str(),
                    " 旧。\n继续会回退到 ",
                    version.as_str(),
                    "，之后应用自动重启。",
                ),
            },
            confirm: confirm_button(*relation),
        },
        ShellCheck::Nothing => Dialog {
            title: SHELL_TITLE,
            message: cat4(
                channel,
                " 通道还没有发布过版本，没有可安装的目标。本机是 ",
                installed,
                "。",
            ),
            confirm: None,
        },
        ShellCheck::Failed { reason } => Dialog {
            title: SHELL_TITLE,
            message: cat2("检查更新失败：", reason.as_str()),
            confirm: None,
        },
    }
}

/// What is said of an install of the shell that failed.
pub open spec fn replace_failed(error: Seq<char>) -> Asked {
    Asked { title: SHELL_TITLE@, message: "更新失败："@ + error, confirm: None }
}

/// The dialog that says that an update of the shell failed.
pub fn update_failed(error: &str) -> (dialog: Dialog)
    ensures
        dialog@ == replace_failed(error@),
{
    Dialog { title: SHELL_TITLE, message: cat2("更新失败：", error), confirm: None }
}

/// The dialog offers to go on exactly where the page is told that the versions differ.
pub proof fn law_shell_dialog_agrees_with_the_page(
    offer: ShellOffer,
    channel: Seq<char>,
    installed: Seq<char>,
)
    ensures
        shell_answer(offer, channel, installed).confirm is Some <==> (shell_reported(
            offer,
            channel,
            installed,
        ).state matches CheckState::Related(relation) && relation != VersionRelation::Same),
{
}

} // verus!
