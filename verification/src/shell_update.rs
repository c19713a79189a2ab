//! Updating the shell itself: what a channel offers, and installing it.
use crate::channels::{manifest_of, shell_manifest};
use crate::status::{borrowed, version_payload, CheckState, Reported, VersionReport};
use crate::text::{cat2, cat3, opt_str, opt_text};
use crate::upgrade::resolving;
use crate::version::{relate, relation, VersionRelation};
use vstd::prelude::*;

verus! {

/// Why there is no manifest for a name that is no channel.
pub open spec fn unknown_channel(channel: Seq<char>) -> Seq<char> {
    "未知的通道 "@ + channel + "。"@
}

/// Why the manifest cannot be asked for when its address is no URL.
pub open spec fn no_url(error: Seq<char>) -> Seq<char> {
    "更新清单地址无效："@ + error
}

/// Why the manifest cannot be asked for when the updater does not start.
pub open spec fn no_updater(error: Seq<char>) -> Seq<char> {
    "更新器初始化失败："@ + error
}

/// Why a shell that was on offer is not the one that runs.
pub open spec fn not_replaced(error: Seq<char>) -> Seq<char> {
    "更新失败："@ + error
}

/// The address of a channel's manifest, or why there is none.
pub fn shell_endpoint(channel: &str) -> (endpoint: Result<&'static str, String>)
    ensures
        match endpoint {
            Ok(url) => manifest_of(channel@) == Some(url@),
            Err(reason) => manifest_of(channel@) is None && reason@ == "未知的通道 "@ + channel@ + "。"@,
        },
        endpoint matches Err(reason) ==> reason@ == unknown_channel(channel@),
{
    match shell_manifest(channel) {
        Some(url) => Ok(url),
        None => Err(cat3("未知的通道 ", channel, "。")),
    }
}

/// Why the manifest cannot be asked for when its address is no URL.
pub fn bad_endpoint(error: &str) -> (reason: String)
    ensures
        reason@ == "更新清单地址无效："@ + error@,
        reason@ == no_url(error@),
{
    cat2("更新清单地址无效：", error)
}

/// Why the manifest cannot be asked for when the updater does not start.
pub fn updater_not_ready(error: &str) -> (reason: String)
    ensures
        reason@ == "更新器初始化失败："@ + error@,
        reason@ == no_updater(error@),
{
    cat2("更新器初始化失败：", error)
}

/// What the updater replied.
#[derive(Debug)]
pub enum UpdaterReply {
    /// A release, and the version that runs.
    Release { version: String, current: String },
    /// Nothing to offer.
    NoContent,
    /// No manifest: the channel has published nothing yet.
    NotFound,
    /// The updater failed.
    Failed { reason: String },
}

/// What a channel offers.
#[derive(Debug)]
pub enum ShellCheck {
    /// A release, and how it relates to the version that runs.
    Release { version: String, relation: VersionRelation },
    /// Nothing.
    Nothing,
    /// It could not be found out.
    Failed { reason: String },
}

/// What an updater's reply says.
pub enum Reply {
    Release { version: Seq<char>, current: Seq<char> },
    NoContent,
    NotFound,
    Failed { reason: Seq<char> },
}

/// What a channel offers.
pub enum ShellOffer {
    Release { version: Seq<char>, relation: VersionRelation },
    Nothing,
    Failed { reason: Seq<char> },
}

impl View for UpdaterReply {
    type V = Reply;

    open spec fn view(&self) -> Reply {
        match self {
            UpdaterReply::Release { version, current } => Reply::Release {
                version: version@,
                current: current@,
            },
            UpdaterReply::NoContent => Reply::NoContent,
            UpdaterReply::NotFound => Reply::NotFound,
            UpdaterReply::Failed { reason } => Reply::Failed { reason: reason@ },
        }
    }
}

impl View for ShellCheck {
    type V = ShellOffer;

    open spec fn view(&self) -> ShellOffer {
        match self {
            ShellCheck::Release { version, relation } => ShellOffer::Release {
                version: version@,
                relation: *relation,
            },
            ShellCheck::Nothing => ShellOffer::Nothing,
            ShellCheck::Failed { reason } => ShellOffer::Failed { reason: reason@ },
        }
    }
}

/// What a channel offers, going by the updater's reply. A release counts whether it is
/// newer or older: a switch back to the stable channel is an offer too.
pub open spec fn offered(reply: Reply) -> ShellOffer {
    match reply {
        Reply::Release { version, current } => ShellOffer::Release {
            version,
            relation: relation(version, current),
        },
        Reply::NoContent => ShellOffer::Nothing,
        Reply::NotFound => ShellOffer::Nothing,
        Reply::Failed { reason } => ShellOffer::Failed { reason },
    }
}

pub fn resolve_shell_update(reply: UpdaterReply) -> (offer: ShellCheck)
    ensures
        offer@ == offered(reply@),
{
    match reply {
        UpdaterReply::Release { version, current } => {
            let relation = relate(version.as_str(), current.as_str());
            ShellCheck::Release { version, relation }
        },
        UpdaterReply::NoContent => ShellCheck::Nothing,
        UpdaterReply::NotFound => ShellCheck::Nothing,
        UpdaterReply::Failed { reason } => ShellCheck::Failed { reason },
    }
}

// ---------------------------------------------------------------- checking

/// What the page is told of what a channel offers.
pub open spec fn shell_reported(
    offer: ShellOffer,
    channel: Seq<char>,
    installed: Seq<char>,
) -> Reported {
    match offer {
        ShellOffer::Release { version, relation } => Reported {
            state: CheckState::Related(relation),
            channel,
            installed: Some(installed),
            target: Some(version),
            reason: None,
        },
        ShellOffer::Nothing => Reported {
            state: CheckState::ChannelEmpty,
            channel,
            installed: Some(installed),
            target: None,
            reason: None,
        },
        ShellOffer::Failed { reason } => Reported {
            state: CheckState::Failed,
            channel,
            installed: Some(installed),
            target: None,
            reason: Some(reason),
        },
    }
}

/// What the page is told of what `channel` offers. `installed` is the version that runs.
pub fn check_shell_update(offer: &ShellCheck, channel: &str, installed: &str) -> (report:
    VersionReport)
    ensures
        report@ == shell_reported(offer@, channel@, installed@),
{
    match offer {
        ShellCheck::Release { version, relation } => version_payload(
            CheckState::Related(*relation),
            channel,
            Some(installed),
            Some(version.as_str()),
            None,
        ),
        ShellCheck::Nothing => version_payload(
            CheckState::ChannelEmpty,
            channel,
            Some(installed),
            None,
            None,
        ),
        ShellCheck::Failed { reason } => version_payload(
            CheckState::Failed,
            channel,
            Some(installed),
            None,
            Some(reason.as_str()),
        ),
    }
}

// ---------------------------------------------------------------- installing

/// The report of an update of the shell that begins after the report `last`.
pub open spec fn shell_resolving_after(
    channel: Seq<char>,
    installed: Seq<char>,
    last: Reported,
) -> Reported {
    resolving(channel, Some(installed), last.target)
}

/// The report of an update of the shell that begins; `last` is the last report. The
/// version that runs needs no memory.
pub fn resolving_shell_report(channel: &str, installed: &str, last: &VersionReport) -> (report:
    VersionReport)
    ensures
        report@ == resolving(channel@, Some(installed@), last@.target),
        report@ == shell_resolving_after(channel@, installed@, last@),
{
    version_payload(
        CheckState::Resolving,
        channel,
        Some(installed),
        borrowed(&last.target),
        None,
    )
}

/// The version to install, where the channel offers another than the one that runs.
pub open spec fn shell_target(offer: ShellOffer) -> Option<Seq<char>> {
    match offer {
        ShellOffer::Release { version, relation } => if relation == VersionRelation::Same {
            None
        } else {
            Some(version)
        },
        _ => None,
    }
}

/// What is reported of an update once it is known what the channel offers.
pub open spec fn shell_move_reported(
    offer: ShellOffer,
    channel: Seq<char>,
    installed: Seq<char>,
) -> Reported {
    match shell_target(offer) {
        Some(target) => Reported {
            state: CheckState::Installing,
            channel,
            installed: Some(installed),
            target: Some(target),
            reason: None,
        },
        None => shell_reported(offer, channel, installed),
    }
}

/// What to report of an update, and the version to install then, if any.
#[derive(Debug)]
pub struct ShellMove {
    pub report: VersionReport,
    pub install: Option<String>,
}

/// What to do about what `channel` offers once an update was asked for.
pub fn update_shell(offer: &ShellCheck, channel: &str, installed: &str) -> (m: ShellMove)
    ensures
        opt_text(m.install) == shell_target(offer@),
        m.report@ == match shell_target(offer@) {
            Some(target) => Reported {
                state: CheckState::Installing,
                channel: channel@,
                installed: Some(installed@),
                target: Some(target),
                reason: None,
            },
            None => shell_reported(offer@, channel@, installed@),
        },
        m.report@ == shell_move_reported(offer@, channel@, installed@),
{
    match offer {
        ShellCheck::Release { version, relation } if *relation != VersionRelation::Same => ShellMove {
            report: version_payload(
                CheckState::Installing,
                channel,
                Some(installed),
                Some(version.as_str()),
                None,
            ),
            install: Some(version.as_str().to_string()),
        },
        other => ShellMove { report: check_shell_update(other, channel, installed), install: None },
    }
}

/// What to report once the install of `target` is over: nothing when it went well, and
/// the app restarts into it.
pub fn shell_installed(
    channel: &str,
    installed: &str,
    target: &str,
    error: Option<&str>,
) -> (report: Option<VersionReport>)
    ensures
        report is None <==> error is None,
        report matches Some(r) ==> r@ == (Reported {
            state: CheckState::Failed,
            channel: channel@,
            installed: Some(installed@),
            target: Some(target@),
            reason: Some("更新失败："@ + opt_str(error)->0),
        }),
        report matches Some(r) ==> r@.reason == Some(not_replaced(opt_str(error)->0)),
{
    match error {
        Some(error) => Some(
            version_payload(
                CheckState::Failed,
                channel,
                Some(installed),
                Some(target),
                Some(cat2("更新失败：", error).as_str()),
            ),
        ),
        None => None,
    }
}

/// A channel that offers what already runs is answered with no install, in either
/// direction.
pub proof fn law_same_shell_is_not_installed(version: Seq<char>, current: Seq<char>)
    ensures
        shell_target(offered(Reply::Release { version, current })) is None <==> relation(
            version,
            current,
        ) == VersionRelation::Same,
{
}

} // verus!
