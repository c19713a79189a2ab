//! Checking dsh: what is installed, what a channel points at, and how they relate.
use crate::json::{
    fields, get_text, has_field, object_in, opt_fields, parse_object, text_field, Field,
};
use crate::status::{borrowed, version_payload, CheckState, Reported, VersionReport};
use crate::text::{cat3, cat4, opt_str, opt_text};
use crate::version::{found_version, parse_version, relate, relation, VersionRelation};
use vstd::prelude::*;

verus! {

/// The package that provides the `dsh` command.
pub const DSH_PACKAGE: &'static str = "@deepseek-ai/dsh";

// ---------------------------------------------------------------- what the two commands say

/// The version that the installed dsh printed, if it ran and printed one.
pub open spec fn version_printed(output: Option<Seq<char>>) -> Option<Seq<char>> {
    match output {
        Some(output) => found_version(output),
        None => None,
    }
}

/// The version of the installed dsh. `output` is what `dsh --version` printed, or
/// nothing when it could not run or failed.
pub fn installed_dsh_version(output: Option<&str>) -> (version: Option<String>)
    ensures
        opt_text(version) == version_printed(opt_str(output)),
{
    match output {
        Some(output) => parse_version(output),
        None => None,
    }
}

/// The dist-tags that npm printed, if it ran and printed an object.
pub open spec fn tags_printed(output: Option<Seq<char>>) -> Option<Map<Seq<char>, Field>> {
    match output {
        Some(output) => object_in(output),
        None => None,
    }
}

/// The dist-tags of the package. `output` is what `npm view` printed, or nothing when
/// it could not run or failed.
pub fn dsh_dist_tags(output: Option<&str>) -> (tags: Option<
    serde_json::Map<String, serde_json::Value>,
>)
    ensures
        opt_fields(tags) == tags_printed(opt_str(output)),
{
    match output {
        Some(output) => parse_object(output),
        None => None,
    }
}

/// What a channel resolved to.
#[derive(Debug)]
pub enum ChannelLookup {
    Version(String),
    /// There is no such dist-tag: nothing was published there.
    Missing,
    /// The tag exists, but its value is not a version.
    Failed,
}

/// What a lookup says.
pub enum Lookup {
    Version(Seq<char>),
    Missing,
    Failed,
}

impl View for ChannelLookup {
    type V = Lookup;

    open spec fn view(&self) -> Lookup {
        match self {
            ChannelLookup::Version(version) => Lookup::Version(version@),
            ChannelLookup::Missing => Lookup::Missing,
            ChannelLookup::Failed => Lookup::Failed,
        }
    }
}

/// What a dist-tag that is there resolves to: `raw` is its value, where that is a
/// string.
pub open spec fn tag_lookup(raw: Option<Seq<char>>) -> Lookup {
    match raw {
        Some(raw) => match found_version(raw) {
            Some(version) => Lookup::Version(version),
            None => Lookup::Failed,
        },
        None => Lookup::Failed,
    }
}

/// What `channel` resolves to among the dist-tags.
pub open spec fn lookup(tags: Map<Seq<char>, Field>, channel: Seq<char>) -> Lookup {
    if tags.contains_key(channel) {
        tag_lookup(text_field(tags, channel))
    } else {
        Lookup::Missing
    }
}

/// Resolves the value of a dist-tag that is there, nothing standing for one that is no
/// string. The version is validated, and bounded to the characters that can stand on a
/// command line.
pub fn read_tag(raw: Option<&str>) -> (found: ChannelLookup)
    ensures
        found@ == tag_lookup(opt_str(raw)),
{
    match raw {
        Some(raw) => match parse_version(raw) {
            Some(version) => ChannelLookup::Version(version),
            None => ChannelLookup::Failed,
        },
        None => ChannelLookup::Failed,
    }
}

/// Resolves one channel out of the dist-tags.
pub fn channel_dsh_version(
    tags: &serde_json::Map<String, serde_json::Value>,
    channel: &str,
) -> (found: ChannelLookup)
    ensures
        found@ == lookup(fields(*tags), channel@),
{
    if has_field(tags, channel) {
        read_tag(borrowed(&get_text(tags, channel)))
    } else {
        ChannelLookup::Missing
    }
}

// ---------------------------------------------------------------- the check

/// What the version check found.
#[allow(inconsistent_fields)]
#[derive(Debug)]
pub enum VersionCheck {
    /// Both versions are known and were compared.
    Compared {
        installed: String,
        channel: &'static str,
        target: String,
        relation: VersionRelation,
    },
    /// The registry answered, but the channel has nothing published.
    ChannelEmpty { installed: String, channel: &'static str },
    /// dsh is not installed, so there is nothing to compare.
    NotInstalled,
    /// The check itself failed.
    Failed { installed: Option<String>, channel: &'static str, reason: String },
}

/// What a version check says.
#[allow(inconsistent_fields)]
pub enum Checked {
    Compared {
        installed: Seq<char>,
        channel: Seq<char>,
        target: Seq<char>,
        relation: VersionRelation,
    },
    ChannelEmpty { installed: Seq<char>, channel: Seq<char> },
    NotInstalled,
    Failed { installed: Option<Seq<char>>, channel: Seq<char>, reason: Seq<char> },
}

impl View for VersionCheck {
    type V = Checked;

    open spec fn view(&self) -> Checked {
        match self {
            VersionCheck::Compared { installed, channel, target, relation } => Checked::Compared {
                installed: installed@,
                channel: channel@,
                target: target@,
                relation: *relation,
            },
            VersionCheck::ChannelEmpty { installed, channel } => Checked::ChannelEmpty {
                installed: installed@,
                channel: channel@,
            },
            VersionCheck::NotInstalled => Checked::NotInstalled,
            VersionCheck::Failed { installed, channel, reason } => Checked::Failed {
                installed: opt_text(*installed),
                channel: channel@,
                reason: reason@,
            },
        }
    }
}

/// Why there is no answer when dsh does not say its version.
pub open spec fn no_version_reason() -> Seq<char> {
    "无法确定本机 dsh 的版本（`dsh --version` 没有输出可识别的版本号）。"@
}

/// Why there is no answer without npm.
pub open spec fn no_npm_reason() -> Seq<char> {
    "PATH 中没有 npm，无法查询最新版本。"@
}

/// Why there is no answer when npm does not give the dist-tags.
pub open spec fn no_tags_reason() -> Seq<char> {
    "无法从 npm 查询 "@ + DSH_PACKAGE@ + " 的版本信息，通常是网络或注册表配置问题。"@
}

/// Why there is no answer when the channel's tag is no version.
pub open spec fn bad_tag_reason(channel: Seq<char>) -> Seq<char> {
    DSH_PACKAGE@ + " 的 "@ + channel + " 通道返回了无法识别的版本号。"@
}

/// The outcome once the installed version and the dist-tags are known.
pub open spec fn resolved(
    channel: Seq<char>,
    installed: Seq<char>,
    tags: Map<Seq<char>, Field>,
) -> Checked {
    looked_up(channel, installed, lookup(tags, channel))
}

/// The outcome once it is known what is installed and what the channel resolves to.
pub open spec fn looked_up(channel: Seq<char>, installed: Seq<char>, found: Lookup) -> Checked {
    match found {
        Lookup::Version(target) => Checked::Compared {
            installed,
            channel,
            target,
            relation: relation(target, installed),
        },
        Lookup::Missing => Checked::ChannelEmpty { installed, channel },
        Lookup::Failed => Checked::Failed {
            installed: Some(installed),
            channel,
            reason: bad_tag_reason(channel),
        },
    }
}

/// What a check of `channel` comes to: whether dsh is on the path, what it printed for
/// its version, whether npm is on the path, and what that printed for the dist-tags.
/// Each is looked at only when those before it leave the outcome open.
pub open spec fn checked(
    channel: Seq<char>,
    has_dsh: bool,
    version_output: Option<Seq<char>>,
    has_npm: bool,
    tags_output: Option<Seq<char>>,
) -> Checked {
    if !has_dsh {
        Checked::NotInstalled
    } else {
        match version_printed(version_output) {
            None => Checked::Failed { installed: None, channel, reason: no_version_reason() },
            Some(installed) => if !has_npm {
                Checked::Failed { installed: Some(installed), channel, reason: no_npm_reason() }
            } else {
                match tags_printed(tags_output) {
                    None => Checked::Failed {
                        installed: Some(installed),
                        channel,
                        reason: no_tags_reason(),
                    },
                    Some(tags) => resolved(channel, installed, tags),
                }
            },
        }
    }
}

/// The outcome once the installed version and the dist-tags are known.
pub fn resolve_check(
    channel: &'static str,
    installed: String,
    tags: &serde_json::Map<String, serde_json::Value>,
) -> (check: VersionCheck)
    ensures
        check@ == resolved(channel@, installed@, fields(*tags)),
{
    compare_found(channel, installed, channel_dsh_version(tags, channel))
}

/// The outcome once it is known what is installed and what the channel resolves to.
pub fn compare_found(
    channel: &'static str,
    installed: String,
    found: ChannelLookup,
) -> (check: VersionCheck)
    ensures
        check@ == looked_up(channel@, installed@, found@),
{
    match found {
        ChannelLookup::Version(target) => {
            let relation = relate(target.as_str(), installed.as_str());
            VersionCheck::Compared { installed, channel, target, relation }
        },
        ChannelLookup::Missing => VersionCheck::ChannelEmpty { installed, channel },
        ChannelLookup::Failed => VersionCheck::Failed {
            installed: Some(installed),
            channel,
            reason: cat4(DSH_PACKAGE, " 的 ", channel, " 通道返回了无法识别的版本号。"),
        },
    }
}

/// The next thing to find out in a check, or its outcome.
#[derive(Debug)]
pub enum Inquiry {
    /// Whether `dsh` is on the path.
    FindDsh,
    /// What `dsh --version` prints.
    AskVersion,
    /// Whether `npm` is on the path.
    FindNpm { installed: String },
    /// What `npm view` prints for the dist-tags.
    AskTags { installed: String },
    /// Nothing more.
    Done(VersionCheck),
}

/// What an inquiry is about.
pub enum Asking {
    FindDsh,
    AskVersion,
    FindNpm { installed: Seq<char> },
    AskTags { installed: Seq<char> },
    Done(Checked),
}

impl View for Inquiry {
    type V = Asking;

    open spec fn view(&self) -> Asking {
        match self {
            Inquiry::FindDsh => Asking::FindDsh,
            Inquiry::AskVersion => Asking::AskVersion,
            Inquiry::FindNpm { installed } => Asking::FindNpm { installed: installed@ },
            Inquiry::AskTags { installed } => Asking::AskTags { installed: installed@ },
            Inquiry::Done(check) => Asking::Done(check@),
        }
    }
}

/// An inquiry after it was told whether the command that it looks for is there.
pub open spec fn told_found(asking: Asking, channel: Seq<char>, found: bool) -> Asking {
    match asking {
        Asking::FindDsh => if found {
            Asking::AskVersion
        } else {
            Asking::Done(Checked::NotInstalled)
        },
        Asking::FindNpm { installed } => if found {
            Asking::AskTags { installed }
        } else {
            Asking::Done(
                Checked::Failed { installed: Some(installed), channel, reason: no_npm_reason() },
            )
        },
        other => other,
    }
}

/// An inquiry after it was told what the command that it runs printed.
pub open spec fn told_output(
    asking: Asking,
    channel: Seq<char>,
    output: Option<Seq<char>>,
) -> Asking {
    match asking {
        Asking::AskVersion => match version_printed(output) {
            Some(installed) => Asking::FindNpm { installed },
            None => Asking::Done(
                Checked::Failed { installed: None, channel, reason: no_version_reason() },
            ),
        },
        Asking::AskTags { installed } => match tags_printed(output) {
            Some(tags) => Asking::Done(resolved(channel, installed, tags)),
            None => Asking::Done(
                Checked::Failed { installed: Some(installed), channel, reason: no_tags_reason() },
            ),
        },
        other => other,
    }
}

impl Inquiry {
    /// Goes on with whether the command that is looked for is on the path.
    pub fn found(self, channel: &'static str, found: bool) -> (next: Inquiry)
        ensures
            next@ == told_found(self@, channel@, found),
    {
        match self {
            Inquiry::FindDsh => if found {
                Inquiry::AskVersion
            } else {
                Inquiry::Done(VersionCheck::NotInstalled)
            },
            Inquiry::FindNpm { installed } => if found {
                Inquiry::AskTags { installed }
            } else {
                Inquiry::Done(
                    VersionCheck::Failed {
                        installed: Some(installed),
                        channel,
                        reason: "PATH 中没有 npm，无法查询最新版本。".to_string(),
                    },
                )
            },
            other => other,
        }
    }

    /// Goes on with what the command that was run printed.
    pub fn printed(self, channel: &'static str, output: Option<&str>) -> (next: Inquiry)
        ensures
            next@ == told_output(self@, channel@, opt_str(output)),
    {
        match self {
            Inquiry::AskVersion => match installed_dsh_version(output) {
                Some(installed) => Inquiry::FindNpm { installed },
                None => Inquiry::Done(
                    VersionCheck::Failed {
                        installed: None,
                        channel,
                        reason: "无法确定本机 dsh 的版本（`dsh --version` 没有输出可识别的版本号）。".to_string(),
                    },
                ),
            },
            Inquiry::AskTags { installed } => match dsh_dist_tags(output) {
                Some(tags) => Inquiry::Done(resolve_check(channel, installed, &tags)),
                None => Inquiry::Done(
                    VersionCheck::Failed {
                        installed: Some(installed),
                        channel,
                        reason: cat3(
                            "无法从 npm 查询 ",
                            DSH_PACKAGE,
                            " 的版本信息，通常是网络或注册表配置问题。",
                        ),
                    },
                ),
            },
            other => other,
        }
    }
}

/// The outcome of a check, from everything that there is to find out. A check that
/// asks only as far as it needs to is an `Inquiry`; both come to the same.
pub fn check_dsh_version(
    channel: &'static str,
    has_dsh: bool,
    version_output: Option<&str>,
    has_npm: bool,
    tags_output: Option<&str>,
) -> (check: VersionCheck)
    ensures
        check@ == checked(
            channel@,
            has_dsh,
            opt_str(version_output),
            has_npm,
            opt_str(tags_output),
        ),
{
    let inquiry = Inquiry::FindDsh.found(channel, has_dsh).printed(channel, version_output).found(
        channel,
        has_npm,
    ).printed(channel, tags_output);
    match inquiry {
        Inquiry::Done(check) => check,
        _ => VersionCheck::NotInstalled,
    }
}

/// An inquiry that is told what it asks for comes to the outcome of the check, asks for
/// nothing more once dsh is missing, and asks npm nothing while the installed version
/// is unknown.
pub proof fn law_inquiry_comes_to_the_check(
    channel: Seq<char>,
    has_dsh: bool,
    version_output: Option<Seq<char>>,
    has_npm: bool,
    tags_output: Option<Seq<char>>,
)
    ensures
        ({
            let first = told_found(Asking::FindDsh, channel, has_dsh);
            let second = told_output(first, channel, version_output);
            let third = told_found(second, channel, has_npm);
            let outcome = Asking::Done(
                checked(channel, has_dsh, version_output, has_npm, tags_output),
            );
            &&& told_output(third, channel, tags_output) == outcome
            &&& !has_dsh ==> first == outcome
            &&& version_printed(version_output) is None ==> second == outcome
            &&& !has_npm ==> third == outcome
        }),
{
}

// ---------------------------------------------------------------- reporting it

/// What the page is told of a check. `followed` is the channel that dsh follows.
pub open spec fn report_of(check: Checked, followed: Seq<char>) -> Reported {
    match check {
        Checked::Compared { installed, channel, target, relation } => Reported {
            state: CheckState::Related(relation),
            channel,
            installed: Some(installed),
            target: Some(target),
            reason: None,
        },
        Checked::ChannelEmpty { installed, channel } => Reported {
            state: CheckState::ChannelEmpty,
            channel,
            installed: Some(installed),
            target: None,
            reason: None,
        },
        Checked::NotInstalled => Reported {
            state: CheckState::NotInstalled,
            channel: followed,
            installed: None,
            target: None,
            reason: None,
        },
        Checked::Failed { installed, channel, reason } => Reported {
            state: CheckState::Failed,
            channel,
            installed,
            target: None,
            reason: Some(reason),
        },
    }
}

pub fn report_dsh_version(check: &VersionCheck, followed: &str) -> (report: VersionReport)
    ensures
        report@ == report_of(check@, followed@),
{
    match check {
        VersionCheck::Compared { installed, channel, target, relation } => version_payload(
            CheckState::Related(*relation),
            channel,
            Some(installed.as_str()),
            Some(target.as_str()),
            None,
        ),
        VersionCheck::ChannelEmpty { installed, channel } => version_payload(
            CheckState::ChannelEmpty,
            channel,
            Some(installed.as_str()),
            None,
            None,
        ),
        VersionCheck::NotInstalled => version_payload(
            CheckState::NotInstalled,
            followed,
            None,
            None,
            None,
        ),
        VersionCheck::Failed { installed, channel, reason } => version_payload(
            CheckState::Failed,
            channel,
            borrowed(installed),
            None,
            Some(reason.as_str()),
        ),
    }
}

} // verus!
