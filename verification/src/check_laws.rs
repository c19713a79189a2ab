//! What a check of dsh comes to, over what the commands printed, and what is told of it.
use crate::check::{
    bad_tag_reason, checked, no_npm_reason, no_tags_reason, no_version_reason, report_of, Checked,
    DSH_PACKAGE,
};
use crate::json::{object_in, Field};
use crate::scan::has_part;
use crate::scan_laws::law_parts_are_found;
use crate::status::CheckState;
use crate::version::{found_version, relation};
use vstd::prelude::*;

verus! {

/// Without dsh there is nothing to check, and with it there is.
pub proof fn law_missing_dsh_is_told(
    channel: Seq<char>,
    has_dsh: bool,
    version_output: Option<Seq<char>>,
    has_npm: bool,
    tags_output: Option<Seq<char>>,
)
    ensures
        checked(channel, has_dsh, version_output, has_npm, tags_output) == Checked::NotInstalled
            <==> !has_dsh,
{
}

/// A dsh that prints no version is told so, and nothing else is made of it.
pub proof fn law_unknown_version_is_told(
    channel: Seq<char>,
    output: Seq<char>,
    has_npm: bool,
    tags_output: Option<Seq<char>>,
)
    ensures
        checked(channel, true, None, has_npm, tags_output) == (Checked::Failed {
            installed: None,
            channel,
            reason: no_version_reason(),
        }),
        found_version(output) is None ==> checked(
            channel,
            true,
            Some(output),
            has_npm,
            tags_output,
        ) == (Checked::Failed { installed: None, channel, reason: no_version_reason() }),
{
}

/// With a version printed, it is compared with the one that the channel's own tag has, and
/// with no other. Where npm, its answer, the tag or a version in it is missing, that is
/// what is told, with the version that is installed.
pub proof fn law_channel_is_compared_with_what_is_installed(
    channel: Seq<char>,
    output: Seq<char>,
    installed: Seq<char>,
    answer: Seq<char>,
    tags: Map<Seq<char>, Field>,
    raw: Seq<char>,
)
    requires
        found_version(output) == Some(installed),
        object_in(answer) == Some(tags),
    ensures
        tags.contains_key(channel) && tags[channel] == Field::Text(raw) ==> (match found_version(
            raw,
        ) {
            Some(target) => checked(channel, true, Some(output), true, Some(answer)) == (
            Checked::Compared {
                installed,
                channel,
                target,
                relation: relation(target, installed),
            }),
            None => checked(channel, true, Some(output), true, Some(answer)) == (Checked::Failed {
                installed: Some(installed),
                channel,
                reason: bad_tag_reason(channel),
            }),
        }),
        tags.contains_key(channel) && !(tags[channel] is Text) ==> checked(
            channel,
            true,
            Some(output),
            true,
            Some(answer),
        ) == (Checked::Failed {
            installed: Some(installed),
            channel,
            reason: bad_tag_reason(channel),
        }),
        !tags.contains_key(channel) ==> checked(channel, true, Some(output), true, Some(answer))
            == (Checked::ChannelEmpty { installed, channel }),
{
}

/// Without npm, or with an npm that answers nothing that can be read, the check fails, with
/// the version that is installed.
pub proof fn law_silent_npm_is_told(
    channel: Seq<char>,
    output: Seq<char>,
    installed: Seq<char>,
    answer: Seq<char>,
    tags_output: Option<Seq<char>>,
)
    requires
        found_version(output) == Some(installed),
    ensures
        checked(channel, true, Some(output), false, tags_output) == (Checked::Failed {
            installed: Some(installed),
            channel,
            reason: no_npm_reason(),
        }),
        checked(channel, true, Some(output), true, None) == (Checked::Failed {
            installed: Some(installed),
            channel,
            reason: no_tags_reason(),
        }),
        object_in(answer) is None ==> checked(channel, true, Some(output), true, Some(answer)) == (
        Checked::Failed { installed: Some(installed), channel, reason: no_tags_reason() }),
{
}

/// A tag that is no version is told with the whole name of its channel, and with the
/// package; so is a registry that does not answer.
pub proof fn law_reasons_name_what_they_are_about(channel: Seq<char>)
    ensures
        has_part(bad_tag_reason(channel), channel),
        has_part(bad_tag_reason(channel), DSH_PACKAGE@),
        has_part(no_tags_reason(), DSH_PACKAGE@),
{
    let empty = Seq::<char>::empty();
    let tail = " 通道返回了无法识别的版本号。"@;
    law_parts_are_found(DSH_PACKAGE@ + " 的 "@, channel, tail);
    law_parts_are_found(empty, DSH_PACKAGE@, " 的 "@ + channel + tail);
    assert(bad_tag_reason(channel) =~= empty + DSH_PACKAGE@ + (" 的 "@ + channel + tail));
    law_parts_are_found(
        "无法从 npm 查询 "@,
        DSH_PACKAGE@,
        " 的版本信息，通常是网络或注册表配置问题。"@,
    );
}

/// The page is told all that a check found: two checks that are told alike are the same.
pub proof fn law_reports_leave_nothing_out(a: Checked, b: Checked, followed: Seq<char>)
    ensures
        report_of(a, followed) == report_of(b, followed) ==> a == b,
        a matches Checked::Compared { installed, channel, target, relation } ==> {
            let report = report_of(a, followed);
            &&& report.state == CheckState::Related(relation)
            &&& report.channel == channel
            &&& report.installed == Some(installed)
            &&& report.target == Some(target)
            &&& report.reason is None
        },
        a matches Checked::Failed { installed, channel, reason } ==> {
            let report = report_of(a, followed);
            &&& report.state == CheckState::Failed
            &&& report.channel == channel
            &&& report.installed == installed
            &&& report.target is None
            &&& report.reason == Some(reason)
        },
        a matches Checked::ChannelEmpty { installed, channel } ==> {
            let report = report_of(a, followed);
            &&& report.state == CheckState::ChannelEmpty
            &&& report.channel == channel
            &&& report.installed == Some(installed)
            &&& report.target is None
            &&& report.reason is None
        },
        report_of(Checked::NotInstalled, followed).channel == followed,
{
}

} // verus!
