//! What a check that was asked for in the tray does, over what it finds and is answered.
use crate::check::{report_of, Checked};
use crate::dialog::{dsh_answer, replace_failed, shell_answer};
use crate::shell_update::{shell_reported, ShellOffer};
use crate::tray_check::{
    dsh_tray_run, law_dsh_check_comes_to_an_end, law_shell_check_comes_to_an_end, shell_tray_run,
    DshTrayDeed, DshTrayNews, ShellTrayDeed, ShellTrayNews, ShellTrayStage,
};
use crate::upgrade::checking;
use crate::version::VersionRelation;
use vstd::prelude::*;

verus! {

/// A check of dsh that found another version asks, and with a yes moves dsh on the channel
/// that was checked, and does nothing more; with a no, or where there is no other version,
/// nothing is moved. Either way it is reported as begun and as found, and answered once.
pub proof fn law_yes_moves_dsh(channel: Seq<char>, check: Checked, yes: bool)
    ensures
        ({
            let (deeds, stage) = dsh_tray_run(
                channel,
                seq![DshTrayNews::Checked(check), DshTrayNews::Answered(yes)],
            );
            let differs = check matches Checked::Compared { relation, .. } && (relation
                == VersionRelation::Newer || relation == VersionRelation::Older);
            &&& stage is Finished
            &&& deeds[0] == DshTrayDeed::Report(checking(channel, None))
            &&& deeds[1] == DshTrayDeed::Report(report_of(check, channel))
            &&& differs ==> deeds[2] == DshTrayDeed::Ask(dsh_answer(check, channel))
            &&& !differs ==> deeds[2] == DshTrayDeed::Tell(dsh_answer(check, channel))
            &&& differs && yes ==> deeds.len() == 4 && deeds[3] == (DshTrayDeed::Upgrade {
                channel,
            })
            &&& !(differs && yes) ==> deeds.len() == 3
        }),
{
    law_dsh_check_comes_to_an_end(channel, check, yes);
}

/// A check of the shell that was offered another version asks, and with a yes installs that
/// version; then it restarts, or says why the install failed. With a no, or where there is no
/// other version, nothing is installed. Either way it is reported as begun and as found, and
/// answered once.
pub proof fn law_yes_installs_the_shell(
    channel: Seq<char>,
    installed: Seq<char>,
    offer: ShellOffer,
    yes: bool,
    error: Seq<char>,
)
    ensures
        ({
            let found = ShellTrayNews::Resolved(offer);
            let answer = ShellTrayNews::Answered(yes);
            let (deeds, stage) = shell_tray_run(channel, installed, seq![found, answer]);
            let good = shell_tray_run(
                channel,
                installed,
                seq![found, answer, ShellTrayNews::Installed(None)],
            );
            let bad = shell_tray_run(
                channel,
                installed,
                seq![found, answer, ShellTrayNews::Installed(Some(error))],
            );
            let differs = offer matches ShellOffer::Release { relation, .. } && (relation
                == VersionRelation::Newer || relation == VersionRelation::Older);
            &&& deeds.len() == 3
            &&& deeds[0] == ShellTrayDeed::Report(checking(channel, Some(installed)))
            &&& deeds[1] == ShellTrayDeed::Report(shell_reported(offer, channel, installed))
            &&& differs ==> deeds[2] == ShellTrayDeed::Ask(shell_answer(offer, channel, installed))
            &&& !differs ==> deeds[2] == ShellTrayDeed::Tell(
                shell_answer(offer, channel, installed),
            )
            &&& !(differs && yes) ==> stage is Finished && good.0 == deeds && bad.0 == deeds
            &&& offer matches ShellOffer::Release { version, .. } ==> differs && yes ==> stage == (
            ShellTrayStage::Install { version })
            &&& differs && yes ==> good.0 == deeds.push(ShellTrayDeed::Restart) && bad.0
                == deeds.push(ShellTrayDeed::Tell(replace_failed(error)))
            &&& good.1 is Finished && bad.1 is Finished
        }),
{
    law_shell_check_comes_to_an_end(channel, installed, offer, yes, None);
    law_shell_check_comes_to_an_end(channel, installed, offer, yes, Some(error));
    let found = ShellTrayNews::Resolved(offer);
    let answer = ShellTrayNews::Answered(yes);
    let deeds = shell_tray_run(channel, installed, seq![found, answer]).0;
    let good = shell_tray_run(
        channel,
        installed,
        seq![found, answer, ShellTrayNews::Installed(None)],
    ).0;
    let bad = shell_tray_run(
        channel,
        installed,
        seq![found, answer, ShellTrayNews::Installed(Some(error))],
    ).0;
    assert(good =~= deeds || good =~= deeds.push(ShellTrayDeed::Restart));
    assert(bad =~= deeds || bad =~= deeds.push(ShellTrayDeed::Tell(replace_failed(error))));
}

} // verus!
