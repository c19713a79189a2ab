//! What a boot does, over what it finds.
use crate::boot::{
    boot_run, frame_script, gui_at, gui_status, law_boot_comes_to_an_end, pause_before, BootDeed,
    BootStage, Preflight, Surroundings,
};
use crate::address::Address;
use crate::json::quoted;
use crate::log::never_ready;
use crate::scan::has_part;
use crate::scan_laws::{ends_in, law_endings, law_parts_are_found};
use crate::status::PageState;
use vstd::prelude::*;

verus! {

/// What a whole boot does.
pub open spec fn boot_does(around: Surroundings) -> Seq<BootDeed> {
    boot_run(around, 6).0
}

/// Whether a boot gets as far as to start a backend and to open its log.
pub open spec fn backend_runs(around: Surroundings) -> bool {
    &&& around.serving is None
    &&& around.found == Preflight::Ready
    &&& around.spawn_error is None
    &&& around.log is Ok
}

/// A GUI is shown at the address of the backend that serves already, or else at the one that
/// the backend which was started gave, and at no other: the whole of it.
pub proof fn law_gui_is_shown_where_it_was_found(around: Surroundings, url: Seq<char>)
    ensures
        around.serving == Some(url) ==> boot_does(around) == seq![BootDeed::ShowGui(url)],
        backend_runs(around) && around.url == Some(url) && url.len() > 0 ==> boot_does(
            around,
        ).contains(BootDeed::ShowGui(url)),
        boot_does(around).contains(BootDeed::ShowGui(url)) ==> around.serving == Some(url) || (
        backend_runs(around) && around.url == Some(url) && url.len() > 0),
{
    law_boot_comes_to_an_end(around);
    let deeds = boot_does(around);
    if backend_runs(around) && around.url == Some(url) && url.len() > 0 {
        assert(deeds[4] == BootDeed::ShowGui(url));
    }
}

/// A backend is held on to as soon as it was started and its log opened, and only then; and
/// before that the lock was cleared and the one before it given up.
pub proof fn law_backend_is_held_once_it_runs(around: Surroundings)
    ensures
        boot_does(around).contains(BootDeed::Keep) <==> backend_runs(around),
        boot_does(around).contains(BootDeed::Retire) <==> around.serving is None && around.found
            == Preflight::Ready,
        boot_does(around).contains(BootDeed::ClearLock) <==> around.serving is None && around.found
            == Preflight::Ready,
        backend_runs(around) ==> boot_does(around)[1] == BootDeed::ClearLock && boot_does(around)[2]
            == BootDeed::Retire && boot_does(around)[3] == BootDeed::Keep,
{
    law_boot_comes_to_an_end(around);
    let deeds = boot_does(around);
    if around.serving is None && around.found == Preflight::Ready {
        assert(deeds[1] == BootDeed::ClearLock);
        assert(deeds[2] == BootDeed::Retire);
        if backend_runs(around) {
            assert(deeds[3] == BootDeed::Keep);
        }
    }
}

/// A backend that gave its address is watched, with its own log, from when its GUI is shown;
/// no other is.
pub proof fn law_backend_is_watched_once_it_serves(around: Surroundings, log: Seq<char>)
    ensures
        boot_does(around).contains(BootDeed::Watch { log }) <==> backend_runs(around) && around.log
            == Ok::<Seq<char>, Seq<char>>(log) && (around.url matches Some(url) && url.len() > 0),
        boot_does(around).contains(BootDeed::Watch { log }) ==> boot_does(around).last() == (
        BootDeed::Watch { log }),
{
    law_boot_comes_to_an_end(around);
    let deeds = boot_does(around);
    if backend_runs(around) && around.log == Ok::<Seq<char>, Seq<char>>(log) && (
    around.url matches Some(url) && url.len() > 0) {
        assert(deeds[5] == BootDeed::Watch { log });
    }
}

/// What is missing is told: dsh, where npm could install it, and else Node.js.
pub proof fn law_missing_dsh_ends_the_boot(around: Surroundings, has_npm: bool)
    requires
        around.serving is None,
        around.found == (Preflight::NoDsh { has_npm }),
    ensures
        boot_does(around).len() == 1,
        boot_does(around)[0] matches BootDeed::Show(shown) && shown.state == (if has_npm {
            PageState::MissingDsh
        } else {
            PageState::MissingNode
        }) && shown.detail.len() == 0,
{
    law_boot_comes_to_an_end(around);
}

/// Why a backend did not start, or its log did not open, is told whole, at the end of the
/// one line that is shown last.
pub proof fn law_boot_errors_are_told_whole(around: Surroundings, error: Seq<char>)
    requires
        around.serving is None,
        around.found == Preflight::Ready,
        around.spawn_error == Some(error) || (around.spawn_error is None && around.log == Err::<
            Seq<char>,
            Seq<char>,
        >(error)),
    ensures
        boot_does(around).last() matches BootDeed::Show(shown) && shown.state == PageState::Error
            && shown.detail.len() == 1 && ends_in(shown.detail[0], error),
        boot_does(around).len() == 4,
{
    law_boot_comes_to_an_end(around);
    law_endings("无法启动 `dsh web`："@, error);
    law_endings("无法打开后端日志："@, error);
}

/// A backend that never gives its address, or is gone before, leaves what its own log says,
/// as an error.
pub proof fn law_silent_backend_is_told(around: Surroundings, log: Seq<char>)
    requires
        backend_runs(around),
        around.log == Ok::<Seq<char>, Seq<char>>(log),
        around.url is None || around.url->0.len() == 0,
    ensures
        boot_does(around).last() matches BootDeed::Show(shown) && shown.state == PageState::Error
            && shown.detail == never_ready(around.log_text, log),
        boot_does(around).len() == 5,
{
    law_boot_comes_to_an_end(around);
}

/// A boot is over within six steps, whatever it finds, and then does no more.
pub proof fn law_boot_is_over(around: Surroundings, more: nat)
    ensures
        boot_run(around, 6 + more) == (boot_does(around), BootStage::Finished),
    decreases more,
{
    law_boot_comes_to_an_end(around);
    if more > 0 {
        law_boot_is_over(around, (more - 1) as nat);
        assert(boot_does(around) + Seq::<BootDeed>::empty() =~= boot_does(around));
    }
}

/// The page is told the whole address that was parsed, first of all, and whose backend it
/// is; and the script hands the same address on. What did not parse is not shown.
pub proof fn law_gui_status_tells_the_address(address: Address, ours: bool, other: bool)
    ensures
        gui_at(None, ours) is None,
        gui_at(Some(address), ours) == Some(
            (gui_status(address.href, ours), frame_script(address.href)),
        ),
        gui_status(address.href, ours).state == PageState::Ready,
        gui_status(address.href, ours).detail.len() == 2,
        gui_status(address.href, ours).detail[0] == address.href,
        gui_status(address.href, ours).detail[1] == gui_status(address.href, other).detail[1]
            <==> ours == other,
        has_part(frame_script(address.href), quoted(address.href)),
{
    reveal_strlit("owned");
    reveal_strlit("foreign");
    assert("owned"@.len() != "foreign"@.len());
    law_parts_are_found(
        "window.__dshSetFrame && window.__dshSetFrame("@,
        quoted(address.href),
        ")"@,
    );
}

/// The script is run six times, at once and then after pauses that are all alike.
pub proof fn law_script_is_run_six_times(attempt: u32)
    ensures
        pause_before(attempt) is Some <==> attempt < 6,
        pause_before(0) == Some(0u64),
        0 < attempt < 6 ==> pause_before(attempt) == Some(350u64),
{
}

} // verus!
