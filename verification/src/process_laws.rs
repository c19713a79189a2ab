//! What the commands are given, and what is read out of their results, over all of it.
use crate::process::{
    captured_command, captured_text, exit_code_text, first_kill_step, image_command, image_in,
    install_command, install_failure, kill_command, kill_steps, lookup_command, lost, names_node,
    next_kill_step, not_run, KillSeen, KillStep,
};
use crate::scan::{decimal, has_part, numeral, value};
use crate::scan_laws::{
    blank, bounded, ends_in, law_cut_at_the_first_mark, law_decimal_has_no_zero_in_front,
    law_endings, law_parts_are_found, law_parts_have_surroundings,
    law_trimming_leaves_nothing_of_a_blank, law_trimming_leaves_the_middle, made_of,
};
use crate::decode::lossy;
use crate::text::digit;
use vstd::prelude::*;

verus! {

// ---------------------------------------------------------------- commands

/// A command is looked for by its whole name, which is an argument on its own: what else is
/// run is the same for every name.
pub proof fn law_lookup_is_given_the_name(windows: bool, name: Seq<char>, other: Seq<char>)
    ensures
        lookup_command(windows, name).args.len() > 0,
        lookup_command(windows, name).args.last() == name,
        lookup_command(windows, name).program == lookup_command(windows, other).program,
        lookup_command(windows, name).args.drop_last() == lookup_command(
            windows,
            other,
        ).args.drop_last(),
        windows ==> lookup_command(windows, name).args.len() == 1,
{
    assert(lookup_command(windows, name).args.drop_last() =~= lookup_command(
        windows,
        other,
    ).args.drop_last());
}

/// A command whose output is wanted gets every argument, in order: through a shell behind
/// the shell's own, and else as it stands.
pub proof fn law_captured_command_keeps_its_arguments(argv: Seq<Seq<char>>)
    requires
        argv.len() > 0,
    ensures
        captured_command(true, argv).args.len() == argv.len() + 1,
        captured_command(true, argv).args.skip(1) == argv,
        seq![captured_command(false, argv).program] + captured_command(false, argv).args == argv,
{
    assert(captured_command(true, argv).args.skip(1) =~= argv);
    assert(seq![captured_command(false, argv).program] + captured_command(false, argv).args
        =~= argv);
}

/// The output of a command that failed is not looked at, and that of one that succeeded is
/// taken whole.
pub proof fn law_output_counts_on_success(stdout: Seq<u8>)
    ensures
        captured_text(false, stdout) is None,
        captured_text(true, stdout) == Some(lossy(stdout)),
{
}

/// npm is told the whole package, as the last of its arguments; what else it is told is the
/// same for every package.
pub proof fn law_install_is_given_the_package(windows: bool, package: Seq<char>, other: Seq<char>)
    ensures
        install_command(windows, package).args.len() > 0,
        install_command(windows, package).args.last() == package,
        install_command(windows, package).program == install_command(windows, other).program,
        install_command(windows, package).args.drop_last() == install_command(
            windows,
            other,
        ).args.drop_last(),
        install_command(true, package).args.skip(2) == install_command(false, package).args,
{
    assert(install_command(windows, package).args.drop_last() =~= install_command(
        windows,
        other,
    ).args.drop_last());
    assert(install_command(true, package).args.skip(2) =~= install_command(false, package).args);
}

/// An exit code is written as the number that it is, with a minus sign below zero. So
/// different codes are told apart, and a missing one from all of them.
pub proof fn law_exit_codes_read_back(code: i32)
    ensures
        code >= 0 ==> numeral(exit_code_text(Some(code))) && value(exit_code_text(Some(code)))
            == code,
        code < 0 ==> exit_code_text(Some(code)).len() > 1 && exit_code_text(Some(code))[0] == '-'
            && numeral(exit_code_text(Some(code)).skip(1)) && value(
            exit_code_text(Some(code)).skip(1),
        ) == -code,
        exit_code_text(Some(code)) != exit_code_text(None),
{
    reveal_strlit("-");
    reveal_strlit("未知");
    if code >= 0 {
        law_decimal_has_no_zero_in_front(code as nat);
        assert(digit(exit_code_text(Some(code))[0]));
    } else {
        law_decimal_has_no_zero_in_front((-code) as nat);
        assert(exit_code_text(Some(code)).skip(1) =~= decimal((-code) as nat));
    }
}

/// The user is told the whole of what failed: the package and the exit code of an install,
/// and the error of an npm that could not be run or waited for.
pub proof fn law_failures_are_told_whole(
    package: Seq<char>,
    code: Option<i32>,
    error: Seq<char>,
    other: Seq<char>,
)
    ensures
        has_part(install_failure(package, code), package),
        has_part(install_failure(package, code), exit_code_text(code)),
        has_part(not_run(error), error),
        has_part(lost(error), error),
        not_run(error) == not_run(other) ==> error == other,
        lost(error) == lost(other) ==> error == other,
{
    let empty = Seq::<char>::empty();
    let head = "npm install -g "@;
    let middle = " 失败（退出码 "@;
    let tail = "）。上面的日志里通常有原因，常见的是网络或权限问题。"@;
    let text = install_failure(package, code);
    law_parts_are_found(head, package, middle + exit_code_text(code) + tail);
    assert(text =~= head + package + (middle + exit_code_text(code) + tail));
    law_parts_are_found(head + package + middle, exit_code_text(code), tail);
    law_parts_are_found("无法执行 npm："@, error, empty);
    assert(not_run(error) =~= "无法执行 npm："@ + error + empty);
    law_parts_are_found("npm 执行失败："@, error, empty);
    assert(lost(error) =~= "npm 执行失败："@ + error + empty);
    let n = "无法执行 npm："@.len() as int;
    let m = "npm 执行失败："@.len() as int;
    assert(not_run(error).skip(n) =~= error && not_run(other).skip(n) =~= other);
    assert(lost(error).skip(m) =~= error && lost(other).skip(m) =~= other);
}

// ---------------------------------------------------------------- processes

/// A process is looked up, and ended, by its own number: the second of the arguments ends
/// in it, or is it.
pub proof fn law_processes_go_by_number(windows: bool, pid: nat, force: bool)
    ensures
        image_command(windows, pid).args.len() > 1,
        ends_in(image_command(windows, pid).args[1], decimal(pid)),
        kill_command(windows, pid, force).args.len() > 1,
        kill_command(windows, pid, force).args[1] == decimal(pid),
        numeral(decimal(pid)),
        value(decimal(pid)) == pid,
{
    law_decimal_has_no_zero_in_front(pid);
    assert(ends_in(image_command(windows, pid).args[1], decimal(pid))) by {
        lemma_ends_in("PID eq "@, decimal(pid));
        lemma_ends_in(Seq::empty(), decimal(pid));
        assert(Seq::empty() + decimal(pid) =~= decimal(pid));
    }
}

proof fn lemma_ends_in(front: Seq<char>, back: Seq<char>)
    ensures
        ends_in(front + back, back),
{
    law_endings(front, back);
}

/// Force and a request are different commands, and on Windows either one is for the whole
/// tree.
pub proof fn law_force_is_asked_for(windows: bool, pid: nat)
    ensures
        windows ==> kill_command(windows, pid, true).args == kill_command(
            windows,
            pid,
            false,
        ).args.push("/F"@),
        windows ==> kill_command(windows, pid, false).args.last() == "/T"@,
        !windows ==> kill_command(windows, pid, true).args[0] == "-9"@,
        !windows ==> kill_command(windows, pid, false).args[0] == "-TERM"@,
{
    if windows {
        assert(kill_command(windows, pid, true).args =~= kill_command(
            windows,
            pid,
            false,
        ).args.push("/F"@));
    }
}

/// On Windows the image is what stands between the first two quotes of a listing that
/// begins with one; anything else names none.
pub proof fn law_image_stands_in_quotes(image: Seq<char>, rest: Seq<char>, listing: Seq<char>)
    requires
        forall|i: int| 0 <= i < image.len() ==> #[trigger] image[i] != '"',
    ensures
        image_in(true, seq!['"'] + (image + seq!['"'] + rest)) == Some(image),
        image_in(true, seq!['"'] + image) == Some(image),
        listing.len() == 0 || listing[0] != '"' ==> image_in(true, listing) is None,
{
    let inner = image + seq!['"'] + rest;
    law_cut_at_the_first_mark(image, '"', rest);
    assert((seq!['"'] + inner).drop_first() =~= inner);
    assert((seq!['"'] + image).drop_first() =~= image);
}

/// Elsewhere the image is the listing, without the white space around it; a blank listing
/// names none.
pub proof fn law_image_is_the_listing(front: Seq<char>, image: Seq<char>, back: Seq<char>)
    requires
        blank(front),
        blank(back),
    ensures
        bounded(image) ==> image_in(false, front + image + back) == Some(image),
        image_in(false, front) is None,
{
    law_trimming_leaves_nothing_of_a_blank(front);
    if bounded(image) {
        law_trimming_leaves_the_middle(front, image, back);
    }
}

/// An image is that of a node process as soon as it has `node` anywhere in it, and only
/// then.
pub proof fn law_node_is_named(windows: bool, listing: Seq<char>)
    ensures
        names_node(windows, listing) <==> (image_in(windows, listing) matches Some(image) && exists|
            a: Seq<char>,
            b: Seq<char>,
        | #[trigger] made_of(image, a, "node"@, b)),
{
    if image_in(windows, listing) is Some {
        law_parts_have_surroundings(image_in(windows, listing)->0, "node"@);
    }
}

// ---------------------------------------------------------------- ending

/// A process that was asked to end gets eight seconds: before they are over it is looked
/// for and not forced, and then it is forced.
pub proof fn law_grace_is_eight_seconds(ms: u64)
    ensures
        ms < 8000 ==> next_kill_step(KillStep::ReadClock, KillSeen::Elapsed(ms))
            == KillStep::CheckAlive,
        ms >= 8000 ==> next_kill_step(KillStep::ReadClock, KillSeen::Elapsed(ms)) == (
        KillStep::Terminate { force: true }),
        next_kill_step(
            next_kill_step(KillStep::CheckAlive, KillSeen::Alive(true)),
            KillSeen::Done,
        ) == KillStep::ReadClock,
        next_kill_step(first_kill_step(false), KillSeen::Done) == KillStep::ReadClock,
        first_kill_step(false) != first_kill_step(true),
{
}

/// Whether a row of things seen has, at `i`, a process that is gone, or one that was
/// forced.
pub open spec fn ended_at(windows: bool, seen: Seq<KillSeen>, i: int) -> bool {
    &&& 0 <= i < seen.len()
    &&& seen[i] == KillSeen::Alive(false) || (seen[i] == KillSeen::Done && kill_steps(
        windows,
        seen.take(i),
    ) == (KillStep::Terminate { force: true }))
}

/// There is no end to it before the process is found gone or was forced.
pub proof fn law_ending_is_seen_through(windows: bool, seen: Seq<KillSeen>)
    ensures
        kill_steps(windows, seen) == KillStep::Finish ==> exists|i: int| #[trigger]
            ended_at(windows, seen, i),
    decreases seen.len(),
{
    if seen.len() > 0 && kill_steps(windows, seen) == KillStep::Finish {
        let fewer = seen.drop_last();
        let last = seen.len() - 1;
        law_ending_is_seen_through(windows, fewer);
        if kill_steps(windows, fewer) == KillStep::Finish {
            let i = choose|i: int| #[trigger] ended_at(windows, fewer, i);
            assert(fewer.take(i) =~= seen.take(i));
            assert(ended_at(windows, seen, i));
        } else {
            assert(fewer =~= seen.take(last));
            assert(ended_at(windows, seen, last));
        }
    }
}

} // verus!
