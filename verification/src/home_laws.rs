//! Which directory, which process and which backup are meant, over the texts.
use crate::home::{
    backing_up_line, backup_of, copy_outcome, lock_found, lock_judged, lock_owner, state_dir,
    users_home, workspace, Copying, LockStep, Where,
};
use crate::json::{object_in, Field};
use crate::scan::{decimal, has_part, numeral, value};
use crate::scan_laws::{
    begins, blank, bounded, ends_in, law_beginnings, law_decimal_has_no_zero_in_front, law_endings,
    law_parts_are_found, law_trimming_leaves_nothing_of_a_blank, law_trimming_leaves_the_middle,
};
use vstd::prelude::*;

verus! {

/// Where dsh keeps its state goes by what is set, without the white space around it: a
/// tilde alone is the user's home, a tilde with a slash or a backslash what follows them
/// below that home, and anything else the directory of that whole name. Where nothing is
/// set it is `.dsh` below the home.
pub proof fn law_state_dir_is_the_one_that_is_named(
    front: Seq<char>,
    dir: Seq<char>,
    back: Seq<char>,
    rest: Seq<char>,
)
    requires
        blank(front),
        blank(back),
        bounded(dir),
    ensures
        dir == "~"@ ==> state_dir(Some(front + dir + back)) == Where::Home,
        dir == "~/"@ + rest ==> state_dir(Some(front + dir + back)) == Where::UnderHome(rest),
        dir == "~\\"@ + rest ==> state_dir(Some(front + dir + back)) == Where::UnderHome(rest),
        dir != "~"@ && !begins(dir, "~/"@) && !begins(dir, "~\\"@) ==> state_dir(
            Some(front + dir + back),
        ) == Where::Named(dir),
        state_dir(Some(front)) == Where::UnderHome(".dsh"@),
        state_dir(None) == Where::UnderHome(".dsh"@),
{
    reveal_strlit("~");
    reveal_strlit("~/");
    reveal_strlit("~\\");
    law_trimming_leaves_the_middle(front, dir, back);
    law_trimming_leaves_nothing_of_a_blank(front);
    law_beginnings(dir, "~/"@);
    law_beginnings(dir, "~\\"@);
    if dir == "~/"@ + rest {
        law_endings("~/"@, rest);
        assert(dir.skip(2) =~= rest);
    }
    if dir == "~\\"@ + rest {
        law_endings("~\\"@, rest);
        assert(dir.skip(2) =~= rest);
    }
}

/// A directory that is set is taken as it is, whole; the user's home stands in for an empty
/// one as a workspace, and the current directory for a home that is not set.
pub proof fn law_directories_are_taken_whole(dir: Seq<char>)
    ensures
        dir.len() > 0 ==> workspace(Some(dir)) == Where::Named(dir),
        dir.len() == 0 ==> workspace(Some(dir)) == Where::Home,
        workspace(None) == Where::Home,
        users_home(Some(dir)) == dir,
        users_home(None) == "."@,
{
}

/// A lock names a process by the unsigned integer under `pid`, and by nothing else.
pub proof fn law_lock_names_its_owner(raw: Seq<char>, pid: u64)
    ensures
        object_in(raw) is None ==> lock_owner(raw) is None,
        object_in(raw) matches Some(fields) ==> {
            &&& fields.contains_key("pid"@) && fields["pid"@] == Field::Natural(pid) ==> lock_owner(
                raw,
            ) == Some(pid)
            &&& !(fields.contains_key("pid"@) && fields["pid"@] is Natural) ==> lock_owner(
                raw,
            ) is None
        },
{
}

/// The process that a lock names is the one that is asked for, and with no process named
/// none is; a lock that cannot be read is left.
pub proof fn law_owner_is_asked_for(raw: Seq<char>, alive: bool)
    ensures
        lock_owner(raw) matches Some(pid) ==> lock_found(Some(raw)) == LockStep::AskNode(pid)
            && lock_judged(lock_found(Some(raw)), alive) == if alive {
            LockStep::Leave
        } else {
            LockStep::Remove
        },
        lock_owner(raw) is None ==> lock_found(Some(raw)) == LockStep::Remove,
        lock_found(None) == LockStep::Leave,
        lock_judged(LockStep::Remove, alive) == LockStep::Remove,
        lock_judged(LockStep::Leave, alive) == LockStep::Leave,
{
}

/// A backup is named after the whole version, and ends in the time, which reads back.
pub proof fn law_backup_names_version_and_time(installed: Seq<char>, stamp: nat)
    ensures
        begins(backup_of(installed, stamp), ".dsh.bak-"@ + installed + "-"@),
        ends_in(backup_of(installed, stamp), decimal(stamp)),
        backup_of(installed, stamp).len() == (".dsh.bak-"@ + installed + "-"@).len() + decimal(
            stamp,
        ).len(),
        numeral(decimal(stamp)) && value(decimal(stamp)) == stamp,
{
    law_decimal_has_no_zero_in_front(stamp);
    law_endings(".dsh.bak-"@ + installed + "-"@, decimal(stamp));
}

/// Only a lock may be missing from a backup: a file that is copied is in it, and any other
/// that is not ends it.
pub proof fn law_only_locks_are_skipped(extension: Option<Seq<char>>)
    ensures
        copy_outcome(true, extension) == Copying::Copied,
        copy_outcome(false, extension) == Copying::Skipped <==> extension == Some("lock"@),
        copy_outcome(false, extension) == Copying::Failed <==> extension != Some("lock"@),
{
}

/// The user is told which directory is backed up.
pub proof fn law_backup_is_announced(home: Seq<char>)
    ensures
        has_part(backing_up_line(home), home),
{
    law_parts_are_found("回退前先备份 "@, home, " …"@);
}

} // verus!
