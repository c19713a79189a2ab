//! dsh's home directory: where it is, the lock in it, and its backups.
use crate::json::{get_natural, natural_field, object_in, parse_object};
use crate::scan::{
    decimal, decimal_text, law_decimal_reads_back, occurs_at, starts_with, trim, trimmed, value,
};
use crate::text::{
    cat3, cat4, chars_of, digit, opt_str, same_text, slice, to_text, version_char,
};
use vstd::prelude::*;

verus! {

// ---------------------------------------------------------------- places

/// A directory, as it was asked for.
#[derive(Debug)]
pub enum Place {
    /// The user's home.
    Home,
    /// Something below the user's home.
    UnderHome(String),
    /// The directory of that name.
    Named(String),
}

/// What a place is.
pub enum Where {
    Home,
    UnderHome(Seq<char>),
    Named(Seq<char>),
}

impl View for Place {
    type V = Where;

    open spec fn view(&self) -> Where {
        match self {
            Place::Home => Where::Home,
            Place::UnderHome(rest) => Where::UnderHome(rest@),
            Place::Named(name) => Where::Named(name@),
        }
    }
}

/// Where the backend is started: where the environment says, else in the user's home.
/// dsh takes that directory for the root of its workspace.
pub open spec fn workspace(raw: Option<Seq<char>>) -> Where {
    match raw {
        Some(dir) => if dir.len() > 0 {
            Where::Named(dir)
        } else {
            Where::Home
        },
        None => Where::Home,
    }
}

/// Where the backend is started. `raw` is the value of `DSH_DESKTOP_WORKDIR`, if it is
/// set.
pub fn working_dir(raw: Option<&str>) -> (place: Place)
    ensures
        place@ == workspace(opt_str(raw)),
{
    match raw {
        Some(dir) => if chars_of(dir).len() > 0 {
            Place::Named(dir.to_string())
        } else {
            Place::Home
        },
        None => Place::Home,
    }
}

/// The user's home: what the environment says, else the current directory.
pub open spec fn users_home(raw: Option<Seq<char>>) -> Seq<char> {
    match raw {
        Some(dir) => dir,
        None => "."@,
    }
}

/// The user's home: what the environment says, else the current directory.
pub fn dirs_home(raw: Option<&str>) -> (home: String)
    ensures
        home@ == users_home(opt_str(raw)),
        home@ == match raw {
            Some(dir) => dir@,
            None => "."@,
        },
{
    match raw {
        Some(dir) => dir.to_string(),
        None => ".".to_string(),
    }
}

/// Where dsh keeps its state, as dsh itself finds it: where the environment says, with
/// a tilde in front for the user's home; else in `.dsh` below that home.
pub open spec fn state_dir(raw: Option<Seq<char>>) -> Where {
    match raw {
        Some(raw) => {
            let dir = trimmed(raw);
            if dir.len() == 0 {
                Where::UnderHome(".dsh"@)
            } else if dir == "~"@ {
                Where::Home
            } else if occurs_at(dir, "~/"@, 0) || occurs_at(dir, "~\\"@, 0) {
                Where::UnderHome(dir.skip(2))
            } else {
                Where::Named(dir)
            }
        },
        None => Where::UnderHome(".dsh"@),
    }
}

/// Where dsh keeps its state. `raw` is the value of `DSH_HOME`, if it is set.
pub fn dsh_home(raw: Option<&str>) -> (place: Place)
    ensures
        place@ == state_dir(opt_str(raw)),
{
    match raw {
        Some(raw) => {
            let dir = trim(&chars_of(raw));
            let name = to_text(&dir);
            if dir.len() == 0 {
                Place::UnderHome(".dsh".to_string())
            } else if same_text(name.as_str(), "~") {
                Place::Home
            } else if starts_with(&dir, "~/") || starts_with(&dir, "~\\") {
                proof {
                    reveal_strlit("~/");
                    reveal_strlit("~\\");
                }
                let rest = slice(&dir, 2, dir.len());
                assert(rest@ =~= dir@.skip(2));
                Place::UnderHome(to_text(&rest))
            } else {
                Place::Named(name)
            }
        },
        None => Place::UnderHome(".dsh".to_string()),
    }
}

// ---------------------------------------------------------------- the task board's lock

/// The process that a lock names, if it names one.
pub open spec fn lock_owner(raw: Seq<char>) -> Option<u64> {
    match object_in(raw) {
        Some(fields) => natural_field(fields, "pid"@),
        None => None,
    }
}

/// What to do about the lock.
#[derive(Clone, Copy, PartialEq, Eq, Debug, Structural)]
pub enum LockStep {
    /// Leave it, or there is none.
    Leave,
    /// Remove it.
    Remove,
    /// See whether a process is a live node process.
    AskNode(u64),
}

/// What to do about a lock that names that process, or none. One that names none is
/// junk.
pub open spec fn owned_by(owner: Option<u64>) -> LockStep {
    match owner {
        Some(pid) => LockStep::AskNode(pid),
        None => LockStep::Remove,
    }
}

/// What to do about a lock with that content, or none that can be read.
pub open spec fn lock_found(raw: Option<Seq<char>>) -> LockStep {
    match raw {
        Some(raw) => owned_by(lock_owner(raw)),
        None => LockStep::Leave,
    }
}

/// What to do about a lock. `raw` is its content, or nothing when it cannot be read.
pub fn clear_stale_task_board_lock(raw: Option<&str>) -> (step: LockStep)
    ensures
        step == lock_found(opt_str(raw)),
{
    match raw {
        Some(raw) => match parse_object(raw) {
            Some(object) => LockStep::of(get_natural(&object, "pid")),
            None => LockStep::of(None),
        },
        None => LockStep::Leave,
    }
}

impl LockStep {
    /// What to do about a lock that names that process, or none.
    pub fn of(owner: Option<u64>) -> (step: LockStep)
        ensures
            step == owned_by(owner),
    {
        match owner {
            Some(pid) => LockStep::AskNode(pid),
            None => LockStep::Remove,
        }
    }

    /// What to do once it is known whether the process that the lock names is a live
    /// node process. Only that could hold it: the number alone may long be that of
    /// another process.
    pub fn node_seen(self, alive: bool) -> (step: LockStep)
        ensures
            step == lock_judged(self, alive),
    {
        match self {
            LockStep::AskNode(_) => if alive {
                LockStep::Leave
            } else {
                LockStep::Remove
            },
            other => other,
        }
    }
}

/// A step once it is known whether the process is a live node process.
pub open spec fn lock_judged(step: LockStep, alive: bool) -> LockStep {
    match step {
        LockStep::AskNode(_) => if alive {
            LockStep::Leave
        } else {
            LockStep::Remove
        },
        other => other,
    }
}

/// A lock is removed if and only if it is there and no live node process is named in
/// it: one that a running backend holds is never touched.
pub proof fn law_running_backend_keeps_its_lock(raw: Option<Seq<char>>, alive: bool)
    ensures
        lock_judged(lock_found(raw), alive) == LockStep::Remove <==> raw is Some && !(lock_owner(
            raw->0,
        ) is Some && alive),
{
}

// ---------------------------------------------------------------- backups

/// The name of a backup: of what version, and when.
pub open spec fn backup_of(installed: Seq<char>, stamp: nat) -> Seq<char> {
    ".dsh.bak-"@ + installed + "-"@ + decimal(stamp)
}

/// The name of a backup of the state of version `installed`, `stamp` seconds after the
/// epoch.
pub fn backup_name(installed: &str, stamp: u64) -> (name: String)
    ensures
        name@ == backup_of(installed@, stamp as nat),
{
    cat4(".dsh.bak-", installed, "-", decimal_text(stamp).as_str())
}

/// Backups of different versions, or of different times, have different names.
pub proof fn law_backups_coexist(a: Seq<char>, s: nat, b: Seq<char>, t: nat)
    ensures
        backup_of(a, s) == backup_of(b, t) ==> a == b && s == t,
{
    if backup_of(a, s) == backup_of(b, t) {
        let name = backup_of(a, s);
        let other = backup_of(b, t);
        let x = decimal(s);
        let y = decimal(t);
        law_decimal_reads_back(s);
        law_decimal_reads_back(t);
        reveal_strlit(".dsh.bak-");
        reveal_strlit("-");
        let n = name.len();
        assert(name[n - x.len() - 1] == '-');
        assert(other[n - y.len() - 1] == '-');
        assert forall|i: int| 0 <= i < x.len() implies digit(#[trigger] name[n - x.len() + i]) by {
            assert(name[n - x.len() + i] == x[i]);
        }
        assert forall|i: int| 0 <= i < y.len() implies digit(#[trigger] other[n - y.len() + i]) by {
            assert(other[n - y.len() + i] == y[i]);
        }
        if x.len() < y.len() {
            assert(digit(other[n - y.len() + (y.len() - x.len() - 1)]));
            assert(false);
        }
        if y.len() < x.len() {
            assert(digit(name[n - x.len() + (x.len() - y.len() - 1)]));
            assert(false);
        }
        assert(x =~= name.skip(n - x.len()));
        assert(y =~= other.skip(n - y.len()));
        assert(a =~= name.subrange(9, n - x.len() - 1));
        assert(b =~= other.subrange(9, n - y.len() - 1));
        assert(value(x) == s && value(y) == t);
    }
}

/// A backup of a version that was found in a text stays in the directory that it is
/// meant for: its name has no separator.
pub proof fn law_backup_name_is_one_name(installed: Seq<char>, stamp: nat, i: int)
    requires
        forall|j: int| 0 <= j < installed.len() ==> version_char(#[trigger] installed[j]),
        0 <= i < backup_of(installed, stamp).len(),
    ensures
        backup_of(installed, stamp)[i] != '/',
        backup_of(installed, stamp)[i] != '\\',
{
    let name = backup_of(installed, stamp);
    let digits = decimal(stamp);
    law_decimal_reads_back(stamp);
    reveal_strlit(".dsh.bak-");
    reveal_strlit("-");
    if i < 9 {
        assert(name[i] == ".dsh.bak-"@[i]);
    } else if i < 9 + installed.len() {
        assert(name[i] == installed[i - 9]);
    } else if i > 9 + installed.len() {
        assert(name[i] == digits[i - 10 - installed.len()]);
        assert(digit(digits[i - 10 - installed.len()]));
    }
}

/// What came of copying one file.
#[derive(Clone, Copy, PartialEq, Eq, Debug, Structural)]
pub enum Copying {
    /// It was copied.
    Copied,
    /// It was not, and is not needed.
    Skipped,
    /// It was not, and the backup fails.
    Failed,
}

/// What a copy of a file comes to.
pub open spec fn copy_outcome(copied: bool, extension: Option<Seq<char>>) -> Copying {
    if copied {
        Copying::Copied
    } else if extension == Some("lock"@) {
        Copying::Skipped
    } else {
        Copying::Failed
    }
}

/// What a copy of a file comes to. A lock that another process holds open has no state
/// to restore; any other file that cannot be copied ends the backup.
pub fn copied_file(copied: bool, extension: Option<&str>) -> (outcome: Copying)
    ensures
        outcome == copy_outcome(copied, opt_str(extension)),
        outcome == if copied {
            Copying::Copied
        } else if opt_str(extension) == Some("lock"@) {
            Copying::Skipped
        } else {
            Copying::Failed
        },
{
    if copied {
        return Copying::Copied;
    }
    match extension {
        Some(extension) => if same_text(extension, "lock") {
            Copying::Skipped
        } else {
            Copying::Failed
        },
        None => Copying::Failed,
    }
}

/// What the user is told before a backup.
pub open spec fn backing_up_line(home: Seq<char>) -> Seq<char> {
    "回退前先备份 "@ + home + " …"@
}

/// What the user is told before a backup.
pub fn backing_up(home: &str) -> (line: String)
    ensures
        line@ == backing_up_line(home@),
        line@ == "回退前先备份 "@ + home@ + " …"@,
{
    cat3("回退前先备份 ", home, " …")
}

} // verus!
