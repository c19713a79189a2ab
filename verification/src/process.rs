//! The commands that are run, and what their results mean.
use crate::check::DSH_PACKAGE;
use crate::decode::{ascii, ascii_lowercase, decode_lossy, lossy, lowercase, to_lowercase};
use crate::scan::{
    before, contains, cut_before, decimal, decimal_text, has_part, trim, trimmed,
};
use crate::text::{cat2, cat5, chars_of, opt_text, slice, texts, to_text};
use vstd::prelude::*;
use vstd::utf8::{decode_utf8, valid_utf8};

verus! {

/// A program and its arguments.
#[derive(Debug)]
pub struct Invocation {
    pub program: String,
    pub args: Vec<String>,
}

/// What an invocation runs.
pub struct Command {
    pub program: Seq<char>,
    pub args: Seq<Seq<char>>,
}

impl View for Invocation {
    type V = Command;

    open spec fn view(&self) -> Command {
        Command { program: self.program@, args: texts(self.args@) }
    }
}

/// A program without arguments.
fn program(name: &str) -> (run: Invocation)
    ensures
        run@ == (Command { program: name@, args: Seq::empty() }),
{
    let args: Vec<String> = Vec::new();
    assert(texts(args@) =~= Seq::<Seq<char>>::empty());
    Invocation { program: name.to_string(), args }
}

impl Invocation {
    fn arg(self, arg: &str) -> (run: Invocation)
        ensures
            run@ == (Command { program: self@.program, args: self@.args.push(arg@) }),
    {
        let mut args = self.args;
        let ghost before = args@;
        args.push(arg.to_string());
        assert(texts(args@) =~= texts(before).push(arg@));
        Invocation { program: self.program, args }
    }
}

// ---------------------------------------------------------------- looking for commands

/// How to find out whether a command is on the path: its exit status says. On Windows
/// commands are shims that only `where` resolves; elsewhere the name is an argument of
/// the script and never part of its text.
pub open spec fn lookup_command(windows: bool, name: Seq<char>) -> Command {
    if windows {
        Command { program: "where"@, args: seq![name] }
    } else {
        Command {
            program: "sh"@,
            args: seq!["-c"@, "command -v \"$1\" >/dev/null 2>&1"@, "sh"@, name],
        }
    }
}

pub fn has_command(windows: bool, name: &str) -> (run: Invocation)
    ensures
        run@ == lookup_command(windows, name@),
{
    if windows {
        let run = program("where").arg(name);
        assert(run@.args =~= lookup_command(windows, name@).args);
        run
    } else {
        let run = program("sh").arg("-c").arg("command -v \"$1\" >/dev/null 2>&1").arg("sh").arg(
            name,
        );
        assert(run@.args =~= lookup_command(windows, name@).args);
        run
    }
}

// ---------------------------------------------------------------- capturing output

/// How to run a command whose output is wanted: through a shell on Windows, where it
/// is a shim that cannot be run on its own.
pub open spec fn captured_command(windows: bool, argv: Seq<Seq<char>>) -> Command {
    if windows {
        Command { program: "cmd"@, args: seq!["/C"@] + argv }
    } else {
        Command { program: argv[0], args: argv.drop_first() }
    }
}

pub fn capture(windows: bool, argv: &Vec<String>) -> (run: Invocation)
    requires
        argv.len() > 0,
    ensures
        run@ == captured_command(windows, texts(argv@)),
{
    let mut run = if windows {
        program("cmd").arg("/C")
    } else {
        program(argv[0].as_str())
    };
    let start: usize = if windows {
        0
    } else {
        1
    };
    let ghost first = run@;
    assert(first.args =~= first.args + texts(argv@).subrange(start as int, start as int));
    for i in start..argv.len()
        invariant
            start <= argv.len(),
            run@.program == first.program,
            run@.args == first.args + texts(argv@).subrange(start as int, i as int),
    {
        run = run.arg(argv[i].as_str());
        assert(run@.args =~= first.args + texts(argv@).subrange(start as int, i + 1));
    }
    proof {
        assert(run@.args =~= captured_command(windows, texts(argv@)).args);
    }
    run
}

/// The output of a command, if it ran and succeeded.
pub open spec fn captured_text(succeeded: bool, stdout: Seq<u8>) -> Option<Seq<char>> {
    if succeeded {
        Some(lossy(stdout))
    } else {
        None
    }
}

/// The output of a command that ended.
pub fn captured(succeeded: bool, stdout: &[u8]) -> (text: Option<String>)
    ensures
        opt_text(text) == captured_text(succeeded, stdout@),
        succeeded && valid_utf8(stdout@) ==> opt_text(text) == Some(decode_utf8(stdout@)),
{
    if succeeded {
        Some(decode_lossy(stdout))
    } else {
        None
    }
}

/// The command that prints the version of the installed dsh.
pub fn version_argv() -> (argv: Vec<String>)
    ensures
        texts(argv@) == seq!["dsh"@, "--version"@],
{
    let run = program("").arg("dsh").arg("--version");
    assert(run@.args =~= seq!["dsh"@, "--version"@]);
    run.args
}

/// The command that prints every dist-tag of the package, through the user's own npm
/// configuration.
pub fn dist_tags_argv() -> (argv: Vec<String>)
    ensures
        texts(argv@) == seq!["npm"@, "view"@, DSH_PACKAGE@, "dist-tags"@, "--json"@],
{
    let run = program("").arg("npm").arg("view").arg(DSH_PACKAGE).arg("dist-tags").arg("--json");
    assert(run@.args =~= seq!["npm"@, "view"@, DSH_PACKAGE@, "dist-tags"@, "--json"@]);
    run.args
}

// ---------------------------------------------------------------- installing

/// `npm install -g` of `spec`, with one line of output for each package that is
/// fetched, and without reports on anything but the install.
pub open spec fn install_command(windows: bool, spec_text: Seq<char>) -> Command {
    if windows {
        Command {
            program: "cmd"@,
            args: seq![
                "/C"@,
                "npm"@,
                "install"@,
                "-g"@,
                "--loglevel=http"@,
                "--no-audit"@,
                "--no-fund"@,
                spec_text,
            ],
        }
    } else {
        Command {
            program: "npm"@,
            args: seq![
                "install"@,
                "-g"@,
                "--loglevel=http"@,
                "--no-audit"@,
                "--no-fund"@,
                spec_text,
            ],
        }
    }
}

/// How to install `package`, a bare package name or `name@version`.
pub fn run_install(windows: bool, package: &str) -> (run: Invocation)
    ensures
        run@ == install_command(windows, package@),
{
    let start = if windows {
        program("cmd").arg("/C").arg("npm")
    } else {
        program("npm")
    };
    let run = start.arg("install").arg("-g").arg("--loglevel=http").arg("--no-audit").arg(
        "--no-fund",
    ).arg(package);
    assert(run@.args =~= install_command(windows, package@).args);
    run
}

/// An exit code written out.
pub open spec fn exit_code_text(code: Option<i32>) -> Seq<char> {
    match code {
        Some(code) => if code < 0 {
            "-"@ + decimal((-code) as nat)
        } else {
            decimal(code as nat)
        },
        None => "未知"@,
    }
}

fn exit_code_of(code: Option<i32>) -> (text: String)
    ensures
        text@ == exit_code_text(code),
{
    match code {
        Some(code) => if code < 0 {
            let size: u64 = (0 - code as i64) as u64;
            cat2("-", decimal_text(size).as_str())
        } else {
            decimal_text(code as u64)
        },
        None => "未知".to_string(),
    }
}

/// What the user is told of an install that failed.
pub open spec fn install_failure(package: Seq<char>, code: Option<i32>) -> Seq<char> {
    "npm install -g "@ + package + " 失败（退出码 "@ + exit_code_text(code)
        + "）。上面的日志里通常有原因，常见的是网络或权限问题。"@
}

/// The outcome of an install, from how npm exited.
pub fn install_outcome(package: &str, succeeded: bool, code: Option<i32>) -> (outcome: Result<
    (),
    String,
>)
    ensures
        match outcome {
            Ok(()) => succeeded,
            Err(detail) => !succeeded && detail@ == install_failure(package@, code),
        },
{
    if succeeded {
        Ok(())
    } else {
        Err(
            cat5(
                "npm install -g ",
                package,
                " 失败（退出码 ",
                exit_code_of(code).as_str(),
                "）。上面的日志里通常有原因，常见的是网络或权限问题。",
            ),
        )
    }
}

/// What the user is told when npm cannot be run.
pub open spec fn not_run(error: Seq<char>) -> Seq<char> {
    "无法执行 npm："@ + error
}

/// What the user is told when npm cannot be waited for.
pub open spec fn lost(error: Seq<char>) -> Seq<char> {
    "npm 执行失败："@ + error
}

/// What the user is told when npm cannot be run.
pub fn npm_not_run(error: &str) -> (detail: String)
    ensures
        detail@ == "无法执行 npm："@ + error@,
        detail@ == not_run(error@),
{
    cat2("无法执行 npm：", error)
}

/// What the user is told when npm cannot be waited for.
pub fn npm_lost(error: &str) -> (detail: String)
    ensures
        detail@ == "npm 执行失败："@ + error@,
        detail@ == lost(error@),
{
    cat2("npm 执行失败：", error)
}

// ---------------------------------------------------------------- the backend

/// The backend, on a port that the system picks, without a browser of its own.
pub open spec fn backend_command(windows: bool) -> Command {
    if windows {
        Command {
            program: "cmd"@,
            args: seq!["/C"@, "dsh"@, "web"@, "--port"@, "0"@, "--no-open"@],
        }
    } else {
        Command { program: "sh"@, args: seq!["-c"@, "dsh web --port 0 --no-open"@] }
    }
}

pub fn spawn_backend(windows: bool) -> (run: Invocation)
    ensures
        run@ == backend_command(windows),
{
    let run = if windows {
        program("cmd").arg("/C").arg("dsh").arg("web").arg("--port").arg("0").arg("--no-open")
    } else {
        program("sh").arg("-c").arg("dsh web --port 0 --no-open")
    };
    assert(run@.args =~= backend_command(windows).args);
    run
}

// ---------------------------------------------------------------- the browser

/// The site to send users to who have no Node.js.
pub const NODE_SITE: &'static str = "https://nodejs.org/";

/// The systems that open a site each in their own way.
#[derive(Clone, Copy, PartialEq, Eq, Debug, Structural)]
pub enum Platform {
    Windows,
    Mac,
    Other,
}

/// The command that opens the Node.js site. On Windows the empty argument is a window
/// title; without it the address would be taken for one.
pub open spec fn browse_command(platform: Platform) -> Command {
    match platform {
        Platform::Windows => Command {
            program: "cmd"@,
            args: seq!["/C"@, "start"@, ""@, NODE_SITE@],
        },
        Platform::Mac => Command { program: "open"@, args: seq![NODE_SITE@] },
        Platform::Other => Command { program: "xdg-open"@, args: seq![NODE_SITE@] },
    }
}

pub fn open_node_site(platform: Platform) -> (run: Invocation)
    ensures
        run@ == browse_command(platform),
{
    let run = match platform {
        Platform::Windows => program("cmd").arg("/C").arg("start").arg("").arg(NODE_SITE),
        Platform::Mac => program("open").arg(NODE_SITE),
        Platform::Other => program("xdg-open").arg(NODE_SITE),
    };
    assert(run@.args =~= browse_command(platform).args);
    run
}

// ---------------------------------------------------------------- looking at processes

/// How to look up the image of a process.
pub open spec fn image_command(windows: bool, pid: nat) -> Command {
    if windows {
        Command {
            program: "tasklist"@,
            args: seq!["/FI"@, "PID eq "@ + decimal(pid), "/FO"@, "CSV"@, "/NH"@],
        }
    } else {
        Command { program: "ps"@, args: seq!["-p"@, decimal(pid), "-o"@, "comm="@] }
    }
}

pub fn image_lookup(windows: bool, pid: u64) -> (run: Invocation)
    ensures
        run@ == image_command(windows, pid as nat),
{
    let number = decimal_text(pid);
    let run = if windows {
        let filter = cat2("PID eq ", number.as_str());
        program("tasklist").arg("/FI").arg(filter.as_str()).arg("/FO").arg("CSV").arg("/NH")
    } else {
        program("ps").arg("-p").arg(number.as_str()).arg("-o").arg("comm=")
    };
    assert(run@.args =~= image_command(windows, pid as nat).args);
    run
}

/// The image that a listing in lower case names, if it names one. On Windows a match is
/// a row that starts with the image in quotes, and anything else is a notice that there
/// is no such process. Elsewhere the listing is the image.
pub open spec fn image_in(windows: bool, listing: Seq<char>) -> Option<Seq<char>> {
    if windows {
        if listing.len() > 0 && listing[0] == '"' {
            Some(before(listing.drop_first(), '"'))
        } else {
            None
        }
    } else if trimmed(listing).len() > 0 {
        Some(trimmed(listing))
    } else {
        None
    }
}

/// The image that a listing in lower case names.
pub fn process_image(windows: bool, listing: &str) -> (image: Option<String>)
    ensures
        opt_text(image) == image_in(windows, listing@),
{
    let chars = chars_of(listing);
    if windows {
        if chars.len() > 0 && chars[0] == '"' {
            let rest = slice(&chars, 1, chars.len());
            assert(rest@ =~= listing@.drop_first());
            Some(to_text(&cut_before(&rest, '"')))
        } else {
            None
        }
    } else {
        let image = trim(&chars);
        if image.len() > 0 {
            Some(to_text(&image))
        } else {
            None
        }
    }
}

/// Whether a listing in lower case names a node process.
pub open spec fn names_node(windows: bool, listing: Seq<char>) -> bool {
    image_in(windows, listing) matches Some(image) && has_part(image, "node"@)
}

/// Whether a listing in lower case names a node process.
pub fn is_node_listing(windows: bool, listing: &str) -> (yes: bool)
    ensures
        yes == names_node(windows, listing@),
{
    match process_image(windows, listing) {
        Some(image) => contains(&chars_of(image.as_str()), "node"),
        None => false,
    }
}

/// Whether a process is alive and a node process. `stdout` is what the lookup printed,
/// or nothing when it could not be run: then the answer is yes, because what hangs on
/// it is whether to keep waiting or to destroy something.
pub fn node_process_alive(windows: bool, stdout: Option<&[u8]>) -> (alive: bool)
    ensures
        alive == match stdout {
            Some(bytes) => names_node(windows, lowercase(lossy(bytes@))),
            None => true,
        },
        stdout matches Some(bytes) ==> ascii(bytes@) ==> alive == names_node(
            windows,
            ascii_lowercase(bytes@),
        ),
{
    match stdout {
        Some(bytes) => is_node_listing(
            windows,
            to_lowercase(decode_lossy(bytes).as_str()).as_str(),
        ),
        None => true,
    }
}

/// Whether a process is alive, going by what the lookup printed; yes when it could not
/// be run.
pub fn process_alive(windows: bool, stdout: Option<&[u8]>) -> (alive: bool)
    ensures
        alive == match stdout {
            Some(bytes) => image_in(windows, lowercase(lossy(bytes@))) is Some,
            None => true,
        },
        stdout matches Some(bytes) ==> ascii(bytes@) ==> alive == (image_in(
            windows,
            ascii_lowercase(bytes@),
        ) is Some),
{
    match stdout {
        Some(bytes) => {
            match process_image(windows, to_lowercase(decode_lossy(bytes).as_str()).as_str()) {
                Some(_) => true,
                None => false,
            }
        },
        None => true,
    }
}

/// A node process is a process.
pub proof fn law_node_process_is_alive(windows: bool, listing: Seq<char>)
    requires
        names_node(windows, listing),
    ensures
        image_in(windows, listing) is Some,
{
}

// ---------------------------------------------------------------- ending processes

/// How to end a process and what it started.
pub open spec fn kill_command(windows: bool, pid: nat, force: bool) -> Command {
    if windows {
        if force {
            Command { program: "taskkill"@, args: seq!["/PID"@, decimal(pid), "/T"@, "/F"@] }
        } else {
            Command { program: "taskkill"@, args: seq!["/PID"@, decimal(pid), "/T"@] }
        }
    } else if force {
        Command { program: "kill"@, args: seq!["-9"@, decimal(pid)] }
    } else {
        Command { program: "kill"@, args: seq!["-TERM"@, decimal(pid)] }
    }
}

pub fn run_kill(windows: bool, pid: u32, force: bool) -> (run: Invocation)
    ensures
        run@ == kill_command(windows, pid as nat, force),
{
    let number = decimal_text(pid as u64);
    let run = if windows {
        let tree = program("taskkill").arg("/PID").arg(number.as_str()).arg("/T");
        if force {
            tree.arg("/F")
        } else {
            tree
        }
    } else {
        program("kill").arg(
            if force {
                "-9"
            } else {
                "-TERM"
            },
        ).arg(number.as_str())
    };
    assert(run@.args =~= kill_command(windows, pid as nat, force).args);
    run
}

/// How long a backend that can honour a polite request gets, in milliseconds.
pub const KILL_GRACE_MS: u64 = 8000;

/// The next step in ending a process tree.
#[derive(Clone, Copy, PartialEq, Eq, Debug, Structural)]
pub enum KillStep {
    /// End the tree, by force or not.
    Terminate { force: bool },
    /// See how long ago the first step was.
    ReadClock,
    /// See whether the process is still there.
    CheckAlive,
    /// Wait a moment.
    Pause,
    /// Nothing more.
    Finish,
}

/// What there is to say of a step that was taken.
#[derive(Clone, Copy, PartialEq, Eq, Debug, Structural)]
pub enum KillSeen {
    /// Nothing but that it was taken.
    Done,
    /// How many milliseconds have passed since the process was asked to end.
    Elapsed(u64),
    /// Whether the process is still there.
    Alive(bool),
}

/// The first step: on Windows nothing but force works on a process without a window,
/// so there is no point in asking first.
pub open spec fn first_kill_step(windows: bool) -> KillStep {
    KillStep::Terminate { force: windows }
}

/// The step after `step`, given what was seen of it. A process that was asked to end is
/// looked for again and again until it is gone or the time is up, and then forced.
pub open spec fn next_kill_step(step: KillStep, seen: KillSeen) -> KillStep {
    match (step, seen) {
        (KillStep::Terminate { force: true }, KillSeen::Done) => KillStep::Finish,
        (KillStep::Terminate { force: false }, KillSeen::Done) => KillStep::ReadClock,
        (KillStep::Pause, KillSeen::Done) => KillStep::ReadClock,
        (KillStep::ReadClock, KillSeen::Elapsed(ms)) => if ms < KILL_GRACE_MS {
            KillStep::CheckAlive
        } else {
            KillStep::Terminate { force: true }
        },
        (KillStep::CheckAlive, KillSeen::Alive(true)) => KillStep::Pause,
        (KillStep::CheckAlive, KillSeen::Alive(false)) => KillStep::Finish,
        _ => step,
    }
}

/// The first step in ending a process tree.
pub fn kill_process_tree(windows: bool) -> (step: KillStep)
    ensures
        step == first_kill_step(windows),
{
    KillStep::Terminate { force: windows }
}

impl KillStep {
    pub fn next(self, seen: KillSeen) -> (step: KillStep)
        ensures
            step == next_kill_step(self, seen),
    {
        match (self, seen) {
            (KillStep::Terminate { force: true }, KillSeen::Done) => KillStep::Finish,
            (KillStep::Terminate { force: false }, KillSeen::Done) => KillStep::ReadClock,
            (KillStep::Pause, KillSeen::Done) => KillStep::ReadClock,
            (KillStep::ReadClock, KillSeen::Elapsed(ms)) => if ms < KILL_GRACE_MS {
                KillStep::CheckAlive
            } else {
                KillStep::Terminate { force: true }
            },
            (KillStep::CheckAlive, KillSeen::Alive(true)) => KillStep::Pause,
            (KillStep::CheckAlive, KillSeen::Alive(false)) => KillStep::Finish,
            _ => self,
        }
    }
}

/// The step after a whole row of things seen.
pub open spec fn kill_steps(windows: bool, seen: Seq<KillSeen>) -> KillStep
    decreases seen.len(),
{
    if seen.len() == 0 {
        first_kill_step(windows)
    } else {
        next_kill_step(kill_steps(windows, seen.drop_last()), seen.last())
    }
}

/// Off Windows nothing is forced before the time is up; on Windows nothing is waited
/// for.
pub proof fn law_force_waits_for_the_grace(windows: bool, seen: Seq<KillSeen>)
    ensures
        !windows && kill_steps(windows, seen) == (KillStep::Terminate { force: true }) ==> exists|
            i: int,
        |
            0 <= i < seen.len() && (#[trigger] seen[i] matches KillSeen::Elapsed(ms) && ms
                >= KILL_GRACE_MS),
        windows ==> kill_steps(windows, seen) == (KillStep::Terminate { force: true })
            || kill_steps(windows, seen) == KillStep::Finish,
    decreases seen.len(),
{
    if seen.len() > 0 {
        law_force_waits_for_the_grace(windows, seen.drop_last());
        let before = kill_steps(windows, seen.drop_last());
        if !windows && kill_steps(windows, seen) == (KillStep::Terminate { force: true }) {
            if before == (KillStep::Terminate { force: true }) {
                let i = choose|i: int|
                    0 <= i < seen.drop_last().len() && (#[trigger] seen.drop_last()[i] matches
                        KillSeen::Elapsed(ms) && ms >= KILL_GRACE_MS);
                assert(seen[i] == seen.drop_last()[i]);
            } else {
                assert(seen[seen.len() - 1] == seen.last());
            }
        }
    }
}

/// A process that is found gone is left alone: no step follows.
pub proof fn law_gone_is_left_alone(seen: KillSeen)
    ensures
        next_kill_step(KillStep::CheckAlive, KillSeen::Alive(false)) == KillStep::Finish,
        next_kill_step(KillStep::Finish, seen) == KillStep::Finish,
{
}

} // verus!
