//! Commands, logs, places and menus.
use dsh_desktop::home::{
    backing_up, backup_name, copied_file, dirs_home, dsh_home, working_dir, Copying, Place,
};
use dsh_desktop::log::{
    backend_error_summary, crash_detail, is_exit, line_to_show, never_ready_detail, pump_log,
    wait_for_backend_exit, LinePump, LogSize, Reader, LOG_MAX_BYTES,
};
use dsh_desktop::process::{
    capture, dist_tags_argv, has_command, image_lookup, install_outcome, is_node_listing, npm_lost,
    npm_not_run, open_node_site, process_image, run_install, run_kill, spawn_backend,
    version_argv, Invocation, Platform,
};
use dsh_desktop::theme::{theme_titlebar, Theme};
use dsh_desktop::tray::{setup_tray, TrayAction};
use dsh_desktop::version::{compare_prerelease, compare_versions, parse_version};
use std::cmp::Ordering;
use std::collections::VecDeque;

fn line(run: &Invocation) -> String {
    format!("{} {}", run.program, run.args.join("|"))
}

#[test]
fn commands_are_looked_for_in_the_systems_own_way() {
    assert_eq!(line(&has_command(true, "npm")), "where npm");
    assert_eq!(
        line(&has_command(false, "npm")),
        "sh -c|command -v \"$1\" >/dev/null 2>&1|sh|npm"
    );
}

#[test]
fn shims_are_run_through_a_shell() {
    let argv = dist_tags_argv();
    assert_eq!(argv, ["npm", "view", "@deepseek-ai/dsh", "dist-tags", "--json"]);
    assert_eq!(
        line(&capture(true, &argv)),
        "cmd /C|npm|view|@deepseek-ai/dsh|dist-tags|--json"
    );
    assert_eq!(line(&capture(false, &version_argv())), "dsh --version");
}

#[test]
fn installs_show_what_is_fetched() {
    assert_eq!(
        line(&run_install(true, "@deepseek-ai/dsh@1.0.0")),
        "cmd /C|npm|install|-g|--loglevel=http|--no-audit|--no-fund|@deepseek-ai/dsh@1.0.0"
    );
    assert_eq!(
        line(&run_install(false, "@deepseek-ai/dsh")),
        "npm install|-g|--loglevel=http|--no-audit|--no-fund|@deepseek-ai/dsh"
    );
    assert_eq!(install_outcome("x", true, Some(0)), Ok(()));
    assert_eq!(
        install_outcome("x", false, Some(-4048)),
        Err("npm install -g x 失败（退出码 -4048）。上面的日志里通常有原因，常见的是网络或权限问题。".into())
    );
    assert_eq!(
        install_outcome("x", false, Some(i32::MIN)).unwrap_err(),
        format!(
            "npm install -g x 失败（退出码 {}）。上面的日志里通常有原因，常见的是网络或权限问题。",
            i32::MIN
        )
    );
    assert_eq!(
        install_outcome("x", false, None),
        Err("npm install -g x 失败（退出码 未知）。上面的日志里通常有原因，常见的是网络或权限问题。".into())
    );
    assert_eq!(npm_not_run("e"), "无法执行 npm：e");
    assert_eq!(npm_lost("e"), "npm 执行失败：e");
}

#[test]
fn the_backend_opens_no_browser() {
    assert_eq!(
        line(&spawn_backend(true)),
        "cmd /C|dsh|web|--port|0|--no-open"
    );
    assert_eq!(line(&spawn_backend(false)), "sh -c|dsh web --port 0 --no-open");
}

#[test]
fn the_site_is_opened_by_the_system() {
    assert_eq!(
        line(&open_node_site(Platform::Windows)),
        "cmd /C|start||https://nodejs.org/"
    );
    assert_eq!(line(&open_node_site(Platform::Mac)), "open https://nodejs.org/");
    assert_eq!(
        line(&open_node_site(Platform::Other)),
        "xdg-open https://nodejs.org/"
    );
}

#[test]
fn processes_are_looked_up_and_ended_by_number() {
    assert_eq!(
        line(&image_lookup(true, 4242)),
        "tasklist /FI|PID eq 4242|/FO|CSV|/NH"
    );
    assert_eq!(line(&image_lookup(false, 4242)), "ps -p|4242|-o|comm=");
    assert_eq!(line(&run_kill(true, 7, true)), "taskkill /PID|7|/T|/F");
    assert_eq!(line(&run_kill(true, 7, false)), "taskkill /PID|7|/T");
    assert_eq!(line(&run_kill(false, 7, true)), "kill -9|7");
    assert_eq!(line(&run_kill(false, 7, false)), "kill -TERM|7");
}

#[test]
fn images_are_read_off_a_listing() {
    assert_eq!(process_image(true, "\"node.exe\",\"1\"").as_deref(), Some("node.exe"));
    assert_eq!(process_image(true, "\"node").as_deref(), Some("node"));
    assert_eq!(process_image(true, "\"").as_deref(), Some(""));
    assert_eq!(process_image(true, "info"), None);
    assert_eq!(process_image(true, ""), None);
    assert_eq!(process_image(false, " node \n").as_deref(), Some("node"));
    assert_eq!(process_image(false, "\n"), None);
    assert!(is_node_listing(true, "\"node.exe\""));
    assert!(!is_node_listing(true, "\"cmd.exe\",\"node\""));
    assert!(!is_node_listing(false, ""));
}

// ---------------------------------------------------------------- logs

#[test]
fn lines_are_tagged_with_their_stream() {
    assert_eq!(pump_log("[err]", b"boom \r\n").as_deref(), Some("[err] boom"));
    assert_eq!(pump_log("[err]", b" \r\n"), None);
    assert_eq!(pump_log("[err]", b"\xffx").as_deref(), Some("[err] \u{fffd}x"));
}

#[test]
fn the_first_address_is_handed_on_once() {
    let mut reader = Reader::new();
    let heard = reader.read(b"starting\n");
    assert_eq!((heard.log.as_deref(), heard.url), (Some("[out] starting"), None));
    let heard = reader.read(b"dsh web: http://127.0.0.1:5\n");
    assert_eq!(heard.log.as_deref(), Some("[out] dsh web: http://127.0.0.1:5"));
    assert_eq!(heard.url.as_deref(), Some("http://127.0.0.1:5"));
    let heard = reader.read(b"dsh web: http://127.0.0.1:6\n");
    assert_eq!(heard.log.as_deref(), Some("[out] dsh web: http://127.0.0.1:6"));
    assert_eq!(heard.url, None);
    let heard = reader.hear("");
    assert_eq!((heard.log, heard.url), (None, None));
}

#[test]
fn the_wait_stops_at_the_first_empty_message() {
    let messages = |list: &[&str]| list.iter().map(|m| m.to_string()).collect::<VecDeque<_>>();
    let mut inbox = messages(&["http://a", "", "http://b", ""]);
    assert!(wait_for_backend_exit(&mut inbox));
    assert_eq!(inbox, ["http://b", ""]);
    assert!(wait_for_backend_exit(&mut inbox));
    assert!(inbox.is_empty());
    assert!(!wait_for_backend_exit(&mut inbox));
    let mut inbox = messages(&["http://a", "http://b"]);
    assert!(!wait_for_backend_exit(&mut inbox));
    assert!(inbox.is_empty());
    assert!(is_exit("") && !is_exit(" "));
}

/// The lines that come out when a stream comes in chunks of `size`.
fn pumped(stream: &[u8], size: usize) -> Vec<String> {
    let mut pump = LinePump::new();
    let mut lines = Vec::new();
    for chunk in stream.chunks(size) {
        lines.extend(pump.pump_lines(chunk));
    }
    lines.extend(pump.flush());
    lines
}

#[test]
fn lines_come_out_whatever_the_chunks() {
    let stream = "one\r\ntwo\rthree  \n\n \r\n漢字\nlast".as_bytes();
    let expected = ["one", "two", "three", "漢字", "last"];
    for size in 1..=stream.len() {
        assert_eq!(pumped(stream, size), expected, "{size}");
    }
    assert!(pumped(b"", 1).is_empty());
    assert!(pumped(b"\r\n\r\n", 3).is_empty());
}

#[test]
fn a_redrawn_line_comes_out_as_it_comes_in() {
    let mut pump = LinePump::new();
    assert_eq!(pump.pump_lines(b"10%\r20%\r30"), ["10%", "20%"]);
    assert_eq!(pump.pump_lines(b"%\r"), ["30%"]);
    assert_eq!(pump.flush(), None);
    assert_eq!(line_to_show(String::new()), None);
    assert_eq!(line_to_show("x".into()).as_deref(), Some("x"));
}

#[test]
fn the_log_starts_anew_before_it_is_full() {
    assert_eq!(LOG_MAX_BYTES, 5_242_880);
    let mut size = LogSize::new();
    assert!(!size.make_room(5_242_880));
    size.wrote(5_242_879);
    assert_eq!(size.bytes, 5_242_880);
    assert!(!size.make_room(0));
    assert!(size.make_room(1));
    assert_eq!(size.bytes, 0);
    // A line that is too long for any file still gets one of its own.
    assert!(size.make_room(5_242_881));
    size.wrote(5_242_881);
    assert!(size.make_room(0));
}

#[test]
fn a_summary_is_short_distinct_and_in_order() {
    let log = "[out] Error: one\n\
         [err] Error: two\n\
         [err] Error: one\n\
         [err] [out] Error: kept tag\n\
         [out] [err] [cause]: [cause]: TypeError: three\n\
         [err] at Error (x)\n\
         no headline\n\
         [err] Error: Cannot find module 'b'\r\n\
         [err] Error: four\n";
    assert_eq!(
        backend_error_summary(Some(log)),
        [
            "Error: Cannot find module 'b'",
            "Error: one",
            "Error: two",
            "[out] Error: kept tag",
        ]
    );
    assert!(backend_error_summary(None).is_empty());
    assert!(backend_error_summary(Some("")).is_empty());
}

#[test]
fn the_hint_is_never_pushed_out() {
    let mut log = String::new();
    for i in 0..9 {
        log.push_str(&format!("[err] Error: Cannot find {i}\n"));
    }
    log.push_str("[err] SyntaxError: 'a' does not provide an export named 'b'\n");
    let summary = backend_error_summary(Some(&log));
    assert_eq!(summary.len(), 5);
    assert_eq!(summary[3], "Error: Cannot find 3");
    assert_eq!(
        summary[4],
        "这是 dsh 内核与已装插件的接口不一致（常见于装了预发布版本），插件文件本身没坏。\
         可在标题栏「检查更新」里把 dsh 换回 latest 通道的版本，或更新/卸载报错的那个插件。"
    );
}

#[test]
fn failures_point_to_the_log() {
    assert_eq!(
        never_ready_detail(Some("Error: x"), "/l"),
        ["Error: x", "完整日志：/l"]
    );
    assert_eq!(
        crash_detail(None, "/l"),
        ["后端 `dsh web` 意外退出了。", "完整日志：/l"]
    );
}

// ---------------------------------------------------------------- places

fn place(p: Place) -> String {
    match p {
        Place::Home => "home".to_string(),
        Place::UnderHome(rest) => format!("home + {rest}"),
        Place::Named(name) => name,
    }
}

#[test]
fn places_follow_the_environment() {
    assert_eq!(place(working_dir(None)), "home");
    assert_eq!(place(working_dir(Some(""))), "home");
    assert_eq!(place(working_dir(Some(" "))), " ");
    assert_eq!(place(working_dir(Some("/w"))), "/w");
    assert_eq!(dirs_home(Some("/h")), "/h");
    assert_eq!(dirs_home(None), ".");
    assert_eq!(place(dsh_home(None)), "home + .dsh");
    assert_eq!(place(dsh_home(Some("  "))), "home + .dsh");
    assert_eq!(place(dsh_home(Some(" ~ "))), "home");
    assert_eq!(place(dsh_home(Some("~/x/y"))), "home + x/y");
    assert_eq!(place(dsh_home(Some("~\\x"))), "home + x");
    assert_eq!(place(dsh_home(Some("~x"))), "~x");
    assert_eq!(place(dsh_home(Some("/d "))), "/d");
}

#[test]
fn backups_say_what_they_came_from() {
    assert_eq!(
        backup_name("1.2.0-alpha.3", 1_700_000_000),
        ".dsh.bak-1.2.0-alpha.3-1700000000"
    );
    assert_ne!(backup_name("1.0.0", 1), backup_name("1.0.0", 2));
    assert_ne!(backup_name("1.0.0-1", 1), backup_name("1.0.0", 11));
    assert_eq!(backing_up("/h/.dsh"), "回退前先备份 /h/.dsh …");
}

#[test]
fn only_a_lock_may_be_missing_from_a_backup() {
    assert_eq!(copied_file(true, Some("lock")), Copying::Copied);
    assert_eq!(copied_file(false, Some("lock")), Copying::Skipped);
    assert_eq!(copied_file(false, Some("json")), Copying::Failed);
    assert_eq!(copied_file(false, None), Copying::Failed);
}

// ---------------------------------------------------------------- the rest

#[test]
fn the_menu_has_four_entries() {
    let entries: Vec<(&str, &str)> = setup_tray().iter().map(|a| (a.id(), a.label())).collect();
    assert_eq!(
        entries,
        [
            ("show", "显示 DSH"),
            ("update", "检查桌面端更新"),
            ("update-dsh", "检查 dsh 更新"),
            ("quit", "退出"),
        ]
    );
    for action in setup_tray() {
        assert_eq!(TrayAction::named(action.id()), Some(action));
    }
    assert_eq!(TrayAction::named("Quit"), None);
}

#[test]
fn frames_are_tinted_in_the_systems_byte_order() {
    let tint = theme_titlebar(Theme {
        bg: [1, 2, 3],
        fg: [0xff, 0, 0],
        dark: true,
    });
    assert_eq!(tint.caption, 0x00_03_02_01);
    assert_eq!(tint.border, tint.caption);
    assert_eq!(tint.text, 0x00_00_00_ff);
}

#[test]
fn versions_are_found_whatever_surrounds_them() {
    for version in ["1.2", "1.2.3", "0.1.2-alpha.3", "1.0.0+build.7"] {
        for (front, back) in [
            ("", ""),
            ("v", ""),
            ("dsh/", " x64"),
            ("at last: ", "."),
            ("漢", "...\n1.1"),
        ] {
            assert_eq!(
                parse_version(&format!("{front}{version}{back}")).as_deref(),
                Some(version)
            );
        }
    }
}

#[test]
fn versions_are_ordered_as_a_whole() {
    let versions = [
        "1.0.0-0",
        "1.0.0-9",
        "1.0.0-10",
        "1.0.0-alpha",
        "1.0.0-alpha.1",
        "1.0.0-alpha.beta",
        "1.0.0-rc",
        "1.0.0",
        "1.0.1",
        "1.10",
        "2",
    ];
    for (i, a) in versions.iter().enumerate() {
        for (j, b) in versions.iter().enumerate() {
            assert_eq!(compare_versions(a, b), i.cmp(&j), "{a} {b}");
        }
    }
    assert_eq!(compare_versions("1.2", "1.2.0.0+x"), Ordering::Equal);
    // A component that is no number counts as zero.
    assert_eq!(compare_versions("1.x", "1.0"), Ordering::Equal);
    // There is no limit to a number, in the release or in the prerelease.
    assert_eq!(compare_versions("1.99999999999999999999", "1.0"), Ordering::Greater);
    assert_eq!(
        compare_versions("18446744073709551616.0.0", "1.0.0"),
        Ordering::Greater
    );
    assert_eq!(
        compare_versions("18446744073709551616.0.0", "18446744073709551615.9.9"),
        Ordering::Greater
    );
    assert_eq!(
        compare_prerelease("18446744073709551616", "100000000000000000000"),
        Ordering::Less
    );
    assert_eq!(
        compare_prerelease("00100000000000000000000", "100000000000000000000"),
        Ordering::Equal
    );
    assert_eq!(
        compare_prerelease("100000000000000000000", "a"),
        Ordering::Less
    );
    // A sign in front of a number makes no difference.
    assert_eq!(compare_prerelease("+1", "1"), Ordering::Equal);
    assert_eq!(compare_prerelease("+5", "6"), Ordering::Less);
    assert_eq!(compare_prerelease("++5", "6"), Ordering::Greater);
    assert_eq!(compare_prerelease("+", "6"), Ordering::Greater);
    // A missing component is zero before a suffix too.
    assert_eq!(compare_versions("1.2-rc.1", "1.2.0-rc.1+x"), Ordering::Equal);
    assert_eq!(compare_versions("1.2-rc.1", "1.2.0"), Ordering::Less);
    assert_eq!(compare_prerelease("rc.1", "rc.1"), Ordering::Equal);
    assert_eq!(compare_prerelease("rc", "rc.1"), Ordering::Less);
    assert_eq!(compare_prerelease("a", "1"), Ordering::Greater);
    assert_eq!(compare_prerelease("漢", "z"), Ordering::Greater);
}
