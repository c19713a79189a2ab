//! What the sequences do: booting, upgrading, updating, ending.
use dsh_desktop::boot::{
    preflight, push_pause, AutoCheck, Backend, BootEffect, BootEvent, BootLock, BootStep, Preflight,
};
use dsh_desktop::check::{check_dsh_version, report_dsh_version, Inquiry, VersionCheck};
use dsh_desktop::dialog::{
    check_dsh_update_interactive, check_for_update, update_failed, LATER, SHELL_TITLE,
};
use dsh_desktop::process::{kill_process_tree, KillSeen, KillStep, KILL_GRACE_MS};
use dsh_desktop::shell_update::{
    bad_endpoint, check_shell_update, resolve_shell_update, resolving_shell_report,
    shell_endpoint, shell_installed, update_shell, updater_not_ready, ShellCheck, UpdaterReply,
};
use dsh_desktop::status::{
    bare_status, gui_is_up, status_payload, CheckState, PageState, VersionReport,
};
use dsh_desktop::tray_check::{
    dsh_confirmed, shell_confirmed, shell_replaced, AfterReplace, DshTrayEffect, DshTrayEvent,
    DshTrayStep, ShellTrayEffect, ShellTrayEvent, ShellTrayStep,
};
use dsh_desktop::upgrade::{
    checking_report, install_dsh, resolving_report, upgrade_dsh, upgrade_dsh_to, Backup, Plan,
    UpgradeEffect, UpgradeEvent, UpgradeMove, UpgradeStep,
};
use dsh_desktop::version::VersionRelation;

fn boot_line(effect: &BootEffect) -> String {
    match effect {
        BootEffect::Show(status) => format!("{} {:?}", status.state.word(), status.detail),
        BootEffect::ShowGui(url) => format!("gui {url}"),
        BootEffect::ClearLock => "clear".to_string(),
        BootEffect::Retire => "retire".to_string(),
        BootEffect::Keep => "keep".to_string(),
        BootEffect::Watch { log } => format!("watch {log}"),
    }
}

/// What a boot does when its steps come to the given events.
fn boot(events: Vec<BootEvent>) -> Vec<String> {
    let mut step = BootStep::boot_sequence();
    let mut lines = Vec::new();
    for event in events {
        let m = step.try_boot(event);
        lines.extend(m.effects.iter().map(boot_line));
        step = m.step;
    }
    assert!(matches!(step, BootStep::Finished), "{step:?}");
    lines
}

#[test]
fn a_running_backend_is_reused() {
    assert_eq!(
        boot(vec![BootEvent::Probed(Some("http://127.0.0.1:3080".into()))]),
        ["gui http://127.0.0.1:3080"]
    );
}

#[test]
fn what_is_missing_is_said() {
    assert_eq!(preflight(true, false), Preflight::Ready);
    assert_eq!(
        boot(vec![
            BootEvent::Probed(None),
            BootEvent::Looked(preflight(false, true)),
        ]),
        ["missing-dsh []"]
    );
    assert_eq!(
        boot(vec![
            BootEvent::Probed(None),
            BootEvent::Looked(preflight(false, false)),
        ]),
        ["missing-node []"]
    );
}

const STARTING: [&str; 3] = [
    "booting [\"正在启动 DeepSeek Harness…\"]",
    "clear",
    "retire",
];

#[test]
fn a_backend_is_started_and_shown() {
    let lines = boot(vec![
        BootEvent::Probed(None),
        BootEvent::Looked(Preflight::Ready),
        BootEvent::Spawned(None),
        BootEvent::LogOpened(Ok("x.log".into())),
        BootEvent::Waited(Some("http://127.0.0.1:5".into())),
    ]);
    assert_eq!(lines[..3], STARTING);
    assert_eq!(lines[3..], ["keep", "gui http://127.0.0.1:5", "watch x.log"]);
}

#[test]
fn a_backend_that_fails_is_explained() {
    for waited in [None, Some(String::new())] {
        let lines = boot(vec![
            BootEvent::Probed(None),
            BootEvent::Looked(Preflight::Ready),
            BootEvent::Spawned(None),
            BootEvent::LogOpened(Ok("x.log".into())),
            BootEvent::Waited(waited),
            BootEvent::LogRead(Some("[err] Error: Cannot find module 'a'\n".into())),
        ]);
        assert_eq!(lines[..3], STARTING);
        assert_eq!(
            lines[3..],
            [
                "keep",
                "error [\"Error: Cannot find module 'a'\", \"完整日志：x.log\"]"
            ]
        );
    }
}

#[test]
fn a_boot_that_cannot_begin_says_why() {
    let lines = boot(vec![
        BootEvent::Probed(None),
        BootEvent::Looked(Preflight::Ready),
        BootEvent::Spawned(Some("no such file".into())),
    ]);
    assert_eq!(lines[3..], ["error [\"无法启动 `dsh web`：no such file\"]"]);
    let lines = boot(vec![
        BootEvent::Probed(None),
        BootEvent::Looked(Preflight::Ready),
        BootEvent::Spawned(None),
        BootEvent::LogOpened(Err("read-only".into())),
    ]);
    assert_eq!(lines[3..], ["error [\"无法打开后端日志：read-only\"]"]);
}

#[test]
fn an_event_out_of_turn_changes_nothing() {
    let m = BootStep::Probe.try_boot(BootEvent::Spawned(None));
    assert!(m.effects.is_empty() && matches!(m.step, BootStep::Probe));
    let m = BootStep::Finished.try_boot(BootEvent::Probed(None));
    assert!(m.effects.is_empty() && matches!(m.step, BootStep::Finished));
}

#[test]
fn a_watcher_speaks_up_for_its_own_backend_only() {
    let mut backend = Backend::default();
    assert!(!backend.backend_is_ours());
    let born = backend.store(4242);
    assert!(backend.backend_is_ours());
    assert!(backend.has_crashed(born, true));
    assert!(!backend.has_crashed(born, false));
    assert_eq!(backend.take_backend(), Some(4242));
    assert!(!backend.backend_is_ours());
    assert!(!backend.has_crashed(born, true));
    let mut last = Backend {
        child: None,
        generation: u64::MAX,
    };
    assert_eq!(last.take_backend(), None);
    assert_eq!(last.generation, 0);
}

#[test]
fn one_boot_at_a_time() {
    let mut lock = BootLock::new();
    assert!(lock.enter());
    assert!(!lock.enter());
    lock.leave();
    assert!(lock.enter());
}

#[test]
fn one_check_at_startup_and_not_before_there_is_dsh() {
    let mut gate = AutoCheck::new();
    assert!(!gate.auto_check_dsh_version(false));
    assert!(gate.auto_check_dsh_version(true));
    assert!(!gate.auto_check_dsh_version(true));
}

// ---------------------------------------------------------------- the check

const TAGS: &str = r#"{"latest": "1.1.0", "alpha": "1.2.0-alpha.1", "odd": "x"}"#;

fn installed(version: &str, channel: &'static str) -> VersionCheck {
    check_dsh_version(channel, true, Some(version), true, Some(TAGS))
}

fn words(report: &VersionReport) -> (&str, &str, Option<&str>, Option<&str>, Option<&str>) {
    (
        report.state.word(),
        report.channel.as_str(),
        report.installed.as_deref(),
        report.target.as_deref(),
        report.reason.as_deref(),
    )
}

#[test]
fn each_outcome_of_a_check_is_reported() {
    let report = |check: &VersionCheck| report_dsh_version(check, "alpha");
    let r = report(&installed("dsh 1.0.0", "latest"));
    assert_eq!(words(&r), ("outdated", "latest", Some("1.0.0"), Some("1.1.0"), None));
    let r = report(&installed("dsh 1.1.0", "latest"));
    assert_eq!(words(&r), ("current", "latest", Some("1.1.0"), Some("1.1.0"), None));
    let r = report(&installed("dsh 1.2.0", "latest"));
    assert_eq!(words(&r), ("rollback", "latest", Some("1.2.0"), Some("1.1.0"), None));
    let r = report(&installed("dsh 1.2.0", "beta"));
    assert_eq!(words(&r), ("channel-empty", "beta", Some("1.2.0"), None, None));
    let r = report(&installed("dsh 1.2.0", "odd"));
    assert_eq!(
        words(&r),
        (
            "error",
            "odd",
            Some("1.2.0"),
            None,
            Some("@deepseek-ai/dsh 的 odd 通道返回了无法识别的版本号。")
        )
    );
    let r = report(&check_dsh_version("latest", false, None, false, None));
    assert_eq!(words(&r), ("not-installed", "alpha", None, None, None));
    let r = report(&check_dsh_version("latest", true, Some("dsh"), true, Some(TAGS)));
    assert_eq!(
        words(&r),
        (
            "error",
            "latest",
            None,
            None,
            Some("无法确定本机 dsh 的版本（`dsh --version` 没有输出可识别的版本号）。")
        )
    );
    let r = report(&check_dsh_version("latest", true, Some("1.0.0"), false, None));
    assert_eq!(
        words(&r),
        (
            "error",
            "latest",
            Some("1.0.0"),
            None,
            Some("PATH 中没有 npm，无法查询最新版本。")
        )
    );
    let r = report(&check_dsh_version("latest", true, Some("1.0.0"), true, None));
    assert_eq!(
        words(&r),
        (
            "error",
            "latest",
            Some("1.0.0"),
            None,
            Some("无法从 npm 查询 @deepseek-ai/dsh 的版本信息，通常是网络或注册表配置问题。")
        )
    );
}

#[test]
fn an_inquiry_asks_no_more_than_it_needs() {
    let asked = Inquiry::FindDsh.found("latest", false);
    assert!(matches!(asked, Inquiry::Done(VersionCheck::NotInstalled)));
    let asked = Inquiry::FindDsh.found("latest", true);
    assert!(matches!(asked, Inquiry::AskVersion));
    let asked = asked.printed("latest", Some("dsh 1.0.0"));
    assert!(matches!(&asked, Inquiry::FindNpm { installed } if installed == "1.0.0"));
    let asked = asked.found("latest", true);
    assert!(matches!(&asked, Inquiry::AskTags { installed } if installed == "1.0.0"));
    let asked = asked.printed("latest", Some(TAGS));
    assert!(matches!(
        asked,
        Inquiry::Done(VersionCheck::Compared {
            relation: VersionRelation::Newer,
            ..
        })
    ));
}

#[test]
fn reports_that_come_before_an_answer() {
    assert_eq!(
        words(&VersionReport::default()),
        ("unknown", "latest", None, None, None)
    );
    assert_eq!(
        words(&checking_report("alpha", None)),
        ("checking", "alpha", None, None, None)
    );
    let last = report_dsh_version(&installed("1.0.0", "latest"), "latest");
    assert_eq!(
        words(&resolving_report("alpha", &last)),
        ("resolving", "alpha", Some("1.0.0"), Some("1.1.0"), None)
    );
    assert_eq!(
        words(&resolving_shell_report("alpha", "0.1.0", &last)),
        ("resolving", "alpha", Some("0.1.0"), Some("1.1.0"), None)
    );
}

#[test]
fn every_state_has_a_word_of_its_own() {
    let pages = [
        PageState::Booting,
        PageState::Ready,
        PageState::MissingDsh,
        PageState::MissingNode,
        PageState::Installing,
        PageState::Error,
    ];
    let checks = [
        CheckState::Unknown,
        CheckState::Checking,
        CheckState::Resolving,
        CheckState::Related(VersionRelation::Same),
        CheckState::Related(VersionRelation::Newer),
        CheckState::Related(VersionRelation::Older),
        CheckState::ChannelEmpty,
        CheckState::NotInstalled,
        CheckState::Installing,
        CheckState::Failed,
    ];
    let mut words: Vec<&str> = pages.iter().map(|s| s.word()).collect();
    words.sort_unstable();
    words.dedup();
    assert_eq!(words.len(), pages.len());
    let mut words: Vec<&str> = checks.iter().map(|s| s.word()).collect();
    words.sort_unstable();
    words.dedup();
    assert_eq!(words.len(), checks.len());
}

#[test]
fn only_a_gui_that_is_up_is_spared() {
    assert!(gui_is_up(&bare_status(PageState::Ready)));
    for state in [
        PageState::Booting,
        PageState::MissingDsh,
        PageState::MissingNode,
        PageState::Installing,
        PageState::Error,
    ] {
        assert!(!gui_is_up(&status_payload(state, vec!["x".into()])));
    }
}

// ---------------------------------------------------------------- upgrading

fn upgrade_line(effect: &UpgradeEffect) -> String {
    match effect {
        UpgradeEffect::Report(report) => format!("report {}", report.state.word()),
        UpgradeEffect::Show(status) => format!("{} {:?}", status.state.word(), status.detail),
        UpgradeEffect::Log(line) => format!("log {line}"),
        UpgradeEffect::Retire => "retire".to_string(),
        UpgradeEffect::ClearLock => "clear".to_string(),
        UpgradeEffect::Boot => "boot".to_string(),
    }
}

/// What an upgrade does when its steps come to the given events.
fn upgrade(events: Vec<UpgradeEvent>) -> (Vec<String>, UpgradeStep) {
    let UpgradeMove { effects, mut step } = upgrade_dsh_to("latest", &VersionReport::default());
    let mut lines: Vec<String> = effects.iter().map(upgrade_line).collect();
    for event in events {
        let m = step.upgrade_dsh_now(event);
        lines.extend(m.effects.iter().map(upgrade_line));
        step = m.step;
    }
    (lines, step)
}

fn resolved(check: VersionCheck, gui_up: bool) -> UpgradeEvent {
    UpgradeEvent::Resolved {
        check,
        followed: "latest".into(),
        gui_up,
    }
}

#[test]
fn an_update_stops_the_backend_installs_and_boots() {
    let (lines, step) = upgrade(vec![
        resolved(installed("1.0.0", "latest"), true),
        UpgradeEvent::Owner { ours: true },
        UpgradeEvent::Installed(None),
        UpgradeEvent::Rechecked {
            check: installed("1.1.0", "latest"),
            followed: "latest".into(),
        },
    ]);
    assert_eq!(
        lines,
        [
            "report resolving",
            "report outdated",
            "installing [\"正在把 dsh 更新到 1.1.0\", \"装完会自动重新启动，稍等一下~\"]",
            "retire",
            "clear",
            "report current",
            "booting [\"更新完成，正在启动…\"]",
            "boot",
        ]
    );
    assert!(matches!(step, UpgradeStep::Finished));
}

#[test]
fn a_rollback_is_backed_up_first() {
    let (lines, step) = upgrade(vec![
        resolved(installed("1.2.0", "latest"), true),
        UpgradeEvent::Owner { ours: false },
        UpgradeEvent::Probed {
            serving: false,
            port: 3080,
        },
    ]);
    assert_eq!(lines[1], "report rollback");
    assert_eq!(
        lines[2],
        "installing [\"正在把 dsh 回退到 1.1.0\", \"装完会自动重新启动，稍等一下~\"]"
    );
    assert_eq!(lines[3..], ["retire", "clear"]);
    let UpgradeStep::BackUp(plan) = step else {
        panic!("no backup")
    };
    assert_eq!((plan.installed.as_str(), plan.target.as_str()), ("1.2.0", "1.1.0"));
    let m = UpgradeStep::BackUp(plan).upgrade_dsh_now(UpgradeEvent::BackedUp(Backup::Copied {
        home: "/h/.dsh".into(),
        dest: "/h/.dsh.bak".into(),
    }));
    assert_eq!(
        m.effects.iter().map(upgrade_line).collect::<Vec<_>>(),
        ["log 已备份 /h/.dsh → /h/.dsh.bak"]
    );
    let m = m.step.upgrade_dsh_now(UpgradeEvent::Installed(None));
    let m = m.step.upgrade_dsh_now(UpgradeEvent::Rechecked {
        check: installed("1.1.0", "latest"),
        followed: "latest".into(),
    });
    assert_eq!(
        m.effects.iter().map(upgrade_line).collect::<Vec<_>>(),
        ["report current", "booting [\"回退完成，正在启动…\"]", "boot"]
    );
}

fn rollback() -> Plan {
    Plan {
        installed: "1.2.0".into(),
        target: "1.1.0".into(),
        down: true,
    }
}

#[test]
fn a_rollback_without_a_backup_is_called_off() {
    let m = UpgradeStep::BackUp(rollback()).upgrade_dsh_now(UpgradeEvent::BackedUp(
        Backup::Failed {
            home: "/h/.dsh".into(),
            error: "disk full".into(),
        },
    ));
    assert_eq!(
        m.effects.iter().map(upgrade_line).collect::<Vec<_>>(),
        [format!(
            "error {:?}",
            ["回退前备份 /h/.dsh 失败，已中止：disk full\n手动备份后再试，或直接执行 npm i -g @deepseek-ai/dsh@1.1.0。"]
        )]
    );
    assert!(matches!(m.step, UpgradeStep::Finished));
    let m = UpgradeStep::BackUp(rollback())
        .upgrade_dsh_now(UpgradeEvent::BackedUp(Backup::Nothing));
    assert!(m.effects.is_empty());
    assert!(matches!(m.step, UpgradeStep::Install(plan) if plan.down));
}

#[test]
fn somebody_elses_backend_stops_an_update() {
    let (lines, step) = upgrade(vec![
        resolved(installed("1.0.0", "latest"), true),
        UpgradeEvent::Owner { ours: false },
        UpgradeEvent::Probed {
            serving: true,
            port: 3080,
        },
    ]);
    assert_eq!(
        lines[2..],
        ["error [\"另一个 `dsh web` 正在运行（端口 3080），它占用着要被替换的文件。请先关掉它，再回来更新。\"]"]
    );
    assert!(matches!(step, UpgradeStep::Finished));
}

#[test]
fn an_update_to_the_same_version_is_nothing() {
    let (lines, step) = upgrade(vec![resolved(installed("1.1.0", "latest"), false)]);
    assert_eq!(lines[1..], ["report current"]);
    assert!(matches!(step, UpgradeStep::Finished));
}

#[test]
fn an_update_without_a_target_says_so_unless_the_gui_is_up() {
    let (lines, _) = upgrade(vec![resolved(installed("1.1.0", "beta"), true)]);
    assert_eq!(lines[1..], ["report channel-empty"]);
    let (lines, _) = upgrade(vec![resolved(installed("1.1.0", "beta"), false)]);
    assert_eq!(
        lines[1..],
        [
            "report channel-empty",
            "error [\"@deepseek-ai/dsh 的 beta 通道还没有发布过版本，没有可安装的目标。\"]"
        ]
    );
    let (lines, _) = upgrade(vec![resolved(VersionCheck::NotInstalled, false)]);
    assert_eq!(
        lines[1..],
        ["report not-installed", "error [\"本机还没有安装 dsh。\"]"]
    );
    let (lines, _) = upgrade(vec![resolved(
        check_dsh_version("latest", true, Some("1.0.0"), false, None),
        false,
    )]);
    assert_eq!(
        lines[1..],
        ["report error", "error [\"PATH 中没有 npm，无法查询最新版本。\"]"]
    );
}

#[test]
fn a_failed_install_is_reported_and_nothing_boots() {
    let m = UpgradeStep::Install(rollback())
        .upgrade_dsh_now(UpgradeEvent::Installed(Some("npm died".into())));
    assert_eq!(
        m.effects.iter().map(upgrade_line).collect::<Vec<_>>(),
        ["error [\"npm died\"]"]
    );
    assert!(matches!(m.step, UpgradeStep::Finished));
}

#[test]
fn an_update_goes_to_the_channel_that_is_asked_for() {
    assert_eq!(upgrade_dsh(Some("ALPHA"), "latest"), "alpha");
    assert_eq!(upgrade_dsh(Some("nonsense"), "alpha"), "latest");
    assert_eq!(upgrade_dsh(None, "alpha"), "alpha");
}

#[test]
fn a_first_install_boots_when_the_command_is_there() {
    let after = install_dsh(None, true);
    assert!(after.boot);
    assert_eq!(after.status.detail, ["安装完成，正在启动…"]);
    let after = install_dsh(None, false);
    assert!(!after.boot);
    assert_eq!(after.status.state, PageState::Error);
    assert_eq!(
        after.status.detail,
        ["@deepseek-ai/dsh 安装完成，但 PATH 中仍找不到 `dsh` 命令。请重开一次应用；若仍不行，检查 npm 全局目录（npm prefix）是否在 PATH 中。"]
    );
    let after = install_dsh(Some("npm died".into()), true);
    assert!(!after.boot);
    assert_eq!(after.status.detail, ["npm died"]);
}

// ---------------------------------------------------------------- the shell

fn offer(version: &str, current: &str) -> ShellCheck {
    resolve_shell_update(UpdaterReply::Release {
        version: version.into(),
        current: current.into(),
    })
}

#[test]
fn the_shell_is_offered_whatever_differs() {
    let report = |check: &ShellCheck| check_shell_update(check, "latest", "0.2.0");
    let r = report(&offer("0.3.0", "0.2.0"));
    assert_eq!(words(&r), ("outdated", "latest", Some("0.2.0"), Some("0.3.0"), None));
    let r = report(&offer("0.1.0", "0.2.0"));
    assert_eq!(words(&r), ("rollback", "latest", Some("0.2.0"), Some("0.1.0"), None));
    let r = report(&offer("0.2.0", "0.2.0"));
    assert_eq!(words(&r), ("current", "latest", Some("0.2.0"), Some("0.2.0"), None));
    for nothing in [UpdaterReply::NoContent, UpdaterReply::NotFound] {
        let r = report(&resolve_shell_update(nothing));
        assert_eq!(words(&r), ("channel-empty", "latest", Some("0.2.0"), None, None));
    }
    let r = report(&resolve_shell_update(UpdaterReply::Failed {
        reason: "offline".into(),
    }));
    assert_eq!(words(&r), ("error", "latest", Some("0.2.0"), None, Some("offline")));
}

#[test]
fn the_shell_installs_only_another_version() {
    let m = update_shell(&offer("0.1.0", "0.2.0"), "latest", "0.2.0");
    assert_eq!(m.install.as_deref(), Some("0.1.0"));
    assert_eq!(m.report.state, CheckState::Installing);
    let m = update_shell(&offer("0.2.0", "0.2.0"), "latest", "0.2.0");
    assert_eq!(m.install, None);
    assert_eq!(m.report.state.word(), "current");
    let m = update_shell(&ShellCheck::Nothing, "alpha", "0.2.0");
    assert_eq!(m.install, None);
    assert_eq!(m.report.state, CheckState::ChannelEmpty);
    assert!(shell_installed("latest", "0.2.0", "0.3.0", None).is_none());
    let r = shell_installed("latest", "0.2.0", "0.3.0", Some("bad signature")).unwrap();
    assert_eq!(
        words(&r),
        (
            "error",
            "latest",
            Some("0.2.0"),
            Some("0.3.0"),
            Some("更新失败：bad signature")
        )
    );
}

#[test]
fn the_manifest_is_asked_for_on_known_channels_only() {
    assert!(shell_endpoint("latest").unwrap().ends_with("/releases/latest/download/latest.json"));
    assert!(shell_endpoint("alpha").unwrap().ends_with("/releases/download/alpha/latest.json"));
    assert_eq!(shell_endpoint("beta"), Err("未知的通道 beta。".to_string()));
    assert_eq!(bad_endpoint("x"), "更新清单地址无效：x");
    assert_eq!(updater_not_ready("x"), "更新器初始化失败：x");
}

// ---------------------------------------------------------------- dialogs

#[test]
fn a_check_of_dsh_is_always_answered() {
    let d = check_dsh_update_interactive(&installed("1.0.0", "latest"), "latest");
    assert_eq!(d.title, "dsh 更新");
    assert_eq!(
        d.message,
        "发现新版本 dsh 1.1.0（当前 1.0.0）。\n更新期间后端会短暂停止，完成后自动重新启动。"
    );
    assert_eq!(d.confirm, Some("立即更新"));
    assert_eq!(LATER, "稍后");
    let d = check_dsh_update_interactive(&installed("1.2.0", "latest"), "latest");
    assert_eq!(
        d.message,
        "latest 通道当前是 dsh 1.1.0，比本机的 1.2.0 旧。\n继续会回退到 1.1.0；回退前会先把 ~/.dsh 备份一份，但里面的状态不会被迁移回旧格式。"
    );
    assert_eq!(d.confirm, Some("回退"));
    let d = check_dsh_update_interactive(&installed("1.1.0", "latest"), "latest");
    assert_eq!(d.message, "dsh 已经是 latest 通道的最新版本（1.1.0）。");
    assert_eq!(d.confirm, None);
    let d = check_dsh_update_interactive(&installed("1.1.0", "beta"), "beta");
    assert_eq!(
        d.message,
        "@deepseek-ai/dsh 的 beta 通道还没有发布过版本。本机是 1.1.0。"
    );
    let d = check_dsh_update_interactive(&VersionCheck::NotInstalled, "latest");
    assert_eq!(d.message, "本机还没有安装 dsh，没有可比较的版本。");
    let failed = check_dsh_version("latest", true, Some("1.0.0"), false, None);
    let d = check_dsh_update_interactive(&failed, "latest");
    assert_eq!(
        d.message,
        "检查 dsh 更新失败：PATH 中没有 npm，无法查询最新版本。"
    );
    assert_eq!(d.confirm, None);
}

#[test]
fn a_check_of_the_shell_is_always_answered() {
    let d = check_for_update(&offer("0.3.0", "0.2.0"), "latest", "0.2.0");
    assert_eq!(d.title, "DSH Desktop 更新");
    assert_eq!(d.message, "发现新版本 0.3.0（当前 0.2.0）。\n更新后应用会自动重启。");
    assert_eq!(d.confirm, Some("立即更新"));
    let d = check_for_update(&offer("0.1.0", "0.2.0"), "latest", "0.2.0");
    assert_eq!(
        d.message,
        "latest 通道当前是 0.1.0，比本机的 0.2.0 旧。\n继续会回退到 0.1.0，之后应用自动重启。"
    );
    assert_eq!(d.confirm, Some("回退"));
    let d = check_for_update(&offer("0.2.0", "0.2.0"), "latest", "0.2.0");
    assert_eq!(d.message, "已经是最新版本（0.2.0，latest 通道）。");
    assert_eq!(d.confirm, None);
    let d = check_for_update(&ShellCheck::Nothing, "alpha", "0.2.0");
    assert_eq!(
        d.message,
        "alpha 通道还没有发布过版本，没有可安装的目标。本机是 0.2.0。"
    );
    let d = check_for_update(
        &ShellCheck::Failed {
            reason: "offline".into(),
        },
        "alpha",
        "0.2.0",
    );
    assert_eq!(d.message, "检查更新失败：offline");
    let d = update_failed("bad signature");
    assert_eq!((d.title, d.message.as_str()), (SHELL_TITLE, "更新失败：bad signature"));
}

// ---------------------------------------------------------------- the tray's checks

fn dsh_tray_line(effect: &DshTrayEffect) -> String {
    match effect {
        DshTrayEffect::Report(report) => format!("report {}", report.state.word()),
        DshTrayEffect::Tell(dialog) => format!("tell {}", dialog.message),
        DshTrayEffect::Ask(dialog) => format!("ask {:?}", dialog.confirm),
        DshTrayEffect::Upgrade { channel } => format!("upgrade to {channel}"),
    }
}

/// What a check of dsh from the tray does when it comes to `check` and the user answers.
fn dsh_tray(check: VersionCheck, yes: bool) -> Vec<String> {
    let m = DshTrayStep::begin("latest");
    let mut lines: Vec<String> = m.effects.iter().map(dsh_tray_line).collect();
    let m = m.step.next("latest", DshTrayEvent::Checked(check));
    lines.extend(m.effects.iter().map(dsh_tray_line));
    let m = m.step.next("latest", DshTrayEvent::Answered(yes));
    lines.extend(m.effects.iter().map(dsh_tray_line));
    assert!(matches!(m.step, DshTrayStep::Finished));
    lines
}

#[test]
fn dsh_is_moved_from_the_tray_only_with_a_click() {
    assert_eq!(
        dsh_tray(installed("1.0.0", "latest"), true),
        [
            "report checking",
            "report outdated",
            "ask Some(\"立即更新\")",
            "upgrade to latest"
        ]
    );
    assert_eq!(
        dsh_tray(installed("1.2.0", "latest"), true),
        ["report checking", "report rollback", "ask Some(\"回退\")", "upgrade to latest"]
    );
    assert_eq!(
        dsh_tray(installed("1.0.0", "latest"), false),
        ["report checking", "report outdated", "ask Some(\"立即更新\")"]
    );
    assert_eq!(
        dsh_tray(installed("1.1.0", "latest"), true),
        [
            "report checking",
            "report current",
            "tell dsh 已经是 latest 通道的最新版本（1.1.0）。"
        ]
    );
    assert_eq!(
        dsh_tray(VersionCheck::NotInstalled, true),
        [
            "report checking",
            "report not-installed",
            "tell 本机还没有安装 dsh，没有可比较的版本。"
        ]
    );
    // An answer before the question sets nothing off.
    let m = DshTrayStep::Check.next("latest", DshTrayEvent::Answered(true));
    assert!(m.effects.is_empty() && matches!(m.step, DshTrayStep::Check));
    assert!(dsh_confirmed(&installed("1.0.0", "latest"), true));
    assert!(!dsh_confirmed(&installed("1.0.0", "latest"), false));
    assert!(!dsh_confirmed(&installed("1.1.0", "latest"), true));
    assert!(!dsh_confirmed(&VersionCheck::NotInstalled, true));
}

fn shell_tray_line(effect: &ShellTrayEffect) -> String {
    match effect {
        ShellTrayEffect::Report(report) => format!("report {}", report.state.word()),
        ShellTrayEffect::Tell(dialog) => format!("tell {}", dialog.message),
        ShellTrayEffect::Ask(dialog) => format!("ask {:?}", dialog.confirm),
        ShellTrayEffect::Restart => "restart".to_string(),
    }
}

/// What a check of the shell from the tray does, with a line for an install.
fn shell_tray(offer: ShellCheck, yes: bool, error: Option<&str>) -> Vec<String> {
    let m = ShellTrayStep::begin("latest", "0.2.0");
    let mut lines: Vec<String> = m.effects.iter().map(shell_tray_line).collect();
    let m = m
        .step
        .next("latest", "0.2.0", ShellTrayEvent::Resolved(offer));
    lines.extend(m.effects.iter().map(shell_tray_line));
    let m = m
        .step
        .next("latest", "0.2.0", ShellTrayEvent::Answered(yes));
    lines.extend(m.effects.iter().map(shell_tray_line));
    if let ShellTrayStep::Install { version } = &m.step {
        lines.push(format!("install {version}"));
    }
    let ended = ShellTrayEvent::Installed(error.map(str::to_string));
    let m = m.step.next("latest", "0.2.0", ended);
    lines.extend(m.effects.iter().map(shell_tray_line));
    assert!(matches!(m.step, ShellTrayStep::Finished));
    lines
}

#[test]
fn the_shell_is_replaced_from_the_tray_only_with_a_click() {
    assert_eq!(
        shell_tray(offer("0.3.0", "0.2.0"), true, None),
        [
            "report checking",
            "report outdated",
            "ask Some(\"立即更新\")",
            "install 0.3.0",
            "restart"
        ]
    );
    assert_eq!(
        shell_tray(offer("0.1.0", "0.2.0"), true, Some("bad signature")),
        [
            "report checking",
            "report rollback",
            "ask Some(\"回退\")",
            "install 0.1.0",
            "tell 更新失败：bad signature"
        ]
    );
    assert_eq!(
        shell_tray(offer("0.3.0", "0.2.0"), false, None),
        ["report checking", "report outdated", "ask Some(\"立即更新\")"]
    );
    assert_eq!(
        shell_tray(offer("0.2.0", "0.2.0"), true, None),
        [
            "report checking",
            "report current",
            "tell 已经是最新版本（0.2.0，latest 通道）。"
        ]
    );
    assert_eq!(
        shell_tray(ShellCheck::Nothing, true, None)[1],
        "report channel-empty"
    );
    let failed = ShellCheck::Failed {
        reason: "offline".into(),
    };
    assert_eq!(
        shell_tray(failed, true, None)[1..],
        ["report error", "tell 检查更新失败：offline"]
    );
    assert_eq!(
        shell_confirmed(&offer("0.3.0", "0.2.0"), true).as_deref(),
        Some("0.3.0")
    );
    assert_eq!(shell_confirmed(&offer("0.3.0", "0.2.0"), false), None);
    assert_eq!(shell_confirmed(&offer("0.2.0", "0.2.0"), true), None);
    assert_eq!(shell_confirmed(&ShellCheck::Nothing, true), None);
    assert!(matches!(shell_replaced(None), AfterReplace::Restart));
    assert!(matches!(
        shell_replaced(Some("x")),
        AfterReplace::Tell(dialog) if dialog.message == "更新失败：x"
    ));
}

#[test]
fn the_script_is_run_six_times() {
    let pauses: Vec<u64> = (0..).map_while(push_pause).collect();
    assert_eq!(pauses, [0, 350, 350, 350, 350, 350]);
}

// ---------------------------------------------------------------- ending processes

#[test]
fn windows_forces_at_once() {
    let step = kill_process_tree(true);
    assert_eq!(step, KillStep::Terminate { force: true });
    assert_eq!(step.next(KillSeen::Done), KillStep::Finish);
}

#[test]
fn elsewhere_a_process_is_asked_first() {
    let step = kill_process_tree(false);
    assert_eq!(step, KillStep::Terminate { force: false });
    let step = step.next(KillSeen::Done);
    assert_eq!(step, KillStep::ReadClock);
    let step = step.next(KillSeen::Elapsed(0));
    assert_eq!(step, KillStep::CheckAlive);
    assert_eq!(step.next(KillSeen::Alive(false)), KillStep::Finish);
    let step = step.next(KillSeen::Alive(true));
    assert_eq!(step, KillStep::Pause);
    let step = step.next(KillSeen::Done);
    assert_eq!(step.next(KillSeen::Elapsed(KILL_GRACE_MS - 1)), KillStep::CheckAlive);
    let step = step.next(KillSeen::Elapsed(KILL_GRACE_MS));
    assert_eq!(step, KillStep::Terminate { force: true });
    assert_eq!(step.next(KillSeen::Done), KillStep::Finish);
    assert_eq!(KILL_GRACE_MS, 8000);
}
