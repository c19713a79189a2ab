//! What the pieces do on the inputs that they were written for.
use dsh_desktop::address::extract_url;
use dsh_desktop::boot::Backend;
use dsh_desktop::channels::{normalize_channel, shell_manifest, CHANNELS, DEFAULT_CHANNEL};
use dsh_desktop::check::{channel_dsh_version, ChannelLookup};
use dsh_desktop::log::{backend_error_summary, wait_for_backend_exit};
use dsh_desktop::theme::parse_title_marker;
use dsh_desktop::version::{parse_version, relate, VersionRelation};
use std::collections::VecDeque;
use std::sync::mpsc;

/// Waits on a channel for the backend to be gone.
fn wait(rx: &mpsc::Receiver<String>) -> bool {
    let mut inbox = VecDeque::new();
    while let Ok(message) = rx.recv() {
        inbox.push_back(message);
        if wait_for_backend_exit(&mut inbox) {
            return true;
        }
    }
    wait_for_backend_exit(&mut inbox)
}

#[test]
fn leads_with_the_missing_export_not_the_wrapper() {
    // The shape of a boot failure after a prerelease dropped an API that installed
    // plugins still import. Everything above the last [cause] is the same text for any
    // plugin-tree failure, so the summary has to reach past it.
    let log = "[err] throw new Error(`${binName}: ${stage}: ${detail}${stack}`, { cause });\n\
         [err] Error: dsh: plugin tree failed to load: failed to apply loader entry include (cordis:include): loader entries failed to apply\n\
         [err]     at loadAll (file:///C:/x/dist/loader.js:12:9)\n\
         [err] [cause]: AggregateError: loader entries failed to apply\n\
         [err]     at applyEntries (file:///C:/x/dist/loader.js:44:11)\n\
         [err] [cause]: Error: failed to import loader entry web-ui-settings (@linxin666/dsh-client-ui-web-ui-settings): The requested module '@deepseek-ai/dsh-settings' does not provide an export named 'settingsNamespace'\n";
    let summary = backend_error_summary(Some(log));

    assert!(
        summary[0].contains("does not provide an export named"),
        "the line naming the plugin and the export has to come first, got {summary:#?}"
    );
    assert!(
        summary[0].contains("@linxin666/dsh-client-ui-web-ui-settings"),
        "and it has to still name the plugin: {:?}",
        summary[0]
    );
    // Stack frames are noise; the wrapper lines are kept but demoted.
    assert!(
        !summary.iter().any(|l| l.trim_start().starts_with("at ")),
        "no stack frames: {summary:#?}"
    );
    // The diagnosis is not readable off the raw line, so it is appended.
    assert!(
        summary.last().unwrap().contains("接口不一致"),
        "expected the version-mismatch hint last, got {summary:#?}"
    );
}

#[test]
fn adds_no_hint_when_nothing_is_missing_an_export() {
    let summary = backend_error_summary(Some(
        "[err] Error: dsh: task board is already owned by pid 4242\n",
    ));

    assert_eq!(
        summary.len(),
        1,
        "no hint for an unrelated failure: {summary:#?}"
    );
    assert!(summary[0].contains("already owned by"));
}

#[test]
fn reads_the_empty_line_as_the_backend_exiting() {
    let (tx, rx) = mpsc::channel::<String>();
    tx.send(String::new()).unwrap();
    assert!(wait(&rx));
}

#[test]
fn keeps_waiting_through_a_second_url() {
    let (tx, rx) = mpsc::channel::<String>();
    tx.send("http://127.0.0.1:52341".into()).unwrap();
    tx.send("http://127.0.0.1:52341".into()).unwrap();
    tx.send(String::new()).unwrap();
    assert!(wait(&rx));
}

#[test]
fn reports_no_exit_when_the_sender_just_disappears() {
    let (tx, rx) = mpsc::channel::<String>();
    drop(tx);
    assert!(!wait(&rx));
}

#[test]
fn retiring_a_backend_moves_the_generation_on() {
    // What the watcher actually compares. The empty-slot case matters too: there is
    // nothing to kill there, but any watcher left over must still be told apart.
    let mut state = Backend::default();
    let mine = state.generation;
    assert_eq!(state.take_backend(), None);
    assert_ne!(state.generation, mine);
}

#[test]
fn accepts_loopback_with_port() {
    assert_eq!(
        extract_url("dsh web: http://127.0.0.1:52341\n").as_deref(),
        Some("http://127.0.0.1:52341")
    );
    assert_eq!(
        extract_url("  ready on http://localhost:3080/app?x=1 \r\n").as_deref(),
        Some("http://localhost:3080/app?x=1")
    );
}

#[test]
fn requires_an_explicit_port() {
    // Without a port we cannot tell the GUI from an unrelated docs link, and
    // `--port 0` always reports one.
    assert_eq!(extract_url("see http://localhost/docs"), None);
}

#[test]
fn rejects_non_loopback() {
    assert_eq!(extract_url("tunnel: http://example.com:8080"), None);
}

#[test]
fn skips_unqualified_match_and_keeps_scanning() {
    // A docs link printed before the GUI's address must not win.
    assert_eq!(
        extract_url("docs http://example.com/x then http://127.0.0.1:9001").as_deref(),
        Some("http://127.0.0.1:9001")
    );
}

#[test]
fn trims_trailing_prose_punctuation() {
    assert_eq!(
        extract_url("open (http://127.0.0.1:3080).").as_deref(),
        Some("http://127.0.0.1:3080")
    );
}

#[test]
fn strips_ansi_colour_codes() {
    assert_eq!(
        extract_url("\x1b[32mhttp://127.0.0.1:3080\x1b[0m").as_deref(),
        Some("http://127.0.0.1:3080")
    );
}

#[test]
fn parses_a_title_colour_marker() {
    let (theme, len) = parse_title_marker("[dsh:0f1115:e2e8f0]DeepSeek Harness").unwrap();
    assert_eq!(theme.bg, [0x0f, 0x11, 0x15]);
    assert_eq!(theme.fg, [0xe2, 0xe8, 0xf0]);
    assert!(theme.dark, "0f1115 is dark");
    // The caller strips by this length, so it must land exactly after ']'.
    assert_eq!(
        &"[dsh:0f1115:e2e8f0]DeepSeek Harness"[len..],
        "DeepSeek Harness"
    );
}

#[test]
fn derives_dark_from_the_sampled_colour() {
    // A light theme, and an arbitrary third-party one, both classified by luminance
    // rather than a hardcoded list.
    assert!(!parse_title_marker("[dsh:f9fafb:1f2937]x").unwrap().0.dark);
    assert!(parse_title_marker("[dsh:2d1b4e:ffffff]x").unwrap().0.dark);
}

#[test]
fn rejects_malformed_title_markers() {
    assert!(parse_title_marker("DeepSeek Harness").is_none());
    assert!(parse_title_marker("[dsh:0f1115]x").is_none()); // one colour
    assert!(parse_title_marker("[dsh:0f111:e2e8f0]x").is_none()); // short hex
    assert!(parse_title_marker("[dsh:zzzzzz:e2e8f0]x").is_none()); // not hex
    assert!(parse_title_marker("[dsh:0f1115:e2e8f0").is_none()); // unterminated
}

#[test]
fn parses_a_bare_version() {
    // What `npm view <pkg> version` prints.
    assert_eq!(parse_version("1.2.3\n").as_deref(), Some("1.2.3"));
}

#[test]
fn parses_a_version_out_of_surrounding_text() {
    // A CLI's --version is not obliged to print only the number.
    assert_eq!(
        parse_version("dsh/2.0.1 win32-x64").as_deref(),
        Some("2.0.1")
    );
    assert_eq!(
        parse_version("dsh version 0.9.12").as_deref(),
        Some("0.9.12")
    );
    // The whole token is taken, not its tail.
    assert_eq!(parse_version("v1.2.3").as_deref(), Some("1.2.3"));
}

#[test]
fn keeps_prerelease_and_drops_trailing_prose() {
    assert_eq!(parse_version("3.0.0-rc.2").as_deref(), Some("3.0.0-rc.2"));
    assert_eq!(parse_version("installed 1.4.0.").as_deref(), Some("1.4.0"));
}

#[test]
fn ignores_output_with_no_version() {
    assert_eq!(parse_version(""), None);
    assert_eq!(parse_version("command not found"), None);
    // A lone integer is an exit code or a port, not a version.
    assert_eq!(parse_version("exited with 8"), None);
}

fn is_newer(a: &str, b: &str) -> bool {
    relate(a, b) == VersionRelation::Newer
}

#[test]
fn orders_releases_by_component() {
    assert!(is_newer("1.2.4", "1.2.3"));
    assert!(is_newer("1.3.0", "1.2.99"));
    assert!(is_newer("2.0.0", "1.99.99"));
    assert!(!is_newer("1.2.3", "1.2.3"));
    assert!(!is_newer("1.2.3", "1.2.4"));
    // Numeric, not lexical: "10" beats "9".
    assert!(is_newer("1.10.0", "1.9.0"));
}

#[test]
fn treats_missing_components_as_zero() {
    assert!(!is_newer("1.2", "1.2.0"));
    assert!(!is_newer("1.2.0", "1.2"));
    assert!(is_newer("1.3", "1.2.9"));
}

#[test]
fn ranks_a_release_above_its_prereleases() {
    assert!(is_newer("1.0.0", "1.0.0-rc.1"));
    assert!(!is_newer("1.0.0-rc.1", "1.0.0"));
    assert!(is_newer("1.0.0-rc.2", "1.0.0-rc.1"));
    // Numeric identifiers compare numerically, and sort below alphanumeric.
    assert!(is_newer("1.0.0-rc.10", "1.0.0-rc.2"));
    assert!(is_newer("1.0.0-alpha.beta", "1.0.0-alpha.1"));
    // A longer prerelease outranks the prefix it extends.
    assert!(is_newer("1.0.0-rc.1", "1.0.0-rc"));
}

#[test]
fn ignores_build_metadata() {
    // Per semver, build metadata carries no precedence.
    assert!(!is_newer("1.2.3+build.9", "1.2.3+build.1"));
    assert!(is_newer("1.2.4+a", "1.2.3+z"));
}

#[test]
fn relates_a_channel_target_in_both_directions() {
    // The alpha tag is ahead of latest, so switching to alpha is an update and
    // switching back is a rollback.
    assert_eq!(
        relate("0.1.2-alpha.3", "0.1.1-rc.2"),
        VersionRelation::Newer
    );
    assert_eq!(
        relate("0.1.1-rc.2", "0.1.2-alpha.3"),
        VersionRelation::Older
    );
    assert_eq!(relate("0.1.1-rc.2", "0.1.1-rc.2"), VersionRelation::Same);
}

#[test]
fn maps_a_relation_to_the_pages_state() {
    // Only `outdated` raises the title bar pill; a rollback must not nag.
    assert_eq!(VersionRelation::Newer.state(), "outdated");
    assert_eq!(VersionRelation::Older.state(), "rollback");
    assert_eq!(VersionRelation::Same.state(), "current");
}

#[test]
fn normalizes_known_channels_and_rejects_everything_else() {
    assert_eq!(normalize_channel("latest"), "latest");
    assert_eq!(normalize_channel("alpha"), "alpha");
    assert_eq!(normalize_channel(" alpha "), "alpha");
    assert_eq!(normalize_channel("ALPHA"), "alpha");
    // Anything off the allowlist falls back rather than reaching a command line.
    assert_eq!(normalize_channel("next"), DEFAULT_CHANNEL);
    assert_eq!(normalize_channel(""), DEFAULT_CHANNEL);
    assert_eq!(normalize_channel("latest; rm -rf /"), DEFAULT_CHANNEL);
    assert_eq!(normalize_channel("../../etc"), DEFAULT_CHANNEL);
}

#[test]
fn resolves_a_channel_out_of_dist_tags() {
    // Shaped like the output of `npm view @deepseek-ai/dsh dist-tags --json`.
    let mut tags = serde_json::Map::new();
    for (tag, version) in [
        ("latest", "0.1.1-rc.2"),
        ("next", "0.1.1-rc.2"),
        ("alpha", "0.1.2-alpha.3"),
        ("broken", "not-a-version"),
    ] {
        tags.insert(
            tag.to_string(),
            serde_json::Value::String(version.to_string()),
        );
    }

    assert!(matches!(
        channel_dsh_version(&tags, "alpha"),
        ChannelLookup::Version(v) if v == "0.1.2-alpha.3"
    ));
    assert!(matches!(
        channel_dsh_version(&tags, "latest"),
        ChannelLookup::Version(v) if v == "0.1.1-rc.2"
    ));
    // A tag the package does not publish is "nothing here", not a failure -- the panel
    // says so instead of showing an error.
    assert!(matches!(
        channel_dsh_version(&tags, "beta"),
        ChannelLookup::Missing
    ));
    assert!(matches!(
        channel_dsh_version(&tags, "broken"),
        ChannelLookup::Failed
    ));
}

#[test]
fn has_a_manifest_for_every_channel() {
    // A channel with no manifest could never be checked, and the panel offers exactly
    // the channels in CHANNELS.
    for channel in CHANNELS {
        assert!(
            shell_manifest(channel).is_some(),
            "no updater manifest for channel {channel}"
        );
    }
    assert!(shell_manifest("beta").is_none());
}

#[test]
fn ignores_lines_without_a_url() {
    assert_eq!(extract_url("Error: EADDRINUSE"), None);
    assert_eq!(extract_url(""), None);
    // https is never the local GUI; we only ever serve plain http.
    assert_eq!(extract_url("https://127.0.0.1:3080"), None);
}
