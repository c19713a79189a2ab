//! The parts that lean on std, serde_json and url, held against those.
use dsh_desktop::address::{
    extract_url, probe_address, probe_existing_web, probe_port, probe_request,
};
use dsh_desktop::ansi::strip_ansi;
use dsh_desktop::boot::show_gui;
use dsh_desktop::channels::Channels;
use dsh_desktop::check::{
    channel_dsh_version, compare_found, dsh_dist_tags, installed_dsh_version, read_tag,
    ChannelLookup, VersionCheck,
};
use dsh_desktop::decode::{decode_line, trim_line};
use dsh_desktop::home::{clear_stale_task_board_lock, LockStep};
use dsh_desktop::process::{captured, node_process_alive, process_alive};
use dsh_desktop::scan::{decimal_text, parse_number, split_at_each, strip_all, trim};
use dsh_desktop::status::PageState;
use dsh_desktop::text::{cat5, chars_of, is_digit, is_white_space, to_text, CharClass};
use dsh_desktop::theme::{apply_theme, parse_title_marker, Theme};
use dsh_desktop::version::VersionRelation;

fn every_char() -> impl Iterator<Item = char> {
    (0..=0x10ffff_u32).filter_map(char::from_u32)
}

#[test]
fn white_space_is_that_of_std() {
    for c in every_char() {
        assert_eq!(is_white_space(c), c.is_whitespace(), "{c:?}");
        assert_eq!(CharClass::White.has(c), c.is_whitespace(), "{c:?}");
    }
}

#[test]
fn gaps_are_white_space_and_controls() {
    for c in every_char() {
        assert_eq!(
            CharClass::Gap.has(c),
            c.is_whitespace() || c.is_control(),
            "{c:?}"
        );
    }
}

#[test]
fn the_other_classes_are_those_of_std() {
    for c in every_char() {
        assert_eq!(is_digit(c), c.is_ascii_digit(), "{c:?}");
        let version = c.is_ascii_alphanumeric() || matches!(c, '.' | '-' | '+');
        assert_eq!(CharClass::NotVersion.has(c), !version, "{c:?}");
        assert_eq!(CharClass::Dot.has(c), c == '.', "{c:?}");
        assert_eq!(
            CharClass::AuthorityEnd.has(c),
            matches!(c, '/' | '?' | '#'),
            "{c:?}"
        );
        assert_eq!(
            CharClass::Prose.has(c),
            matches!(
                c,
                '.' | ',' | ')' | ']' | '}' | '"' | '\'' | ';' | ':' | '!' | '?'
            ),
            "{c:?}"
        );
    }
}

#[test]
fn cutting_text_is_that_of_std() {
    for s in [
        "",
        " ",
        "a",
        " a b\t",
        "\u{3000}漢字\u{a0}",
        "[out] [out] x",
        "[out] ",
        "a.b..c.",
        ".",
        "\r\nx\r\n",
    ] {
        assert_eq!(to_text(&trim(&chars_of(s))), s.trim(), "{s:?}");
        assert_eq!(
            to_text(&strip_all(&chars_of(s), "[out] ")),
            s.trim_start_matches("[out] "),
            "{s:?}"
        );
        let pieces: Vec<String> = split_at_each(&chars_of(s), '.').iter().map(to_text).collect();
        let expected: Vec<&str> = s.split('.').collect();
        assert_eq!(pieces, expected, "{s:?}");
    }
}

#[test]
fn numbers_are_read_as_std_reads_them() {
    for s in [
        "",
        "+",
        "-",
        "-0",
        "-1",
        "0",
        "+0",
        "007",
        "12a",
        " 1",
        "٣",
        "18446744073709551615",
        "18446744073709551616",
        "+18446744073709551615",
        "99999999999999999999999",
        "00000000000000000000000000000001",
        "65535",
        "65536",
    ] {
        assert_eq!(
            parse_number(&chars_of(s), u64::MAX),
            s.parse::<u64>().ok(),
            "{s:?}"
        );
        assert_eq!(
            parse_number(&chars_of(s), u16::MAX as u64),
            s.parse::<u16>().ok().map(u64::from),
            "{s:?}"
        );
    }
}

#[test]
fn numbers_are_written_as_std_writes_them() {
    for n in [0, 1, 9, 10, 99, 100, 3080, 65535, 1_700_000_000, u64::MAX] {
        assert_eq!(decimal_text(n), n.to_string());
    }
}

#[test]
fn strings_are_joined_in_order() {
    assert_eq!(cat5("a", "", "漢", "c", "d"), "a漢cd");
}

#[test]
fn lines_are_decoded_without_being_lost() {
    assert_eq!(decode_line(b"plain \t\r\n"), "plain");
    assert_eq!(decode_line("漢字\n".as_bytes()), "漢字");
    // A byte that is not UTF-8 becomes a replacement character; the rest stays.
    assert_eq!(decode_line(b"bad \xb2\xbb byte\r\n"), "bad \u{fffd}\u{fffd} byte");
    assert_eq!(decode_line(b"\n"), "");
    assert_eq!(trim_line(" a \u{3000}\r\n"), " a");
}

#[test]
fn output_counts_only_when_the_command_succeeded() {
    assert_eq!(captured(true, b"1.2.3\n").as_deref(), Some("1.2.3\n"));
    assert_eq!(captured(true, b"\xff").as_deref(), Some("\u{fffd}"));
    assert_eq!(captured(false, b"1.2.3\n"), None);
}

#[test]
fn listings_are_read_without_regard_to_case() {
    assert!(node_process_alive(true, Some(b"\"NODE.EXE\",\"4242\",\"Console\"\r\n")));
    assert!(!node_process_alive(true, Some(b"\"cmd.exe\",\"4242\",\"node\"\r\n")));
    assert!(process_alive(true, Some(b"\"cmd.exe\",\"4242\"\r\n")));
    // A notice that there is no such task, in whatever code page.
    assert!(!process_alive(true, Some(b"\xd0\xc5\xcf\xa2: no tasks\r\n")));
    assert!(node_process_alive(false, Some(b"/usr/bin/Node\n")));
    assert!(!node_process_alive(false, Some(b"bash\n")));
    assert!(process_alive(false, Some(b"bash\n")));
    assert!(!process_alive(false, Some(b" \n")));
    assert!(!node_process_alive(false, Some(b"")));
}

#[test]
fn a_lookup_that_cannot_run_answers_still_there() {
    assert!(node_process_alive(true, None));
    assert!(node_process_alive(false, None));
    assert!(process_alive(true, None));
    assert!(process_alive(false, None));
}

#[test]
fn scripts_quote_as_json_does() {
    // What the frame is pointed at is the URL in its normal form.
    let gui = show_gui("http://127.0.0.1:3080/a b?\"x\"", true).unwrap();
    let href = url::Url::parse("http://127.0.0.1:3080/a b?\"x\"")
        .unwrap()
        .to_string();
    assert_eq!(gui.status.state, PageState::Ready);
    assert_eq!(gui.status.detail, [href.clone(), "owned".to_string()]);
    assert_eq!(
        gui.script,
        format!(
            "window.__dshSetFrame && window.__dshSetFrame({})",
            serde_json::to_string(&href).unwrap()
        )
    );
    assert_ne!(href, "http://127.0.0.1:3080/a b?\"x\"");
}

#[test]
fn a_malformed_address_is_not_shown() {
    assert!(show_gui("", true).is_none());
    assert!(show_gui("not a url", false).is_none());
    assert!(show_gui("http://127.0.0.1:99999", false).is_none());
}

#[test]
fn a_reused_address_is_always_shown() {
    for port in [0_u16, 1, 80, 443, 3080, 65535] {
        let url = probe_existing_web(port, "<title>DeepSeek Harness").unwrap();
        let gui = show_gui(&url, false).unwrap();
        assert_eq!(gui.status.detail[1], "foreign");
    }
}

#[test]
fn themes_are_handed_over_as_css() {
    assert_eq!(
        apply_theme(Theme::default()),
        "window.__dshApplyTheme && window.__dshApplyTheme(\"rgb(27,27,28)\", \"rgb(255,255,255)\")"
    );
}

#[test]
fn darkness_is_the_luminance_in_single_precision() {
    // Along the edges of the cube and across it, in steps that reach every residue.
    let mut colours = vec![[133, 151, 14], [0, 0, 0], [255, 255, 255], [27, 27, 28]];
    for r in (0..=255_u16).step_by(3) {
        for g in (0..=255_u16).step_by(5) {
            for b in (0..=255_u16).step_by(7) {
                colours.push([r as u8, g as u8, b as u8]);
            }
        }
    }
    // And every colour whose sum comes near the limit.
    for r in 0..=255_u32 {
        for g in 0..=255_u32 {
            for b in 0..=255_u32 {
                if (299 * r + 587 * g + 114 * b).abs_diff(130_000) <= 100 {
                    colours.push([r as u8, g as u8, b as u8]);
                }
            }
        }
    }
    for [r, g, b] in colours {
        let title = format!("[dsh:{r:02x}{g:02X}{b:02x}:000000]");
        let (theme, len) = parse_title_marker(&title).unwrap();
        let lum = 0.299 * r as f32 + 0.587 * g as f32 + 0.114 * b as f32;
        assert_eq!(theme.bg, [r, g, b]);
        assert_eq!(theme.dark, lum < 130.0, "{title}");
        assert_eq!(len, title.len());
    }
}

#[test]
fn markers_with_other_characters_are_ordinary_titles() {
    assert!(parse_title_marker("[dsh:漢字:e2e8f0]x").is_none());
    assert!(parse_title_marker("[dsh:a漢1b:e2e8f0]x").is_none());
    assert!(parse_title_marker("").is_none());
    assert!(parse_title_marker("[dsh:").is_none());
    // A sign is no digit, in whichever pair it stands.
    assert!(parse_title_marker("[dsh:+f1115:e2e8f0]x").is_none());
    assert!(parse_title_marker("[dsh:0f1115:e2e8+0]x").is_none());
    assert!(parse_title_marker("[dsh:0f-115:e2e8f0]x").is_none());
}

#[test]
fn remembered_channels_come_back() {
    let mut chosen = Channels::default();
    assert!(chosen.set_channel("dsh", "Alpha"));
    assert!(!chosen.set_channel("neither", "alpha"));
    assert_eq!((chosen.dsh, chosen.shell), ("alpha", "latest"));
    let text = chosen.save_channels();
    assert_eq!(text, r#"{"dsh":"alpha","shell":"latest"}"#);
    let mut other = Channels::default();
    assert!(other.set_channel("shell", "alpha"));
    other.load_channels(Some(&text));
    assert_eq!((other.dsh, other.shell), ("alpha", "latest"));
}

#[test]
fn a_corrupt_memory_of_channels_changes_little() {
    let mut channels = Channels::default();
    assert!(channels.set_channel("dsh", "alpha"));
    for text in [None, Some(""), Some("{"), Some("[]"), Some("\"alpha\""), Some("{}")] {
        channels.load_channels(text);
        assert_eq!((channels.dsh, channels.shell), ("alpha", "latest"));
    }
    // A side that is not a string stays; one that is no channel becomes the default.
    channels.load_channels(Some(r#"{"dsh": 7, "shell": "ALPHA"}"#));
    assert_eq!((channels.dsh, channels.shell), ("alpha", "alpha"));
    channels.load_channels(Some(r#"{"dsh": "; rm -rf /"}"#));
    assert_eq!((channels.dsh, channels.shell), ("latest", "alpha"));
}

#[test]
fn dist_tags_are_an_object_or_nothing() {
    assert!(dsh_dist_tags(None).is_none());
    assert!(dsh_dist_tags(Some("")).is_none());
    assert!(dsh_dist_tags(Some("[\"latest\"]")).is_none());
    let tags = dsh_dist_tags(Some("{\"latest\": \"1.0.0\"}")).unwrap();
    assert_eq!(tags.len(), 1);
    assert_eq!(installed_dsh_version(None), None);
    assert_eq!(
        installed_dsh_version(Some("dsh 1.0.0")).as_deref(),
        Some("1.0.0")
    );
}

#[test]
fn a_side_that_is_told_nothing_stays() {
    let mut channels = Channels::default();
    channels.take_over(Some(" ALPHA "), None);
    assert_eq!((channels.dsh, channels.shell), ("alpha", "latest"));
    channels.take_over(None, Some("alpha"));
    assert_eq!((channels.dsh, channels.shell), ("alpha", "alpha"));
    channels.take_over(Some("x"), None);
    assert_eq!((channels.dsh, channels.shell), ("latest", "alpha"));
}

#[test]
fn tags_are_read_as_versions() {
    assert!(matches!(read_tag(None), ChannelLookup::Failed));
    assert!(matches!(read_tag(Some("x")), ChannelLookup::Failed));
    assert!(matches!(read_tag(Some("v1.0 (x)")), ChannelLookup::Version(v) if v == "1.0"));
    let check = compare_found("latest", "1.0.0".into(), read_tag(Some("1.1.0")));
    assert!(matches!(
        check,
        VersionCheck::Compared {
            relation: VersionRelation::Newer,
            ..
        }
    ));
}

#[test]
fn a_tag_that_is_no_string_is_not_a_missing_tag() {
    let tags = dsh_dist_tags(Some(r#"{"alpha": 42, "beta": null, "rc": ["1.0.0"]}"#)).unwrap();
    for tag in ["alpha", "beta", "rc"] {
        assert!(matches!(channel_dsh_version(&tags, tag), ChannelLookup::Failed), "{tag}");
    }
    assert!(matches!(channel_dsh_version(&tags, "latest"), ChannelLookup::Missing));
}

#[test]
fn locks_name_a_process_or_are_junk() {
    assert_eq!(LockStep::of(None), LockStep::Remove);
    assert_eq!(LockStep::of(Some(7)), LockStep::AskNode(7));
    assert_eq!(clear_stale_task_board_lock(None), LockStep::Leave);
    for junk in ["", "x", "{}", "[4242]", r#"{"pid": "4242"}"#, r#"{"pid": -1}"#, r#"{"pid": 1.5}"#] {
        assert_eq!(
            clear_stale_task_board_lock(Some(junk)),
            LockStep::Remove,
            "{junk}"
        );
    }
    let step = clear_stale_task_board_lock(Some(r#"{"pid": 4242, "at": 0}"#));
    assert_eq!(step, LockStep::AskNode(4242));
    assert_eq!(step.node_seen(true), LockStep::Leave);
    assert_eq!(step.node_seen(false), LockStep::Remove);
    assert_eq!(LockStep::Leave.node_seen(false), LockStep::Leave);
    assert_eq!(LockStep::Remove.node_seen(true), LockStep::Remove);
}

#[test]
fn addresses_are_those_that_url_understands() {
    // An IPv6 host is written in brackets.
    assert_eq!(
        extract_url("dsh web: http://[::1]:3080").as_deref(),
        Some("http://[::1]:3080")
    );
    assert_eq!(
        extract_url("http://[0:0:0:0:0:0:0:1]:3080/x").as_deref(),
        Some("http://[0:0:0:0:0:0:0:1]:3080/x")
    );
    assert_eq!(extract_url("http://[::2]:3080"), None);
    assert_eq!(extract_url("http://[::1]"), None);
    assert_eq!(
        extract_url("http://0.0.0.0:3080/").as_deref(),
        Some("http://0.0.0.0:3080/")
    );
    // The default port counts when it is written out.
    assert_eq!(
        extract_url("http://127.0.0.1:80").as_deref(),
        Some("http://127.0.0.1:80")
    );
    // A host in capitals is normalised, the address is handed on as it stands.
    assert_eq!(
        extract_url("http://LOCALHOST:1").as_deref(),
        Some("http://LOCALHOST:1")
    );
    assert_eq!(extract_url("http://127.0.0.1:99999"), None);
    assert_eq!(extract_url("http://127.0.0.1:"), None);
    assert_eq!(extract_url("http://localhost:1:x"), None);
}

#[test]
fn every_name_of_this_machine_is_announced() {
    for host in ["127.0.0.1", "localhost", "[::1]", "0.0.0.0"] {
        for port in [0_u16, 1, 80, 3080, 65535] {
            let url = format!("http://{host}:{port}");
            assert_eq!(extract_url(&format!("dsh web: {url}")).as_deref(), Some(url.as_str()));
            assert!(show_gui(&url, true).is_some());
        }
    }
}

#[test]
fn the_probe_port_is_configurable() {
    assert_eq!(probe_port(None), 3080);
    assert_eq!(probe_port(Some(" 4000 ")), 4000);
    assert_eq!(probe_port(Some("+1")), 1);
    assert_eq!(probe_port(Some("65536")), 3080);
    assert_eq!(probe_port(Some("")), 3080);
    assert_eq!(probe_port(Some("-1")), 3080);
    assert_eq!(probe_address(3080), "127.0.0.1:3080");
    assert_eq!(
        probe_request(),
        "GET / HTTP/1.0\r\nHost: 127.0.0.1\r\nConnection: close\r\n\r\n"
    );
}

#[test]
fn only_a_dsh_page_is_reused() {
    assert_eq!(
        probe_existing_web(3080, "HTTP/1.0 200 OK\r\n\r\n<title>DeepSeek Harness</title>")
            .as_deref(),
        Some("http://127.0.0.1:3080")
    );
    assert_eq!(
        probe_existing_web(1, "window.__DSH_BOOT__ = {}").as_deref(),
        Some("http://127.0.0.1:1")
    );
    assert_eq!(probe_existing_web(3080, "<title>Grafana</title>"), None);
    assert_eq!(probe_existing_web(3080, ""), None);
}

#[test]
fn escapes_are_dropped_whole() {
    assert_eq!(strip_ansi("a\x1b[1;32mb\x1b[0mc"), "abc");
    // A stray escape takes the character behind it along.
    assert_eq!(strip_ansi("a\x1bXb"), "ab");
    assert_eq!(strip_ansi("a\x1b"), "a");
    // One that never ends takes the rest along.
    assert_eq!(strip_ansi("a\x1b[12;"), "a");
    assert_eq!(strip_ansi("漢\x1b[~字"), "漢字");
    // A sequence goes without a trace, whatever its parameters.
    for sequence in ["\x1b[m", "\x1b[0;1;31m", "\x1b[?25l", "\x1b[2K", "\x1b[漢@"] {
        assert_eq!(strip_ansi(&format!("a{sequence}b")), "ab", "{sequence:?}");
    }
}
