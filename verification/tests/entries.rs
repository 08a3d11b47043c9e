use gall::blocks::{generic_label, short_description, DESCRIPTION_LIMIT};
use gall::config::{
    copy_entries, copy_text, is_desktop_file, unique_apps, AppEntry, ConfigLoad, DESKTOP_PATHS,
};
use gall::bytes::{bytes_eq, eq_ignore_case, find, remove_all, trim};
use gall::desktop::{
    assignment, clean_command, lookup, parse_desktop_bytes, parse_desktop_file, section,
};

fn app(name: &str, command: &str) -> AppEntry {
    AppEntry {
        name: name.to_string(),
        genc: None,
        desc: None,
        icon: None,
        command: command.to_string(),
    }
}

const FIREFOX: &str = "# comment\n[Desktop Entry]\nVersion=1.0\nName=Firefox\nGenericName=Web Browser\nComment=Browse the World Wide Web\nExec=firefox %u\nIcon=firefox\nType=Application\nTerminal=false\nCategories=Network;\n\n[Desktop Action new-window]\nName=New Window\nExec=firefox --new-window %u\n";

#[test]
fn parses_a_plain_entry() {
    let e = parse_desktop_file(FIREFOX, &None);
    assert_eq!(
        e,
        Some(AppEntry {
            name: "Firefox".to_string(),
            genc: Some("Web Browser".to_string()),
            desc: Some("Browse the World Wide Web".to_string()),
            icon: Some("firefox".to_string()),
            command: "firefox".to_string(),
        })
    );
}

#[test]
fn missing_header_is_no_entry() {
    assert_eq!(parse_desktop_file("Name=X\nExec=x\nType=Application\n", &None), None);
    assert_eq!(parse_desktop_file("", &None), None);
}

#[test]
fn hidden_entries_are_skipped() {
    let hidden = "[Desktop Entry]\nName=X\nExec=x\nType=Application\nNoDisplay=TRUE\n";
    assert_eq!(parse_desktop_file(hidden, &None), None);
    let shown = "[Desktop Entry]\nName=X\nExec=x\nType=Application\nNoDisplay=false\n";
    assert_eq!(parse_desktop_file(shown, &None), Some(app("X", "x")));
}

#[test]
fn only_applications_are_listed() {
    let link = "[Desktop Entry]\nName=X\nExec=x\nType=Link\n";
    assert_eq!(parse_desktop_file(link, &None), None);
    let untyped = "[Desktop Entry]\nName=X\nExec=x\n";
    assert_eq!(parse_desktop_file(untyped, &None), None);
    let lower = "[Desktop Entry]\nName=X\nExec=x\nType=application\n";
    assert_eq!(parse_desktop_file(lower, &None), None);
}

#[test]
fn name_and_command_are_required() {
    assert_eq!(parse_desktop_file("[Desktop Entry]\nExec=x\nType=Application\n", &None), None);
    assert_eq!(parse_desktop_file("[Desktop Entry]\nName=X\nType=Application\n", &None), None);
    assert_eq!(
        parse_desktop_file("[Desktop Entry]\nName=\nExec=x\nType=Application\n", &None),
        None
    );
    assert_eq!(
        parse_desktop_file("[Desktop Entry]\nName=X\nExec=  \nType=Application\n", &None),
        None
    );
}

#[test]
fn terminal_entries_need_a_terminal() {
    let htop = "[Desktop Entry]\nName=Htop\nExec=htop\nType=Application\nTerminal=True\n";
    assert_eq!(parse_desktop_file(htop, &None), None);
    assert_eq!(
        parse_desktop_file(htop, &Some("kitty -e".to_string())),
        Some(app("Htop", "kitty -e htop"))
    );
    // the terminal is not used where the entry does not ask for it
    let plain = "[Desktop Entry]\nName=X\nExec=x\nType=Application\n";
    assert_eq!(parse_desktop_file(plain, &Some("kitty".to_string())), Some(app("X", "x")));
}

#[test]
fn placeholders_are_removed_from_command() {
    assert_eq!(clean_command(b"gimp %U"), b"gimp".to_vec());
    assert_eq!(clean_command(b"app --file=%f --dir %F -u=%u"), b"app --file --dir -u".to_vec());
    assert_eq!(clean_command(b"app %F %f %U %u"), b"app".to_vec());
    assert_eq!(clean_command(b"app %i %c"), b"app %i %c".to_vec());
    assert_eq!(clean_command(b"app%u"), b"app%u".to_vec());
    let text = "x %Fy=%Uz";
    let expected = text
        .replace(" %F", "")
        .replace(" %f", "")
        .replace(" %U", "")
        .replace(" %u", "")
        .replace("=%F", "")
        .replace("=%f", "")
        .replace("=%U", "")
        .replace("=%u", "");
    assert_eq!(clean_command(text.as_bytes()), expected.into_bytes());
}

#[test]
fn remove_all_goes_left_to_right_without_overlap() {
    assert_eq!(remove_all(b"aaa", b"aa"), b"a".to_vec());
    assert_eq!(remove_all(b"ababab", b"ab"), Vec::<u8>::new());
    assert_eq!(remove_all(b"xabyabz", b"ab"), b"xyz".to_vec());
    assert_eq!(remove_all(b"abc", b""), b"abc".to_vec());
    assert_eq!(remove_all(b"ab", b"abc"), b"ab".to_vec());
    assert_eq!(remove_all(b"aabb", b"ab"), b"ab".to_vec());
}

#[test]
fn later_lines_override_earlier_ones() {
    let twice = "[Desktop Entry]\nName=First\nExec=x\nType=Application\nName=Second\n";
    assert_eq!(parse_desktop_file(twice, &None), Some(app("Second", "x")));
}

#[test]
fn comments_and_other_sections_are_ignored() {
    let text = "[Desktop Entry]\n#Name=Commented\nName=Real\nExec=x\nType=Application\n[Other]\nName=Else\n";
    assert_eq!(parse_desktop_file(text, &None), Some(app("Real", "x")));
}

#[test]
fn white_space_around_keys_and_values_is_cut() {
    let text = "[Desktop Entry]\r\n  Name \t=  Spaced Out \r\nExec=\u{00A0}x y\u{3000}\r\nType = Application\r\n";
    assert_eq!(parse_desktop_file(text, &None), Some(app("Spaced Out", "x y")));
}

#[test]
fn value_may_hold_equals_sign() {
    let text = "[Desktop Entry]\nName=A=B\nExec=env X=1 run\nType=Application\n";
    assert_eq!(parse_desktop_file(text, &None), Some(app("A=B", "env X=1 run")));
}

#[test]
fn parsing_bytes_gives_the_same_fields() {
    let raw = parse_desktop_bytes(FIREFOX.as_bytes(), None);
    let raw = match raw {
        Some(r) => r,
        None => panic!("no entry"),
    };
    assert_eq!(raw.name, b"Firefox".to_vec());
    assert_eq!(raw.genc, Some(b"Web Browser".to_vec()));
    assert_eq!(raw.icon, Some(b"firefox".to_vec()));
    assert_eq!(raw.command, b"firefox".to_vec());
}

#[test]
fn section_ends_before_next_header() {
    assert_eq!(section(b"x[Desktop Entry]\na=b\n[Next]\nc=d"), Some(&b"\na=b"[..]));
    assert_eq!(section(b"[Desktop Entry]a=b"), Some(&b"a=b"[..]));
    assert_eq!(section(b"[Desktop Entry]"), Some(&b""[..]));
    assert_eq!(section(b"[desktop entry]\na=b"), None);
}

#[test]
fn lookup_finds_last_assignment() {
    let body = b"\nA=1\nB = 2\nA=3\n#A=4\nno equals\n";
    assert_eq!(lookup(body, b"A"), Some(&b"3"[..]));
    assert_eq!(lookup(body, b"B"), Some(&b"2"[..]));
    assert_eq!(lookup(body, b"C"), None);
    assert_eq!(lookup(b"", b"A"), None);
    assert_eq!(lookup(b"A=last", b"A"), Some(&b"last"[..]));
}

#[test]
fn assignment_splits_at_first_equals() {
    assert_eq!(assignment(b" k = v = w "), Some((&b"k"[..], &b"v = w"[..])));
    assert_eq!(assignment(b"=v"), Some((&b""[..], &b"v"[..])));
    assert_eq!(assignment(b"k="), Some((&b"k"[..], &b""[..])));
    assert_eq!(assignment(b"# k=v"), None);
    assert_eq!(assignment(b"   #k=v"), None);
    assert_eq!(assignment(b"plain"), None);
    assert_eq!(assignment(b""), None);
}

#[test]
fn trim_cuts_unicode_white_space() {
    assert_eq!(trim(b"  a b \t\r\n"), &b"a b"[..]);
    assert_eq!(trim(b""), &b""[..]);
    assert_eq!(trim(b" \x0b\x0c "), &b""[..]);
    for text in [
        " x ",
        "\u{0085}x\u{00A0}",
        "\u{1680}x\u{2000}",
        "\u{200A}x\u{2028}",
        "\u{2029}x\u{202F}",
        "\u{205F}x\u{3000}",
        "\u{200B}x\u{200B}",
        "\u{00A0}\u{3000} x y \u{2003}\t",
        "é x é",
    ] {
        assert_eq!(trim(text.as_bytes()), text.trim().as_bytes());
    }
}

#[test]
fn find_gives_first_occurrence() {
    assert_eq!(find(b"abcabc", b"bc"), Some(1));
    assert_eq!(find(b"abcabc", b"abc"), Some(0));
    assert_eq!(find(b"abcabc", b"cab"), Some(2));
    assert_eq!(find(b"abcabc", b"x"), None);
    assert_eq!(find(b"ab", b"abc"), None);
    assert_eq!(find(b"ab", b""), Some(0));
    assert_eq!(find(b"", b""), Some(0));
    assert_eq!(find(b"aab", b"ab"), Some(1));
}

#[test]
fn byte_comparisons() {
    assert!(bytes_eq(b"abc", b"abc"));
    assert!(!bytes_eq(b"abc", b"abd"));
    assert!(!bytes_eq(b"abc", b"ab"));
    assert!(bytes_eq(b"", b""));
    assert!(eq_ignore_case(b"TrUe", b"true"));
    assert!(!eq_ignore_case(b"true ", b"true"));
    assert!(!eq_ignore_case(b"tru3", b"true"));
}

#[test]
fn first_entry_of_each_name_is_kept() {
    let apps = vec![
        app("A", "first-a"),
        app("B", "first-b"),
        app("A", "second-a"),
        app("C", "c"),
        app("B", "second-b"),
        app("A", "third-a"),
    ];
    let unique = unique_apps(&apps);
    assert_eq!(unique, vec![app("A", "first-a"), app("B", "first-b"), app("C", "c")]);
    assert_eq!(unique_apps(&Vec::new()), Vec::<AppEntry>::new());
    assert_eq!(unique_apps(&unique), unique);
}

#[test]
fn desktop_files_are_told_by_extension() {
    assert!(is_desktop_file("firefox.desktop"));
    assert!(is_desktop_file(".desktop"));
    assert!(!is_desktop_file("firefox.desktop.bak"));
    assert!(!is_desktop_file("firefox.Desktop"));
    assert!(!is_desktop_file("desktop"));
    assert!(!is_desktop_file(""));
}

#[test]
fn fallback_configuration_is_empty() {
    let c = ConfigLoad::fallback();
    assert_eq!(c, ConfigLoad { css_reload: false, terminal: None, apps: Vec::new() });
}

#[test]
fn discovered_entries_follow_configured_ones() {
    let mut c = ConfigLoad {
        css_reload: true,
        terminal: Some("kitty".to_string()),
        apps: vec![app("Configured", "c")],
    };
    c.extend(vec![app("Found", "f"), app("More", "m")]);
    assert!(c.css_reload);
    assert_eq!(c.terminal, Some("kitty".to_string()));
    assert_eq!(c.apps, vec![app("Configured", "c"), app("Found", "f"), app("More", "m")]);
}

#[test]
fn copies_are_equal() {
    let e = AppEntry {
        name: "N".to_string(),
        genc: Some("G".to_string()),
        desc: None,
        icon: Some("I".to_string()),
        command: "c".to_string(),
    };
    assert_eq!(e.duplicate(), e);
    assert_eq!(copy_entries(&vec![e.clone(), app("X", "x")]), vec![e.clone(), app("X", "x")]);
    assert_eq!(copy_text(&Some("t".to_string())), Some("t".to_string()));
    assert_eq!(copy_text(&None), None);
}

#[test]
fn desktop_directories() {
    assert_eq!(
        DESKTOP_PATHS,
        [
            "/usr/share/applications/",
            "/usr/local/share/applications/",
            "~/.local/share/applications/"
        ]
    );
}

#[test]
fn generic_name_is_shown_only_if_it_differs() {
    let mut e = app("Firefox", "firefox");
    assert_eq!(generic_label(&e), None);
    e.genc = Some("Firefox".to_string());
    assert_eq!(generic_label(&e), None);
    e.genc = Some("Web Browser".to_string());
    assert_eq!(generic_label(&e), Some(&"Web Browser".to_string()));
}

#[test]
fn long_descriptions_are_cut_at_the_limit() {
    assert_eq!(DESCRIPTION_LIMIT, 60);
    let short = "a".repeat(60);
    assert_eq!(short_description(&short), Some(short.clone()));
    let long = "b".repeat(61);
    assert_eq!(short_description(&long), Some(format!("{}...", "b".repeat(60))));
    assert_eq!(short_description(""), Some(String::new()));
    // the cut falls inside the two bytes of the last letter
    let split = format!("{}é", "c".repeat(59));
    assert_eq!(split.len(), 61);
    assert_eq!(short_description(&split), None);
    let whole = format!("{}é!", "c".repeat(58));
    assert_eq!(short_description(&whole), Some(format!("{}é...", "c".repeat(58))));
}
