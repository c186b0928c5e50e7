use workshop_manager::text::{str_contains, str_is_blank, trim};
use workshop_manager::transfer::{download_args, is_success_line, transfer_succeeded};

#[test]
fn the_agent_is_started_with_eight_arguments() {
    assert_eq!(
        download_args("730", "100"),
        vec![
            "+force_install_dir",
            "./necodl",
            "+login",
            "anonymous",
            "+workshop_download_item",
            "730",
            "100",
            "+quit"
        ]
    );
}

#[test]
fn success_lines_are_recognised_anywhere_in_the_line() {
    assert!(is_success_line("Success. Downloaded item 100 to \"/x\" (12 bytes)"));
    assert!(is_success_line("  [x] item state : 4 (ok)"));
    assert!(is_success_line("item state : 4"));
    assert!(!is_success_line("item state : 3"));
    assert!(!is_success_line("success. downloaded item"));
    assert!(!is_success_line("ERROR! Download item 100 failed (Failure)."));
    assert!(!is_success_line(""));
}

#[test]
fn a_run_succeeds_by_its_report_or_by_its_status() {
    assert!(transfer_succeeded(true, false));
    assert!(transfer_succeeded(false, true));
    assert!(transfer_succeeded(true, true));
    assert!(!transfer_succeeded(false, false));
}

#[test]
fn search_agrees_with_the_platform() {
    let hays = ["", "a", "ab", "aab", "abab", "xxabxx", "aaa", "\u{e9}ab\u{e9}"];
    let needles = ["", "a", "b", "ab", "ba", "aa", "abc", "\u{e9}", "b\u{e9}"];
    for hay in hays {
        for needle in needles {
            assert_eq!(str_contains(hay, needle), hay.contains(needle), "{:?} {:?}", hay, needle);
        }
    }
}

#[test]
fn trimming_agrees_with_the_platform() {
    for s in ["", " ", "a", " a ", "\t a b \n", "\u{a0}x\u{3000}", "\u{2003}", "x \u{85}", "\u{feff}x", "\u{200b}"] {
        assert_eq!(trim(s), s.trim(), "{:?}", s);
        assert_eq!(str_is_blank(s), s.trim().is_empty(), "{:?}", s);
    }
    for c in 0..0x3100u32 {
        if let Some(c) = char::from_u32(c) {
            let s = c.to_string();
            assert_eq!(str_is_blank(&s), c.is_whitespace(), "{:?}", c);
        }
    }
}
