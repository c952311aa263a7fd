use tspl_filter::ppd::{Options, PpdChoice, PpdFile, PpdOption};

fn description() -> PpdFile {
    PpdFile::new(
        37155,
        vec![
            PpdOption::new(b"Darkness".to_vec(), b"Default".to_vec()),
            PpdOption::new(b"zePrintRate".to_vec(), b"4".to_vec()),
            PpdOption::new(b"zeMediaTracking".to_vec(), b"Gap".to_vec()),
        ],
    )
}

fn marked(ppd: &PpdFile, keyword: &[u8]) -> Option<Vec<u8>> {
    ppd.find_marked_choice(keyword).map(|c| c.choice().to_vec())
}

#[test]
fn nothing_marked_before_resolving() {
    let ppd = description();
    assert_eq!(marked(&ppd, b"Darkness"), None);
}

#[test]
fn mark_defaults_marks_each_default() {
    let mut ppd = description();
    ppd.mark_defaults();
    assert_eq!(marked(&ppd, b"Darkness"), Some(b"Default".to_vec()));
    assert_eq!(marked(&ppd, b"zePrintRate"), Some(b"4".to_vec()));
    assert_eq!(marked(&ppd, b"zeMediaTracking"), Some(b"Gap".to_vec()));
}

#[test]
fn undeclared_option_is_not_found() {
    let mut ppd = description();
    ppd.mark_defaults();
    assert_eq!(marked(&ppd, b"Rotate"), None);
}

#[test]
fn overrides_replace_defaults_and_unknown_keys_are_ignored() {
    let mut ppd = description();
    let mut opts = Options::new();
    opts.push(b"Darkness".to_vec(), b"12".to_vec());
    opts.push(b"Unknown".to_vec(), b"x".to_vec());
    ppd.resolve(&opts);
    assert_eq!(marked(&ppd, b"Darkness"), Some(b"12".to_vec()));
    assert_eq!(marked(&ppd, b"zePrintRate"), Some(b"4".to_vec()));
    assert_eq!(marked(&ppd, b"Unknown"), None);
    assert_eq!(opts.len(), 2);
}

#[test]
fn later_override_wins() {
    let mut ppd = description();
    let mut opts = Options::new();
    opts.push(b"zePrintRate".to_vec(), b"2".to_vec());
    opts.push(b"zePrintRate".to_vec(), b"6".to_vec());
    ppd.resolve(&opts);
    assert_eq!(marked(&ppd, b"zePrintRate"), Some(b"6".to_vec()));
}

#[test]
fn mark_options_keeps_earlier_marks() {
    let mut ppd = description();
    ppd.mark_defaults();
    let mut opts = Options::new();
    opts.push(b"Darkness".to_vec(), b"3".to_vec());
    ppd.mark_options(&opts);
    assert_eq!(marked(&ppd, b"Darkness"), Some(b"3".to_vec()));
    assert_eq!(marked(&ppd, b"zeMediaTracking"), Some(b"Gap".to_vec()));
}

#[test]
fn resolving_twice_gives_the_same_configuration() {
    let mut opts = Options::new();
    opts.push(b"Darkness".to_vec(), b"12".to_vec());
    opts.push(b"zeMediaTracking".to_vec(), b"BLine".to_vec());
    let mut once = description();
    once.resolve(&opts);
    let mut twice = description();
    twice.resolve(&opts);
    twice.resolve(&opts);
    for kw in [&b"Darkness"[..], b"zePrintRate", b"zeMediaTracking"] {
        assert_eq!(marked(&once, kw), marked(&twice, kw));
    }
    assert_eq!(marked(&twice, b"zeMediaTracking"), Some(b"BLine".to_vec()));
}

#[test]
fn default_marker_gives_none() {
    let mut ppd = description();
    ppd.mark_defaults();
    assert!(matches!(ppd.parse_default_marked_choice(b"Darkness"), Ok(None)));
}

#[test]
fn explicit_choice_is_parsed() {
    let mut ppd = description();
    ppd.mark_defaults();
    assert!(matches!(ppd.parse_default_marked_choice(b"zePrintRate"), Ok(Some(4))));
}

#[test]
fn missing_option_gives_none() {
    let mut ppd = description();
    ppd.mark_defaults();
    assert!(matches!(ppd.parse_default_marked_choice(b"Rotate"), Ok(None)));
}

#[test]
fn unparsable_choice_is_an_error() {
    let mut ppd = description();
    let mut opts = Options::new();
    opts.push(b"Darkness".to_vec(), b"abc".to_vec());
    ppd.resolve(&opts);
    match ppd.parse_default_marked_choice(b"Darkness") {
        Err(e) => assert_eq!(e.choice, b"abc".to_vec()),
        Ok(_) => panic!("expected an error"),
    }
}

#[test]
fn other_default_marker() {
    let mut ppd = description();
    ppd.mark_defaults();
    assert!(matches!(ppd.parse_optional_marked_choice(b"zePrintRate", b"4"), Ok(None)));
    assert!(ppd.parse_optional_marked_choice(b"Darkness", b"None").is_err());
}

#[test]
fn parse_if_not_reads_signed_integers() {
    let c = PpdChoice { value: b"-15".to_vec() };
    assert!(matches!(c.parse_if_not(b"Default"), Ok(Some(-15))));
    let c = PpdChoice { value: b"+7".to_vec() };
    assert!(matches!(c.parse_if_not(b"Default"), Ok(Some(7))));
    let c = PpdChoice { value: b"2147483647".to_vec() };
    assert!(matches!(c.parse_if_not(b"Default"), Ok(Some(2147483647))));
    let c = PpdChoice { value: b"-2147483648".to_vec() };
    assert!(matches!(c.parse_if_not(b"Default"), Ok(Some(-2147483648))));
}

#[test]
fn parse_if_not_rejects_bad_text() {
    for bad in [&b"2147483648"[..], b"", b"-", b"+", b"1 2", b"12a", b"99999999999999999999"] {
        let c = PpdChoice { value: bad.to_vec() };
        assert!(c.parse_if_not(b"Default").is_err());
    }
}

#[test]
fn parse_if_not_matches_marker_exactly() {
    let c = PpdChoice { value: b"Default".to_vec() };
    assert!(matches!(c.parse_if_not(b"Default"), Ok(None)));
    let c = PpdChoice { value: b"default".to_vec() };
    assert!(c.parse_if_not(b"Default").is_err());
    assert_eq!(c.choice(), b"default");
}
