use recpipe::bridge::BridgeState;
use recpipe::head::HeadCountOption;
use recpipe::head::HeadCountSign;
use recpipe::opts::name_from_arg;
use recpipe::opts::NoHelp;
use recpipe::opts::OptShape;
use recpipe::opts::OptionsHelp;
use recpipe::opts::ToOptionsHelp;
use recpipe::parse_num::parse_usize_str;
use recpipe::record::Entry;
use recpipe::validates::ValidationError;
use recpipe::wns::WaitNotifyState;

fn line(s: &str) -> Entry {
    Entry::Line(s.to_string())
}

#[test]
fn bridge_delivers_in_order_then_closes() {
    let mut b = BridgeState::new();
    assert!(b.fe_write(line("e1")));
    assert!(b.fe_write(line("e2")));
    assert!(b.fe_write(line("e3")));
    b.fe_close();
    assert_eq!(b.be_step(), Some(Some(line("e1"))));
    assert_eq!(b.be_step(), Some(Some(line("e2"))));
    assert_eq!(b.be_step(), Some(Some(line("e3"))));
    assert_eq!(b.be_step(), Some(None));
}

#[test]
fn bridge_read_blocks_while_open_and_empty() {
    let mut b = BridgeState::new();
    assert_eq!(b.be_step(), None);
    b.fe_write(line("e"));
    assert_eq!(b.be_step(), Some(Some(line("e"))));
    assert_eq!(b.be_step(), None);
}

#[test]
fn bridge_rclose_is_observed_by_writer() {
    let mut b = BridgeState::new();
    assert!(b.fe_write(line("kept")));
    b.be_rclose();
    assert!(!b.fe_write(line("dropped")));
    assert_eq!(b.be_step(), Some(Some(line("kept"))));
}

#[test]
fn guarded_state_operations() {
    let w = WaitNotifyState::new(5u64);
    let doubled = w.read(|s: &u64| *s * 2);
    assert_eq!(doubled, 10);
    let (w, old) = w.write(|s: u64| (s + 1, s));
    assert_eq!(old, 5);
    assert_eq!(w.read(|s: &u64| *s), 6);
    let (w, got) = w.wait(|s: u64| if s > 0 { (s, Some(s), false) } else { (s, None, false) });
    assert_eq!(got, Some(6));
    let (_, got) = w.wait(|s: u64| if s > 99 { (s, Some(s), false) } else { (s, None, true) });
    assert_eq!(got, None);
}

#[test]
fn head_count_parses_sign_and_count() {
    let mut o = HeadCountOption::default();
    assert!(matches!(o.sign, HeadCountSign::UNSPECIFIED));
    assert_eq!(o.n, 10);
    assert!(o.set("5").is_ok());
    assert!(matches!(o.sign, HeadCountSign::UNSPECIFIED));
    assert_eq!(o.n, 5);
    assert!(o.set("+3").is_ok());
    assert!(matches!(o.sign, HeadCountSign::POSITIVE));
    assert_eq!(o.n, 3);
    assert!(o.set("-42").is_ok());
    assert!(matches!(o.sign, HeadCountSign::NEGATIVE));
    assert_eq!(o.n, 42);
}

#[test]
fn head_count_rejects_malformed_counts() {
    let mut o = HeadCountOption::default();
    assert!(o.set("").is_err());
    assert!(o.set("+").is_err());
    assert!(o.set("abc").is_err());
    assert!(o.set("12x").is_err());
    assert!(o.set("99999999999999999999999999999").is_err());
    // a failed parse leaves the option as it was.
    assert!(matches!(o.sign, HeadCountSign::UNSPECIFIED));
    assert_eq!(o.n, 10);
}

#[test]
fn sign_resolution_uses_default() {
    assert!(HeadCountSign::POSITIVE.is_positive(false));
    assert!(!HeadCountSign::NEGATIVE.is_positive(true));
    assert!(HeadCountSign::UNSPECIFIED.is_positive(true));
    assert!(!HeadCountSign::UNSPECIFIED.is_positive(false));
}

#[test]
fn parse_usize_exact_values() {
    assert_eq!(parse_usize_str("0"), Some(0));
    assert_eq!(parse_usize_str("123"), Some(123));
    assert_eq!(parse_usize_str("18446744073709551615"), Some(usize::MAX));
    assert_eq!(parse_usize_str("18446744073709551616"), None);
    assert_eq!(parse_usize_str(""), None);
    assert_eq!(parse_usize_str("1 2"), None);
    assert_eq!(parse_usize_str("é"), None);
}

#[test]
fn option_names_strip_dashes() {
    assert_eq!(name_from_arg("--foo"), Some("foo"));
    assert_eq!(name_from_arg("-f"), Some("f"));
    assert_eq!(name_from_arg("-"), Some(""));
    assert_eq!(name_from_arg("--"), Some(""));
    assert_eq!(name_from_arg("bar"), None);
    assert_eq!(name_from_arg(""), None);
}

#[test]
fn help_pair_renders_aliases_and_placeholders() {
    let h = OptionsHelp { meta: None, msg: Some("count of inputs".to_string()) };
    let shape = OptShape::Named(vec!["n".to_string()], 1);
    assert_eq!(h.to_pair(&shape), ("-n <arg>".to_string(), "count of inputs".to_string()));

    let h = OptionsHelp { meta: None, msg: None };
    let shape = OptShape::Named(vec!["s".to_string(), "sort".to_string()], 2);
    assert_eq!(h.to_pair(&shape).0, "-s|--sort <arg> <arg>");

    let h = OptionsHelp { meta: Some("KEYS".to_string()), msg: None };
    let shape = OptShape::Named(vec!["l".to_string(), "lex".to_string()], 1);
    assert_eq!(h.to_pair(&shape).0, "-l|--lex KEYS");

    let h = OptionsHelp { meta: None, msg: None };
    assert_eq!(h.to_pair(&OptShape::Named(vec!["help".to_string()], 0)).0, "--help");
    assert_eq!(h.to_pair(&OptShape::ExtraSoft).0, "<arg>");
    assert_eq!(h.to_pair(&OptShape::ExtraHard).0, "<args>");

    let h = OptionsHelp { meta: Some("FILES".to_string()), msg: None };
    assert_eq!(h.to_pair(&OptShape::ExtraSoft).0, "FILES");
}

#[test]
fn help_declarations_take_many_shapes() {
    let h = ().to_help().unwrap();
    assert!(h.meta.is_none() && h.msg.is_none());
    let h = "just a message".to_help().unwrap();
    assert_eq!(h.msg, Some("just a message".to_string()));
    assert!(h.meta.is_none());
    let h = ("META", "message").to_help().unwrap();
    assert_eq!(h.meta, Some("META".to_string()));
    assert_eq!(h.msg, Some("message".to_string()));
    let h = "owned".to_string().to_help().unwrap();
    assert_eq!(h.msg, Some("owned".to_string()));
    assert!(None::<NoHelp>.to_help().is_none());
}

#[test]
fn validation_errors_accumulate_labels() {
    let e = ValidationError::message("bad token".to_string());
    assert_eq!(e.msg, "bad token");
    assert!(e.labels.is_empty());
    let e = e.label("While parsing arguments".to_string());
    let e = e.label("While validating arguments".to_string());
    assert_eq!(
        e.labels,
        vec![
            "While parsing arguments".to_string(),
            "While validating arguments".to_string()
        ]
    );
    assert_eq!(e.msg, "bad token");
}
