use recpipe::aggregator::aggregator_init;
use recpipe::aggregator::aggregator_registry;
use recpipe::aggregator::Aggregator;
use recpipe::aggregator::AggregatorKind;
use recpipe::aggregator::DistinctSet;
use recpipe::record::Record;
use recpipe::registry::Registry;
use recpipe::registry::RegistryEntry;
use recpipe::flow::CollectSink;
use recpipe::flow::Stream;
use recpipe::head::HeadCountOption;
use recpipe::head::HeadCountSign;
use recpipe::operation::clumper_registry;
use recpipe::operation::operation_registry;
use recpipe::operation::operation_stream;
use recpipe::operation::window_args;
use recpipe::operation::OperationStage;
use recpipe::record::Entry;
use recpipe::registry::RegistryError;

fn rec(key: &str, val: &str) -> Record {
    Record::Group(vec![(key.to_string(), val.to_string())])
}

#[test]
fn registry_round_trip_by_every_alias() {
    let reg = aggregator_registry();
    for alias in ["darray", "darr"] {
        let e = reg.lookup(&alias.to_string()).unwrap();
        let names: Vec<&str> = e.names.iter().map(|s| s.as_str()).collect();
        assert_eq!(names, vec!["darray", "darr"]);
        assert_eq!(e.help, "collect distinct values into an array");
        assert!(matches!(e.item, AggregatorKind::DistinctArray));
    }
    let e = reg.lookup(&"first".to_string()).unwrap();
    assert_eq!(e.help, "take the first value seen");
    assert!(matches!(e.item, AggregatorKind::First));
}

#[test]
fn registry_lookup_unknown_name_fails() {
    let reg = aggregator_registry();
    match reg.lookup(&"nope".to_string()) {
        Err(RegistryError::NoSuchEntry(n)) => assert_eq!(n, "nope"),
        _ => panic!("expected a lookup failure"),
    }
    // exact match only: no abbreviation.
    assert!(reg.lookup(&"darra".to_string()).is_err());
    assert!(reg.lookup(&"".to_string()).is_err());
}

#[test]
fn registry_build_rejects_alias_collision() {
    let entries = vec![
        RegistryEntry {
            names: vec!["x".to_string(), "y".to_string()],
            help: "one".to_string(),
            argct: 0,
            item: 1u64,
        },
        RegistryEntry {
            names: vec!["z".to_string(), "y".to_string()],
            help: "two".to_string(),
            argct: 0,
            item: 2u64,
        },
    ];
    match Registry::build(entries) {
        Err(RegistryError::DuplicateName(n)) => assert_eq!(n, "y"),
        _ => panic!("expected the build to fail fast"),
    }
}

#[test]
fn registry_help_listing_needs_no_instances() {
    let reg = aggregator_registry();
    let help = reg.help_list();
    assert_eq!(help.len(), 2);
    assert_eq!(help[0].0, vec!["darray".to_string(), "darr".to_string()]);
    assert_eq!(help[0].1, "collect distinct values into an array");
    assert_eq!(help[1].0, vec!["first".to_string()]);
}

#[test]
fn aggregator_init_checks_arity() {
    assert!(aggregator_init(&AggregatorKind::DistinctArray, &vec![]).is_err());
    assert!(
        aggregator_init(
            &AggregatorKind::DistinctArray,
            &vec!["k".to_string(), "extra".to_string()]
        )
        .is_err()
    );
    assert!(aggregator_init(&AggregatorKind::DistinctArray, &vec!["k".to_string()]).is_ok());
}

#[test]
fn distinct_values_first_seen_order() {
    let mut agg = aggregator_init(&AggregatorKind::DistinctArray, &vec!["k".to_string()])
        .unwrap();
    for v in ["a", "b", "a", "c", "b"] {
        agg.add(rec("k", v));
    }
    let out = agg.finish();
    assert_eq!(
        out,
        Record::List(vec!["a".to_string(), "b".to_string(), "c".to_string()])
    );
}

#[test]
fn duplication_keeps_copies_independent() {
    let mut one = aggregator_init(&AggregatorKind::DistinctArray, &vec!["k".to_string()])
        .unwrap();
    one.add(rec("k", "a"));
    let mut two = one.clone();
    one.add(rec("k", "b"));
    two.add(rec("k", "c"));
    two.add(rec("k", "a"));
    assert_eq!(
        one.finish(),
        Record::List(vec!["a".to_string(), "b".to_string()])
    );
    assert_eq!(
        two.finish(),
        Record::List(vec!["a".to_string(), "c".to_string()])
    );
}

#[test]
fn first_aggregator_keeps_first_value() {
    let mut agg = aggregator_init(&AggregatorKind::First, &vec!["k".to_string()]).unwrap();
    agg.add(rec("k", "early"));
    agg.add(rec("k", "late"));
    assert_eq!(agg.finish(), Record::Text("early".to_string()));
    let empty: Aggregator =
        aggregator_init(&AggregatorKind::First, &vec!["k".to_string()]).unwrap();
    assert_eq!(empty.finish(), Record::Text("".to_string()));
}

#[test]
fn distinct_set_reports_new_values() {
    let mut s = DistinctSet::default();
    assert!(s.add("a".to_string()));
    assert!(s.add("b".to_string()));
    assert!(!s.add("a".to_string()));
    assert_eq!(s.into_vec(), vec!["a".to_string(), "b".to_string()]);
}

#[test]
fn get_path_finds_first_match_or_empty() {
    let r = Record::Group(vec![
        ("k".to_string(), "v1".to_string()),
        ("k".to_string(), "v2".to_string()),
    ]);
    assert_eq!(r.get_path(&"k".to_string()), "v1");
    assert_eq!(r.get_path(&"missing".to_string()), "");
    assert_eq!(Record::Text("t".to_string()).get_path(&"k".to_string()), "");
}

#[test]
fn operation_catalog_builds_stages_by_name() {
    let reg = operation_registry();
    let kind = &reg.lookup(&"head".to_string()).unwrap().item;
    let n = HeadCountOption { sign: HeadCountSign::UNSPECIFIED, n: 1 };
    let stage = operation_stream(kind, n);
    match stage {
        OperationStage::Head(mut h) => {
            let mut sink = CollectSink::new();
            h.write(Entry::Line("a".to_string()), &mut sink);
            h.write(Entry::Line("b".to_string()), &mut sink);
            h.close(&mut sink);
            assert_eq!(sink.got, vec![Entry::Line("a".to_string())]);
        }
        OperationStage::Tail(_) => panic!("head must build a prefix stage"),
    }
    assert_eq!(reg.lookup(&"tail".to_string()).unwrap().help, "keeps a suffix of inputs");
    assert!(reg.lookup(&"sort".to_string()).is_err());
}

#[test]
fn clumper_catalog_and_window_args() {
    let reg = clumper_registry();
    let e = reg.lookup(&"window".to_string()).unwrap();
    assert_eq!(e.argct, 1);
    let a = window_args(&vec!["3".to_string()]).unwrap();
    assert_eq!(a.count, 3);
    assert!(window_args(&vec![]).is_err());
    assert!(window_args(&vec!["x".to_string()]).is_err());
    assert!(window_args(&vec!["1".to_string(), "2".to_string()]).is_err());
}
