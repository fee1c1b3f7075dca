use recpipe::compound::CompoundStream;
use recpipe::compound::ParseTransform;
use recpipe::flow::CollectSink;
use recpipe::flow::LimitSink;
use recpipe::flow::Stream;
use recpipe::head::head_stream;
use recpipe::head::HeadCountOption;
use recpipe::head::HeadCountSign;
use recpipe::head::HeadStream;
use recpipe::head::Options;
use recpipe::head::SkipLastStream;
use recpipe::record::Entry;
use recpipe::record::Record;
use recpipe::tail::tail_stream;
use recpipe::tail::LastStream;
use recpipe::tail::SkipFirstStream;
use recpipe::window::PrefixFactory;
use recpipe::window::WindowStream;

fn line(s: &str) -> Entry {
    Entry::Line(s.to_string())
}

#[test]
fn bounded_prefix_forwards_exactly_min() {
    let mut stage = HeadStream::new(2);
    let mut sink = CollectSink::new();
    assert!(stage.write(line("a"), &mut sink));
    assert!(stage.write(line("b"), &mut sink));
    assert!(!stage.write(line("c"), &mut sink));
    assert!(!stage.write(line("d"), &mut sink));
    stage.close(&mut sink);
    assert_eq!(sink.got, vec![line("a"), line("b")]);
}

#[test]
fn bounded_prefix_short_input() {
    let mut stage = HeadStream::new(5);
    let mut sink = CollectSink::new();
    assert!(stage.write(line("a"), &mut sink));
    stage.close(&mut sink);
    assert_eq!(sink.got, vec![line("a")]);
}

#[test]
fn bounded_prefix_reports_rejecting_sink() {
    let mut stage = HeadStream::new(3);
    let mut sink = LimitSink::new(1);
    assert!(!stage.write(line("a"), &mut sink));
    assert_eq!(sink.got, vec![line("a")]);
}

#[test]
fn bounded_suffix_keeps_last_n_in_order() {
    let mut stage = LastStream::new(2);
    let mut sink = CollectSink::new();
    for s in ["a", "b", "c", "d"] {
        assert!(stage.write(line(s), &mut sink));
    }
    assert!(sink.got.is_empty());
    stage.close(&mut sink);
    assert_eq!(sink.got, vec![line("c"), line("d")]);
}

#[test]
fn bounded_suffix_short_input() {
    let mut stage = LastStream::new(9);
    let mut sink = CollectSink::new();
    stage.write(line("a"), &mut sink);
    stage.write(line("b"), &mut sink);
    stage.close(&mut sink);
    assert_eq!(sink.got, vec![line("a"), line("b")]);
}

#[test]
fn bounded_suffix_zero() {
    let mut stage = LastStream::new(0);
    let mut sink = CollectSink::new();
    stage.write(line("a"), &mut sink);
    stage.close(&mut sink);
    assert_eq!(sink.got, vec![]);
}

#[test]
fn skip_first_forwards_remainder() {
    let mut stage = SkipFirstStream::new(2);
    let mut sink = CollectSink::new();
    stage.write(line("a"), &mut sink);
    stage.write(line("b"), &mut sink);
    stage.write(line("c"), &mut sink);
    stage.close(&mut sink);
    assert_eq!(sink.got, vec![line("c")]);
}

#[test]
fn all_but_last_emits_prefix() {
    let mut stage = SkipLastStream::new(2);
    let mut sink = CollectSink::new();
    for s in ["a", "b", "c", "d", "e"] {
        assert!(stage.write(line(s), &mut sink));
    }
    stage.close(&mut sink);
    assert_eq!(sink.got, vec![line("a"), line("b"), line("c")]);
}

#[test]
fn all_but_last_underflow_emits_nothing() {
    let mut stage = SkipLastStream::new(4);
    let mut sink = CollectSink::new();
    stage.write(line("a"), &mut sink);
    stage.close(&mut sink);
    assert_eq!(sink.got, vec![]);
}

#[test]
fn all_but_last_stops_on_rejecting_sink() {
    let mut stage = SkipLastStream::new(1);
    let mut sink = LimitSink::new(1);
    for s in ["a", "b", "c"] {
        stage.write(line(s), &mut sink);
    }
    stage.close(&mut sink);
    assert_eq!(sink.got, vec![line("a")]);
}

#[test]
fn trim_then_last_reconstructs_input() {
    let input = ["a", "b", "c", "d", "e"];
    let mut trim = SkipLastStream::new(2);
    let mut front = CollectSink::new();
    let mut last = LastStream::new(2);
    let mut back = CollectSink::new();
    for s in input {
        trim.write(line(s), &mut front);
        last.write(line(s), &mut back);
    }
    trim.close(&mut front);
    last.close(&mut back);
    let mut whole = front.got;
    whole.extend(back.got);
    let expected: Vec<Entry> = input.iter().map(|s| line(s)).collect();
    assert_eq!(whole, expected);
}

#[test]
fn head_stage_dispatch_by_sign() {
    let o = Options { n: HeadCountOption { sign: HeadCountSign::UNSPECIFIED, n: 1 } };
    let mut stage = head_stream(&o);
    let mut sink = CollectSink::new();
    stage.write(line("a"), &mut sink);
    stage.write(line("b"), &mut sink);
    stage.close(&mut sink);
    assert_eq!(sink.got, vec![line("a")]);

    let o = Options { n: HeadCountOption { sign: HeadCountSign::NEGATIVE, n: 1 } };
    let mut stage = head_stream(&o);
    let mut sink = CollectSink::new();
    stage.write(line("a"), &mut sink);
    stage.write(line("b"), &mut sink);
    stage.close(&mut sink);
    assert_eq!(sink.got, vec![line("a")]);
}

#[test]
fn tail_stage_dispatch_by_sign() {
    let o = recpipe::tail::Options {
        n: HeadCountOption { sign: HeadCountSign::UNSPECIFIED, n: 1 },
    };
    let mut stage = tail_stream(&o);
    let mut sink = CollectSink::new();
    stage.write(line("a"), &mut sink);
    stage.write(line("b"), &mut sink);
    stage.close(&mut sink);
    assert_eq!(sink.got, vec![line("b")]);

    let o = recpipe::tail::Options { n: HeadCountOption { sign: HeadCountSign::POSITIVE, n: 1 } };
    let mut stage = tail_stream(&o);
    let mut sink = CollectSink::new();
    stage.write(line("a"), &mut sink);
    stage.write(line("b"), &mut sink);
    stage.close(&mut sink);
    assert_eq!(sink.got, vec![line("b")]);
}

#[test]
fn window_runs_one_subpipeline_per_full_window() {
    // a window of two over three entries: one run per window position,
    // each bucket a fresh stage that keeps its first record.
    let mut stage = WindowStream::new(2, PrefixFactory::new(1));
    let mut sink = CollectSink::new();
    assert!(stage.write(line("a"), &mut sink));
    assert!(sink.got.is_empty());
    assert!(stage.write(line("b"), &mut sink));
    assert!(stage.write(line("c"), &mut sink));
    stage.close(&mut sink);
    assert_eq!(
        sink.got,
        vec![
            Entry::Rec(Record::Text("a".to_string())),
            Entry::Rec(Record::Text("b".to_string())),
        ]
    );
}

#[test]
fn window_bucket_sees_whole_window() {
    // a bucket that keeps two records forwards both entries of its window.
    let mut stage = WindowStream::new(2, PrefixFactory::new(2));
    let mut sink = CollectSink::new();
    stage.write(line("a"), &mut sink);
    stage.write(line("b"), &mut sink);
    stage.close(&mut sink);
    assert_eq!(
        sink.got,
        vec![
            Entry::Rec(Record::Text("a".to_string())),
            Entry::Rec(Record::Text("b".to_string())),
        ]
    );
}

#[test]
fn compound_reshapes_in_transit() {
    let inner = HeadStream::new(2);
    let mut stage = CompoundStream::new(ParseTransform {}, inner);
    let mut sink = CollectSink::new();
    stage.write(line("x"), &mut sink);
    stage.write(Entry::Rec(Record::Text("y".to_string())), &mut sink);
    stage.close(&mut sink);
    assert_eq!(
        sink.got,
        vec![
            Entry::Rec(Record::Text("x".to_string())),
            Entry::Rec(Record::Text("y".to_string())),
        ]
    );
}

#[test]
fn window_of_zero_runs_empty_buckets() {
    let mut stage = WindowStream::new(0, PrefixFactory::new(1));
    let mut sink = CollectSink::new();
    stage.write(line("a"), &mut sink);
    stage.write(line("b"), &mut sink);
    stage.close(&mut sink);
    assert_eq!(sink.got, vec![]);
}
