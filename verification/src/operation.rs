//! The operation and clumper families: the catalogs that turn a stage name
//! typed on a command line into a runnable stage, through the same registry
//! mechanics every pluggable family shares.

use vstd::prelude::*;

use crate::flow::Stream;
use crate::head::head_stream;
use crate::head::HeadCountOption;
use crate::head::HeadStage;
use crate::record::EntryV;
use crate::registry::Registry;
use crate::registry::RegistryEntry;
use crate::tail::tail_stream;
use crate::tail::TailStage;
use crate::window::window_stream;
use crate::window::Args;
use crate::window::StreamFactory;
use crate::window::WindowStream;

verus! {

/// The catalog item standing for one operation implementation.
pub enum OperationKind {
    Head,
    Tail,
}

/// The declared operation catalog.
pub fn operation_registry() -> (r: Registry<OperationKind>)
    ensures
        r.wf(),
        r.entries@.len() == 2,
        r.entries@[0].names@.len() == 1,
        r.entries@[0].names@[0]@ == "head"@,
        r.entries@[0].item is Head,
        r.entries@[1].names@.len() == 1,
        r.entries@[1].names@[0]@ == "tail"@,
        r.entries@[1].item is Tail,
{
    let mut names0: Vec<String> = Vec::new();
    names0.push(String::from_str("head"));
    let e0 = RegistryEntry {
        names: names0,
        help: String::from_str("keeps a prefix of inputs"),
        argct: 0,
        item: OperationKind::Head,
    };
    let mut names1: Vec<String> = Vec::new();
    names1.push(String::from_str("tail"));
    let e1 = RegistryEntry {
        names: names1,
        help: String::from_str("keeps a suffix of inputs"),
        argct: 0,
        item: OperationKind::Tail,
    };
    let mut entries: Vec<RegistryEntry<OperationKind>> = Vec::new();
    entries.push(e0);
    entries.push(e1);
    proof {
        reveal_strlit("head");
        reveal_strlit("tail");
        assert("head"@.len() == 4 && "tail"@.len() == 4);
        assert("head"@[0] == 'h' && "tail"@[0] == 't');
        assert(crate::registry::names_unique(entries@)) by {
            assert(entries@.len() == 2);
            assert(entries@[0].names@.len() == 1);
            assert(entries@[1].names@.len() == 1);
            assert(entries@[0].names@[0]@ == "head"@);
            assert(entries@[1].names@[0]@ == "tail"@);
        }
    }
    match Registry::build(entries) {
        Ok(reg) => reg,
        Err(_) => vstd::pervasive::unreached(),
    }
}

/// A type-erased operation stage: one of the catalog's stages, behind the
/// one behavioral interface they share.
pub enum OperationStage {
    Head(HeadStage),
    Tail(TailStage),
}

/// Builds the stage a catalog item and a parsed count stand for.
pub fn operation_stream(kind: &OperationKind, n: HeadCountOption) -> (s: OperationStage)
    ensures
        match s {
            OperationStage::Head(h) => kind is Head && h.inv() && !h.closed() && h.fed()
                == Seq::<EntryV>::empty(),
            OperationStage::Tail(t) => kind is Tail && t.inv() && !t.closed() && t.fed()
                == Seq::<EntryV>::empty(),
        },
{
    match kind {
        OperationKind::Head => OperationStage::Head(head_stream(&crate::head::Options { n })),
        OperationKind::Tail => OperationStage::Tail(tail_stream(&crate::tail::Options { n })),
    }
}

/// The catalog item standing for one clumper implementation.
pub enum ClumperKind {
    Window,
}

/// The declared clumper catalog.
pub fn clumper_registry() -> (r: Registry<ClumperKind>)
    ensures
        r.wf(),
        r.entries@.len() == 1,
        r.entries@[0].names@.len() == 1,
        r.entries@[0].names@[0]@ == "window"@,
        r.entries@[0].item is Window,
        r.entries@[0].argct == 1,
{
    let mut names0: Vec<String> = Vec::new();
    names0.push(String::from_str("window"));
    let e0 = RegistryEntry {
        names: names0,
        help: String::from_str("bucket records by overlapping windows of a given size"),
        argct: 1,
        item: ClumperKind::Window,
    };
    let mut entries: Vec<RegistryEntry<ClumperKind>> = Vec::new();
    entries.push(e0);
    proof {
        assert(crate::registry::names_unique(entries@)) by {
            assert(entries@.len() == 1);
            assert(entries@[0].names@.len() == 1);
        }
    }
    match Registry::build(entries) {
        Ok(reg) => reg,
        Err(_) => vstd::pervasive::unreached(),
    }
}

/// Parses the window clumper's raw arguments: exactly one token, a decimal
/// window size.
pub fn window_args(args: &Vec<String>) -> (r: Result<Args, crate::validates::ValidationError>)
    ensures
        match r {
            Ok(a) => args@.len() == 1 && args@[0]@.len() > 0 && crate::parse_num::all_digits(
                args@[0]@,
            ) && a.count == crate::parse_num::digits_val(args@[0]@),
            Err(_) => args@.len() != 1 || args@[0]@.len() == 0 || !crate::parse_num::all_digits(
                args@[0]@,
            ) || crate::parse_num::digits_val(args@[0]@) > usize::MAX,
        },
{
    if args.len() != 1 {
        return Err(
            crate::validates::ValidationError::message(
                String::from_str("expected one argument"),
            ),
        );
    }
    match crate::parse_num::parse_usize_str(args[0].as_str()) {
        Some(count) => Ok(Args { count }),
        None => Err(
            crate::validates::ValidationError::message(
                String::from_str("window size must be a number"),
            ),
        ),
    }
}

/// Builds the clumper a catalog item stands for.
pub fn clumper_stream<F: StreamFactory>(kind: &ClumperKind, a: &Args, factory: F) -> (r:
    WindowStream<F>)
    requires
        factory.history() == Seq::<Seq<EntryV>>::empty(),
    ensures
        r.inv(),
        !r.closed(),
        r.fed() == Seq::<EntryV>::empty(),
        r.size == a.count,
{
    match kind {
        ClumperKind::Window => window_stream(a, factory),
    }
}

} // verus!
