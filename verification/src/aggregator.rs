//! The aggregator family: a pluggable accumulator that ingests records and
//! produces one summary record.  A handle exposes `add` (mutates
//! accumulated state) and `finish` (consumes the handle, returns the
//! output record), and is independently duplicable: a clone starts its own
//! accumulation from the state at the moment of the copy, so one parsed
//! configuration can be fanned out across many group-by buckets.

use vstd::prelude::*;

use crate::record::record_path;
use crate::record::strings_view;
use crate::record::Record;
use crate::record::RecordV;
use crate::registry::contains_string;
use crate::registry::Registry;
use crate::registry::RegistryEntry;
use crate::validates::ValidationError;

verus! {

/// Adding one value to a first-seen-order distinct collection: a value
/// already present is dropped, a new one goes to the back.
pub open spec fn distinct_add(s: Seq<Seq<char>>, x: Seq<char>) -> Seq<Seq<char>> {
    if s.contains(x) {
        s
    } else {
        s.push(x)
    }
}

/// A set with insertion order: deduplicates by equality and preserves
/// first-seen order.
pub struct DistinctSet {
    pub v: Vec<String>,
}

impl View for DistinctSet {
    type V = Seq<Seq<char>>;

    open spec fn view(&self) -> Seq<Seq<char>> {
        strings_view(self.v@)
    }
}

impl Default for DistinctSet {
    /// The identity state: nothing seen yet.
    fn default() -> (r: DistinctSet)
        ensures
            r@ == Seq::<Seq<char>>::empty(),
    {
        let r = DistinctSet { v: Vec::new() };
        proof {
            assert(r@ =~= Seq::<Seq<char>>::empty());
        }
        r
    }
}

impl Clone for DistinctSet {
    fn clone(&self) -> (r: DistinctSet)
        ensures
            r@ == self@,
    {
        let mut v: Vec<String> = Vec::new();
        let mut i: usize = 0;
        while i < self.v.len()
            invariant
                i <= self.v@.len(),
                v@.len() == i,
                forall|j: int| 0 <= j < i ==> v@[j]@ == self.v@[j]@,
            decreases self.v@.len() - i,
        {
            v.push(self.v[i].clone());
            i = i + 1;
        }
        let r = DistinctSet { v };
        proof {
            assert(r@ =~= self@);
        }
        r
    }
}

impl DistinctSet {
    /// Records one value, keeping the first occurrence only.
    pub fn add(&mut self, t: String) -> (added: bool)
        ensures
            final(self)@ == distinct_add(old(self)@, t@),
            added == !old(self)@.contains(t@),
    {
        let ghost pre = self@;
        if contains_string(&self.v, &t) {
            proof {
                let j = choose|j: int| 0 <= j < self.v@.len() && self.v@[j]@ == t@;
                assert(pre[j] == t@);
                assert(pre.contains(t@));
            }
            false
        } else {
            proof {
                if pre.contains(t@) {
                    let j = choose|j: int| 0 <= j < pre.len() && pre[j] == t@;
                    assert(self.v@[j]@ == t@);
                }
            }
            self.v.push(t);
            proof {
                assert(self@ =~= pre.push(t@));
            }
            true
        }
    }

    /// Hands the collected values out, in first-seen order.
    pub fn into_vec(self) -> (r: Vec<String>)
        ensures
            strings_view(r@) == self@,
    {
        self.v
    }
}

/// Mathematical state of an aggregator handle.
pub enum AggV {
    DistinctArray { key: Seq<char>, seen: Seq<Seq<char>> },
    First { key: Seq<char>, first: Option<Seq<char>> },
}

/// One `add`: how a record moves the accumulated state.
pub open spec fn agg_add(s: AggV, r: RecordV) -> AggV {
    match s {
        AggV::DistinctArray { key, seen } => AggV::DistinctArray {
            key,
            seen: distinct_add(seen, record_path(r, key)),
        },
        AggV::First { key, first } => AggV::First {
            key,
            first: match first {
                Some(v) => Some(v),
                None => Some(record_path(r, key)),
            },
        },
    }
}

/// A whole accumulation: `add` folded over a record sequence.
pub open spec fn agg_add_all(s: AggV, rs: Seq<RecordV>) -> AggV
    decreases rs.len(),
{
    if rs.len() == 0 {
        s
    } else {
        agg_add_all(agg_add(s, rs[0]), rs.drop_first())
    }
}

/// The one output record an accumulation ends in.
pub open spec fn agg_finish(s: AggV) -> RecordV {
    match s {
        AggV::DistinctArray { key, seen } => RecordV::List(seen),
        AggV::First { key, first } => RecordV::Text(
            match first {
                Some(v) => v,
                None => Seq::empty(),
            },
        ),
    }
}

/// A type-erased aggregator handle: one of the catalog's accumulators,
/// with its parsed key and its accumulated state.
pub enum Aggregator {
    DistinctArray { key: String, seen: DistinctSet },
    First { key: String, first: Option<String> },
}

impl View for Aggregator {
    type V = AggV;

    open spec fn view(&self) -> AggV {
        match self {
            Aggregator::DistinctArray { key, seen } => AggV::DistinctArray {
                key: key@,
                seen: seen@,
            },
            Aggregator::First { key, first } => AggV::First {
                key: key@,
                first: match first {
                    Some(v) => Some(v@),
                    None => None,
                },
            },
        }
    }
}

impl Clone for Aggregator {
    /// An independent duplicate: it starts from exactly this handle's
    /// accumulated state and shares nothing with it afterwards.
    fn clone(&self) -> (r: Aggregator)
        ensures
            r@ == self@,
    {
        match self {
            Aggregator::DistinctArray { key, seen } => Aggregator::DistinctArray {
                key: key.clone(),
                seen: seen.clone(),
            },
            Aggregator::First { key, first } => Aggregator::First {
                key: key.clone(),
                first: match first {
                    Some(v) => Some(v.clone()),
                    None => None,
                },
            },
        }
    }
}

impl Aggregator {
    /// Ingests one record.
    pub fn add(&mut self, r: Record)
        ensures
            final(self)@ == agg_add(old(self)@, r@),
    {
        match self {
            Aggregator::DistinctArray { key, seen } => {
                let v = r.get_path(key);
                seen.add(v);
            },
            Aggregator::First { key, first } => {
                if first.is_none() {
                    let v = r.get_path(key);
                    *first = Some(v);
                }
            },
        }
    }

    /// Consumes the handle and produces its one output record.
    pub fn finish(self) -> (out: Record)
        ensures
            out@ == agg_finish(self@),
    {
        match self {
            Aggregator::DistinctArray { key, seen } => Record::from_vec(seen.into_vec()),
            Aggregator::First { key, first } => Record::Text(
                match first {
                    Some(v) => v,
                    None => String::new(),
                },
            ),
        }
    }
}

/// The catalog item standing for one aggregator implementation.
pub enum AggregatorKind {
    DistinctArray,
    First,
}

/// Constructs a fresh handle from a catalog item and its raw arguments;
/// every aggregator here takes exactly one argument, the key to read.
pub fn aggregator_init(kind: &AggregatorKind, args: &Vec<String>) -> (r: Result<
    Aggregator,
    ValidationError,
>)
    ensures
        match r {
            Ok(a) => args@.len() == 1 && a@ == match kind {
                AggregatorKind::DistinctArray => AggV::DistinctArray {
                    key: args@[0]@,
                    seen: Seq::empty(),
                },
                AggregatorKind::First => AggV::First { key: args@[0]@, first: None },
            },
            Err(_) => args@.len() != 1,
        },
{
    if args.len() != 1 {
        return Err(ValidationError::message(String::from_str("expected one argument")));
    }
    let key = args[0].clone();
    match kind {
        AggregatorKind::DistinctArray => Ok(
            Aggregator::DistinctArray { key, seen: DistinctSet::default() },
        ),
        AggregatorKind::First => Ok(Aggregator::First { key, first: None }),
    }
}

/// The declared aggregator catalog.
pub fn aggregator_registry() -> (r: Registry<AggregatorKind>)
    ensures
        r.wf(),
        r.entries@.len() == 2,
        r.entries@[0].names@.len() == 2,
        r.entries@[0].names@[0]@ == "darray"@,
        r.entries@[0].names@[1]@ == "darr"@,
        r.entries@[0].item is DistinctArray,
        r.entries@[0].argct == 1,
        r.entries@[1].names@.len() == 1,
        r.entries@[1].names@[0]@ == "first"@,
        r.entries@[1].item is First,
        r.entries@[1].argct == 1,
{
    let mut names0: Vec<String> = Vec::new();
    names0.push(String::from_str("darray"));
    names0.push(String::from_str("darr"));
    let e0 = RegistryEntry {
        names: names0,
        help: String::from_str("collect distinct values into an array"),
        argct: 1,
        item: AggregatorKind::DistinctArray,
    };
    let mut names1: Vec<String> = Vec::new();
    names1.push(String::from_str("first"));
    let e1 = RegistryEntry {
        names: names1,
        help: String::from_str("take the first value seen"),
        argct: 1,
        item: AggregatorKind::First,
    };
    let mut entries: Vec<RegistryEntry<AggregatorKind>> = Vec::new();
    entries.push(e0);
    entries.push(e1);
    proof {
        reveal_strlit("darray");
        reveal_strlit("darr");
        reveal_strlit("first");
        assert("darray"@.len() == 6 && "darr"@.len() == 4 && "first"@.len() == 5);
        assert(crate::registry::names_unique(entries@)) by {
            assert(entries@.len() == 2);
            assert(entries@[0].names@.len() == 2);
            assert(entries@[1].names@.len() == 1);
            assert(entries@[0].names@[0]@ == "darray"@);
            assert(entries@[0].names@[1]@ == "darr"@);
            assert(entries@[1].names@[0]@ == "first"@);
        }
    }
    match Registry::build(entries) {
        Ok(reg) => reg,
        Err(_) => vstd::pervasive::unreached(),
    }
}

/// Which of a sequence of interleaved additions go to the first copy of a
/// duplicated handle, and which to the second.
pub enum CopyOp {
    ToFirst(RecordV),
    ToSecond(RecordV),
}

pub open spec fn firsts(ops: Seq<CopyOp>) -> Seq<RecordV>
    decreases ops.len(),
{
    if ops.len() == 0 {
        Seq::empty()
    } else {
        match ops[0] {
            CopyOp::ToFirst(r) => seq![r] + firsts(ops.drop_first()),
            CopyOp::ToSecond(_) => firsts(ops.drop_first()),
        }
    }
}

pub open spec fn seconds(ops: Seq<CopyOp>) -> Seq<RecordV>
    decreases ops.len(),
{
    if ops.len() == 0 {
        Seq::empty()
    } else {
        match ops[0] {
            CopyOp::ToFirst(_) => seconds(ops.drop_first()),
            CopyOp::ToSecond(r) => seq![r] + seconds(ops.drop_first()),
        }
    }
}

/// Two copies under interleaved additions.
pub open spec fn run_pair(a: AggV, b: AggV, ops: Seq<CopyOp>) -> (AggV, AggV)
    decreases ops.len(),
{
    if ops.len() == 0 {
        (a, b)
    } else {
        match ops[0] {
            CopyOp::ToFirst(r) => run_pair(agg_add(a, r), b, ops.drop_first()),
            CopyOp::ToSecond(r) => run_pair(a, agg_add(b, r), ops.drop_first()),
        }
    }
}

/// Duplication independence: however additions to the two copies of a
/// duplicated handle are interleaved, each copy ends exactly where an
/// independent accumulation of its own additions, from the state at the
/// moment of the copy, would end.  There is no cross-talk between copies.
pub proof fn lemma_duplication_independence(a: AggV, b: AggV, ops: Seq<CopyOp>)
    ensures
        run_pair(a, b, ops) == (agg_add_all(a, firsts(ops)), agg_add_all(b, seconds(ops))),
    decreases ops.len(),
{
    if ops.len() == 0 {
    } else {
        match ops[0] {
            CopyOp::ToFirst(r) => {
                lemma_duplication_independence(agg_add(a, r), b, ops.drop_first());
                assert((seq![r] + firsts(ops.drop_first())).drop_first() =~= firsts(
                    ops.drop_first(),
                ));
            },
            CopyOp::ToSecond(r) => {
                lemma_duplication_independence(a, agg_add(b, r), ops.drop_first());
                assert((seq![r] + seconds(ops.drop_first())).drop_first() =~= seconds(
                    ops.drop_first(),
                ));
            },
        }
    }
}

} // verus!
