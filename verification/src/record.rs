//! The unit of data flowing through a pipeline: an entry is either a raw
//! line of text or an already-structured record.  A line can be parsed into
//! a record on demand; entries are cheaply duplicable because one entry may
//! be forwarded into several sub-streams.

use vstd::prelude::*;

verus! {

/// Mathematical value of a `Record`.
pub enum RecordV {
    Text(Seq<char>),
    List(Seq<Seq<char>>),
    Group(Seq<(Seq<char>, Seq<char>)>),
}

/// Mathematical value of an `Entry`.
pub enum EntryV {
    Line(Seq<char>),
    Rec(RecordV),
}

/// A structured, field-addressable value: a single text value, a list of
/// text values, or a group of key/value fields.
#[derive(Debug, PartialEq, Eq)]
pub enum Record {
    Text(String),
    List(Vec<String>),
    Group(Vec<(String, String)>),
}

/// One unit flowing through a pipeline: raw text or a structured record.
#[derive(Debug, PartialEq, Eq)]
pub enum Entry {
    Line(String),
    Rec(Record),
}

pub open spec fn entries_view(v: Seq<Entry>) -> Seq<EntryV> {
    v.map_values(|e: Entry| e@)
}

pub open spec fn records_view(v: Seq<Record>) -> Seq<RecordV> {
    v.map_values(|r: Record| r@)
}

pub open spec fn strings_view(v: Seq<String>) -> Seq<Seq<char>> {
    v.map_values(|s: String| s@)
}

pub open spec fn pairs_view(v: Seq<(String, String)>) -> Seq<(Seq<char>, Seq<char>)> {
    v.map_values(|p: (String, String)| (p.0@, p.1@))
}

impl View for Record {
    type V = RecordV;

    open spec fn view(&self) -> RecordV {
        match self {
            Record::Text(s) => RecordV::Text(s@),
            Record::List(v) => RecordV::List(strings_view(v@)),
            Record::Group(v) => RecordV::Group(pairs_view(v@)),
        }
    }
}

impl View for Entry {
    type V = EntryV;

    open spec fn view(&self) -> EntryV {
        match self {
            Entry::Line(s) => EntryV::Line(s@),
            Entry::Rec(r) => EntryV::Rec(r@),
        }
    }
}

/// Value of `key` in a group of fields: the value of the first pair whose
/// key matches, or the empty string when no pair matches.
pub open spec fn group_lookup(fields: Seq<(Seq<char>, Seq<char>)>, key: Seq<char>) -> Seq<char>
    decreases fields.len(),
{
    if fields.len() == 0 {
        Seq::empty()
    } else if fields[0].0 == key {
        fields[0].1
    } else {
        group_lookup(fields.drop_first(), key)
    }
}

/// Path lookup on a record value: only a group has addressable fields;
/// on the other shapes the lookup yields the empty string.
pub open spec fn record_path(r: RecordV, key: Seq<char>) -> Seq<char> {
    match r {
        RecordV::Group(fields) => group_lookup(fields, key),
        _ => Seq::empty(),
    }
}

/// Parsing an entry: a raw line becomes a single text record; a record
/// entry passes through unchanged.
pub open spec fn entry_parse(e: EntryV) -> RecordV {
    match e {
        EntryV::Line(s) => RecordV::Text(s),
        EntryV::Rec(r) => r,
    }
}

fn clone_strings(v: &Vec<String>) -> (r: Vec<String>)
    ensures
        strings_view(r@) == strings_view(v@),
{
    let mut r: Vec<String> = Vec::new();
    let mut i: usize = 0;
    while i < v.len()
        invariant
            i <= v.len(),
            r@.len() == i,
            forall|j: int| 0 <= j < i ==> r@[j]@ == v@[j]@,
        decreases v.len() - i,
    {
        r.push(v[i].clone());
        i = i + 1;
    }
    proof {
        assert(strings_view(r@) =~= strings_view(v@));
    }
    r
}

fn clone_pairs(v: &Vec<(String, String)>) -> (r: Vec<(String, String)>)
    ensures
        pairs_view(r@) == pairs_view(v@),
{
    let mut r: Vec<(String, String)> = Vec::new();
    let mut i: usize = 0;
    while i < v.len()
        invariant
            i <= v.len(),
            r@.len() == i,
            forall|j: int| 0 <= j < i ==> r@[j].0@ == v@[j].0@ && r@[j].1@ == v@[j].1@,
        decreases v.len() - i,
    {
        let p = (v[i].0.clone(), v[i].1.clone());
        r.push(p);
        i = i + 1;
    }
    proof {
        assert(pairs_view(r@) =~= pairs_view(v@));
    }
    r
}

impl Clone for Record {
    fn clone(&self) -> (r: Record)
        ensures
            r@ == self@,
    {
        match self {
            Record::Text(s) => Record::Text(s.clone()),
            Record::List(v) => Record::List(clone_strings(v)),
            Record::Group(v) => Record::Group(clone_pairs(v)),
        }
    }
}

impl Clone for Entry {
    fn clone(&self) -> (r: Entry)
        ensures
            r@ == self@,
    {
        match self {
            Entry::Line(s) => Entry::Line(s.clone()),
            Entry::Rec(r) => Entry::Rec(r.clone()),
        }
    }
}

impl Record {
    /// Builds a list-valued record from a list of text values.
    pub fn from_vec(v: Vec<String>) -> (r: Record)
        ensures
            r@ == RecordV::List(strings_view(v@)),
    {
        Record::List(v)
    }

    /// Looks the value of `key` up among this record's fields.
    pub fn get_path(&self, key: &String) -> (r: String)
        ensures
            r@ == record_path(self@, key@),
    {
        match self {
            Record::Group(fields) => {
                proof {
                    assert(pairs_view(fields@).skip(0) =~= pairs_view(fields@));
                }
                let mut i: usize = 0;
                while i < fields.len()
                    invariant
                        i <= fields.len(),
                        self@ == RecordV::Group(pairs_view(fields@)),
                        group_lookup(pairs_view(fields@), key@) == group_lookup(
                            pairs_view(fields@).skip(i as int),
                            key@,
                        ),
                    decreases fields.len() - i,
                {
                    proof {
                        assert(pairs_view(fields@).skip(i as int)[0] == pairs_view(fields@)[i as int]);
                        assert(pairs_view(fields@).skip(i as int).drop_first() =~= pairs_view(
                            fields@,
                        ).skip(i + 1));
                    }
                    if fields[i].0 == *key {
                        proof {
                            assert(pairs_view(fields@).skip(i as int)[0].0 == key@);
                            assert(group_lookup(pairs_view(fields@).skip(i as int), key@)
                                == pairs_view(fields@)[i as int].1);
                            assert(self@ == RecordV::Group(pairs_view(fields@)));
                            assert(record_path(self@, key@) == group_lookup(
                                pairs_view(fields@),
                                key@,
                            ));
                        }
                        return fields[i].1.clone();
                    }
                    i = i + 1;
                }
                proof {
                    assert(pairs_view(fields@).skip(fields@.len() as int) =~= Seq::empty());
                }
                String::new()
            },
            _ => String::new(),
        }
    }
}

impl Entry {
    /// Produces a record from this entry: a line is parsed into a single
    /// text record, a record passes through unchanged.
    pub fn parse(self) -> (r: Record)
        ensures
            r@ == entry_parse(self@),
    {
        match self {
            Entry::Line(s) => Record::Text(s),
            Entry::Rec(r) => r,
        }
    }
}

} // verus!
