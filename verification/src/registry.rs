//! The name-to-constructor catalog behind every pluggable family.  Each
//! entry declares one or more alias names, a one-line help text, an
//! argument arity, and the item the names stand for.  The catalog is
//! assembled once; assembling one in which two aliases resolve to the same
//! name fails fast, since that is a catalog-authoring error.  Lookup is by
//! exact name only.

use vstd::prelude::*;

use crate::record::strings_view;

verus! {

/// One catalog declaration.
pub struct RegistryEntry<T> {
    pub names: Vec<String>,
    pub help: String,
    pub argct: usize,
    pub item: T,
}

/// Why a registry operation failed: an unknown name at lookup, or two
/// aliases resolving to one name at build.
#[derive(Debug)]
pub enum RegistryError {
    NoSuchEntry(String),
    DuplicateName(String),
}

pub open spec fn has_name<T>(e: RegistryEntry<T>, name: Seq<char>) -> bool {
    exists|p: int| 0 <= p < e.names@.len() && e.names@[p]@ == name
}

/// No two alias positions in the whole catalog spell the same name.
pub open spec fn names_unique<T>(es: Seq<RegistryEntry<T>>) -> bool {
    forall|i: int, p: int, j: int, q: int|
        #![trigger es[i].names@[p], es[j].names@[q]]
        0 <= i < es.len() && 0 <= p < es[i].names@.len() && 0 <= j < es.len() && 0 <= q < es[
            j
        ].names@.len() && (i != j || p != q) ==> es[i].names@[p]@ != es[j].names@[q]@
}

/// The entry an exact-match lookup finds: the first one declaring `name`.
pub open spec fn spec_lookup<T>(es: Seq<RegistryEntry<T>>, name: Seq<char>) -> Option<int>
    decreases es.len(),
{
    if es.len() == 0 {
        None
    } else if has_name(es[0], name) {
        Some(0int)
    } else {
        match spec_lookup(es.drop_first(), name) {
            Some(i) => Some(i + 1),
            None => None,
        }
    }
}

pub proof fn lemma_spec_lookup_props<T>(es: Seq<RegistryEntry<T>>, name: Seq<char>)
    ensures
        match spec_lookup(es, name) {
            Some(t) => 0 <= t < es.len() && has_name(es[t], name) && forall|j: int|
                0 <= j < t ==> !has_name(#[trigger] es[j], name),
            None => forall|j: int| 0 <= j < es.len() ==> !has_name(#[trigger] es[j], name),
        },
    decreases es.len(),
{
    if es.len() > 0 && !has_name(es[0], name) {
        lemma_spec_lookup_props(es.drop_first(), name);
        assert(forall|j: int|
            1 <= j < es.len() ==> es.drop_first()[j - 1] == #[trigger] es[j]);
    }
}

/// A collision-free catalog sends every declared alias to its own entry
/// and refuses every undeclared name: the registry round trip.
pub proof fn lemma_registry_round_trip<T>(es: Seq<RegistryEntry<T>>, name: Seq<char>)
    requires
        names_unique(es),
    ensures
        forall|i: int, p: int|
            #![trigger es[i].names@[p]]
            0 <= i < es.len() && 0 <= p < es[i].names@.len() && es[i].names@[p]@ == name
                ==> spec_lookup(es, name) == Some(i),
        (forall|i: int| 0 <= i < es.len() ==> !has_name(#[trigger] es[i], name)) ==> spec_lookup(
            es,
            name,
        ) is None,
{
    lemma_spec_lookup_props(es, name);
    assert forall|i: int, p: int|
        0 <= i < es.len() && 0 <= p < es[i].names@.len() && (#[trigger] es[i].names@[p])@
            == name implies spec_lookup(es, name) == Some(i) by {
        assert(has_name(es[i], name));
        match spec_lookup(es, name) {
            Some(t) => {
                let q = choose|q: int| 0 <= q < es[t].names@.len() && es[t].names@[q]@ == name;
                if t != i || q != p {
                    assert(es[t].names@[q]@ != es[i].names@[p]@);
                }
            },
            None => {
                assert(!has_name(es[i], name));
            },
        }
    }
}

/// Some retired position `t` of `owners` records the alias position
/// `(i, p)`.
pub open spec fn covered(owners: Seq<(int, int)>, i: int, p: int) -> bool {
    exists|t: int| 0 <= t < owners.len() && #[trigger] owners[t] == (i, p)
}

pub(crate) fn contains_string(v: &Vec<String>, s: &String) -> (r: bool)
    ensures
        r == exists|t: int| 0 <= t < v@.len() && v@[t]@ == s@,
{
    let mut i: usize = 0;
    while i < v.len()
        invariant
            0 <= i <= v@.len(),
            forall|t: int| 0 <= t < i ==> v@[t]@ != s@,
        decreases v@.len() - i,
    {
        if v[i] == *s {
            return true;
        }
        i = i + 1;
    }
    false
}

/// A plugin registry: the immutable catalog of one family.
pub struct Registry<T> {
    pub entries: Vec<RegistryEntry<T>>,
}

impl<T> Registry<T> {
    pub open spec fn wf(&self) -> bool {
        names_unique(self.entries@)
    }

    /// Assembles the catalog, failing fast when two aliases resolve to the
    /// same name.
    #[verifier::loop_isolation(false)]
    pub fn build(entries: Vec<RegistryEntry<T>>) -> (r: Result<Registry<T>, RegistryError>)
        ensures
            match r {
                Ok(reg) => reg.entries == entries && names_unique(entries@),
                Err(err) => !names_unique(entries@) && err is DuplicateName,
            },
    {
        let ghost es = entries@;
        let mut seen: Vec<String> = Vec::new();
        let ghost mut owners: Seq<(int, int)> = Seq::empty();
        let mut k: usize = 0;
        while k < entries.len()
            invariant
                0 <= k <= es.len(),
                owners.len() == seen@.len(),
                forall|t: int|
                    0 <= t < owners.len() ==> {
                        let o = #[trigger] owners[t];
                        &&& 0 <= o.0 < es.len()
                        &&& 0 <= o.1 < es[o.0].names@.len()
                        &&& o.0 < k
                        &&& seen@[t]@ == es[o.0].names@[o.1]@
                    },
                forall|t1: int, t2: int|
                    0 <= t1 < seen@.len() && 0 <= t2 < seen@.len() && t1 != t2 ==> (
                    #[trigger] seen@[t1])@ != (#[trigger] seen@[t2])@,
                forall|i: int, p: int|
                    0 <= i < k && 0 <= p < es[i].names@.len() ==> #[trigger] covered(
                        owners,
                        i,
                        p,
                    ),
            decreases es.len() - k,
        {
            let names_len = entries[k].names.len();
            let mut m: usize = 0;
            while m < names_len
                invariant
                    0 <= m <= names_len,
                    names_len == es[k as int].names@.len(),
                    0 <= k < es.len(),
                    owners.len() == seen@.len(),
                    forall|t: int|
                        0 <= t < owners.len() ==> {
                            let o = #[trigger] owners[t];
                            &&& 0 <= o.0 < es.len()
                            &&& 0 <= o.1 < es[o.0].names@.len()
                            &&& (o.0 < k || (o.0 == k && o.1 < m))
                            &&& seen@[t]@ == es[o.0].names@[o.1]@
                        },
                    forall|t1: int, t2: int|
                        0 <= t1 < seen@.len() && 0 <= t2 < seen@.len() && t1 != t2 ==> (
                        #[trigger] seen@[t1])@ != (#[trigger] seen@[t2])@,
                    forall|i: int, p: int|
                        (0 <= i < k && 0 <= p < es[i].names@.len()) || (i == k && 0 <= p < m)
                            ==> #[trigger] covered(owners, i, p),
                decreases names_len - m,
        {
                let name = &entries[k].names[m];
                if contains_string(&seen, name) {
                    proof {
                        let t = choose|t: int| 0 <= t < seen@.len() && seen@[t]@ == name@;
                        let o = owners[t];
                        assert(es[o.0].names@[o.1]@ == es[k as int].names@[m as int]@);
                        assert(o.0 != k || o.1 != m);
                        assert(!names_unique(es));
                    }
                    return Err(RegistryError::DuplicateName(name.clone()));
                }
                seen.push(name.clone());
                let ghost owners0 = owners;
                proof {
                    owners = owners0.push((k as int, m as int));
                    assert forall|i: int, p: int|
                        (0 <= i < k && 0 <= p < es[i].names@.len()) || (i == k as int && 0 <= p
                            < m + 1) implies #[trigger] covered(owners, i, p) by {
                        if i == k as int && p == m as int {
                            assert(owners[owners0.len() as int] == (i, p));
                        } else {
                            assert(covered(owners0, i, p));
                            let t = choose|t: int|
                                0 <= t < owners0.len() && #[trigger] owners0[t] == (i, p);
                            assert(owners[t] == (i, p));
                        }
                    }
                }
                m = m + 1;
            }
            k = k + 1;
        }
        proof {
            assert forall|i: int, p: int, j: int, q: int|
                0 <= i < es.len() && 0 <= p < es[i].names@.len() && 0 <= j < es.len() && 0 <= q
                    < es[j].names@.len() && (i != j || p != q) implies (
            #[trigger] es[i].names@[p])@ != (#[trigger] es[j].names@[q])@ by {
                assert(covered(owners, i, p));
                assert(covered(owners, j, q));
                let t1 = choose|t: int| 0 <= t < owners.len() && #[trigger] owners[t] == (i, p);
                let t2 = choose|t: int| 0 <= t < owners.len() && #[trigger] owners[t] == (j, q);
                assert(owners[t1] != owners[t2]);
                assert(seen@[t1]@ != seen@[t2]@);
            }
        }
        Ok(Registry { entries })
    }

    /// Exact-match lookup: the entry that declares `name`, or a lookup
    /// failure naming the unknown token.
    pub fn lookup(&self, name: &String) -> (r: Result<&RegistryEntry<T>, RegistryError>)
        ensures
            match r {
                Ok(e) => spec_lookup(self.entries@, name@) matches Some(t) && *e
                    == self.entries@[t],
                Err(err) => spec_lookup(self.entries@, name@) is None && (err matches
                RegistryError::NoSuchEntry(n) && n@ == name@),
            },
    {
        let ghost es = self.entries@;
        let mut i: usize = 0;
        while i < self.entries.len()
            invariant
                0 <= i <= es.len(),
                es == self.entries@,
                forall|j: int| 0 <= j < i ==> !has_name(#[trigger] es[j], name@),
            decreases es.len() - i,
        {
            if contains_string(&self.entries[i].names, name) {
                proof {
                    assert(has_name(es[i as int], name@));
                    lemma_spec_lookup_props(es, name@);
                    match spec_lookup(es, name@) {
                        Some(t) => {
                            if t < i {
                                assert(!has_name(es[t], name@));
                            }
                            if t > i {
                                assert(!has_name(es[i as int], name@));
                            }
                        },
                        None => {
                            assert(!has_name(es[i as int], name@));
                        },
                    }
                }
                return Ok(&self.entries[i]);
            }
            i = i + 1;
        }
        proof {
            lemma_spec_lookup_props(es, name@);
            match spec_lookup(es, name@) {
                Some(t) => {
                    assert(!has_name(es[t], name@));
                },
                None => {},
            }
        }
        Err(RegistryError::NoSuchEntry(name.clone()))
    }

    /// The help surface: every entry's declared names and its one-line
    /// description, enumerable without constructing anything.
    pub fn help_list(&self) -> (r: Vec<(Vec<String>, String)>)
        ensures
            r@.len() == self.entries@.len(),
            forall|i: int|
                0 <= i < r@.len() ==> strings_view((#[trigger] r@[i]).0@) == strings_view(
                    self.entries@[i].names@,
                ) && r@[i].1@ == self.entries@[i].help@,
    {
        let mut r: Vec<(Vec<String>, String)> = Vec::new();
        let mut i: usize = 0;
        while i < self.entries.len()
            invariant
                0 <= i <= self.entries@.len(),
                r@.len() == i,
                forall|j: int|
                    0 <= j < i ==> strings_view((#[trigger] r@[j]).0@) == strings_view(
                        self.entries@[j].names@,
                    ) && r@[j].1@ == self.entries@[j].help@,
            decreases self.entries@.len() - i,
        {
            let mut names: Vec<String> = Vec::new();
            let mut p: usize = 0;
            let entry = &self.entries[i];
            while p < entry.names.len()
                invariant
                    0 <= p <= entry.names@.len(),
                    names@.len() == p,
                    forall|q: int| 0 <= q < p ==> (#[trigger] names@[q])@ == entry.names@[q]@,
                decreases entry.names@.len() - p,
            {
                names.push(entry.names[p].clone());
                p = p + 1;
            }
            proof {
                assert(strings_view(names@) =~= strings_view(entry.names@));
            }
            let pair = (names, entry.help.clone());
            r.push(pair);
            i = i + 1;
        }
        r
    }
}

/// Marks a type whose registry argument is read with its ordinary
/// from-string parse.
pub trait MayRegistryArgFromStr {

}

impl MayRegistryArgFromStr for usize {

}

} // verus!
