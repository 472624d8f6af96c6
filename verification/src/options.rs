//! The permitted values of a parameter.
use vstd::prelude::*;
use vstd::string::*;
use crate::media::{media_text, same_media, MediaType};
use crate::text::str_eq;

verus! {

/// One permitted value, with the media type it stands for where it has one.
#[derive(Debug)]
pub struct OptionEntry {
    pub value: String,
    pub media_type: Option<MediaType>,
}

/// The values of a list of entries, in their order.
pub open spec fn entry_keys(entries: Seq<OptionEntry>) -> Seq<Seq<char>> {
    entries.map_values(|e: OptionEntry| e.value@)
}

/// The map from each value of a list of entries to its media type.
pub open spec fn entry_map(entries: Seq<OptionEntry>) -> Map<Seq<char>, Option<Seq<char>>> {
    Map::new(
        |k: Seq<char>| entry_keys(entries).contains(k),
        |k: Seq<char>| media_text(entries[entry_keys(entries).index_of(k)].media_type),
    )
}

/// In a list without repeated values, a value is found at its own place.
pub proof fn lemma_index_of_key(entries: Seq<OptionEntry>, i: int)
    requires
        entry_keys(entries).no_duplicates(),
        0 <= i < entries.len(),
    ensures
        entry_keys(entries).contains(entries[i].value@),
        entry_keys(entries).index_of(entries[i].value@) == i,
{
    let keys = entry_keys(entries);
    assert(keys[i] == entries[i].value@);
    let j = keys.index_of(entries[i].value@);
    assert(0 <= j < keys.len() && keys[j] == keys[i]);
}

/// The values of a list without repetitions, each where it first occurs.
pub open spec fn spec_first_occurrences(values: Seq<Seq<char>>) -> Seq<Seq<char>>
    decreases values.len(),
{
    if values.len() == 0 {
        Seq::empty()
    } else {
        let before = spec_first_occurrences(values.drop_last());
        if before.contains(values.last()) {
            before
        } else {
            before.push(values.last())
        }
    }
}

/// The set of values that a parameter may take, each with the media type it stands for
/// where it has one. No value occurs twice; the values keep the order in which they
/// were first inserted. Two sets are the same where they map the same values to the
/// same media types, in whatever order.
#[derive(Debug)]
pub struct Options {
    entries: Vec<OptionEntry>,
}

impl Options {
    #[verifier::type_invariant]
    spec fn inv(self) -> bool {
        self.wf()
    }

    /// The entries, in the order of first insertion.
    pub closed spec fn entries(&self) -> Seq<OptionEntry> {
        self.entries@
    }

    /// No value occurs twice.
    pub open spec fn wf(&self) -> bool {
        entry_keys(self.entries()).no_duplicates()
    }

    /// The values, in the order of first insertion.
    pub open spec fn spec_keys(&self) -> Seq<Seq<char>> {
        entry_keys(self.entries())
    }

    /// The map from each value to its media type.
    pub open spec fn view(&self) -> Map<Seq<char>, Option<Seq<char>>> {
        entry_map(self.entries())
    }

    /// A set without values.
    pub fn new() -> (r: Self)
        ensures
            r.wf(),
            r@ == Map::<Seq<char>, Option<Seq<char>>>::empty(),
            r.spec_keys() == Seq::<Seq<char>>::empty(),
    {
        let r = Options { entries: Vec::new() };
        assert(r@ =~= Map::<Seq<char>, Option<Seq<char>>>::empty());
        assert(r.spec_keys() =~= Seq::<Seq<char>>::empty());
        r
    }

    /// The number of values.
    pub fn len(&self) -> (r: usize)
        ensures
            self.wf(),
            r == self.spec_keys().len(),
            r == self@.dom().len(),
    {
        proof {
            use_type_invariant(self);
            self.spec_keys().unique_seq_to_set();
            assert(self@.dom() =~= self.spec_keys().to_set());
        }
        self.entries.len()
    }

    /// Whether there is no value.
    pub fn is_empty(&self) -> (r: bool)
        ensures
            r == (self.spec_keys().len() == 0),
            r == (self@ == Map::<Seq<char>, Option<Seq<char>>>::empty()),
    {
        proof {
            if self.entries@.len() == 0 {
                assert(self@ =~= Map::<Seq<char>, Option<Seq<char>>>::empty());
            } else {
                assert(entry_keys(self.entries@)[0] == self.entries@[0].value@);
                assert(self@.contains_key(self.entries@[0].value@));
            }
        }
        self.entries.len() == 0
    }

    fn position(&self, key: &str) -> (r: Option<usize>)
        ensures
            match r {
                Some(i) => i < self.entries().len() && self.entries()[i as int].value@ == key@,
                None => !self.spec_keys().contains(key@),
            },
    {
        let mut i: usize = 0;
        while i < self.entries.len()
            invariant
                i <= self.entries.len(),
                forall|j: int| 0 <= j < i ==> self.entries@[j].value@ != key@,
            decreases self.entries.len() - i,
        {
            if str_eq(self.entries[i].value.as_str(), key) {
                return Some(i);
            }
            i = i + 1;
        }
        assert(!self.spec_keys().contains(key@)) by {
            if self.spec_keys().contains(key@) {
                let j = choose|j: int| 0 <= j < self.spec_keys().len() && self.spec_keys()[j] == key@;
                assert(self.entries@[j].value@ == key@);
            }
        }
        None
    }

    /// Whether a value is permitted.
    pub fn contains_key(&self, key: &str) -> (r: bool)
        ensures
            r == self@.contains_key(key@),
    {
        let found = self.position(key);
        proof {
            if let Some(i) = found {
                assert(entry_keys(self.entries@)[i as int] == key@);
            }
        }
        found.is_some()
    }

    /// The media type of a value: `None` where the value is not permitted.
    pub fn get(&self, key: &str) -> (r: Option<&Option<MediaType>>)
        ensures
            match r {
                Some(m) => self@.contains_key(key@) && self@[key@] == media_text(*m),
                None => !self@.contains_key(key@),
            },
    {
        proof {
            use_type_invariant(self);
        }
        match self.position(key) {
            Some(i) => {
                proof {
                    lemma_index_of_key(self.entries@, i as int);
                }
                Some(&self.entries[i].media_type)
            },
            None => None,
        }
    }

    /// Permits a value, with its media type. A value that is permitted already keeps its
    /// place and takes the new media type.
    pub fn insert(&mut self, key: String, value: Option<MediaType>)
        ensures
            final(self).wf(),
            final(self)@ == old(self)@.insert(key@, media_text(value)),
            final(self).spec_keys() == (if old(self)@.contains_key(key@) {
                old(self).spec_keys()
            } else {
                old(self).spec_keys().push(key@)
            }),
    {
        proof {
            use_type_invariant(&*self);
        }
        let ghost before = self.entries@;
        let ghost k = key@;
        let ghost v = media_text(value);
        let found = self.position(key.as_str());
        let mut taken = Options { entries: Vec::new() };
        core::mem::swap(self, &mut taken);
        let mut entries = taken.entries;
        match found {
            Some(i) => {
                let entry = OptionEntry { value: key, media_type: value };
                entries.set(i, entry);
                proof {
                    let after = entries@;
                    assert(entry_keys(after) =~= entry_keys(before));
                    assert forall|q: Seq<char>| entry_map(after).contains_key(q) implies
                        #[trigger] entry_map(after)[q] == entry_map(before).insert(k, v)[q] by {
                        let j = entry_keys(after).index_of(q);
                        assert(entry_keys(after)[j] == q);
                        if q == k {
                            lemma_index_of_key(before, i as int);
                        } else {
                            assert(j != i);
                        }
                    }
                    assert(entry_keys(before)[i as int] == k);
                    assert(entry_map(after) =~= entry_map(before).insert(k, v));
                }
            },
            None => {
                let entry = OptionEntry { value: key, media_type: value };
                entries.push(entry);
                proof {
                    let after = entries@;
                    assert(entry_keys(after) =~= entry_keys(before).push(k));
                    assert(entry_keys(after).no_duplicates());
                    assert forall|q: Seq<char>| entry_map(after).contains_key(q) implies
                        #[trigger] entry_map(after)[q] == entry_map(before).insert(k, v)[q] by {
                        let j = entry_keys(after).index_of(q);
                        assert(entry_keys(after)[j] == q);
                        if q == k {
                            assert(entry_keys(after)[before.len() as int] == k);
                            assert(j == before.len());
                        } else {
                            assert(j < before.len());
                            assert(entry_keys(before)[j] == q);
                            lemma_index_of_key(before, j);
                        }
                    }
                    assert forall|q: Seq<char>| entry_map(before).insert(k, v).contains_key(q)
                        implies entry_map(after).contains_key(q) by {
                        if q == k {
                            assert(entry_keys(after)[before.len() as int] == k);
                        } else {
                            let j = entry_keys(before).index_of(q);
                            assert(entry_keys(after)[j] == q);
                        }
                    }
                    assert(entry_map(after) =~= entry_map(before).insert(k, v));
                }
            },
        }
        *self = Options { entries };
    }

    /// The values, in the order of first insertion.
    pub fn keys(&self) -> (r: Vec<&str>)
        ensures
            r@.map_values(|s: &str| s@) == self.spec_keys(),
    {
        let mut out: Vec<&str> = Vec::new();
        let mut i: usize = 0;
        while i < self.entries.len()
            invariant
                i <= self.entries.len(),
                out@.map_values(|s: &str| s@) =~= entry_keys(self.entries@).take(i as int),
            decreases self.entries.len() - i,
        {
            let key = self.entries[i].value.as_str();
            let ghost before = out@;
            out.push(key);
            i = i + 1;
            assert(out@.map_values(|s: &str| s@) =~= before.map_values(|s: &str| s@).push(key@));
            assert(entry_keys(self.entries@).take(i as int) =~= entry_keys(self.entries@).take(
                i - 1,
            ).push(key@));
        }
        assert(entry_keys(self.entries@).take(self.entries@.len() as int) =~= entry_keys(
            self.entries@,
        ));
        out
    }

    /// The values with their media types, in the order of first insertion.
    pub fn iter(&self) -> (r: Vec<(&str, Option<&MediaType>)>)
        ensures
            r@.len() == self.entries().len(),
            forall|i: int|
                0 <= i < r@.len() ==> (#[trigger] r@[i]).0@ == self.entries()[i].value@ && (match r@[i].1 {
                    Some(m) => Some(*m),
                    None => None,
                }) == self.entries()[i].media_type,
    {
        let mut out: Vec<(&str, Option<&MediaType>)> = Vec::new();
        let mut i: usize = 0;
        while i < self.entries.len()
            invariant
                i <= self.entries.len(),
                out@.len() == i,
                forall|j: int|
                    0 <= j < i ==> (#[trigger] out@[j]).0@ == self.entries@[j].value@ && (match out@[j].1 {
                        Some(m) => Some(*m),
                        None => None,
                    }) == self.entries@[j].media_type,
            decreases self.entries.len() - i,
        {
            out.push((self.entries[i].value.as_str(), self.entries[i].media_type.as_ref()));
            i = i + 1;
        }
        out
    }

    fn included_in(&self, other: &Options) -> (r: bool)
        ensures
            r == (forall|k: Seq<char>| #[trigger]
                self@.contains_key(k) ==> other@.contains_key(k) && other@[k] == self@[k]),
    {
        proof {
            use_type_invariant(self);
        }
        let mut i: usize = 0;
        while i < self.entries.len()
            invariant
                i <= self.entries.len(),
                self.wf(),
                forall|j: int|
                    0 <= j < i ==> other@.contains_key(#[trigger] self.entries@[j].value@)
                        && other@[self.entries@[j].value@] == media_text(
                        self.entries@[j].media_type,
                    ),
            decreases self.entries.len() - i,
        {
            let ghost key = self.entries@[i as int].value@;
            proof {
                lemma_index_of_key(self.entries@, i as int);
            }
            let found = match other.get(self.entries[i].value.as_str()) {
                Some(m) => same_media(m, &self.entries[i].media_type),
                None => false,
            };
            if !found {
                assert(self@.contains_key(key));
                assert(!(other@.contains_key(key) && other@[key] == self@[key]));
                return false;
            }
            i = i + 1;
        }
        assert forall|k: Seq<char>| #[trigger] self@.contains_key(k) implies other@.contains_key(k)
            && other@[k] == self@[k] by {
            let j = entry_keys(self.entries@).index_of(k);
            assert(entry_keys(self.entries@)[j] == k);
            assert(self.entries@[j].value@ == k);
        }
        true
    }

    /// Whether two sets permit the same values with the same media types.
    pub fn same(&self, other: &Options) -> (r: bool)
        ensures
            r == (self@ == other@),
    {
        let r = self.included_in(other) && other.included_in(self);
        proof {
            if r {
                assert(self@ =~= other@);
            }
        }
        r
    }

    /// The set of the given values, none with a media type, in the order in which each
    /// value first occurs.
    pub fn of_values(values: &Vec<String>) -> (r: Options)
        ensures
            r.wf(),
            r.spec_keys() == spec_first_occurrences(crate::text::texts(values@)),
            forall|k: Seq<char>|
                r@.contains_key(k) <==> exists|i: int| 0 <= i < values@.len() && #[trigger] values@[i]@ == k,
            forall|k: Seq<char>| r@.contains_key(k) ==> #[trigger] r@[k] == None::<Seq<char>>,
    {
        let mut out = Options::new();
        let mut i: usize = 0;
        while i < values.len()
            invariant
                i <= values.len(),
                out.spec_keys() == spec_first_occurrences(
                    crate::text::texts(values@).take(i as int),
                ),
                forall|k: Seq<char>|
                    out@.contains_key(k) <==> exists|j: int| 0 <= j < i && #[trigger] values@[j]@ == k,
                forall|k: Seq<char>| out@.contains_key(k) ==> #[trigger] out@[k] == None::<Seq<char>>,
            decreases values.len() - i,
        {
            let ghost before = out@;
            proof {
                let next = crate::text::texts(values@).take(i + 1);
                assert(next.drop_last() =~= crate::text::texts(values@).take(i as int));
                assert(next.last() == values@[i as int]@);
            }
            out.insert(values[i].clone(), None);
            proof {
                assert forall|k: Seq<char>| out@.contains_key(k) implies exists|j: int|
                    0 <= j < i + 1 && #[trigger] values@[j]@ == k by {
                    if k == values@[i as int]@ {
                    } else {
                        assert(before.contains_key(k));
                        let j = choose|j: int| 0 <= j < i && #[trigger] values@[j]@ == k;
                        assert(0 <= j < i + 1 && values@[j]@ == k);
                    }
                }
            }
            i = i + 1;
        }
        proof {
            use_type_invariant(&out);
            assert(crate::text::texts(values@).take(values@.len() as int) =~= crate::text::texts(
                values@,
            ));
        }
        out
    }
}

impl Clone for OptionEntry {
    fn clone(&self) -> (r: Self)
        ensures
            r.value@ == self.value@,
            media_text(r.media_type) == media_text(self.media_type),
    {
        let media_type = match &self.media_type {
            Some(m) => Some(m.clone()),
            None => None,
        };
        OptionEntry { value: self.value.clone(), media_type }
    }
}

impl Clone for Options {
    fn clone(&self) -> (r: Self)
        ensures
            r.wf(),
            r@ == self@,
            r.spec_keys() == self.spec_keys(),
    {
        proof {
            use_type_invariant(self);
        }
        let mut entries: Vec<OptionEntry> = Vec::new();
        let mut i: usize = 0;
        while i < self.entries.len()
            invariant
                i <= self.entries.len(),
                entries@.len() == i,
                forall|j: int|
                    0 <= j < i ==> (#[trigger] entries@[j]).value@ == self.entries@[j].value@
                        && media_text(entries@[j].media_type) == media_text(
                        self.entries@[j].media_type,
                    ),
            decreases self.entries.len() - i,
        {
            entries.push(self.entries[i].clone());
            i = i + 1;
        }
        assert(entry_keys(entries@) =~= entry_keys(self.entries@));
        assert(entry_map(entries@) =~= entry_map(self.entries@));
        Options { entries }
    }
}

impl From<Vec<String>> for Options {
    fn from(v: Vec<String>) -> (r: Self)
    {
        Options::of_values(&v)
    }
}

impl vstd::std_specs::convert::FromSpecImpl<Vec<String>> for Options {
    open spec fn obeys_from_spec() -> bool {
        false
    }

    open spec fn from_spec(v: Vec<String>) -> Self {
        arbitrary()
    }
}

impl<'a> From<Vec<&'a str>> for Options {
    fn from(v: Vec<&'a str>) -> (r: Self)
    {
        let mut out = Options::new();
        let mut i: usize = 0;
        while i < v.len()
            invariant
                i <= v.len(),
            decreases v.len() - i,
        {
            out.insert(String::from_str(v[i]), None);
            i = i + 1;
        }
        out
    }
}

impl<'a> vstd::std_specs::convert::FromSpecImpl<Vec<&'a str>> for Options {
    open spec fn obeys_from_spec() -> bool {
        false
    }

    open spec fn from_spec(v: Vec<&'a str>) -> Self {
        arbitrary()
    }
}

impl PartialEq for Options {
    fn eq(&self, other: &Self) -> (r: bool)
    {
        self.same(other)
    }
}

impl Eq for Options {}

impl vstd::std_specs::cmp::PartialEqSpecImpl for Options {
    open spec fn obeys_eq_spec() -> bool {
        true
    }

    open spec fn eq_spec(&self, other: &Self) -> bool {
        self@ == other@
    }
}

} // verus!
