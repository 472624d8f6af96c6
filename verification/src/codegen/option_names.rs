//! The names of the enums that stand for sets of options.
use vstd::prelude::*;
use vstd::string::*;
use crate::options::Options;
use crate::text::{lemma_texts_push, str_eq, texts};

verus! {

/// A set of options with the name of its enum.
#[derive(Debug)]
pub struct NamedOptions {
    pub options: Options,
    pub name: String,
}

/// A set of options, as a map from values to media types, with its name.
pub type NamePair = (Map<Seq<char>, Option<Seq<char>>>, Seq<char>);

/// The sets and names of a list of entries.
pub open spec fn pairs_of(entries: Seq<NamedOptions>) -> Seq<NamePair> {
    entries.map_values(|e: NamedOptions| (e.options@, e.name@))
}

/// The first name given to a set of options in a list.
pub open spec fn spec_first_name(
    entries: Seq<NamePair>,
    options: Map<Seq<char>, Option<Seq<char>>>,
) -> Option<Seq<char>>
    decreases entries.len(),
{
    if entries.len() == 0 {
        None
    } else if entries[0].0 == options {
        Some(entries[0].1)
    } else {
        spec_first_name(entries.skip(1), options)
    }
}

/// The names of a list, in their order.
pub open spec fn spec_entry_names(entries: Seq<NamePair>) -> Seq<Seq<char>> {
    entries.map_values(|e: NamePair| e.1)
}

/// No set of options occurs twice, and no name.
pub open spec fn one_to_one(entries: Seq<NamePair>) -> bool {
    forall|i: int, j: int|
        0 <= i < entries.len() && 0 <= j < entries.len() && i != j ==> (#[trigger] entries[i]).0
            != (#[trigger] entries[j]).0 && entries[i].1 != entries[j].1
}

/// The name that is found for a set belongs to an entry for that set, and none is found only where no entry is for it.
pub proof fn lemma_first_name(
    entries: Seq<NamePair>,
    options: Map<Seq<char>, Option<Seq<char>>>,
)
    ensures
        match spec_first_name(entries, options) {
            Some(n) => exists|i: int|
                0 <= i < entries.len() && (#[trigger] entries[i]).0 == options && entries[i].1
                    == n,
            None => forall|i: int| 0 <= i < entries.len() ==> (#[trigger] entries[i]).0 != options,
        },
    decreases entries.len(),
{
    if entries.len() > 0 {
        if entries[0].0 == options {
            assert(entries[0].0 == options && entries[0].1 == entries[0].1);
        } else {
            lemma_first_name(entries.skip(1), options);
            match spec_first_name(entries.skip(1), options) {
                Some(n) => {
                    let i = choose|i: int|
                        0 <= i < entries.skip(1).len() && (#[trigger] entries.skip(1)[i]).0
                            == options && entries.skip(1)[i].1 == n;
                    assert(entries[i + 1] == entries.skip(1)[i]);
                },
                None => {
                    assert forall|i: int| 0 <= i < entries.len() implies (#[trigger] entries[i]).0
                        != options by {
                        if i > 0 {
                            assert(entries[i] == entries.skip(1)[i - 1]);
                        }
                    }
                },
            }
        }
    }
}

/// The table from each distinct set of options to the name of its enum. No two sets
/// share a name, and no set has two names.
#[derive(Debug)]
pub struct OptionNames {
    entries: Vec<NamedOptions>,
}

impl OptionNames {
    #[verifier::type_invariant]
    spec fn inv(self) -> bool {
        self.wf()
    }

    /// The sets with their names, in the order in which they were named.
    pub closed spec fn view(&self) -> Seq<NamePair> {
        pairs_of(self.entries@)
    }

    /// The table is one to one.
    pub open spec fn wf(&self) -> bool {
        one_to_one(self@)
    }

    /// The name of a set of options.
    pub open spec fn spec_name_of(&self, options: Map<Seq<char>, Option<Seq<char>>>) -> Option<
        Seq<char>,
    > {
        spec_first_name(self@, options)
    }

    /// The names in use, in the order in which they were given.
    pub open spec fn spec_names(&self) -> Seq<Seq<char>> {
        spec_entry_names(self@)
    }

    /// The empty table.
    pub fn new() -> (r: Self)
        ensures
            r.wf(),
            r@ == Seq::<NamePair>::empty(),
    {
        let r = OptionNames { entries: Vec::new() };
        assert(r@ =~= Seq::<NamePair>::empty());
        r
    }

    /// The name of a set of options.
    pub fn get(&self, options: &Options) -> (r: Option<&String>)
        ensures
            (match r {
                Some(n) => Some(n@),
                None => None,
            }) == self.spec_name_of(options@),
    {
        let mut i: usize = 0;
        assert(self@.skip(0) =~= self@);
        while i < self.entries.len()
            invariant
                i <= self.entries.len(),
                spec_first_name(self@, options@) == spec_first_name(self@.skip(i as int), options@),
            decreases self.entries.len() - i,
        {
            assert(self@.skip(i as int)[0] == (
                self.entries@[i as int].options@,
                self.entries@[i as int].name@,
            ));
            if self.entries[i].options.same(options) {
                return Some(&self.entries[i].name);
            }
            assert(self@.skip(i as int).skip(1) =~= self@.skip(i + 1));
            i = i + 1;
        }
        None
    }

    /// Whether a name is in use.
    pub fn is_taken(&self, name: &str) -> (r: bool)
        ensures
            r == self.spec_names().contains(name@),
    {
        let mut i: usize = 0;
        while i < self.entries.len()
            invariant
                i <= self.entries.len(),
                forall|j: int| 0 <= j < i ==> self.spec_names()[j] != name@,
            decreases self.entries.len() - i,
        {
            assert(self.spec_names()[i as int] == self.entries@[i as int].name@);
            if str_eq(self.entries[i].name.as_str(), name) {
                return true;
            }
            i = i + 1;
        }
        false
    }

    /// The names in use.
    pub fn names(&self) -> (r: Vec<String>)
        ensures
            texts(r@) == self.spec_names(),
    {
        let mut out: Vec<String> = Vec::new();
        let mut i: usize = 0;
        while i < self.entries.len()
            invariant
                i <= self.entries.len(),
                texts(out@) =~= self.spec_names().take(i as int),
            decreases self.entries.len() - i,
        {
            let name = self.entries[i].name.clone();
            proof {
                lemma_texts_push(out@, name);
                assert(self.spec_names()[i as int] == name@);
            }
            out.push(name);
            i = i + 1;
        }
        assert(self.spec_names().take(self.entries@.len() as int) =~= self.spec_names());
        out
    }

    /// Gives a set of options a name. Nothing changes, and the answer is `false`, where
    /// the set has a name already or the name is in use.
    pub fn insert(&mut self, options: Options, name: String) -> (r: bool)
        ensures
            final(self).wf(),
            r == (old(self).spec_name_of(options@) is None && !old(self).spec_names().contains(
                name@,
            )),
            r ==> final(self)@ == old(self)@.push((options@, name@)),
            !r ==> final(self)@ == old(self)@,
    {
        proof {
            use_type_invariant(&*self);
        }
        let known = self.get(&options).is_some();
        let taken = self.is_taken(name.as_str());
        if known || taken {
            return false;
        }
        let ghost before = self@;
        let ghost pair = (options@, name@);
        let mut table = OptionNames { entries: Vec::new() };
        assert(table@ =~= Seq::<NamePair>::empty());
        core::mem::swap(self, &mut table);
        let mut entries = table.entries;
        entries.push(NamedOptions { options, name });
        proof {
            let now = pairs_of(entries@);
            assert(now =~= before.push(pair));
            lemma_first_name(before, pair.0);
            assert forall|i: int, j: int|
                0 <= i < now.len() && 0 <= j < now.len() && i != j implies (#[trigger] now[i]).0 != (
            #[trigger] now[j]).0 && now[i].1 != now[j].1 by {
                if i < before.len() && j < before.len() {
                    assert(now[i] == before[i] && now[j] == before[j]);
                } else if i < before.len() {
                    assert(now[i] == before[i]);
                    assert(spec_entry_names(before)[i] == before[i].1);
                } else {
                    assert(now[j] == before[j]);
                    assert(spec_entry_names(before)[j] == before[j].1);
                }
            }
        }
        *self = OptionNames { entries };
        true
    }

    /// The table is one to one, whatever it holds.
    pub fn well_formed(&self)
        ensures
            self.wf(),
    {
        proof {
            use_type_invariant(self);
        }
    }
}

/// Two sets of options that have names in a one-to-one list have the same name exactly
/// where they are the same set.
pub proof fn lemma_pairs_tell_options_apart(
    pairs: Seq<NamePair>,
    a: Map<Seq<char>, Option<Seq<char>>>,
    b: Map<Seq<char>, Option<Seq<char>>>,
)
    requires
        one_to_one(pairs),
        spec_first_name(pairs, a) is Some,
        spec_first_name(pairs, b) is Some,
    ensures
        (a == b) <==> (spec_first_name(pairs, a) == spec_first_name(pairs, b)),
{
    lemma_first_name(pairs, a);
    lemma_first_name(pairs, b);
}

/// Two sets of options that have names in a table have the same name exactly where they
/// are the same set.
pub proof fn lemma_names_tell_options_apart(
    table: OptionNames,
    a: Map<Seq<char>, Option<Seq<char>>>,
    b: Map<Seq<char>, Option<Seq<char>>>,
)
    requires
        table.wf(),
        table.spec_name_of(a) is Some,
        table.spec_name_of(b) is Some,
    ensures
        (a == b) <==> (table.spec_name_of(a) == table.spec_name_of(b)),
{
    lemma_first_name(table@, a);
    lemma_first_name(table@, b);
}

/// A name given once stays: whatever is named later, a set that had a name keeps it.
pub proof fn lemma_first_name_stays(
    entries: Seq<NamePair>,
    more: NamePair,
    options: Map<Seq<char>, Option<Seq<char>>>,
)
    ensures
        spec_first_name(entries, options) is Some ==> spec_first_name(entries.push(more), options)
            == spec_first_name(entries, options),
        spec_first_name(entries, options) is None ==> spec_first_name(entries.push(more), options)
            == (if more.0 == options {
            Some(more.1)
        } else {
            None
        }),
    decreases entries.len(),
{
    if entries.len() == 0 {
        assert(entries.push(more)[0] == more);
        assert(entries.push(more).skip(1) =~= Seq::<NamePair>::empty());
        assert(spec_first_name(Seq::<NamePair>::empty(), options) is None);
    } else {
        assert(entries.push(more)[0] == entries[0]);
        assert(entries.push(more).skip(1) =~= entries.skip(1).push(more));
        lemma_first_name_stays(entries.skip(1), more, options);
    }
}

} // verus!
