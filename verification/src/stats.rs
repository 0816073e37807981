//! The figures of one category of activity: named numbers, each name borne
//! once, kept in the order in which the names were first entered.

use vstd::prelude::*;

verus! {

/// The named figures of one category.
#[derive(Debug)]
pub struct CategoryStats {
    entries: Vec<(String, u64)>,
}

/// Whether no two entries bear the same name.
pub open spec fn names_distinct(entries: Seq<(Seq<char>, nat)>) -> bool {
    forall|i: int, j: int|
        0 <= i < j < entries.len() ==> (#[trigger] entries[i]).0 != (#[trigger] entries[j]).0
}

/// Whether some entry bears the name.
pub open spec fn has_name(entries: Seq<(Seq<char>, nat)>, name: Seq<char>) -> bool {
    exists|i: int| 0 <= i < entries.len() && (#[trigger] entries[i]).0 == name
}

/// The figure of the first entry that bears the name.
pub open spec fn value_of(entries: Seq<(Seq<char>, nat)>, name: Seq<char>) -> Option<nat>
    decreases entries.len(),
{
    if entries.len() == 0 {
        None
    } else if entries[0].0 == name {
        Some(entries[0].1)
    } else {
        value_of(entries.skip(1), name)
    }
}

/// Where every name is borne once, the figure of a name is the figure of the
/// one entry that bears it; a name that no entry bears has no figure.
pub proof fn lemma_value_of(entries: Seq<(Seq<char>, nat)>, name: Seq<char>)
    requires
        names_distinct(entries),
    ensures
        forall|i: int|
            0 <= i < entries.len() && (#[trigger] entries[i]).0 == name ==> value_of(entries, name)
                == Some(entries[i].1),
        !has_name(entries, name) ==> value_of(entries, name) is None,
        value_of(entries, name) is Some <==> has_name(entries, name),
    decreases entries.len(),
{
    if entries.len() > 0 {
        let rest = entries.skip(1);
        lemma_value_of(rest, name);
        assert forall|i: int|
            0 <= i < entries.len() && (#[trigger] entries[i]).0 == name implies value_of(
            entries,
            name,
        ) == Some(entries[i].1) by {
            if i > 0 {
                assert(rest[i - 1].0 == name);
            }
        }
    }
}

/// The entries after `value` is entered under `name`: a name that is borne
/// already keeps its place and takes the new figure, a new name goes to the
/// end.
pub open spec fn with_entry(entries: Seq<(Seq<char>, nat)>, name: Seq<char>, value: nat) -> Seq<
    (Seq<char>, nat),
> {
    if has_name(entries, name) {
        Seq::new(
            entries.len(),
            |i: int|
                if entries[i].0 == name {
                    (name, value)
                } else {
                    entries[i]
                },
        )
    } else {
        entries.push((name, value))
    }
}

/// The sum of all figures.
pub open spec fn total_of(entries: Seq<(Seq<char>, nat)>) -> nat
    decreases entries.len(),
{
    if entries.len() == 0 {
        0
    } else {
        total_of(entries.drop_last()) + entries.last().1
    }
}

/// Entries as mathematics sees them: names as sequences of characters,
/// figures as natural numbers.
pub open spec fn entry_views(entries: Seq<(String, u64)>) -> Seq<(Seq<char>, nat)> {
    Seq::new(entries.len(), |i: int| (entries[i].0@, entries[i].1 as nat))
}

impl View for CategoryStats {
    type V = Seq<(Seq<char>, nat)>;

    closed spec fn view(&self) -> Seq<(Seq<char>, nat)> {
        entry_views(self.entries@)
    }
}

/// Entering a figure keeps every name borne once.
pub proof fn lemma_with_entry_distinct(entries: Seq<(Seq<char>, nat)>, name: Seq<char>, value: nat)
    requires
        names_distinct(entries),
    ensures
        names_distinct(with_entry(entries, name, value)),
        has_name(with_entry(entries, name, value), name),
        with_entry(entries, name, value).len() == if has_name(entries, name) {
            entries.len()
        } else {
            entries.len() + 1
        },
{
    let after = with_entry(entries, name, value);
    if has_name(entries, name) {
        // The name keeps the place that it had.
        let i = choose|i: int| 0 <= i < entries.len() && (#[trigger] entries[i]).0 == name;
        assert(after[i].0 == name);
    } else {
        // The name stands last, and none before it is the same.
        assert(after[entries.len() as int].0 == name);
    }
}

impl CategoryStats {
    #[verifier::type_invariant]
    spec fn names_borne_once(self) -> bool {
        names_distinct(self@)
    }

    /// A category without figures.
    pub fn new() -> (stats: Self)
        ensures
            stats@ == Seq::<(Seq<char>, nat)>::empty(),
    {
        let stats = CategoryStats { entries: Vec::new() };
        stats
    }

    /// The entries, in the order in which their names were first entered.
    pub fn entries(&self) -> (entries: &Vec<(String, u64)>)
        ensures
            entry_views(entries@) == self@,
            names_distinct(self@),
    {
        proof {
            use_type_invariant(self);
        }
        &self.entries
    }

    /// The number of names.
    pub fn len(&self) -> (count: usize)
        ensures
            count == self@.len(),
    {
        self.entries.len()
    }

    /// The sum of all figures.
    pub fn total(&self) -> (sum: u128)
        ensures
            sum == total_of(self@),
    {
        let ghost all = self@;
        let mut sum: u128 = 0;
        let mut i: usize = 0;
        while i < self.entries.len()
            invariant
                i <= self.entries.len(),
                all == entry_views(self.entries@),
                sum == total_of(all.take(i as int)),
                sum <= i * u64::MAX,
            decreases self.entries.len() - i,
        {
            proof {
                assert(all.take(i + 1).drop_last() == all.take(i as int));
            }
            sum = sum + self.entries[i].1 as u128;
            i += 1;
        }
        assert(all.take(i as int) == all);
        sum
    }

    /// The figure entered under `name`, if there is one.
    pub fn get(&self, name: &str) -> (value: Option<u64>)
        ensures
            match value {
                Some(value) => value_of(self@, name@) == Some(value as nat),
                None => value_of(self@, name@) is None,
            },
            value is Some <==> has_name(self@, name@),
    {
        let wanted = String::from_str(name);
        let ghost all = self@;
        let mut i: usize = 0;
        assert(all.skip(0) == all);
        while i < self.entries.len()
            invariant
                i <= self.entries.len(),
                wanted@ == name@,
                all == entry_views(self.entries@),
                value_of(all, name@) == value_of(all.skip(i as int), name@),
                forall|k: int| 0 <= k < i ==> (#[trigger] all[k]).0 != name@,
            decreases self.entries.len() - i,
        {
            if self.entries[i].0 == wanted {
                return Some(self.entries[i].1);
            }
            assert(all.skip(i as int).skip(1) == all.skip(i + 1));
            i += 1;
        }
        None
    }

    /// Enters `value` under `name`, in place of the figure that the name had,
    /// if it had one.
    pub fn insert(&mut self, name: String, value: u64)
        ensures
            final(self)@ == with_entry(old(self)@, name@, value as nat),
    {
        proof {
            use_type_invariant(&*self);
            lemma_with_entry_distinct(self@, name@, value as nat);
        }
        let ghost before = self@;
        let ghost after = with_entry(before, name@, value as nat);
        let mut entries: Vec<(String, u64)> = Vec::new();
        std::mem::swap(&mut entries, &mut self.entries);
        let mut i: usize = 0;
        while i < entries.len()
            invariant
                i <= entries.len(),
                before == old(self)@,
                before == entry_views(entries@),
                after == with_entry(before, name@, value as nat),
                names_distinct(before),
                names_distinct(after),
                forall|k: int| 0 <= k < i ==> (#[trigger] before[k]).0 != name@,
            decreases entries.len() - i,
        {
            if entries[i].0 == name {
                proof {
                    assert(before[i as int].0 == name@);
                }
                entries.set(i, (name, value));
                assert(entry_views(entries@) =~= after);
                self.entries = entries;
                return ;
            }
            i += 1;
        }
        entries.push((name, value));
        assert(entry_views(entries@) =~= after);
        self.entries = entries;
    }
}

} // verus!
