//! The component database that the solver chooses parts from: each entry's
//! part number, category, CPU, peripherals and pin count.

use vstd::prelude::*;

use crate::text::string_is;

verus! {

/// The category of a component.
#[derive(Debug, Clone, Copy, PartialEq, Eq, Structural)]
pub enum ComponentCategory {
    Mcu,
    Cpu,
    Memory,
    Connectivity,
    Other,
}

/// A peripheral kind of a component and how many instances it has.
#[derive(Debug)]
pub struct Peripheral {
    pub name: String,
    pub count: u32,
}

/// The CPU of a component.
#[derive(Debug, Clone, Copy, PartialEq, Eq, Structural)]
pub struct CpuFeature {
    pub cores: u32,
    pub max_mhz: u32,
}

/// One component of the database.
#[derive(Debug)]
pub struct ComponentEntry {
    pub part: String,
    pub category: ComponentCategory,
    pub cpu: Option<CpuFeature>,
    /// Peripheral kinds by name; a name is looked up at its first occurrence.
    pub peripherals: Vec<Peripheral>,
    /// How many pins the entry lists, when it lists them.
    pub pin_count: Option<u32>,
}

/// The component database, in insertion order.
#[derive(Debug)]
pub struct ComponentDb {
    entries: Vec<ComponentEntry>,
}

impl View for ComponentDb {
    type V = Seq<ComponentEntry>;

    closed spec fn view(&self) -> Seq<ComponentEntry> {
        self.entries@
    }
}

/// The entries of `s` in category `cat`, in order.
pub open spec fn entries_in_category(s: Seq<ComponentEntry>, cat: ComponentCategory) -> Seq<
    ComponentEntry,
>
    decreases s.len(),
{
    if s.len() == 0 {
        seq![]
    } else {
        let rest = entries_in_category(s.drop_last(), cat);
        if s.last().category == cat {
            rest.push(s.last())
        } else {
            rest
        }
    }
}

/// Whether two entries hold the same values.
pub open spec fn same_entry(a: ComponentEntry, b: ComponentEntry) -> bool {
    &&& a.part == b.part
    &&& a.category == b.category
    &&& a.cpu == b.cpu
    &&& a.peripherals@ == b.peripherals@
    &&& a.pin_count == b.pin_count
}

/// Whether two lists of entries hold the same values, position by position.
pub open spec fn same_entries(a: Seq<ComponentEntry>, b: Seq<ComponentEntry>) -> bool {
    &&& a.len() == b.len()
    &&& forall|i: int| 0 <= i < a.len() ==> same_entry(#[trigger] a[i], b[i])
}

/// The entries of a category are exactly the entries, in order, whose
/// category it is.
pub proof fn law_entries_in_category_filter(s: Seq<ComponentEntry>, cat: ComponentCategory)
    ensures
        entries_in_category(s, cat) == s.filter(|e: ComponentEntry| e.category == cat),
    decreases s.len(),
{
    reveal_with_fuel(Seq::filter, 1);
    if s.len() > 0 {
        law_entries_in_category_filter(s.drop_last(), cat);
    }
}

/// The entries that a list of references points to.
pub open spec fn deref_entries(s: Seq<&ComponentEntry>) -> Seq<ComponentEntry> {
    s.map_values(|r: &ComponentEntry| *r)
}

/// The count of the first peripheral named `name`, or 0 when there is none.
pub open spec fn peripheral_count(ps: Seq<Peripheral>, name: Seq<char>) -> u32
    decreases ps.len(),
{
    if ps.len() == 0 {
        0
    } else if ps[0].name@ == name {
        ps[0].count
    } else {
        peripheral_count(ps.drop_first(), name)
    }
}

/// Whether a peripheral named `name` is listed.
pub open spec fn has_peripheral(ps: Seq<Peripheral>, name: Seq<char>) -> bool {
    exists|i: int| 0 <= i < ps.len() && (#[trigger] ps[i]).name@ == name
}

/// How many of `names` the peripherals list.
pub open spec fn count_present(ps: Seq<Peripheral>, names: Seq<Seq<char>>) -> nat
    decreases names.len(),
{
    if names.len() == 0 {
        0
    } else {
        count_present(ps, names.drop_last()) + if has_peripheral(ps, names.last()) {
            1nat
        } else {
            0nat
        }
    }
}

/// No more of `names` are listed than there are names.
pub proof fn lemma_count_present_bound(ps: Seq<Peripheral>, names: Seq<Seq<char>>)
    ensures
        count_present(ps, names) <= names.len(),
    decreases names.len(),
{
    if names.len() > 0 {
        lemma_count_present_bound(ps, names.drop_last());
    }
}

/// No two peripherals share a name, as keys of a map do not.
pub open spec fn distinct_names(ps: Seq<Peripheral>) -> bool {
    forall|i: int, j: int|
        0 <= i < ps.len() && 0 <= j < ps.len() && i != j ==> (#[trigger] ps[i]).name@ != (
        #[trigger] ps[j]).name@
}

/// With distinct names, the count of a listed name is the count at its position.
pub proof fn lemma_count_at(ps: Seq<Peripheral>, name: Seq<char>, i: int)
    requires
        distinct_names(ps),
        0 <= i < ps.len(),
        ps[i].name@ == name,
    ensures
        peripheral_count(ps, name) == ps[i].count,
    decreases ps.len(),
{
    if i > 0 {
        assert(ps[0].name@ != name);
        let rest = ps.drop_first();
        assert(distinct_names(rest)) by {
            assert forall|p: int, q: int|
                0 <= p < rest.len() && 0 <= q < rest.len() && p != q implies (#[trigger] rest[p]).name@
                != (#[trigger] rest[q]).name@ by {
                assert(rest[p] == ps[p + 1] && rest[q] == ps[q + 1]);
            }
        }
        assert(rest[i - 1] == ps[i]);
        lemma_count_at(rest, name, i - 1);
    }
}

/// The count of a name that is not listed is 0.
pub proof fn lemma_count_absent(ps: Seq<Peripheral>, name: Seq<char>)
    requires
        !has_peripheral(ps, name),
    ensures
        peripheral_count(ps, name) == 0,
    decreases ps.len(),
{
    if ps.len() > 0 {
        assert(ps[0].name@ != name);
        let rest = ps.drop_first();
        assert forall|k: int| 0 <= k < rest.len() implies (#[trigger] rest[k]).name@ != name by {
            assert(rest[k] == ps[k + 1]);
        }
        lemma_count_absent(rest, name);
    }
}

impl Peripheral {
    /// A copy of this peripheral.
    pub fn duplicate(&self) -> (p: Peripheral)
        ensures
            p == *self,
    {
        Peripheral { name: self.name.clone(), count: self.count }
    }
}

impl ComponentEntry {
    /// The entry lists each peripheral name once, as a map would.
    pub open spec fn well_formed(&self) -> bool {
        distinct_names(self.peripherals@)
    }

    /// An entry without peripherals.
    pub fn new(part: &str, category: ComponentCategory, cpu: Option<CpuFeature>, pin_count: Option<
        u32,
    >) -> (e: ComponentEntry)
        ensures
            e.well_formed(),
            e.part@ == part@,
            e.category == category,
            e.cpu == cpu,
            e.peripherals@.len() == 0,
            e.pin_count == pin_count,
    {
        ComponentEntry { part: String::from_str(part), category, cpu, peripherals: Vec::new(), pin_count }
    }

    /// Sets the count of a peripheral, adding the name when it is not listed
    /// and replacing its count when it is.
    pub fn insert_peripheral(&mut self, name: &str, count: u32)
        requires
            old(self).well_formed(),
        ensures
            final(self).well_formed(),
            final(self).part == old(self).part,
            final(self).category == old(self).category,
            final(self).cpu == old(self).cpu,
            final(self).pin_count == old(self).pin_count,
            forall|n: Seq<char>|
                #![trigger has_peripheral(final(self).peripherals@, n)]
                has_peripheral(final(self).peripherals@, n) == (n == name@ || has_peripheral(
                    old(self).peripherals@,
                    n,
                )),
            forall|n: Seq<char>|
                #![trigger peripheral_count(final(self).peripherals@, n)]
                peripheral_count(final(self).peripherals@, n) == if n == name@ {
                    count
                } else {
                    peripheral_count(old(self).peripherals@, n)
                },
    {
        let ghost old_ps = self.peripherals@;
        let mut i: usize = 0;
        while i < self.peripherals.len()
            invariant
                i <= self.peripherals@.len(),
                self.peripherals@ == old_ps,
                forall|k: int| 0 <= k < i ==> (#[trigger] old_ps[k]).name@ != name@,
            ensures
                i <= old_ps.len(),
                self.peripherals@ == old_ps,
                forall|k: int| 0 <= k < i ==> (#[trigger] old_ps[k]).name@ != name@,
                i < old_ps.len() ==> old_ps[i as int].name@ == name@,
            decreases self.peripherals@.len() - i,
        {
            if string_is(&self.peripherals[i].name, name) {
                break;
            }
            i = i + 1;
        }
        let p = Peripheral { name: String::from_str(name), count };
        if i < self.peripherals.len() {
            self.peripherals.set(i, p);
            proof {
                let ps = self.peripherals@;
                assert(distinct_names(ps)) by {
                    assert forall|a: int, b: int|
                        0 <= a < ps.len() && 0 <= b < ps.len() && a != b implies (#[trigger] ps[a]).name@
                        != (#[trigger] ps[b]).name@ by {
                        if a != i as int && b != i as int {
                            assert(ps[a] == old_ps[a] && ps[b] == old_ps[b]);
                        } else if a == i as int {
                            assert(ps[b] == old_ps[b]);
                            assert(old_ps[a].name@ == name@);
                        } else {
                            assert(ps[a] == old_ps[a]);
                            assert(old_ps[b].name@ == name@);
                        }
                    }
                }
                assert forall|n: Seq<char>| #[trigger]
                    has_peripheral(ps, n) == (n == name@ || has_peripheral(old_ps, n)) by {
                    if has_peripheral(old_ps, n) {
                        let k = choose|k: int| 0 <= k < old_ps.len() && (#[trigger] old_ps[k]).name@ == n;
                        if k == i as int {
                            assert(ps[k].name@ == n);
                        } else {
                            assert(ps[k] == old_ps[k]);
                        }
                    }
                    if n == name@ {
                        assert(ps[i as int].name@ == n);
                    }
                    if has_peripheral(ps, n) {
                        let k = choose|k: int| 0 <= k < ps.len() && (#[trigger] ps[k]).name@ == n;
                        if k != i as int {
                            assert(ps[k] == old_ps[k]);
                        }
                    }
                }
                assert forall|n: Seq<char>| #[trigger]
                    peripheral_count(ps, n) == if n == name@ {
                        count
                    } else {
                        peripheral_count(old_ps, n)
                    } by {
                    if n == name@ {
                        lemma_count_at(ps, n, i as int);
                    } else if has_peripheral(old_ps, n) {
                        let k = choose|k: int| 0 <= k < old_ps.len() && (#[trigger] old_ps[k]).name@ == n;
                        assert(k != i as int);
                        assert(ps[k] == old_ps[k]);
                        lemma_count_at(ps, n, k);
                        lemma_count_at(old_ps, n, k);
                    } else {
                        assert(!has_peripheral(ps, n));
                        lemma_count_absent(ps, n);
                        lemma_count_absent(old_ps, n);
                    }
                }
            }
        } else {
            self.peripherals.push(p);
            proof {
                let ps = self.peripherals@;
                let last = old_ps.len() as int;
                assert(distinct_names(ps)) by {
                    assert forall|a: int, b: int|
                        0 <= a < ps.len() && 0 <= b < ps.len() && a != b implies (#[trigger] ps[a]).name@
                        != (#[trigger] ps[b]).name@ by {
                        if a != last && b != last {
                            assert(ps[a] == old_ps[a] && ps[b] == old_ps[b]);
                        } else if a == last {
                            assert(ps[b] == old_ps[b]);
                        } else {
                            assert(ps[a] == old_ps[a]);
                        }
                    }
                }
                assert forall|n: Seq<char>| #[trigger]
                    has_peripheral(ps, n) == (n == name@ || has_peripheral(old_ps, n)) by {
                    if has_peripheral(old_ps, n) {
                        let k = choose|k: int| 0 <= k < old_ps.len() && (#[trigger] old_ps[k]).name@ == n;
                        assert(ps[k] == old_ps[k]);
                    }
                    if n == name@ {
                        assert(ps[last].name@ == n);
                    }
                    if has_peripheral(ps, n) {
                        let k = choose|k: int| 0 <= k < ps.len() && (#[trigger] ps[k]).name@ == n;
                        if k != last {
                            assert(ps[k] == old_ps[k]);
                        }
                    }
                }
                assert forall|n: Seq<char>| #[trigger]
                    peripheral_count(ps, n) == if n == name@ {
                        count
                    } else {
                        peripheral_count(old_ps, n)
                    } by {
                    if n == name@ {
                        lemma_count_at(ps, n, last);
                    } else if has_peripheral(old_ps, n) {
                        let k = choose|k: int| 0 <= k < old_ps.len() && (#[trigger] old_ps[k]).name@ == n;
                        assert(ps[k] == old_ps[k]);
                        lemma_count_at(ps, n, k);
                        lemma_count_at(old_ps, n, k);
                    } else {
                        assert(!has_peripheral(ps, n));
                        lemma_count_absent(ps, n);
                        lemma_count_absent(old_ps, n);
                    }
                }
            }
        }
    }

    /// A copy of this entry.
    pub fn duplicate(&self) -> (e: ComponentEntry)
        ensures
            same_entry(e, *self),
    {
        let mut ps: Vec<Peripheral> = Vec::new();
        let mut i: usize = 0;
        while i < self.peripherals.len()
            invariant
                i <= self.peripherals@.len(),
                ps@ == self.peripherals@.take(i as int),
            decreases self.peripherals@.len() - i,
        {
            ps.push(self.peripherals[i].duplicate());
            assert(ps@ =~= self.peripherals@.take(i as int + 1));
            i = i + 1;
        }
        assert(ps@ =~= self.peripherals@);
        ComponentEntry {
            part: self.part.clone(),
            category: self.category,
            cpu: self.cpu,
            peripherals: ps,
            pin_count: self.pin_count,
        }
    }

    /// Whether a peripheral named `name` is listed.
    pub fn has_peripheral(&self, name: &str) -> (b: bool)
        ensures
            b == has_peripheral(self.peripherals@, name@),
    {
        let mut i: usize = 0;
        while i < self.peripherals.len()
            invariant
                i <= self.peripherals@.len(),
                forall|k: int| 0 <= k < i ==> (#[trigger] self.peripherals@[k]).name@ != name@,
            decreases self.peripherals@.len() - i,
        {
            if string_is(&self.peripherals[i].name, name) {
                return true;
            }
            i = i + 1;
        }
        false
    }

    /// The count of the first peripheral named `name`, or 0.
    pub fn peripheral_count(&self, name: &str) -> (n: u32)
        ensures
            n == peripheral_count(self.peripherals@, name@),
    {
        let mut i: usize = 0;
        assert(self.peripherals@.skip(0) =~= self.peripherals@);
        while i < self.peripherals.len()
            invariant
                i <= self.peripherals@.len(),
                peripheral_count(self.peripherals@, name@) == peripheral_count(
                    self.peripherals@.skip(i as int),
                    name@,
                ),
            decreases self.peripherals@.len() - i,
        {
            assert(self.peripherals@.skip(i as int).drop_first() =~= self.peripherals@.skip(
                i as int + 1,
            ));
            if string_is(&self.peripherals[i].name, name) {
                return self.peripherals[i].count;
            }
            i = i + 1;
        }
        0
    }
}

impl ComponentDb {
    /// An empty database.
    pub fn new() -> (db: ComponentDb)
        ensures
            db@ == Seq::<ComponentEntry>::empty(),
    {
        ComponentDb { entries: Vec::new() }
    }

    /// Adds an entry at the end.
    pub fn add_entry(&mut self, entry: ComponentEntry)
        ensures
            final(self)@ == old(self)@.push(entry),
    {
        self.entries.push(entry);
    }

    /// The entries of one category, in order.
    pub fn by_category(&self, cat: ComponentCategory) -> (v: Vec<&ComponentEntry>)
        ensures
            deref_entries(v@) == entries_in_category(self@, cat),
    {
        let mut v: Vec<&ComponentEntry> = Vec::new();
        let mut i: usize = 0;
        while i < self.entries.len()
            invariant
                i <= self.entries@.len(),
                deref_entries(v@) == entries_in_category(self.entries@.take(i as int), cat),
            decreases self.entries@.len() - i,
        {
            let ghost before = v@;
            assert(self.entries@.take(i as int + 1).drop_last() =~= self.entries@.take(i as int));
            let e = &self.entries[i];
            if e.category == cat {
                v.push(e);
                assert(deref_entries(v@) =~= deref_entries(before).push(*e));
            }
            i = i + 1;
        }
        assert(self.entries@.take(i as int) =~= self.entries@);
        v
    }

    /// The first entry with this part number.
    pub fn by_name(&self, name: &str) -> (r: Option<&ComponentEntry>)
        ensures
            r is None <==> forall|i: int| 0 <= i < self@.len() ==> (#[trigger] self@[i]).part@ != name@,
            r matches Some(e) ==> exists|i: int|
                0 <= i < self@.len() && self@[i] == *e && e.part@ == name@ && forall|j: int|
                    0 <= j < i ==> (#[trigger] self@[j]).part@ != name@,
    {
        let mut i: usize = 0;
        while i < self.entries.len()
            invariant
                i <= self.entries@.len(),
                forall|k: int| 0 <= k < i ==> (#[trigger] self.entries@[k]).part@ != name@,
            decreases self.entries@.len() - i,
        {
            if string_is(&self.entries[i].part, name) {
                return Some(&self.entries[i]);
            }
            i = i + 1;
        }
        None
    }
}

} // verus!
