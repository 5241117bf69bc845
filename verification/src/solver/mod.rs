//! Component selection: which database entries can serve a functional block,
//! and the integer terms of a candidate's score. The scores themselves are
//! real numbers combined from these terms by the caller.

use vstd::prelude::*;

use crate::component::{
    count_present, deref_entries, has_peripheral, entries_in_category, lemma_count_present_bound, peripheral_count,
    same_entries, same_entry, ComponentCategory, ComponentDb, ComponentEntry,
};
use crate::hw::{BlockKind, FunctionalBlock};

pub mod heuristic;

verus! {

/// The category searched for candidates of a block kind.
pub open spec fn candidate_category_of(kind: BlockKind) -> ComponentCategory {
    match kind {
        BlockKind::Ethernet => ComponentCategory::Connectivity,
        BlockKind::MemoryController => ComponentCategory::Memory,
        _ => ComponentCategory::Mcu,
    }
}

/// Whether a category is the natural home of a block kind.
pub open spec fn category_fits(cat: ComponentCategory, kind: BlockKind) -> bool {
    match kind {
        BlockKind::Gpu | BlockKind::Dma | BlockKind::Audio | BlockKind::Spi | BlockKind::I2c
        | BlockKind::Uart | BlockKind::Usb | BlockKind::Timer
        | BlockKind::InterruptController => cat == ComponentCategory::Mcu,
        BlockKind::Ethernet => cat == ComponentCategory::Connectivity,
        BlockKind::MemoryController => cat == ComponentCategory::Memory,
        BlockKind::Unknown => false,
    }
}

/// The peripherals a block kind needs, for the solver's score.
pub open spec fn solver_required(kind: BlockKind) -> Seq<Seq<char>> {
    match kind {
        BlockKind::Gpu => seq!["spi"@, "dma"@],
        BlockKind::Audio => seq!["i2c"@],
        BlockKind::Dma => seq!["dma"@],
        BlockKind::Usb => seq!["usb"@],
        BlockKind::Ethernet => seq!["spi"@],
        _ => seq![],
    }
}

/// The text of a list of string slices.
pub open spec fn strs_view(v: Seq<&str>) -> Seq<Seq<char>> {
    v.map_values(|s: &str| s@)
}

/// Whether a block asks for DMA and the component has some.
pub open spec fn dma_served(comp: ComponentEntry, block: FunctionalBlock) -> bool {
    block.dma matches Some(d) && d.required && peripheral_count(comp.peripherals@, "dma"@) > 0
}

/// The integer terms of the solver's score of a candidate.
#[derive(Debug, Clone, Copy, PartialEq, Eq, Structural)]
pub struct ScoreTerms {
    /// The category fits the block kind (worth 0.3).
    pub category_match: bool,
    /// How many required peripherals the candidate has (their ratio is worth 0.3).
    pub found: usize,
    /// How many peripherals the block kind requires.
    pub required: usize,
    /// DMA is required and present (worth 0.2).
    pub dma: bool,
    /// The CPU runs at 100 MHz or more (worth 0.2).
    pub fast_cpu: bool,
}

/// The terms of the solver's score of `comp` for `block`.
pub open spec fn score_terms_of(comp: ComponentEntry, block: FunctionalBlock) -> ScoreTerms {
    ScoreTerms {
        category_match: category_fits(comp.category, block.kind),
        found: count_present(comp.peripherals@, solver_required(block.kind)) as usize,
        required: solver_required(block.kind).len() as usize,
        dma: dma_served(comp, block),
        fast_cpu: comp.cpu matches Some(c) && c.max_mhz >= 100,
    }
}

/// How many terms took part in a score: the divisor of the score.
pub open spec fn factor_count_of(t: ScoreTerms) -> nat {
    (if t.category_match {
        1nat
    } else {
        0nat
    }) + (if t.required > 0 {
        1nat
    } else {
        0nat
    }) + (if t.dma {
        1nat
    } else {
        0nat
    }) + (if t.fast_cpu {
        1nat
    } else {
        0nat
    })
}

/// Candidates are searched in the category that suits the block kind, for
/// every kind that has one; a candidate never has more of the required
/// peripherals than are required.
pub proof fn law_candidates_suit_the_block(comp: ComponentEntry, block: FunctionalBlock)
    ensures
        block.kind != BlockKind::Unknown ==> category_fits(
            candidate_category_of(block.kind),
            block.kind,
        ),
        score_terms_of(comp, block).found <= score_terms_of(comp, block).required,
        factor_count_of(score_terms_of(comp, block)) <= 4,
{
    lemma_count_present_bound(comp.peripherals@, solver_required(block.kind));
}

/// The number of terms that took part in a score is the number of terms that
/// hold, each counted once: the fitting category, a requirement of
/// peripherals, served DMA and a fast CPU.
pub proof fn law_factor_count_counts_true_terms(t: ScoreTerms)
    ensures
        factor_count_of(t) == seq![t.category_match, t.required > 0, t.dma, t.fast_cpu].filter(
            |b: bool| b,
        ).len(),
{
    reveal_with_fuel(Seq::filter, 5);
    let s = seq![t.category_match, t.required > 0, t.dma, t.fast_cpu];
    assert(s.drop_last() =~= seq![t.category_match, t.required > 0, t.dma]);
    assert(s.drop_last().drop_last() =~= seq![t.category_match, t.required > 0]);
    assert(s.drop_last().drop_last().drop_last() =~= seq![t.category_match]);
    assert(s.drop_last().drop_last().drop_last().drop_last() =~= Seq::<bool>::empty());
}

/// What each score term means: the category term holds when the component's
/// category is the one the block kind needs (a connectivity part for
/// Ethernet, memory for a memory controller, an MCU for the other known
/// kinds, none for an unknown kind); GPU blocks require SPI and DMA, audio
/// I2C, DMA blocks DMA, USB blocks USB and Ethernet SPI, the others nothing,
/// and `found` counts the required ones that the component lists; the DMA
/// term holds when the block requires DMA and the component has some; the CPU
/// term holds from 100 MHz on.
pub proof fn law_score_terms_meaning(comp: ComponentEntry, block: FunctionalBlock)
    ensures
        score_terms_of(comp, block).category_match == match block.kind {
            BlockKind::Ethernet => comp.category == ComponentCategory::Connectivity,
            BlockKind::MemoryController => comp.category == ComponentCategory::Memory,
            BlockKind::Unknown => false,
            _ => comp.category == ComponentCategory::Mcu,
        },
        score_terms_of(comp, block).required == match block.kind {
            BlockKind::Gpu => 2usize,
            BlockKind::Audio | BlockKind::Dma | BlockKind::Usb | BlockKind::Ethernet => 1usize,
            _ => 0usize,
        },
        score_terms_of(comp, block).found as int == match block.kind {
            BlockKind::Gpu => (if has_peripheral(comp.peripherals@, "spi"@) {
                1int
            } else {
                0int
            }) + (if has_peripheral(comp.peripherals@, "dma"@) {
                1int
            } else {
                0int
            }),
            BlockKind::Audio => if has_peripheral(comp.peripherals@, "i2c"@) {
                1int
            } else {
                0int
            },
            BlockKind::Dma => if has_peripheral(comp.peripherals@, "dma"@) {
                1int
            } else {
                0int
            },
            BlockKind::Usb => if has_peripheral(comp.peripherals@, "usb"@) {
                1int
            } else {
                0int
            },
            BlockKind::Ethernet => if has_peripheral(comp.peripherals@, "spi"@) {
                1int
            } else {
                0int
            },
            _ => 0int,
        },
        score_terms_of(comp, block).dma == (block.dma matches Some(d) && d.required
            && peripheral_count(comp.peripherals@, "dma"@) > 0),
        score_terms_of(comp, block).fast_cpu == (comp.cpu matches Some(c) && c.max_mhz >= 100),
{
    let ps = comp.peripherals@;
    assert(seq!["spi"@, "dma"@].drop_last() =~= seq!["spi"@]);
    assert(seq!["spi"@].drop_last() =~= Seq::<Seq<char>>::empty());
    assert(seq!["i2c"@].drop_last() =~= Seq::<Seq<char>>::empty());
    assert(seq!["dma"@].drop_last() =~= Seq::<Seq<char>>::empty());
    assert(seq!["usb"@].drop_last() =~= Seq::<Seq<char>>::empty());
    lemma_count_present_bound(ps, solver_required(block.kind));
    reveal_with_fuel(count_present, 3);
    assert(count_present(ps, seq!["spi"@, "dma"@]) == count_present(ps, seq!["spi"@]) + (if has_peripheral(ps, "dma"@) {
        1nat
    } else {
        0nat
    }));
}

/// The category searched for candidates of a block kind.
pub fn candidate_category(kind: BlockKind) -> (c: ComponentCategory)
    ensures
        c == candidate_category_of(kind),
{
    match kind {
        BlockKind::Ethernet => ComponentCategory::Connectivity,
        BlockKind::MemoryController => ComponentCategory::Memory,
        _ => ComponentCategory::Mcu,
    }
}

/// Whether a category is the natural home of a block kind.
pub fn category_matches(cat: &ComponentCategory, kind: &BlockKind) -> (b: bool)
    ensures
        b == category_fits(*cat, *kind),
{
    match kind {
        BlockKind::Gpu | BlockKind::Dma | BlockKind::Audio | BlockKind::Spi | BlockKind::I2c
        | BlockKind::Uart | BlockKind::Usb | BlockKind::Timer
        | BlockKind::InterruptController => *cat == ComponentCategory::Mcu,
        BlockKind::Ethernet => *cat == ComponentCategory::Connectivity,
        BlockKind::MemoryController => *cat == ComponentCategory::Memory,
        BlockKind::Unknown => false,
    }
}

/// The peripherals a block kind needs, for the solver's score.
pub fn required_peripherals(kind: &BlockKind) -> (v: Vec<&'static str>)
    ensures
        strs_view(v@) == solver_required(*kind),
{
    let v: Vec<&'static str> = match kind {
        BlockKind::Gpu => vec!["spi", "dma"],
        BlockKind::Audio => vec!["i2c"],
        BlockKind::Dma => vec!["dma"],
        BlockKind::Usb => vec!["usb"],
        BlockKind::Ethernet => vec!["spi"],
        _ => vec![],
    };
    assert(strs_view(v@) =~= solver_required(*kind));
    v
}

/// Copies of the database entries that can serve a block of this kind, in order.
pub fn get_candidates(db: &ComponentDb, kind: &BlockKind) -> (v: Vec<ComponentEntry>)
    ensures
        same_entries(v@, entries_in_category(db@, candidate_category_of(*kind))),
{
    let refs = db.by_category(candidate_category(*kind));
    let ghost target = entries_in_category(db@, candidate_category_of(*kind));
    let mut v: Vec<ComponentEntry> = Vec::new();
    let mut i: usize = 0;
    while i < refs.len()
        invariant
            i <= refs@.len(),
            deref_entries(refs@) == target,
            v@.len() == i,
            forall|k: int| 0 <= k < i ==> same_entry(#[trigger] v@[k], target[k]),
        decreases refs@.len() - i,
    {
        let e = refs[i].duplicate();
        assert(target[i as int] == *refs@[i as int]);
        v.push(e);
        i = i + 1;
    }
    v
}

/// How many of `names` the entry lists as peripherals.
fn count_present_exec(comp: &ComponentEntry, names: &Vec<&'static str>) -> (n: usize)
    ensures
        n == count_present(comp.peripherals@, strs_view(names@)),
{
    let mut n: usize = 0;
    let mut i: usize = 0;
    while i < names.len()
        invariant
            i <= names@.len(),
            n == count_present(comp.peripherals@, strs_view(names@).take(i as int)),
            n <= i,
        decreases names@.len() - i,
    {
        assert(strs_view(names@).take(i as int + 1).drop_last() =~= strs_view(names@).take(
            i as int,
        ));
        if comp.has_peripheral(names[i]) {
            n = n + 1;
        }
        i = i + 1;
    }
    assert(strs_view(names@).take(i as int) =~= strs_view(names@));
    n
}

/// The integer terms of the solver's score of `comp` for `block`.
pub fn score_terms(comp: &ComponentEntry, block: &FunctionalBlock) -> (t: ScoreTerms)
    ensures
        t == score_terms_of(*comp, *block),
{
    let required = required_peripherals(&block.kind);
    let found = count_present_exec(comp, &required);
    let dma = match &block.dma {
        Some(d) => d.required && comp.peripheral_count("dma") > 0,
        None => false,
    };
    let fast_cpu = match &comp.cpu {
        Some(c) => c.max_mhz >= 100,
        None => false,
    };
    ScoreTerms {
        category_match: category_matches(&comp.category, &block.kind),
        found,
        required: required.len(),
        dma,
        fast_cpu,
    }
}

impl ScoreTerms {
    /// How many terms took part in the score: the divisor of the score.
    pub fn factor_count(&self) -> (n: u32)
        ensures
            n == factor_count_of(*self),
    {
        let mut n: u32 = 0;
        if self.category_match {
            n = n + 1;
        }
        if self.required > 0 {
            n = n + 1;
        }
        if self.dma {
            n = n + 1;
        }
        if self.fast_cpu {
            n = n + 1;
        }
        n
    }
}

} // verus!
