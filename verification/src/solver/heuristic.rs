//! The factors of the heuristic score of a component for a block, and the
//! reasons reported with it. The score is a real number weighed from these
//! factors by the caller.

use vstd::prelude::*;

use crate::component::{
    count_present, has_peripheral, lemma_count_present_bound, peripheral_count, ComponentCategory,
    ComponentEntry,
};
use crate::hw::{BlockKind, FunctionalBlock};
use crate::solver::dma_served;
use crate::text::{decimal, push_decimal, strings_view};

verus! {

/// Whether the component's category suits the block kind; kinds without a
/// preferred category accept any.
pub open spec fn heuristic_category_fits(cat: ComponentCategory, kind: BlockKind) -> bool {
    match kind {
        BlockKind::Gpu | BlockKind::Dma | BlockKind::Audio | BlockKind::Spi | BlockKind::I2c
        | BlockKind::Uart | BlockKind::Usb | BlockKind::Timer
        | BlockKind::InterruptController => cat == ComponentCategory::Mcu,
        BlockKind::Ethernet => cat == ComponentCategory::Connectivity,
        BlockKind::MemoryController => cat == ComponentCategory::Memory,
        BlockKind::Unknown => true,
    }
}

/// The peripherals a block kind needs, for the heuristic score.
pub open spec fn heuristic_required(kind: BlockKind) -> Seq<Seq<char>> {
    match kind {
        BlockKind::Gpu => seq!["spi"@, "dma"@],
        BlockKind::Audio => seq!["i2c"@],
        BlockKind::Dma => seq!["dma"@],
        BlockKind::Usb => seq!["usb"@],
        BlockKind::Ethernet => seq!["spi"@],
        BlockKind::Spi => seq!["spi"@],
        BlockKind::I2c => seq!["i2c"@],
        BlockKind::Uart => seq!["uart"@],
        _ => seq![],
    }
}

/// The factors of the heuristic score.
#[derive(Debug, Clone, Copy, PartialEq, Eq, Structural)]
pub struct HeuristicFactors {
    /// The category suits the block kind (worth 0.3).
    pub category_match: bool,
    /// How many required peripherals the component has.
    pub found: u32,
    /// How many peripherals the block kind requires (`found / required` is worth 0.3).
    pub required: usize,
    /// DMA is required and present (worth 0.2).
    pub dma: bool,
    /// A GPU or DMA block on a component with at least 16 pins (worth 0.1).
    pub gpio: bool,
    /// The CPU clock when above 100 MHz (worth 0.1).
    pub fast_cpu_mhz: Option<u32>,
}

/// The factors of the heuristic score of `comp` for `block`.
pub open spec fn factors_of(comp: ComponentEntry, block: FunctionalBlock) -> HeuristicFactors {
    HeuristicFactors {
        category_match: heuristic_category_fits(comp.category, block.kind),
        found: count_present(comp.peripherals@, heuristic_required(block.kind)) as u32,
        required: heuristic_required(block.kind).len() as usize,
        dma: dma_served(comp, block),
        gpio: (block.kind == BlockKind::Gpu || block.kind == BlockKind::Dma) && match comp.pin_count {
            Some(n) => n >= 16,
            None => false,
        },
        fast_cpu_mhz: match comp.cpu {
            Some(c) => if c.max_mhz > 100 {
                Some(c.max_mhz)
            } else {
                None
            },
            None => None,
        },
    }
}

/// The reasons reported with a heuristic score, in order. A matching category
/// is reported with the words `category mismatch → -0.3`.
pub open spec fn reasons_of(f: HeuristicFactors) -> Seq<Seq<char>> {
    let r1: Seq<Seq<char>> = if f.category_match {
        seq!["category mismatch → -0.3"@]
    } else {
        seq![]
    };
    let r2: Seq<Seq<char>> = if f.required > 0 && f.found > 0 {
        seq!["peripherals: "@ + decimal(f.found as nat) + "/"@ + decimal(f.required as nat)]
    } else {
        seq![]
    };
    let r3: Seq<Seq<char>> = if f.dma {
        seq!["has dma"@]
    } else {
        seq![]
    };
    let r4: Seq<Seq<char>> = if f.gpio {
        seq!["gpio≥16"@]
    } else {
        seq![]
    };
    let r5: Seq<Seq<char>> = match f.fast_cpu_mhz {
        Some(m) => seq!["cpu@"@ + decimal(m as nat) + "MHz"@],
        None => seq![],
    };
    r1 + r2 + r3 + r4 + r5
}

/// The found peripherals never exceed the required ones, of which there are
/// at most two.
pub proof fn law_heuristic_peripheral_ratio(comp: ComponentEntry, block: FunctionalBlock)
    ensures
        factors_of(comp, block).found <= factors_of(comp, block).required,
        factors_of(comp, block).required <= 2,
{
    lemma_count_present_bound(comp.peripherals@, heuristic_required(block.kind));
}

/// What each heuristic factor means: the category suits when the component
/// is a connectivity part for Ethernet, memory for a memory controller, an
/// MCU for the other known kinds, and anything for an unknown kind; GPU blocks
/// require SPI and DMA, audio and I2C blocks I2C, DMA blocks DMA, USB blocks
/// USB, Ethernet and SPI blocks SPI, UART blocks a UART, the others nothing,
/// and `found` counts the required ones listed; DMA counts when the block
/// requires it and the component has some; the GPIO factor holds only for GPU
/// and DMA blocks on a component listing at least 16 pins; the CPU clock
/// counts above 100 MHz.
pub proof fn law_heuristic_factors_meaning(comp: ComponentEntry, block: FunctionalBlock)
    ensures
        factors_of(comp, block).category_match == match block.kind {
            BlockKind::Ethernet => comp.category == ComponentCategory::Connectivity,
            BlockKind::MemoryController => comp.category == ComponentCategory::Memory,
            BlockKind::Unknown => true,
            _ => comp.category == ComponentCategory::Mcu,
        },
        factors_of(comp, block).required == match block.kind {
            BlockKind::Gpu => 2usize,
            BlockKind::Audio | BlockKind::Dma | BlockKind::Usb | BlockKind::Ethernet | BlockKind::Spi
            | BlockKind::I2c | BlockKind::Uart => 1usize,
            _ => 0usize,
        },
        factors_of(comp, block).found as int == match block.kind {
            BlockKind::Gpu => (if has_peripheral(comp.peripherals@, "spi"@) {
                1int
            } else {
                0int
            }) + (if has_peripheral(comp.peripherals@, "dma"@) {
                1int
            } else {
                0int
            }),
            BlockKind::Audio | BlockKind::I2c => if has_peripheral(comp.peripherals@, "i2c"@) {
                1int
            } else {
                0int
            },
            BlockKind::Dma => if has_peripheral(comp.peripherals@, "dma"@) {
                1int
            } else {
                0int
            },
            BlockKind::Usb => if has_peripheral(comp.peripherals@, "usb"@) {
                1int
            } else {
                0int
            },
            BlockKind::Ethernet | BlockKind::Spi => if has_peripheral(comp.peripherals@, "spi"@) {
                1int
            } else {
                0int
            },
            BlockKind::Uart => if has_peripheral(comp.peripherals@, "uart"@) {
                1int
            } else {
                0int
            },
            _ => 0int,
        },
        factors_of(comp, block).dma == (block.dma matches Some(d) && d.required && peripheral_count(
            comp.peripherals@,
            "dma"@,
        ) > 0),
        factors_of(comp, block).gpio == ((block.kind == BlockKind::Gpu || block.kind
            == BlockKind::Dma) && (comp.pin_count matches Some(n) && n >= 16)),
        factors_of(comp, block).fast_cpu_mhz == (if comp.cpu matches Some(c) && c.max_mhz > 100 {
            Some(comp.cpu->0.max_mhz)
        } else {
            None
        }),
{
    let ps = comp.peripherals@;
    assert(seq!["spi"@, "dma"@].drop_last() =~= seq!["spi"@]);
    assert(seq!["spi"@].drop_last() =~= Seq::<Seq<char>>::empty());
    assert(seq!["i2c"@].drop_last() =~= Seq::<Seq<char>>::empty());
    assert(seq!["dma"@].drop_last() =~= Seq::<Seq<char>>::empty());
    assert(seq!["usb"@].drop_last() =~= Seq::<Seq<char>>::empty());
    assert(seq!["uart"@].drop_last() =~= Seq::<Seq<char>>::empty());
    lemma_count_present_bound(ps, heuristic_required(block.kind));
    reveal_with_fuel(count_present, 3);
    assert(count_present(ps, seq!["spi"@, "dma"@]) == count_present(ps, seq!["spi"@]) + (if has_peripheral(ps, "dma"@) {
        1nat
    } else {
        0nat
    }));
}

/// The fixed reasons are given exactly when their factor holds: the category
/// reason (worded `category mismatch → -0.3`) for a suiting category,
/// `has dma` for served DMA and `gpio≥16` for the GPIO factor; the clock is
/// reported as `cpu@<MHz>MHz`, and found peripherals as
/// `peripherals: <found>/<required>`.
pub proof fn law_heuristic_reasons(f: HeuristicFactors)
    ensures
        reasons_of(f).contains("category mismatch → -0.3"@) <==> f.category_match,
        reasons_of(f).contains("has dma"@) <==> f.dma,
        reasons_of(f).contains("gpio≥16"@) <==> f.gpio,
        f.fast_cpu_mhz matches Some(m) ==> reasons_of(f).contains("cpu@"@ + decimal(m as nat)
            + "MHz"@),
        f.required > 0 && f.found > 0 ==> reasons_of(f).contains(
            "peripherals: "@ + decimal(f.found as nat) + "/"@ + decimal(f.required as nat),
        ),
{
    reveal_strlit("category mismatch → -0.3");
    reveal_strlit("has dma");
    reveal_strlit("gpio≥16");
    reveal_strlit("cpu@");
    reveal_strlit("peripherals: ");
    let r = reasons_of(f);
    let cat = "category mismatch → -0.3"@;
    let hd = "has dma"@;
    let gp = "gpio≥16"@;
    let periph = "peripherals: "@ + decimal(f.found as nat) + "/"@ + decimal(f.required as nat);
    assert(periph[0] == 'p');
    let cpu = match f.fast_cpu_mhz {
        Some(m) => "cpu@"@ + decimal(m as nat) + "MHz"@,
        None => seq![],
    };
    if f.fast_cpu_mhz is Some {
        assert(cpu[0] == 'c' && cpu[1] == 'p');
    }
    assert(cat[1] == 'a' && hd[0] == 'h' && gp[0] == 'g');
    if r.contains(cat) {
        let i = choose|i: int| 0 <= i < r.len() && r[i] == cat;
        assert(r[i][0] == 'c');
    }
    if r.contains(hd) {
        let i = choose|i: int| 0 <= i < r.len() && r[i] == hd;
        assert(r[i][0] == 'h');
    }
    if r.contains(gp) {
        let i = choose|i: int| 0 <= i < r.len() && r[i] == gp;
        assert(r[i][0] == 'g');
    }
    if f.category_match {
        assert(r[0] == cat);
    }
    let r1: Seq<Seq<char>> = if f.category_match { seq![cat] } else { seq![] };
    let r2: Seq<Seq<char>> = if f.required > 0 && f.found > 0 { seq![periph] } else { seq![] };
    let r3: Seq<Seq<char>> = if f.dma { seq![hd] } else { seq![] };
    let r4: Seq<Seq<char>> = if f.gpio { seq![gp] } else { seq![] };
    if f.required > 0 && f.found > 0 {
        assert(r[r1.len() as int] == periph);
    }
    if f.dma {
        assert(r[(r1.len() + r2.len()) as int] == hd);
    }
    if f.gpio {
        assert(r[(r1.len() + r2.len() + r3.len()) as int] == gp);
    }
    if f.fast_cpu_mhz is Some {
        assert(r[(r1.len() + r2.len() + r3.len() + r4.len()) as int] == cpu);
    }
}

/// The peripherals a block kind needs, for the heuristic score.
pub fn required_peripherals(kind: &BlockKind) -> (v: Vec<String>)
    ensures
        strings_view(v@) == heuristic_required(*kind),
{
    let mut v: Vec<String> = Vec::new();
    match kind {
        BlockKind::Gpu => {
            v.push(String::from_str("spi"));
            v.push(String::from_str("dma"));
        },
        BlockKind::Audio => v.push(String::from_str("i2c")),
        BlockKind::Dma => v.push(String::from_str("dma")),
        BlockKind::Usb => v.push(String::from_str("usb")),
        BlockKind::Ethernet => v.push(String::from_str("spi")),
        BlockKind::Spi => v.push(String::from_str("spi")),
        BlockKind::I2c => v.push(String::from_str("i2c")),
        BlockKind::Uart => v.push(String::from_str("uart")),
        _ => {},
    }
    assert(strings_view(v@) =~= heuristic_required(*kind));
    v
}

/// The factors of the heuristic score of `comp` for `block`.
pub fn score_factors(comp: &ComponentEntry, block: &FunctionalBlock) -> (f: HeuristicFactors)
    ensures
        f == factors_of(*comp, *block),
{
    let category_match = match block.kind {
        BlockKind::Gpu | BlockKind::Dma | BlockKind::Audio | BlockKind::Spi | BlockKind::I2c
        | BlockKind::Uart | BlockKind::Usb | BlockKind::Timer
        | BlockKind::InterruptController => comp.category == ComponentCategory::Mcu,
        BlockKind::Ethernet => comp.category == ComponentCategory::Connectivity,
        BlockKind::MemoryController => comp.category == ComponentCategory::Memory,
        BlockKind::Unknown => true,
    };
    let required = required_peripherals(&block.kind);
    let mut found: u32 = 0;
    let mut i: usize = 0;
    while i < required.len()
        invariant
            i <= required@.len(),
            required@.len() <= 2,
            strings_view(required@) == heuristic_required(block.kind),
            found == count_present(comp.peripherals@, strings_view(required@).take(i as int)),
            found <= i,
        decreases required@.len() - i,
    {
        assert(strings_view(required@).take(i as int + 1).drop_last() =~= strings_view(
            required@,
        ).take(i as int));
        if comp.has_peripheral(required[i].as_str()) {
            found = found + 1;
        }
        i = i + 1;
    }
    assert(strings_view(required@).take(i as int) =~= strings_view(required@));
    let dma = match &block.dma {
        Some(d) => d.required && comp.peripheral_count("dma") > 0,
        None => false,
    };
    let gpio = match block.kind {
        BlockKind::Gpu | BlockKind::Dma => match comp.pin_count {
            Some(n) => n >= 16,
            None => false,
        },
        _ => false,
    };
    let fast_cpu_mhz = match &comp.cpu {
        Some(c) => if c.max_mhz > 100 {
            Some(c.max_mhz)
        } else {
            None
        },
        None => None,
    };
    HeuristicFactors {
        category_match,
        found,
        required: required.len(),
        dma,
        gpio,
        fast_cpu_mhz,
    }
}

/// The reasons reported with a heuristic score.
pub fn score_reasons(f: &HeuristicFactors) -> (v: Vec<String>)
    ensures
        strings_view(v@) == reasons_of(*f),
{
    let mut v: Vec<String> = Vec::new();
    if f.category_match {
        v.push(String::from_str("category mismatch → -0.3"));
    }
    if f.required > 0 && f.found > 0 {
        let mut s = String::from_str("peripherals: ");
        push_decimal(&mut s, f.found as u64);
        s.append("/");
        push_decimal(&mut s, f.required as u64);
        v.push(s);
    }
    if f.dma {
        v.push(String::from_str("has dma"));
    }
    if f.gpio {
        v.push(String::from_str("gpio≥16"));
    }
    match f.fast_cpu_mhz {
        Some(m) => {
            let mut s = String::from_str("cpu@");
            push_decimal(&mut s, m as u64);
            s.append("MHz");
            v.push(s);
        },
        None => {},
    }
    assert(strings_view(v@) =~= reasons_of(*f));
    v
}

} // verus!
