//! The evidence counts behind the tension Ψ between an evidence database and
//! a hardware specification. Ψ itself, its divergences and weights are real
//! numbers computed from these counts by the caller.

use vstd::prelude::*;

use crate::evidence::{mmio_address, EvidenceDb, EvidenceEntry, EvidenceType};
use crate::hw::{is_writable, AccessType, FunctionalBlock, Register};

verus! {

/// Calculator of the tension Ψ.
pub struct TensionMetric;

/// What the evidence shows of one block.
#[derive(Debug, Clone, Copy, PartialEq, Eq, Structural)]
pub struct BlockEvidence {
    /// Memory-mapped observations inside the block's address range.
    pub relevant: usize,
    /// Of those, the writes.
    pub writes: usize,
    /// Of those, the reads.
    pub reads: usize,
    /// Registers of the block whose address was observed.
    pub covered_registers: usize,
    /// Registers of the block that software may write.
    pub writable_registers: usize,
    /// Registers of the block.
    pub registers: usize,
}

/// Whether `a` lies in the block's address range.
pub open spec fn in_block(b: FunctionalBlock, a: u64) -> bool {
    b.base_address <= a < b.base_address + b.size
}

/// Whether an observation is a memory-mapped access inside the block.
pub open spec fn is_relevant(b: FunctionalBlock, t: EvidenceType) -> bool {
    mmio_address(t) matches Some(a) && in_block(b, a)
}

/// The number of observations inside the block for which `pick` holds.
pub open spec fn count_in_block(
    es: Seq<EvidenceEntry>,
    b: FunctionalBlock,
    pick: spec_fn(EvidenceType) -> bool,
) -> nat
    decreases es.len(),
{
    if es.len() == 0 {
        0
    } else {
        count_in_block(es.drop_last(), b, pick) + if is_relevant(b, es.last().evidence_type) && pick(
            es.last().evidence_type,
        ) {
            1nat
        } else {
            0nat
        }
    }
}

/// Whether the evidence observed address `a` inside the block.
pub open spec fn observed_in_block(es: Seq<EvidenceEntry>, b: FunctionalBlock, a: int) -> bool {
    exists|i: int|
        0 <= i < es.len() && (mmio_address((#[trigger] es[i]).evidence_type) matches Some(x) && x
            == a && in_block(b, x))
}

/// The number of registers whose address the evidence observed inside the block.
pub open spec fn count_covered(regs: Seq<Register>, es: Seq<EvidenceEntry>, b: FunctionalBlock) -> nat
    decreases regs.len(),
{
    if regs.len() == 0 {
        0
    } else {
        count_covered(regs.drop_last(), es, b) + if observed_in_block(
            es,
            b,
            b.base_address + regs.last().offset,
        ) {
            1nat
        } else {
            0nat
        }
    }
}

/// The number of writable registers.
pub open spec fn count_writable(regs: Seq<Register>) -> nat
    decreases regs.len(),
{
    if regs.len() == 0 {
        0
    } else {
        count_writable(regs.drop_last()) + if is_writable(regs.last()) {
            1nat
        } else {
            0nat
        }
    }
}

/// Picks every observation, whatever its kind; `count_in_block` alone keeps
/// it to accesses inside the block.
pub open spec fn any_kind(t: EvidenceType) -> bool {
    true
}

/// Whether an observation is a write.
pub open spec fn is_write(t: EvidenceType) -> bool {
    t is MmioWrite
}

/// Whether an observation is a read.
pub open spec fn is_read(t: EvidenceType) -> bool {
    t is MmioRead
}

/// The evidence counts of a block.
pub open spec fn block_evidence_of(b: FunctionalBlock, es: Seq<EvidenceEntry>) -> BlockEvidence {
    BlockEvidence {
        relevant: count_in_block(es, b, |t: EvidenceType| any_kind(t)) as usize,
        writes: count_in_block(es, b, |t: EvidenceType| is_write(t)) as usize,
        reads: count_in_block(es, b, |t: EvidenceType| is_read(t)) as usize,
        covered_registers: count_covered(b.registers@, es, b) as usize,
        writable_registers: count_writable(b.registers@) as usize,
        registers: b.registers@.len() as usize,
    }
}

/// The additions the tension computation makes fit in 64 bits: the end of the
/// block range, tested for every observed address at or above the block's
/// base, and the register addresses, computed when the block has evidence.
pub open spec fn block_addresses_fit(b: FunctionalBlock, es: Seq<EvidenceEntry>) -> bool {
    &&& (exists|i: int|
        0 <= i < es.len() && (mmio_address((#[trigger] es[i]).evidence_type) matches Some(a) && a
            >= b.base_address)) ==> b.base_address + b.size <= u64::MAX
    &&& count_in_block(es, b, |t: EvidenceType| any_kind(t)) > 0 ==> forall|k: int|
        0 <= k < b.registers@.len() ==> b.base_address + (#[trigger] b.registers@[k]).offset
            <= u64::MAX
}

proof fn lemma_count_in_block_bound(
    es: Seq<EvidenceEntry>,
    b: FunctionalBlock,
    pick: spec_fn(EvidenceType) -> bool,
)
    ensures
        count_in_block(es, b, pick) <= es.len(),
    decreases es.len(),
{
    if es.len() > 0 {
        lemma_count_in_block_bound(es.drop_last(), b, pick);
    }
}

proof fn lemma_count_regs_bound(regs: Seq<Register>, es: Seq<EvidenceEntry>, b: FunctionalBlock)
    ensures
        count_covered(regs, es, b) <= regs.len(),
        count_writable(regs) <= regs.len(),
    decreases regs.len(),
{
    if regs.len() > 0 {
        lemma_count_regs_bound(regs.drop_last(), es, b);
    }
}

proof fn lemma_observed_counts(es: Seq<EvidenceEntry>, b: FunctionalBlock, a: int)
    requires
        observed_in_block(es, b, a),
    ensures
        count_in_block(es, b, |t: EvidenceType| any_kind(t)) > 0,
    decreases es.len(),
{
    let i = choose|i: int|
        0 <= i < es.len() && (mmio_address((#[trigger] es[i]).evidence_type) matches Some(x) && x
            == a && in_block(b, x));
    if i < es.len() - 1 {
        assert(es.drop_last()[i] == es[i]);
        lemma_observed_counts(es.drop_last(), b, a);
    }
}

proof fn lemma_split(es: Seq<EvidenceEntry>, b: FunctionalBlock)
    ensures
        count_in_block(es, b, |t: EvidenceType| any_kind(t)) == count_in_block(
            es,
            b,
            |t: EvidenceType| is_write(t),
        ) + count_in_block(es, b, |t: EvidenceType| is_read(t)),
    decreases es.len(),
{
    if es.len() > 0 {
        lemma_split(es.drop_last(), b);
    }
}

/// Every memory-mapped access inside a block is a read or a write, so the
/// relevant accesses split into the two; no count exceeds what it counts
/// from: accesses the evidence, covered and writable registers the registers.
pub proof fn law_block_evidence_consistent(b: FunctionalBlock, es: Seq<EvidenceEntry>)
    requires
        es.len() <= usize::MAX,
        b.registers@.len() <= usize::MAX,
    ensures
        block_evidence_of(b, es).relevant == block_evidence_of(b, es).writes + block_evidence_of(
            b,
            es,
        ).reads,
        block_evidence_of(b, es).relevant <= es.len(),
        block_evidence_of(b, es).covered_registers <= block_evidence_of(b, es).registers,
        block_evidence_of(b, es).writable_registers <= block_evidence_of(b, es).registers,
{
    lemma_split(es, b);
    lemma_count_in_block_bound(es, b, |t: EvidenceType| any_kind(t));
    lemma_count_regs_bound(b.registers@, es, b);
}

proof fn lemma_count_is_filter(
    es: Seq<EvidenceEntry>,
    b: FunctionalBlock,
    pick: spec_fn(EvidenceType) -> bool,
    q: spec_fn(EvidenceEntry) -> bool,
)
    requires
        forall|e: EvidenceEntry| #[trigger] q(e) == (is_relevant(b, e.evidence_type) && pick(e.evidence_type)),
    ensures
        count_in_block(es, b, pick) == es.filter(q).len(),
    decreases es.len(),
{
    reveal_with_fuel(Seq::filter, 1);
    if es.len() > 0 {
        lemma_count_is_filter(es.drop_last(), b, pick, q);
        assert(q(es.last()) == (is_relevant(b, es.last().evidence_type) && pick(es.last().evidence_type)));
    }
}

proof fn lemma_covered_is_filter(
    regs: Seq<Register>,
    es: Seq<EvidenceEntry>,
    b: FunctionalBlock,
    q: spec_fn(Register) -> bool,
)
    requires
        forall|r: Register| #[trigger] q(r) == observed_in_block(es, b, b.base_address + r.offset),
    ensures
        count_covered(regs, es, b) == regs.filter(q).len(),
    decreases regs.len(),
{
    reveal_with_fuel(Seq::filter, 1);
    if regs.len() > 0 {
        lemma_covered_is_filter(regs.drop_last(), es, b, q);
        assert(q(regs.last()) == observed_in_block(es, b, b.base_address + regs.last().offset));
    }
}

proof fn lemma_writable_is_filter(regs: Seq<Register>, q: spec_fn(Register) -> bool)
    requires
        forall|r: Register| #[trigger] q(r) == is_writable(r),
    ensures
        count_writable(regs) == regs.filter(q).len(),
    decreases regs.len(),
{
    reveal_with_fuel(Seq::filter, 1);
    if regs.len() > 0 {
        lemma_writable_is_filter(regs.drop_last(), q);
        assert(q(regs.last()) == is_writable(regs.last()));
    }
}

/// What each count of a block's evidence counts, over all evidence and blocks:
/// - `relevant`: the memory-mapped reads and writes at an address in
///   `[base, base + size)`;
/// - `writes` and `reads`: those of them that are writes, and reads;
/// - `covered_registers`: the registers at whose address `base + offset`
///   some of those accesses, read or write, took place;
/// - `writable_registers`: the registers not read-only;
/// - `registers`: all registers.
pub proof fn law_block_evidence_counts(b: FunctionalBlock, es: Seq<EvidenceEntry>)
    requires
        es.len() <= usize::MAX,
        b.registers@.len() <= usize::MAX,
    ensures
        block_evidence_of(b, es).relevant == es.filter(
            |e: EvidenceEntry|
                match e.evidence_type {
                    EvidenceType::MmioWrite { address, .. } => b.base_address <= address
                        < b.base_address + b.size,
                    EvidenceType::MmioRead { address } => b.base_address <= address < b.base_address
                        + b.size,
                    EvidenceType::Other => false,
                },
        ).len(),
        block_evidence_of(b, es).writes == es.filter(
            |e: EvidenceEntry|
                e.evidence_type matches EvidenceType::MmioWrite { address, .. } && b.base_address
                    <= address < b.base_address + b.size,
        ).len(),
        block_evidence_of(b, es).reads == es.filter(
            |e: EvidenceEntry|
                e.evidence_type matches EvidenceType::MmioRead { address } && b.base_address
                    <= address < b.base_address + b.size,
        ).len(),
        block_evidence_of(b, es).covered_registers == b.registers@.filter(
            |r: Register|
                exists|i: int|
                    0 <= i < es.len() && match (#[trigger] es[i]).evidence_type {
                        EvidenceType::MmioWrite { address, .. } => address == b.base_address
                            + r.offset && address < b.base_address + b.size,
                        EvidenceType::MmioRead { address } => address == b.base_address + r.offset
                            && address < b.base_address + b.size,
                        EvidenceType::Other => false,
                    },
        ).len(),
        block_evidence_of(b, es).writable_registers == b.registers@.filter(
            |r: Register| r.access != AccessType::Read,
        ).len(),
        block_evidence_of(b, es).registers == b.registers@.len(),
{
    let q_rel = |e: EvidenceEntry|
        match e.evidence_type {
            EvidenceType::MmioWrite { address, .. } => b.base_address <= address < b.base_address
                + b.size,
            EvidenceType::MmioRead { address } => b.base_address <= address < b.base_address + b.size,
            EvidenceType::Other => false,
        };
    let q_w = |e: EvidenceEntry|
        e.evidence_type matches EvidenceType::MmioWrite { address, .. } && b.base_address <= address
            < b.base_address + b.size;
    let q_r = |e: EvidenceEntry|
        e.evidence_type matches EvidenceType::MmioRead { address } && b.base_address <= address
            < b.base_address + b.size;
    let q_cov = |r: Register|
        exists|i: int|
            0 <= i < es.len() && match (#[trigger] es[i]).evidence_type {
                EvidenceType::MmioWrite { address, .. } => address == b.base_address + r.offset
                    && address < b.base_address + b.size,
                EvidenceType::MmioRead { address } => address == b.base_address + r.offset && address
                    < b.base_address + b.size,
                EvidenceType::Other => false,
            };
    let q_wr = |r: Register| r.access != AccessType::Read;
    lemma_count_is_filter(es, b, |t: EvidenceType| any_kind(t), q_rel);
    lemma_count_is_filter(es, b, |t: EvidenceType| is_write(t), q_w);
    lemma_count_is_filter(es, b, |t: EvidenceType| is_read(t), q_r);
    assert forall|r: Register| #[trigger] q_cov(r) == observed_in_block(
        es,
        b,
        b.base_address + r.offset,
    ) by {
        if q_cov(r) {
            let i = choose|i: int|
                0 <= i < es.len() && match (#[trigger] es[i]).evidence_type {
                    EvidenceType::MmioWrite { address, .. } => address == b.base_address + r.offset
                        && address < b.base_address + b.size,
                    EvidenceType::MmioRead { address } => address == b.base_address + r.offset
                        && address < b.base_address + b.size,
                    EvidenceType::Other => false,
                };
            assert(mmio_address(es[i].evidence_type) matches Some(x) && x == b.base_address
                + r.offset && in_block(b, x));
        }
        if observed_in_block(es, b, b.base_address + r.offset) {
            let i = choose|i: int|
                0 <= i < es.len() && (mmio_address((#[trigger] es[i]).evidence_type) matches Some(x)
                    && x == b.base_address + r.offset && in_block(b, x));
            assert(q_cov(r)) by {
                assert(match es[i].evidence_type {
                    EvidenceType::MmioWrite { address, .. } => address == b.base_address + r.offset
                        && address < b.base_address + b.size,
                    EvidenceType::MmioRead { address } => address == b.base_address + r.offset
                        && address < b.base_address + b.size,
                    EvidenceType::Other => false,
                });
            }
        }
    }
    lemma_covered_is_filter(b.registers@, es, b, q_cov);
    lemma_writable_is_filter(b.registers@, q_wr);
    lemma_split(es, b);
    lemma_count_in_block_bound(es, b, |t: EvidenceType| any_kind(t));
    lemma_count_regs_bound(b.registers@, es, b);
}

/// Whether the evidence observed `target` inside the block.
fn observed(evidence: &EvidenceDb, block: &FunctionalBlock, target: u64) -> (found: bool)
    ensures
        found == observed_in_block(evidence.entries@, *block, target as int),
{
    let mut i: usize = 0;
    while i < evidence.entries.len()
        invariant
            i <= evidence.entries@.len(),
            forall|k: int|
                0 <= k < i ==> !(mmio_address((#[trigger] evidence.entries@[k]).evidence_type) matches Some(
                    x,
                ) && x == target && in_block(*block, x)),
        decreases evidence.entries@.len() - i,
    {
        let a = match evidence.entries[i].evidence_type {
            EvidenceType::MmioWrite { address, .. } => Some(address),
            EvidenceType::MmioRead { address } => Some(address),
            EvidenceType::Other => None,
        };
        match a {
            Some(x) => {
                if x == target && x >= block.base_address && x - block.base_address < block.size {
                    return true;
                }
            },
            None => {},
        }
        i = i + 1;
    }
    false
}

impl TensionMetric {
    /// What the evidence shows of one block: its relevant accesses, their
    /// reads and writes, and the registers they cover.
    pub fn block_evidence(block: &FunctionalBlock, evidence: &EvidenceDb) -> (c: BlockEvidence)
        requires
            block_addresses_fit(*block, evidence.entries@),
        ensures
            c == block_evidence_of(*block, evidence.entries@),
    {
        let ghost es = evidence.entries@;
        let mut relevant: usize = 0;
        let mut writes: usize = 0;
        let mut reads: usize = 0;
        let mut i: usize = 0;
        while i < evidence.entries.len()
            invariant
                i <= es.len(),
                es == evidence.entries@,
                block_addresses_fit(*block, es),
                relevant == count_in_block(es.take(i as int), *block, |t: EvidenceType| any_kind(t)),
                writes == count_in_block(es.take(i as int), *block, |t: EvidenceType| is_write(t)),
                reads == count_in_block(es.take(i as int), *block, |t: EvidenceType| is_read(t)),
                relevant <= i,
                writes <= i,
                reads <= i,
            decreases es.len() - i,
        {
            proof {
                let p = es.take(i as int + 1);
                assert(p.drop_last() =~= es.take(i as int));
                lemma_count_in_block_bound(es.take(i as int), *block, |t: EvidenceType| any_kind(t));
            }
            let t = evidence.entries[i].evidence_type;
            let (a, w) = match t {
                EvidenceType::MmioWrite { address, .. } => (Some(address), true),
                EvidenceType::MmioRead { address } => (Some(address), false),
                EvidenceType::Other => (None, false),
            };
            match a {
                Some(x) => {
                    if x >= block.base_address {
                        assert(mmio_address(es[i as int].evidence_type) matches Some(y) && y
                            >= block.base_address);
                        if x < block.base_address + block.size {
                            relevant = relevant + 1;
                            if w {
                                writes = writes + 1;
                            } else {
                                reads = reads + 1;
                            }
                        }
                    }
                },
                None => {},
            }
            i = i + 1;
        }
        assert(es.take(i as int) =~= es);
        proof {
            assert forall|a: int| relevant == 0 implies !observed_in_block(es, *block, a) by {
                if observed_in_block(es, *block, a) {
                    lemma_observed_counts(es, *block, a);
                }
            }
        }
        let mut covered: usize = 0;
        let mut writable: usize = 0;
        let mut r: usize = 0;
        while r < block.registers.len()
            invariant
                r <= block.registers@.len(),
                es == evidence.entries@,
                block_addresses_fit(*block, es),
                relevant == count_in_block(es, *block, |t: EvidenceType| any_kind(t)),
                relevant == 0 ==> forall|a: int| !observed_in_block(es, *block, a),
                covered == count_covered(block.registers@.take(r as int), es, *block),
                writable == count_writable(block.registers@.take(r as int)),
                covered <= r,
                writable <= r,
            decreases block.registers@.len() - r,
        {
            assert(block.registers@.take(r as int + 1).drop_last() =~= block.registers@.take(
                r as int,
            ));
            let reg = block.registers[r];
            if relevant > 0 {
                let target = block.base_address + reg.offset as u64;
                if observed(evidence, block, target) {
                    covered = covered + 1;
                }
            }
            match reg.access {
                AccessType::Write | AccessType::ReadWrite => {
                    writable = writable + 1;
                },
                AccessType::Read => {},
            }
            r = r + 1;
        }
        assert(block.registers@.take(r as int) =~= block.registers@);
        BlockEvidence {
            relevant,
            writes,
            reads,
            covered_registers: covered,
            writable_registers: writable,
            registers: block.registers.len(),
        }
    }
}

} // verus!
