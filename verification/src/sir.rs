//! Static Intermediate Representation (SIR).

use vstd::prelude::*;

verus! {

/// A virtual register.
#[derive(Debug, Clone, Copy, PartialEq, Eq, Hash, Structural)]
pub struct VReg(pub u32);

/// One SIR operation.
#[derive(Debug, Clone, PartialEq, Eq)]
pub enum Op {
    Nop,
    Ret,
    /// `dst := imm` (32-bit for now).
    MovImm { dst: VReg, imm: u32 },
    /// `dst := dst + imm`
    AddImm { dst: VReg, imm: u32 },
    /// Unliftable / unsupported opcode.
    Unknown { offset: u64, bytes: Vec<u8>, note: String },
}

#[derive(Debug, Clone, PartialEq, Eq)]
pub struct BasicBlock {
    pub label: String,
    pub ops: Vec<Op>,
}

#[derive(Debug, Clone, PartialEq, Eq)]
pub struct Function {
    pub name: String,
    pub blocks: Vec<BasicBlock>,
}

#[derive(Debug, Clone, PartialEq, Eq)]
pub struct Module {
    pub name: String,
    pub source_isa: String,
    pub functions: Vec<Function>,
    pub lift_gaps: usize,
}

/// Mathematical model of an [`Op`]: registers by number, bytes and text as sequences.
pub enum OpView {
    Nop,
    Ret,
    MovImm { dst: u32, imm: u32 },
    AddImm { dst: u32, imm: u32 },
    Unknown { offset: u64, bytes: Seq<u8>, note: Seq<char> },
}

/// Model of a [`BasicBlock`].
pub struct BlockView {
    pub label: Seq<char>,
    pub ops: Seq<OpView>,
}

/// Model of a [`Function`].
pub struct FunctionView {
    pub name: Seq<char>,
    pub blocks: Seq<BlockView>,
}

/// Model of a [`Module`].
pub struct ModuleView {
    pub name: Seq<char>,
    pub source_isa: Seq<char>,
    pub functions: Seq<FunctionView>,
    pub lift_gaps: nat,
}

impl View for Op {
    type V = OpView;

    open spec fn view(&self) -> OpView {
        match self {
            Op::Nop => OpView::Nop,
            Op::Ret => OpView::Ret,
            Op::MovImm { dst, imm } => OpView::MovImm { dst: dst.0, imm: *imm },
            Op::AddImm { dst, imm } => OpView::AddImm { dst: dst.0, imm: *imm },
            Op::Unknown { offset, bytes, note } => OpView::Unknown {
                offset: *offset,
                bytes: bytes@,
                note: note@,
            },
        }
    }
}

/// The models of a sequence of operations.
pub open spec fn ops_view(ops: Seq<Op>) -> Seq<OpView> {
    ops.map_values(|o: Op| o@)
}

impl View for BasicBlock {
    type V = BlockView;

    open spec fn view(&self) -> BlockView {
        BlockView { label: self.label@, ops: ops_view(self.ops@) }
    }
}

/// The models of a sequence of blocks.
pub open spec fn blocks_view(blocks: Seq<BasicBlock>) -> Seq<BlockView> {
    blocks.map_values(|b: BasicBlock| b@)
}

impl View for Function {
    type V = FunctionView;

    open spec fn view(&self) -> FunctionView {
        FunctionView { name: self.name@, blocks: blocks_view(self.blocks@) }
    }
}

/// The models of a sequence of functions.
pub open spec fn functions_view(fs: Seq<Function>) -> Seq<FunctionView> {
    fs.map_values(|f: Function| f@)
}

impl View for Module {
    type V = ModuleView;

    open spec fn view(&self) -> ModuleView {
        ModuleView {
            name: self.name@,
            source_isa: self.source_isa@,
            functions: functions_view(self.functions@),
            lift_gaps: self.lift_gaps as nat,
        }
    }
}

/// Whether an operation is a lift gap.
pub open spec fn is_gap(op: OpView) -> bool {
    op is Unknown
}

/// Number of gaps among `ops`.
pub open spec fn gaps_in_ops(ops: Seq<OpView>) -> nat
    decreases ops.len(),
{
    if ops.len() == 0 {
        0
    } else {
        gaps_in_ops(ops.drop_last()) + if is_gap(ops.last()) {
            1nat
        } else {
            0nat
        }
    }
}

/// Number of gaps in all blocks of `blocks`.
pub open spec fn gaps_in_blocks(blocks: Seq<BlockView>) -> nat
    decreases blocks.len(),
{
    if blocks.len() == 0 {
        0
    } else {
        gaps_in_blocks(blocks.drop_last()) + gaps_in_ops(blocks.last().ops)
    }
}

/// Number of gaps in all blocks of all functions of `fs`.
pub open spec fn gaps_in_functions(fs: Seq<FunctionView>) -> nat
    decreases fs.len(),
{
    if fs.len() == 0 {
        0
    } else {
        gaps_in_functions(fs.drop_last()) + gaps_in_blocks(fs.last().blocks)
    }
}

/// Number of `Unknown` operations anywhere in a module.
pub open spec fn module_gaps(m: ModuleView) -> nat {
    gaps_in_functions(m.functions)
}

/// The gaps among operations are exactly its `Unknown` operations.
pub proof fn law_gaps_are_unknown_ops(ops: Seq<OpView>)
    ensures
        gaps_in_ops(ops) == ops.filter(|o: OpView| o is Unknown).len(),
    decreases ops.len(),
{
    reveal_with_fuel(Seq::filter, 1);
    if ops.len() > 0 {
        law_gaps_are_unknown_ops(ops.drop_last());
    }
}

/// Gaps of a concatenation add up.
pub proof fn lemma_gaps_in_ops_append(a: Seq<OpView>, b: Seq<OpView>)
    ensures
        gaps_in_ops(a + b) == gaps_in_ops(a) + gaps_in_ops(b),
    decreases b.len(),
{
    if b.len() == 0 {
        assert(a + b =~= a);
    } else {
        lemma_gaps_in_ops_append(a, b.drop_last());
        assert((a + b).drop_last() =~= a + b.drop_last());
    }
}

/// There are never more gaps than operations.
pub proof fn lemma_gaps_in_ops_bound(ops: Seq<OpView>)
    ensures
        gaps_in_ops(ops) <= ops.len(),
    decreases ops.len(),
{
    if ops.len() > 0 {
        lemma_gaps_in_ops_bound(ops.drop_last());
    }
}

impl Module {
    /// Counts the `Unknown` operations in all blocks of all functions.
    pub fn count_gaps(&self) -> (n: usize)
        requires
            module_gaps(self@) <= usize::MAX,
        ensures
            n == module_gaps(self@),
    {
        let mut total: usize = 0;
        let mut fi: usize = 0;
        while fi < self.functions.len()
            invariant
                fi <= self.functions.len(),
                total == gaps_in_functions(functions_view(self.functions@).take(fi as int)),
                gaps_in_functions(functions_view(self.functions@)) <= usize::MAX,
            decreases self.functions.len() - fi,
        {
            let f = &self.functions[fi];
            let ghost fs = functions_view(self.functions@);
            let mut in_f: usize = 0;
            let mut bi: usize = 0;
            proof {
                lemma_gaps_prefix_functions(fs, fi as int + 1);
                assert(fs.take(fi as int + 1).drop_last() =~= fs.take(fi as int));
                assert(fs[fi as int] == f@);
            }
            while bi < f.blocks.len()
                invariant
                    bi <= f.blocks.len(),
                    fs == functions_view(self.functions@),
                    fi < self.functions.len(),
                    f == &self.functions[fi as int],
                    total == gaps_in_functions(fs.take(fi as int)),
                    total + gaps_in_blocks(f@.blocks) <= usize::MAX,
                    in_f == gaps_in_blocks(f@.blocks.take(bi as int)),
                decreases f.blocks.len() - bi,
            {
                let b = &f.blocks[bi];
                let ghost bs = f@.blocks;
                let mut in_b: usize = 0;
                let mut oi: usize = 0;
                proof {
                    lemma_gaps_prefix_blocks(bs, bi as int + 1);
                    assert(bs.take(bi as int + 1).drop_last() =~= bs.take(bi as int));
                    assert(bs[bi as int] == b@);
                }
                while oi < b.ops.len()
                    invariant
                        oi <= b.ops.len(),
                        bs == f@.blocks,
                        bi < f.blocks.len(),
                        b == &f.blocks[bi as int],
                        total + in_f + gaps_in_ops(b@.ops) <= usize::MAX,
                        in_b == gaps_in_ops(b@.ops.take(oi as int)),
                    decreases b.ops.len() - oi,
                {
                    let ghost os = b@.ops;
                    proof {
                        lemma_gaps_prefix_ops(os, oi as int + 1);
                        assert(os.take(oi as int + 1).drop_last() =~= os.take(oi as int));
                    }
                    match &b.ops[oi] {
                        Op::Unknown { .. } => {
                            in_b = in_b + 1;
                        },
                        _ => {},
                    }
                    oi = oi + 1;
                }
                assert(b@.ops.take(oi as int) =~= b@.ops);
                in_f = in_f + in_b;
                bi = bi + 1;
            }
            assert(f@.blocks.take(bi as int) =~= f@.blocks);
            total = total + in_f;
            fi = fi + 1;
        }
        assert(functions_view(self.functions@).take(fi as int) =~= functions_view(
            self.functions@,
        ));
        total
    }
}

/// Gaps in a prefix of the operations never exceed gaps in the whole.
pub proof fn lemma_gaps_prefix_ops(ops: Seq<OpView>, k: int)
    requires
        0 <= k <= ops.len(),
    ensures
        gaps_in_ops(ops.take(k)) <= gaps_in_ops(ops),
    decreases ops.len() - k,
{
    if k < ops.len() {
        lemma_gaps_prefix_ops(ops, k + 1);
        assert(ops.take(k + 1).drop_last() =~= ops.take(k));
    } else {
        assert(ops.take(k) =~= ops);
    }
}

/// Gaps in a prefix of the blocks never exceed gaps in the whole.
pub proof fn lemma_gaps_prefix_blocks(bs: Seq<BlockView>, k: int)
    requires
        0 <= k <= bs.len(),
    ensures
        gaps_in_blocks(bs.take(k)) <= gaps_in_blocks(bs),
    decreases bs.len() - k,
{
    if k < bs.len() {
        lemma_gaps_prefix_blocks(bs, k + 1);
        assert(bs.take(k + 1).drop_last() =~= bs.take(k));
    } else {
        assert(bs.take(k) =~= bs);
    }
}

/// Gaps in a prefix of the functions never exceed gaps in the whole.
pub proof fn lemma_gaps_prefix_functions(fs: Seq<FunctionView>, k: int)
    requires
        0 <= k <= fs.len(),
    ensures
        gaps_in_functions(fs.take(k)) <= gaps_in_functions(fs),
    decreases fs.len() - k,
{
    if k < fs.len() {
        lemma_gaps_prefix_functions(fs, k + 1);
        assert(fs.take(k + 1).drop_last() =~= fs.take(k));
    } else {
        assert(fs.take(k) =~= fs);
    }
}

} // verus!
