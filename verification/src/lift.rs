//! Minimal x86-32 static lifter (subset).
//!
//! Supported:
//! - `90` nop
//! - `C3` ret
//! - `B8 iv` mov eax, imm32
//! - `05 iv` add eax, imm32
//!
//! Any other byte, and a `B8`/`05` without its four immediate bytes, becomes
//! an `Unknown` operation (a lift gap) of one byte.

use vstd::prelude::*;

use crate::sir::{
    blocks_view, functions_view, gaps_in_ops, lemma_gaps_in_ops_bound, module_gaps,
    gaps_in_blocks, gaps_in_functions, ops_view, BasicBlock, BlockView, Function,
    FunctionView, Module, ModuleView, Op, OpView, VReg,
};
use crate::text::{hex_byte, push_hex_byte};

verus! {

/// Why a byte stream could not be lifted.
#[derive(Debug, PartialEq, Eq, Structural)]
pub enum LiftError {
    /// The input held no bytes.
    Empty,
}

/// The little-endian `u32` of four bytes (`u32::from_le_bytes`).
pub open spec fn le_u32(b0: u8, b1: u8, b2: u8, b3: u8) -> u32 {
    (b0 as int + 256 * b1 as int + 65536 * b2 as int + 16777216 * b3 as int) as u32
}

/// The immediate that follows the opcode at `i`.
pub open spec fn imm_at(bytes: Seq<u8>, i: int) -> u32 {
    le_u32(bytes[i + 1], bytes[i + 2], bytes[i + 3], bytes[i + 4])
}

/// The note attached to an unsupported opcode: `unsupported opcode 0x{b:02x}`.
pub open spec fn unsupported_note(b: u8) -> Seq<char> {
    "unsupported opcode 0x"@ + hex_byte(b)
}

/// The operation decoded at position `i`, and how many bytes it takes.
pub open spec fn decode_at(bytes: Seq<u8>, i: int) -> (OpView, int) {
    let b = bytes[i];
    if b == 0x90 {
        (OpView::Nop, 1)
    } else if b == 0xC3 {
        (OpView::Ret, 1)
    } else if b == 0xB8 && bytes.len() - i >= 5 {
        (OpView::MovImm { dst: 0, imm: imm_at(bytes, i) }, 5)
    } else if b == 0x05 && bytes.len() - i >= 5 {
        (OpView::AddImm { dst: 0, imm: imm_at(bytes, i) }, 5)
    } else {
        (OpView::Unknown { offset: i as u64, bytes: seq![b], note: unsupported_note(b) }, 1)
    }
}

/// The operations lifted from position `i` to the end of `bytes`.
pub open spec fn lift_ops_from(bytes: Seq<u8>, i: int) -> Seq<OpView>
    decreases bytes.len() - i,
{
    if i < 0 || i >= bytes.len() {
        seq![]
    } else {
        seq![decode_at(bytes, i).0] + lift_ops_from(bytes, i + decode_at(bytes, i).1)
    }
}

/// The operations lifted from a whole byte stream.
pub open spec fn lift_ops(bytes: Seq<u8>) -> Seq<OpView> {
    lift_ops_from(bytes, 0)
}

/// The module that lifting `bytes` under `name` produces: one function named
/// `name` with one block `entry` holding the lifted operations.
pub open spec fn lifted_module(bytes: Seq<u8>, name: Seq<char>) -> ModuleView {
    ModuleView {
        name: name,
        source_isa: "x86_32"@,
        functions: seq![
            FunctionView {
                name: name,
                blocks: seq![BlockView { label: "entry"@, ops: lift_ops(bytes) }],
            },
        ],
        lift_gaps: gaps_in_ops(lift_ops(bytes)),
    }
}

/// Reads the little-endian immediate that follows position `i`.
fn read_imm(bytes: &[u8], i: usize) -> (imm: u32)
    requires
        i + 5 <= bytes@.len(),
        bytes@.len() <= usize::MAX,
    ensures
        imm == imm_at(bytes@, i as int),
{
    let b0 = bytes[i + 1] as u32;
    let b1 = bytes[i + 2] as u32;
    let b2 = bytes[i + 3] as u32;
    let b3 = bytes[i + 4] as u32;
    b0 + 256 * b1 + 65536 * b2 + 16777216 * b3
}

/// Builds the note of an unsupported opcode.
fn note_for(b: u8) -> (s: String)
    ensures
        s@ == unsupported_note(b),
{
    let mut s = String::from_str("unsupported opcode 0x");
    push_hex_byte(&mut s, b);
    s
}

/// Lifts a flat x86-32 instruction stream into one function with one linear block.
pub fn lift_x86_32(bytes: &[u8], name: &str) -> (r: Result<Module, LiftError>)
    ensures
        bytes@.len() == 0 <==> r is Err,
        r matches Err(e) ==> e == LiftError::Empty,
        r matches Ok(m) ==> m@ == lifted_module(bytes@, name@),
{
    if bytes.len() == 0 {
        return Err(LiftError::Empty);
    }
    let eax = VReg(0);
    let mut ops: Vec<Op> = Vec::new();
    let mut i: usize = 0;
    let mut gaps: usize = 0;
    while i < bytes.len()
        invariant
            i <= bytes@.len(),
            eax.0 == 0,
            ops_view(ops@) + lift_ops_from(bytes@, i as int) == lift_ops(bytes@),
            gaps == gaps_in_ops(ops_view(ops@)),
            gaps <= i,
        decreases bytes@.len() - i,
    {
        let ghost old_ops = ops@;
        let ghost rest = lift_ops_from(bytes@, i as int + decode_at(bytes@, i as int).1);
        let b = bytes[i];
        let width: usize;
        if b == 0x90 {
            ops.push(Op::Nop);
            width = 1;
        } else if b == 0xC3 {
            ops.push(Op::Ret);
            width = 1;
        } else if b == 0xB8 && bytes.len() - i >= 5 {
            let imm = read_imm(bytes, i);
            ops.push(Op::MovImm { dst: eax, imm });
            width = 5;
        } else if b == 0x05 && bytes.len() - i >= 5 {
            let imm = read_imm(bytes, i);
            ops.push(Op::AddImm { dst: eax, imm });
            width = 5;
        } else {
            let note = note_for(b);
            let one = vec![b];
            assert(one@ =~= seq![b]);
            ops.push(Op::Unknown { offset: i as u64, bytes: one, note });
            gaps = gaps + 1;
            width = 1;
        }
        proof {
            assert(ops@.drop_last() =~= old_ops);
            assert(ops_view(ops@).drop_last() =~= ops_view(old_ops));
            assert(ops_view(ops@).last() == decode_at(bytes@, i as int).0);
            assert(ops_view(ops@) =~= ops_view(old_ops) + seq![decode_at(bytes@, i as int).0]);
            assert(ops_view(ops@) + rest =~= ops_view(old_ops) + (seq![
                decode_at(bytes@, i as int).0,
            ] + rest));
        }
        i = i + width;
    }
    assert(lift_ops_from(bytes@, i as int) =~= Seq::<OpView>::empty());
    assert(ops_view(ops@) =~= lift_ops(bytes@));
    let block = BasicBlock { label: String::from_str("entry"), ops };
    let function = Function { name: String::from_str(name), blocks: vec![block] };
    let m = Module {
        name: String::from_str(name),
        source_isa: String::from_str("x86_32"),
        functions: vec![function],
        lift_gaps: gaps,
    };
    assert(blocks_view(m.functions@[0].blocks@) =~= seq![
        BlockView { label: "entry"@, ops: lift_ops(bytes@) },
    ]);
    assert(functions_view(m.functions@) =~= lifted_module(bytes@, name@).functions);
    Ok(m)
}

/// How many input bytes an operation of the lifter stands for.
pub open spec fn op_width(op: OpView) -> int {
    match op {
        OpView::MovImm { .. } => 5,
        OpView::AddImm { .. } => 5,
        _ => 1,
    }
}

/// The number of input bytes that a sequence of lifted operations stands for.
pub open spec fn total_width(ops: Seq<OpView>) -> int
    decreases ops.len(),
{
    if ops.len() == 0 {
        0
    } else {
        op_width(ops[0]) + total_width(ops.drop_first())
    }
}

proof fn lemma_lift_from_width(bytes: Seq<u8>, i: int)
    requires
        0 <= i <= bytes.len(),
    ensures
        total_width(lift_ops_from(bytes, i)) == bytes.len() - i,
        lift_ops_from(bytes, i).len() <= bytes.len() - i,
    decreases bytes.len() - i,
{
    if i < bytes.len() {
        let (op, w) = decode_at(bytes, i);
        lemma_lift_from_width(bytes, i + w);
        let rest = lift_ops_from(bytes, i + w);
        assert((seq![op] + rest).drop_first() =~= rest);
    }
}

/// Lifting accounts for every input byte exactly once: the widths of the
/// lifted operations add up to the length of the input, and there are never
/// more operations (hence never more gaps) than input bytes.
pub proof fn law_lift_covers_input(bytes: Seq<u8>)
    ensures
        total_width(lift_ops(bytes)) == bytes.len(),
        gaps_in_ops(lift_ops(bytes)) <= lift_ops(bytes).len(),
        lift_ops(bytes).len() <= bytes.len(),
{
    lemma_lift_from_width(bytes, 0);
    lemma_gaps_in_ops_bound(lift_ops(bytes));
}

/// A gap stands for the byte at its offset, which the lifter could not
/// decode there.
pub open spec fn gap_explained(bytes: Seq<u8>, op: OpView) -> bool {
    op matches OpView::Unknown { offset, bytes: bs, note } ==> {
        let b = bytes[offset as int];
        &&& offset < bytes.len()
        &&& bs == seq![b]
        &&& note == unsupported_note(b)
        &&& b != 0x90 && b != 0xC3
        &&& (b == 0xB8 || b == 0x05) ==> offset + 5 > bytes.len()
    }
}

proof fn lemma_gaps_explained_from(bytes: Seq<u8>, i: int)
    requires
        0 <= i <= bytes.len(),
        bytes.len() <= u64::MAX,
    ensures
        forall|k: int|
            0 <= k < lift_ops_from(bytes, i).len() ==> gap_explained(
                bytes,
                #[trigger] lift_ops_from(bytes, i)[k],
            ),
    decreases bytes.len() - i,
{
    if i < bytes.len() {
        let (op, w) = decode_at(bytes, i);
        lemma_gaps_explained_from(bytes, i + w);
        let rest = lift_ops_from(bytes, i + w);
        assert forall|k: int| 0 <= k < lift_ops_from(bytes, i).len() implies gap_explained(
            bytes,
            #[trigger] lift_ops_from(bytes, i)[k],
        ) by {
            if k > 0 {
                assert(lift_ops_from(bytes, i)[k] == rest[k - 1]);
            }
        }
    }
}

/// Every gap in a lifted stream names the offending byte, at an offset inside
/// the input, with the note `unsupported opcode 0x..`; a gap is never a
/// supported opcode that had its operands.
pub proof fn law_gaps_name_offending_byte(bytes: Seq<u8>)
    requires
        bytes.len() <= u64::MAX,
    ensures
        forall|k: int|
            0 <= k < lift_ops(bytes).len() ==> gap_explained(bytes, #[trigger] lift_ops(bytes)[k]),
{
    lemma_gaps_explained_from(bytes, 0);
}

/// Whether `op` is what the x86-32 subset makes of the bytes at `p`: `90` is
/// nop, `C3` ret, `B8` followed by four bytes `mov eax, imm32`, `05` followed
/// by four bytes `add eax, imm32` (little-endian immediates); every other
/// byte, and a `B8`/`05` cut short, is a gap holding that byte.
pub open spec fn op_read_at(bytes: Seq<u8>, p: int, op: OpView) -> bool {
    &&& 0 <= p < bytes.len()
    &&& match op {
        OpView::Nop => bytes[p] == 0x90,
        OpView::Ret => bytes[p] == 0xC3,
        OpView::MovImm { dst, imm } => {
            &&& bytes[p] == 0xB8
            &&& p + 5 <= bytes.len()
            &&& dst == 0
            &&& imm as int == bytes[p + 1] + 256 * bytes[p + 2] + 65536 * bytes[p + 3] + 16777216
                * bytes[p + 4]
        },
        OpView::AddImm { dst, imm } => {
            &&& bytes[p] == 0x05
            &&& p + 5 <= bytes.len()
            &&& dst == 0
            &&& imm as int == bytes[p + 1] + 256 * bytes[p + 2] + 65536 * bytes[p + 3] + 16777216
                * bytes[p + 4]
        },
        OpView::Unknown { offset, bytes: bs, note } => {
            &&& offset == p
            &&& bs == seq![bytes[p]]
            &&& note == "unsupported opcode 0x"@ + hex_byte(bytes[p])
            &&& bytes[p] != 0x90
            &&& bytes[p] != 0xC3
            &&& !((bytes[p] == 0xB8 || bytes[p] == 0x05) && p + 5 <= bytes.len())
        },
    }
}

/// Where the `k`-th lifted operation starts: after the bytes of those before it.
pub open spec fn op_position(ops: Seq<OpView>, k: int) -> int {
    total_width(ops.take(k))
}

proof fn lemma_ops_read_from(bytes: Seq<u8>, i: int)
    requires
        0 <= i <= bytes.len(),
        bytes.len() <= u64::MAX,
    ensures
        forall|k: int|
            0 <= k < lift_ops_from(bytes, i).len() ==> op_read_at(
                bytes,
                i + op_position(lift_ops_from(bytes, i), k),
                #[trigger] lift_ops_from(bytes, i)[k],
            ),
    decreases bytes.len() - i,
{
    if i < bytes.len() {
        let (op, w) = decode_at(bytes, i);
        lemma_ops_read_from(bytes, i + w);
        let rest = lift_ops_from(bytes, i + w);
        let all = lift_ops_from(bytes, i);
        assert(all == seq![op] + rest);
        assert(op_width(op) == w);
        assert forall|k: int| 0 <= k < all.len() implies op_read_at(
            bytes,
            i + op_position(all, k),
            #[trigger] all[k],
        ) by {
            if k == 0 {
                assert(all.take(0) =~= Seq::<OpView>::empty());
                assert(op_read_at(bytes, i, op));
            } else {
                assert(all[k] == rest[k - 1]);
                assert(all.take(k).drop_first() =~= rest.take(k - 1));
                assert(all.take(k)[0] == op);
                assert(op_position(all, k) == w + op_position(rest, k - 1));
            }
        }
    }
}

/// Every lifted operation is what the x86-32 subset makes of the bytes where
/// it starts, the first at offset 0 and each next one right after the bytes of
/// the one before: only `90` becomes a nop, only `C3` a ret, only a complete
/// `B8 imm32` a mov and only a complete `05 imm32` an add; every other opcode
/// byte becomes a gap naming it.
pub proof fn law_ops_decode_their_bytes(bytes: Seq<u8>)
    requires
        bytes.len() <= u64::MAX,
    ensures
        forall|k: int|
            0 <= k < lift_ops(bytes).len() ==> op_read_at(
                bytes,
                op_position(lift_ops(bytes), k),
                #[trigger] lift_ops(bytes)[k],
            ),
{
    lemma_ops_read_from(bytes, 0);
}

/// The recorded `lift_gaps` of a lifted module equals the number of `Unknown`
/// operations that [`Module::count_gaps`] finds in it.
pub proof fn law_lift_gaps_counted(bytes: Seq<u8>, name: Seq<char>)
    ensures
        module_gaps(lifted_module(bytes, name)) == lifted_module(bytes, name).lift_gaps,
{
    let m = lifted_module(bytes, name);
    assert(m.functions.drop_last() =~= Seq::<FunctionView>::empty());
    assert(m.functions[0].blocks.drop_last() =~= Seq::<BlockView>::empty());
    assert(gaps_in_functions(m.functions.drop_last()) == 0);
    assert(gaps_in_blocks(m.functions[0].blocks.drop_last()) == 0);
    assert(gaps_in_blocks(m.functions[0].blocks) == gaps_in_ops(lift_ops(bytes)));
    assert(gaps_in_functions(m.functions) == gaps_in_blocks(m.functions.last().blocks));
}

} // verus!
