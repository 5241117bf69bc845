use base_kit::honesty::{
    markdown_section, AUTO_FIX_COMPLETE, BANNER, GENERATES_OS, RUNS_ANY_PE, STATIC_RECOMP_COMPLETE,
    WIN32_ABI_COMPLETE,
};
use base_kit::lift::{lift_x86_32, LiftError};
use base_kit::sir::{BasicBlock, Function, Module, Op, VReg};
use base_kit::target::{SuperHFlavor, TargetIsa};

#[test]
fn honesty_flags_stay_false() {
    assert!(!STATIC_RECOMP_COMPLETE);
    assert!(!WIN32_ABI_COMPLETE);
    assert!(!RUNS_ANY_PE);
    assert!(!GENERATES_OS);
}

#[test]
fn lift_nop_ret() {
    let m = lift_x86_32(&[0x90, 0xC3], "f").unwrap();
    assert_eq!(m.lift_gaps, 0);
    assert_eq!(m.functions[0].blocks[0].ops.len(), 2);
}

#[test]
fn lift_mov_add_ret() {
    // mov eax, 1 ; add eax, 2 ; ret
    let bytes = [
        0xB8, 0x01, 0x00, 0x00, 0x00, 0x05, 0x02, 0x00, 0x00, 0x00, 0xC3,
    ];
    let m = lift_x86_32(&bytes, "add1").unwrap();
    assert_eq!(m.lift_gaps, 0);
    assert!(matches!(
        m.functions[0].blocks[0].ops[0],
        Op::MovImm { imm: 1, .. }
    ));
}

#[test]
fn unknown_opcode_is_gap() {
    let m = lift_x86_32(&[0xCC], "int3").unwrap();
    assert_eq!(m.lift_gaps, 1);
    assert_eq!(m.count_gaps(), 1);
}

#[test]
fn amd64_aliases_x86_64() {
    assert_eq!("amd64".parse::<TargetIsa>().unwrap(), TargetIsa::X86_64);
    assert_eq!("x86_64".parse::<TargetIsa>().unwrap(), TargetIsa::X86_64);
}

#[test]
fn superh_flavors() {
    assert_eq!(
        "sh2".parse::<TargetIsa>().unwrap(),
        TargetIsa::SuperH(SuperHFlavor::Sh2)
    );
    assert_eq!(
        "sh4".parse::<TargetIsa>().unwrap(),
        TargetIsa::SuperH(SuperHFlavor::Sh4)
    );
}

#[test]
fn all_canonical_len() {
    assert_eq!(TargetIsa::all_canonical().len(), 8);
}

#[test]
fn markdown_section_lists_every_flag() {
    assert!(!AUTO_FIX_COMPLETE);
    let expected = format!(
        "## Honesty (static recomp)\n\n- {}\n- `generates_os: false` · `auto_fix_complete: false`\n- `static_recomp_complete: false` · `win32_abi_complete: false` · `runs_any_pe: false`\n",
        BANNER
    );
    assert_eq!(markdown_section(), expected);
}

#[test]
fn lift_empty_is_refused() {
    assert_eq!(lift_x86_32(&[], "f").unwrap_err(), LiftError::Empty);
}

#[test]
fn lift_module_shape() {
    let m = lift_x86_32(&[0x90], "entry_fn").unwrap();
    assert_eq!(m.name, "entry_fn");
    assert_eq!(m.source_isa, "x86_32");
    assert_eq!(m.functions.len(), 1);
    assert_eq!(m.functions[0].name, "entry_fn");
    assert_eq!(m.functions[0].blocks.len(), 1);
    assert_eq!(m.functions[0].blocks[0].label, "entry");
    assert_eq!(m.functions[0].blocks[0].ops, vec![Op::Nop]);
}

#[test]
fn lift_reads_little_endian_immediates() {
    let m = lift_x86_32(&[0x05, 0x78, 0x56, 0x34, 0x12, 0xB8, 0xFF, 0xFF, 0xFF, 0xFF], "f").unwrap();
    let ops = &m.functions[0].blocks[0].ops;
    assert_eq!(ops.len(), 2);
    assert_eq!(ops[0], Op::AddImm { dst: VReg(0), imm: 0x1234_5678 });
    assert_eq!(ops[1], Op::MovImm { dst: VReg(0), imm: u32::MAX });
}

#[test]
fn lift_truncated_mov_becomes_gaps() {
    let m = lift_x86_32(&[0x90, 0xB8, 0x01], "f").unwrap();
    let ops = &m.functions[0].blocks[0].ops;
    assert_eq!(ops.len(), 3);
    assert_eq!(m.lift_gaps, 2);
    assert_eq!(m.count_gaps(), 2);
    assert_eq!(
        ops[1],
        Op::Unknown { offset: 1, bytes: vec![0xB8], note: "unsupported opcode 0xb8".to_string() }
    );
    assert_eq!(
        ops[2],
        Op::Unknown { offset: 2, bytes: vec![0x01], note: "unsupported opcode 0x01".to_string() }
    );
}

#[test]
fn lift_gap_count_matches_module_count() {
    let bytes = [0x0F, 0x90, 0xB8, 1, 2, 3, 4, 0xFF, 0xC3, 0x05];
    let m = lift_x86_32(&bytes, "mix").unwrap();
    assert_eq!(m.lift_gaps, 3);
    assert_eq!(m.count_gaps(), m.lift_gaps);
    let ops = &m.functions[0].blocks[0].ops;
    let width: usize = ops
        .iter()
        .map(|o| match o {
            Op::MovImm { .. } | Op::AddImm { .. } => 5,
            _ => 1,
        })
        .sum();
    assert_eq!(width, bytes.len());
}

#[test]
fn count_gaps_over_many_blocks() {
    let gap = |o: u64| Op::Unknown { offset: o, bytes: vec![0], note: String::new() };
    let m = Module {
        name: "m".to_string(),
        source_isa: "x86_32".to_string(),
        functions: vec![
            Function {
                name: "a".to_string(),
                blocks: vec![
                    BasicBlock { label: "b0".to_string(), ops: vec![gap(0), Op::Ret] },
                    BasicBlock { label: "b1".to_string(), ops: vec![] },
                ],
            },
            Function {
                name: "b".to_string(),
                blocks: vec![BasicBlock { label: "b0".to_string(), ops: vec![gap(1), gap(2), Op::Nop] }],
            },
        ],
        lift_gaps: 0,
    };
    assert_eq!(m.count_gaps(), 3);
}

#[test]
fn parse_ignores_space_and_case() {
    assert_eq!(TargetIsa::parse("  AMD64\t").unwrap(), TargetIsa::X86_64);
    assert_eq!(TargetIsa::parse("\u{3000}PowerPC\n").unwrap(), TargetIsa::Ppc);
    assert_eq!(TargetIsa::parse("Hitachi").unwrap(), TargetIsa::SuperH(SuperHFlavor::Sh2));
    assert_eq!(TargetIsa::parse("ARM64").unwrap(), TargetIsa::AArch64);
    assert_eq!(TargetIsa::parse("mips32").unwrap(), TargetIsa::Mips);
    assert_eq!(TargetIsa::parse("sparc32").unwrap(), TargetIsa::Sparc);
    assert_eq!(TargetIsa::parse("aarch32").unwrap(), TargetIsa::Arm);
}

#[test]
fn parse_error_keeps_the_key() {
    let e = TargetIsa::parse(" RISC-V ").unwrap_err();
    assert_eq!(e.0, "risc-v");
    let e = "".parse::<TargetIsa>().unwrap_err();
    assert_eq!(e.0, "");
}

#[test]
fn canonical_names_parse_back() {
    let names: Vec<&str> = TargetIsa::all_canonical().iter().map(|i| i.as_str()).collect();
    assert_eq!(names, vec!["x86_64", "arm", "aarch64", "mips", "ppc", "sparc", "sh2", "sh4"]);
    for isa in TargetIsa::all_canonical() {
        assert_eq!(TargetIsa::parse(isa.as_str()).unwrap(), *isa);
    }
    assert_eq!(SuperHFlavor::default(), SuperHFlavor::Sh2);
}
