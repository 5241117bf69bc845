use std::collections::HashMap;

use base_kit::component::{ComponentCategory, ComponentDb, ComponentEntry, CpuFeature, Peripheral};
use base_kit::evidence::{EvidenceDb, EvidenceEntry, EvidenceType};
use base_kit::hw::{AccessType, BlockKind, DmaRequirement, FunctionalBlock, Register};
use base_kit::solver::heuristic;
use base_kit::solver::{
    candidate_category, category_matches, get_candidates, required_peripherals, score_terms,
};
use base_kit::tension::TensionMetric;

fn entry(part: &str, category: ComponentCategory, mhz: u32, periphs: &[(&str, u32)]) -> ComponentEntry {
    ComponentEntry {
        part: part.to_string(),
        category,
        cpu: Some(CpuFeature { cores: 4, max_mhz: mhz }),
        peripherals: periphs
            .iter()
            .map(|(n, c)| Peripheral { name: n.to_string(), count: *c })
            .collect(),
        pin_count: None,
    }
}

fn mock_db() -> ComponentDb {
    let mut db = ComponentDb::new();
    db.add_entry(entry("RP2350A", ComponentCategory::Mcu, 150, &[("dma", 8), ("spi", 2)]));
    db.add_entry(entry("RK3566", ComponentCategory::Cpu, 2000, &[("dma", 16), ("spi", 4)]));
    db.add_entry(entry("STM32F4", ComponentCategory::Mcu, 84, &[("i2c", 3)]));
    db
}

fn gpu_block() -> FunctionalBlock {
    FunctionalBlock {
        id: "gpu_0".into(),
        kind: BlockKind::Gpu,
        base_address: 0x1000_0000,
        size: 0x1000,
        registers: vec![
            Register { offset: 0, access: AccessType::ReadWrite },
            Register { offset: 4, access: AccessType::Read },
        ],
        has_timing: true,
        dma: Some(DmaRequirement { required: true }),
    }
}

#[test]
fn candidates_follow_the_block_kind() {
    let db = mock_db();
    assert_eq!(candidate_category(BlockKind::Ethernet), ComponentCategory::Connectivity);
    assert_eq!(candidate_category(BlockKind::MemoryController), ComponentCategory::Memory);
    assert_eq!(candidate_category(BlockKind::Unknown), ComponentCategory::Mcu);
    let c = get_candidates(&db, &BlockKind::Gpu);
    let parts: Vec<&str> = c.iter().map(|e| e.part.as_str()).collect();
    assert_eq!(parts, vec!["RP2350A", "STM32F4"]);
    assert!(get_candidates(&db, &BlockKind::Ethernet).is_empty());
    assert_eq!(db.by_category(ComponentCategory::Cpu).len(), 1);
    assert_eq!(db.by_name("RK3566").unwrap().part, "RK3566");
    assert!(db.by_name("nope").is_none());
}

#[test]
fn category_and_peripheral_tables() {
    assert!(category_matches(&ComponentCategory::Mcu, &BlockKind::Timer));
    assert!(category_matches(&ComponentCategory::Connectivity, &BlockKind::Ethernet));
    assert!(!category_matches(&ComponentCategory::Mcu, &BlockKind::Ethernet));
    assert!(!category_matches(&ComponentCategory::Mcu, &BlockKind::Unknown));
    assert_eq!(required_peripherals(&BlockKind::Gpu), vec!["spi", "dma"]);
    assert!(required_peripherals(&BlockKind::Spi).is_empty());
    assert_eq!(heuristic::required_peripherals(&BlockKind::Spi), vec!["spi".to_string()]);
    assert_eq!(heuristic::required_peripherals(&BlockKind::Uart), vec!["uart".to_string()]);
    assert!(heuristic::required_peripherals(&BlockKind::Timer).is_empty());
}

#[test]
fn solver_score_terms() {
    let db = mock_db();
    let rp = db.by_name("RP2350A").unwrap();
    let t = score_terms(rp, &gpu_block());
    assert!(t.category_match);
    assert_eq!((t.found, t.required), (2, 2));
    assert!(t.dma);
    assert!(t.fast_cpu);
    assert_eq!(t.factor_count(), 4);
    let st = db.by_name("STM32F4").unwrap();
    let t = score_terms(st, &gpu_block());
    assert_eq!((t.found, t.required), (0, 2));
    assert!(!t.dma && !t.fast_cpu);
    assert_eq!(t.factor_count(), 2);
}

#[test]
fn heuristic_factors_and_reasons() {
    let db = mock_db();
    let rp = db.by_name("RP2350A").unwrap();
    let f = heuristic::score_factors(rp, &gpu_block());
    assert_eq!(f.found, 2);
    assert_eq!(f.required, 2);
    assert!(f.category_match && f.dma && !f.gpio);
    assert_eq!(f.fast_cpu_mhz, Some(150));
    let reasons = heuristic::score_reasons(&f);
    assert_eq!(
        reasons,
        vec!["category mismatch → -0.3", "peripherals: 2/2", "has dma", "cpu@150MHz"]
    );
    let mut with_pins = entry("P", ComponentCategory::Cpu, 100, &[]);
    with_pins.pin_count = Some(16);
    let f = heuristic::score_factors(&with_pins, &gpu_block());
    assert!(!f.category_match && f.gpio && !f.dma);
    assert_eq!(f.fast_cpu_mhz, None);
    assert_eq!(heuristic::score_reasons(&f), vec!["gpio≥16"]);
}

fn sample_evidence() -> EvidenceDb {
    let mut db = EvidenceDb::new("test");
    db.add(EvidenceEntry {
        id: "ev_001".into(),
        evidence_type: EvidenceType::MmioWrite { address: 0x1000_0000, value: Some(1) },
        context: [("func".to_string(), "init".to_string())].into(),
    });
    db.add(EvidenceEntry {
        id: "ev_002".into(),
        evidence_type: EvidenceType::MmioWrite { address: 0x1000_0004, value: Some(0) },
        context: HashMap::new(),
    });
    db.add(EvidenceEntry {
        id: "ev_003".into(),
        evidence_type: EvidenceType::MmioRead { address: 0x1000_0004 },
        context: HashMap::new(),
    });
    db.add(EvidenceEntry {
        id: "ev_004".into(),
        evidence_type: EvidenceType::Other,
        context: HashMap::new(),
    });
    db.add(EvidenceEntry {
        id: "ev_005".into(),
        evidence_type: EvidenceType::MmioRead { address: 0x2000_0000 },
        context: HashMap::new(),
    });
    db
}

#[test]
fn evidence_counts() {
    let ev = sample_evidence();
    assert_eq!(ev.count(), 5);
    assert_eq!(ev.unique_mmio_addresses(), vec![0x1000_0000, 0x1000_0004, 0x2000_0000]);
    let c = TensionMetric::block_evidence(&gpu_block(), &ev);
    assert_eq!(c.relevant, 3);
    assert_eq!(c.writes, 2);
    assert_eq!(c.reads, 1);
    assert_eq!(c.covered_registers, 2);
    assert_eq!(c.writable_registers, 1);
    assert_eq!(c.registers, 2);
    let empty = EvidenceDb::new("empty");
    let c = TensionMetric::block_evidence(&gpu_block(), &empty);
    assert_eq!((c.relevant, c.covered_registers), (0, 0));
    assert!(empty.unique_mmio_addresses().is_empty());
}

#[test]
fn peripherals_behave_as_a_map() {
    let mut e = ComponentEntry::new("RP2350A", ComponentCategory::Mcu, None, Some(60));
    assert!(e.peripherals.is_empty());
    e.insert_peripheral("dma", 8);
    e.insert_peripheral("spi", 2);
    e.insert_peripheral("dma", 12);
    assert_eq!(e.peripherals.len(), 2);
    assert_eq!(e.peripheral_count("dma"), 12);
    assert_eq!(e.peripheral_count("spi"), 2);
    assert_eq!(e.peripheral_count("usb"), 0);
    assert!(e.has_peripheral("spi"));
    assert!(!e.has_peripheral("usb"));
    assert_eq!(e.part, "RP2350A");
    assert_eq!(e.pin_count, Some(60));
}

#[test]
fn unique_addresses_keep_first_order() {
    let mut db = EvidenceDb::new("order");
    for (i, a) in [0x30u64, 0x10, 0x30, 0x20, 0x10].iter().enumerate() {
        db.add(EvidenceEntry {
            id: format!("ev_{i}"),
            evidence_type: EvidenceType::MmioRead { address: *a },
            context: HashMap::new(),
        });
    }
    assert_eq!(db.unique_mmio_addresses(), vec![0x30, 0x10, 0x20]);
}
