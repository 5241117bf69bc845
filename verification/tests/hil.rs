use base_kit::agent::{
    presence_for, FlashDenied, HilAgent, HilSample, ProbePresence, DEFAULT_PROBE_PID,
    DEFAULT_PROBE_VID, ENV_MOCK_DETECTED,
};
use base_kit::trace::EventType;
use base_kit::usb::usb_device_present;

#[test]
fn test_agent_connect_is_simulated() {
    let agent = HilAgent::connect(0xCAFE, 0x4007, false).unwrap();
    assert_eq!(agent.presence(), ProbePresence::Simulated);
    assert!(!agent.can_flash());
}

#[test]
fn test_flash_denied_without_probe() {
    let agent = HilAgent::connect(0xCAFE, 0x4007, false).unwrap();
    let err = agent.flash_probe_firmware(&[0u8; 4]).unwrap_err();
    assert!(err.contains("EXPERIMENTAL"));
    assert!(err.contains("Detected"));
}

#[test]
fn test_flash_denied_even_when_marked_detected_until_programmer_exists() {
    let agent = HilAgent::with_presence(ProbePresence::Detected);
    assert!(agent.can_flash());
    let err = agent.flash_probe_firmware(&[0u8; 4]).unwrap_err();
    assert!(err.contains("não implementa"));
}

#[test]
fn test_read_samples() {
    let agent = HilAgent::connect(0xCAFE, 0x4007, false).unwrap();
    let samples = agent.read_samples(10);
    assert_eq!(samples.len(), 10);
    assert_eq!(samples[0].address, 0x1000);
}

#[test]
fn test_samples_to_trace() {
    let agent = HilAgent::connect(0xCAFE, 0x4007, false).unwrap();
    let samples = agent.read_samples(5);
    let trace = HilAgent::samples_to_trace(&samples);
    assert_eq!(trace.events.len(), 5);
    assert!(trace.source.contains("HIL"));
    assert!(trace.source.contains("EXPERIMENTAL"));
}

#[test]
fn test_build_script_no_fake_cli() {
    let script = HilAgent::generate_build_script();
    assert!(script.contains("hil-probe"));
    assert!(script.contains("EXPERIMENTAL"));
    assert!(!script.contains("base hil "));
    assert!(script.contains("thumbv8m"));
}

#[test]
fn without_device_returns_bool() {
    let _ = usb_device_present(0xCAFE, 0x4007);
}

#[test]
fn default_build_never_claims_usb() {
    assert!(!usb_device_present(0xCAFE, 0x4007));
    assert!(!usb_device_present(0x0000, 0x0000));
}

#[test]
fn flash_messages_are_exact() {
    let sim = HilAgent::with_presence(ProbePresence::Simulated);
    assert_eq!(
        sim.flash_probe_firmware(&[]).unwrap_err(),
        "HIL EXPERIMENTAL: flash requer ProbePresence::Detected (CMSIS-DAP/open probe); connect() atual é simulado e não grava silício"
    );
    let det = HilAgent::with_presence(ProbePresence::Detected);
    assert_eq!(
        det.flash_probe_firmware(&[1, 2, 3]).unwrap_err(),
        "HIL EXPERIMENTAL: path Detected ainda não implementa programador"
    );
    assert_eq!(det.presence(), ProbePresence::Detected);
}

#[test]
fn simulated_samples_follow_their_index() {
    let agent = HilAgent::with_presence(ProbePresence::Simulated);
    let samples = agent.read_samples(300);
    assert_eq!(samples.len(), 300);
    let s = &samples[257];
    assert_eq!(s.timestamp_ns, 257_000);
    assert_eq!(s.address, 0x1000 + 257);
    assert_eq!(s.data, 1);
    assert_eq!(s.flags, 0);
    assert!(agent.read_samples(0).is_empty());
}

#[test]
fn simulated_samples_reach_the_top_address() {
    let agent = HilAgent::with_presence(ProbePresence::Simulated);
    let samples = agent.read_samples(0xF000);
    assert_eq!(samples.last().unwrap().address, 0xFFFF);
}

#[test]
fn trace_events_mirror_samples() {
    let samples = vec![
        HilSample { timestamp_ns: 7, address: 0x00AB, data: 0xFE, flags: 3 },
        HilSample { timestamp_ns: 9, address: 0xBEEF, data: 1, flags: 0 },
    ];
    let trace = HilAgent::samples_to_trace(&samples);
    assert_eq!(trace.source, "HIL Probe [EXPERIMENTAL]");
    assert_eq!(trace.device_name, "HIL Capture");
    assert_eq!(trace.events[0].channel, "BUS_00ab");
    assert_eq!(trace.events[1].channel, "BUS_beef");
    assert_eq!(trace.events[0].timestamp_ns, 7);
    assert_eq!(trace.events[0].address, 0xAB);
    assert_eq!(trace.events[0].value, Some(0xFE));
    assert_eq!(trace.events[1].event_type, EventType::MmioWrite);
    assert!(HilAgent::samples_to_trace(&[]).events.is_empty());
}

#[test]
fn build_script_is_the_scaffold() {
    let script = HilAgent::generate_build_script();
    assert!(script.starts_with("#!/bin/bash\n# B.A.S.E. HIL Probe — EXPERIMENTAL scaffold\n"));
    assert!(script.contains("name = \"hil-probe\"\n"));
    assert!(script.contains("echo \"  std::fs::write(\\\"$PROBE_DIR/src/main.rs\\\", ProbeFirmware::generate());\"\n\n"));
    assert!(script.ends_with("echo \"Flash: só com probe Detected — HilAgent::flash_probe_firmware\"\n"));
}

#[test]
fn mock_switch_detects_without_usb() {
    assert_eq!(DEFAULT_PROBE_VID, 0xCAFE);
    assert_eq!(DEFAULT_PROBE_PID, 0x4007);
    assert_eq!(ENV_MOCK_DETECTED, "BASE_HIL_MOCK_DETECTED");
    let a = HilAgent::connect(DEFAULT_PROBE_VID, DEFAULT_PROBE_PID, true).unwrap();
    assert_eq!(a.presence(), ProbePresence::Detected);
    assert!(a.can_flash());
    assert_eq!(HilAgent::enumerate_presence(1, 2, false), ProbePresence::Simulated);
    assert_eq!(HilAgent::enumerate_presence(1, 2, true), ProbePresence::Detected);
    assert_eq!(presence_for(false, true), ProbePresence::Detected);
    assert_eq!(presence_for(true, false), ProbePresence::Detected);
    assert_eq!(presence_for(false, false), ProbePresence::Simulated);
}

#[test]
fn try_flash_outcomes() {
    let a = HilAgent::connect(DEFAULT_PROBE_VID, DEFAULT_PROBE_PID, false).unwrap();
    assert_eq!(a.try_flash(&[0]).unwrap_err(), FlashDenied::NotDetected);
    let d = HilAgent::with_presence(ProbePresence::Detected);
    assert_eq!(d.try_flash(&[0]).unwrap_err(), FlashDenied::ProgrammerUnimplemented);
    let m = HilAgent::with_mock_flash(ProbePresence::Detected);
    let receipt = m.try_flash(&[1, 2, 3]).unwrap();
    assert_eq!(receipt.mode, "mock_dry_run");
    assert_eq!(receipt.bytes, 3);
    let ms = HilAgent::with_mock_flash(ProbePresence::Simulated);
    assert_eq!(ms.try_flash(&[1]).unwrap_err(), FlashDenied::NotDetected);
}
