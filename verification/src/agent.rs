//! Host agent of the experimental HIL probe. Presence is detected from the
//! mock switch, then USB; without a programmer it never flashes silicon, and
//! a mock-flash agent only performs dry runs.

use vstd::prelude::*;

use crate::text::push_hex_u16;
use crate::trace::{bus_channel, DeviceTrace, EventType, TraceEvent};
use crate::usb::usb_device_present;

verus! {

/// Hardware presence. Real flashing needs [`ProbePresence::Detected`].
#[derive(Debug, Clone, Copy, PartialEq, Eq, Structural)]
pub enum ProbePresence {
    /// No USB/CMSIS-DAP and no mock switch: the default of `connect`.
    Simulated,
    /// A recognised probe (no host programmer exists yet).
    Detected,
}

/// USB vendor id of the probe stub.
pub const DEFAULT_PROBE_VID: u16 = 0xCAFE;

/// USB product id of the probe stub.
pub const DEFAULT_PROBE_PID: u16 = 0x4007;

/// The environment variable that, when set, makes presence detection report
/// [`ProbePresence::Detected`] without USB. The caller reads it and passes
/// whether it is set.
pub const ENV_MOCK_DETECTED: &'static str = "BASE_HIL_MOCK_DETECTED";

/// Why a flash was refused.
#[derive(Debug, Clone, Copy, PartialEq, Eq, Structural)]
pub enum FlashDenied {
    /// No probe was detected.
    NotDetected,
    /// A probe was detected, but no host programmer exists yet.
    ProgrammerUnimplemented,
}

/// What an accepted flash reports.
#[derive(Debug, Clone)]
pub struct FlashReceipt {
    /// How the image was handled: `mock_dry_run` for a dry run.
    pub mode: String,
    /// How many bytes the image held.
    pub bytes: usize,
}

/// The presence that detection reports: the mock switch first, then a USB
/// device, else simulation.
pub open spec fn presence_of(mock_detected: bool, usb_present: bool) -> ProbePresence {
    if mock_detected || usb_present {
        ProbePresence::Detected
    } else {
        ProbePresence::Simulated
    }
}

/// One sample captured by the probe.
#[derive(Debug, Clone)]
pub struct HilSample {
    pub timestamp_ns: u64,
    pub address: u16,
    pub data: u8,
    pub flags: u8,
}

/// Host agent that talks to the HIL probe.
pub struct HilAgent {
    presence: ProbePresence,
    mock_flash: bool,
}

/// The refusal when no probe was detected.
pub open spec fn flash_not_detected_message() -> Seq<char> {
    "HIL EXPERIMENTAL: flash requer ProbePresence::Detected (CMSIS-DAP/open probe); connect() atual é simulado e não grava silício"@
}

/// The refusal when a probe was detected: no programmer exists yet.
pub open spec fn flash_unimplemented_message() -> Seq<char> {
    "HIL EXPERIMENTAL: path Detected ainda não implementa programador"@
}

/// Whether `count` simulated samples can be numbered: sample `i` sits at bus
/// address `0x1000 + i`, which must fit in 16 bits.
pub open spec fn samples_fit(count: int) -> bool {
    count <= 0xF000
}

/// Whether `s` is the `i`-th simulated sample.
pub open spec fn is_simulated_sample(s: HilSample, i: int) -> bool {
    &&& s.timestamp_ns == i * 1000
    &&& s.address == 0x1000 + i
    &&& s.data == i % 256
    &&& s.flags == 0
}

/// The scaffold script of the probe project.
pub open spec fn build_script_text() -> Seq<char> {
    "#!/bin/bash\n"@
        + "# B.A.S.E. HIL Probe — EXPERIMENTAL scaffold\n"@
        + "# Não faz flash. Não faz parte do `base pipeline` default.\n\n"@
        + "set -euo pipefail\n\n"@
        + "PROBE_DIR=\"hil_probe\"\n"@
        + "mkdir -p \"$PROBE_DIR/src\"\n\n"@
        + "echo \"Escreva o stub com a lib host:\"\n"@
        + "echo \"  use base_hil::probe::ProbeFirmware;\"\n"@
        + "echo \"  std::fs::write(\\\"$PROBE_DIR/src/main.rs\\\", ProbeFirmware::generate());\"\n\n"@
        + "cat > \"$PROBE_DIR/Cargo.toml\" << 'EOF'\n"@
        + "[package]\n"@
        + "name = \"hil-probe\"\n"@
        + "version = \"0.1.0\"\n"@
        + "edition = \"2021\"\n\n"@
        + "# Dependências de target embutido — fora do CI default do workspace.\n"@
        + "[dependencies]\n"@
        + "rp235x-hal = { git = \"https://github.com/rp-rs/rp-hal\" }\n"@
        + "usb-device = \"0.3\"\n"@
        + "usbd-serial = \"0.2\"\n"@
        + "panic-halt = \"0.2\"\n"@
        + "cortex-m-rt = \"0.7\"\n"@
        + "cortex-m = \"0.7\"\n"@
        + "EOF\n\n"@
        + "echo \"[EXPERIMENTAL] scaffold em $PROBE_DIR/\"\n"@
        + "echo \"Build (manual, precisa target): cargo build --release --target thumbv8m.main-none-eabi\"\n"@
        + "echo \"Flash: só com probe Detected — HilAgent::flash_probe_firmware\"\n"@
}

impl View for HilAgent {
    type V = ProbePresence;

    closed spec fn view(&self) -> ProbePresence {
        self.presence
    }
}

/// The presence that detection reports: the mock switch first, then a USB
/// device, else simulation.
pub fn presence_for(mock_detected: bool, usb_present: bool) -> (p: ProbePresence)
    ensures
        p == presence_of(mock_detected, usb_present),
{
    if mock_detected || usb_present {
        ProbePresence::Detected
    } else {
        ProbePresence::Simulated
    }
}

impl HilAgent {
    /// Whether flashing is a dry run that writes nothing.
    pub closed spec fn dry_run(&self) -> bool {
        self.mock_flash
    }

    /// Detects the probe `vid:pid`: `mock_detected` tells whether
    /// [`ENV_MOCK_DETECTED`] is set; then a USB device counts; else the probe
    /// is simulated.
    pub fn enumerate_presence(vid: u16, pid: u16, mock_detected: bool) -> (p: ProbePresence)
        ensures
            p == presence_of(mock_detected, false),
    {
        presence_for(mock_detected, usb_device_present(vid, pid))
    }

    /// Opens a channel to the probe with the presence that detection reports
    /// (`mock_detected` tells whether [`ENV_MOCK_DETECTED`] is set). It never
    /// fails.
    pub fn connect(vid: u16, pid: u16, mock_detected: bool) -> (r: Result<HilAgent, String>)
        ensures
            r matches Ok(a) && a@ == presence_of(mock_detected, false) && !a.dry_run(),
    {
        let presence = HilAgent::enumerate_presence(vid, pid, mock_detected);
        Ok(HilAgent { presence, mock_flash: false })
    }

    /// An agent with the given presence.
    pub fn with_presence(presence: ProbePresence) -> (a: HilAgent)
        ensures
            a@ == presence,
            !a.dry_run(),
    {
        HilAgent { presence, mock_flash: false }
    }

    /// An agent with the given presence whose flashing is a dry run.
    pub fn with_mock_flash(presence: ProbePresence) -> (a: HilAgent)
        ensures
            a@ == presence,
            a.dry_run(),
    {
        HilAgent { presence, mock_flash: true }
    }

    /// Flashes an image: refused without a detected probe, refused with one
    /// while no programmer exists, and a dry run on a mock-flash agent with a
    /// detected probe.
    pub fn try_flash(&self, image: &[u8]) -> (r: Result<FlashReceipt, FlashDenied>)
        ensures
            self@ == ProbePresence::Simulated ==> r == Err::<FlashReceipt, FlashDenied>(
                FlashDenied::NotDetected,
            ),
            self@ == ProbePresence::Detected && !self.dry_run() ==> r == Err::<
                FlashReceipt,
                FlashDenied,
            >(FlashDenied::ProgrammerUnimplemented),
            self@ == ProbePresence::Detected && self.dry_run() ==> (r matches Ok(receipt)
                && receipt.mode@ == "mock_dry_run"@ && receipt.bytes == image@.len()),
    {
        match self.presence {
            ProbePresence::Simulated => Err(FlashDenied::NotDetected),
            ProbePresence::Detected => {
                if self.mock_flash {
                    Ok(FlashReceipt { mode: String::from_str("mock_dry_run"), bytes: image.len() })
                } else {
                    Err(FlashDenied::ProgrammerUnimplemented)
                }
            },
        }
    }

    pub fn presence(&self) -> (p: ProbePresence)
        ensures
            p == self@,
    {
        self.presence
    }

    pub fn can_flash(&self) -> (b: bool)
        ensures
            b == (self@ == ProbePresence::Detected),
    {
        match self.presence {
            ProbePresence::Detected => true,
            ProbePresence::Simulated => false,
        }
    }

    /// Flashing is refused: without a detected probe on purpose, with one
    /// because no programmer exists yet.
    pub fn flash_probe_firmware(&self, image: &[u8]) -> (r: Result<(), String>)
        ensures
            r is Err,
            r matches Err(m) && (self@ == ProbePresence::Simulated ==> m@
                == flash_not_detected_message()) && (self@ == ProbePresence::Detected ==> m@
                == flash_unimplemented_message()),
    {
        if !self.can_flash() {
            return Err(
                String::from_str(
                    "HIL EXPERIMENTAL: flash requer ProbePresence::Detected (CMSIS-DAP/open probe); connect() atual é simulado e não grava silício",
                ),
            );
        }
        Err(String::from_str("HIL EXPERIMENTAL: path Detected ainda não implementa programador"))
    }

    /// Reads `count` simulated samples: sample `i` has time `i * 1000` ns,
    /// address `0x1000 + i`, data `i mod 256` and no flags.
    pub fn read_samples(&self, count: usize) -> (v: Vec<HilSample>)
        requires
            samples_fit(count as int),
        ensures
            v@.len() == count,
            forall|i: int| 0 <= i < count ==> is_simulated_sample(#[trigger] v@[i], i),
    {
        let mut v: Vec<HilSample> = Vec::new();
        let mut i: usize = 0;
        while i < count
            invariant
                i <= count,
                samples_fit(count as int),
                v@.len() == i,
                forall|k: int| 0 <= k < i ==> is_simulated_sample(#[trigger] v@[k], k),
            decreases count - i,
        {
            let s = HilSample {
                timestamp_ns: i as u64 * 1000,
                address: 0x1000 + i as u16,
                data: (i % 256) as u8,
                flags: 0,
            };
            v.push(s);
            i = i + 1;
        }
        v
    }

    /// Turns samples into a device trace: one memory-mapped write per sample,
    /// on channel `BUS_<address in 4 hex digits>`.
    pub fn samples_to_trace(samples: &[HilSample]) -> (t: DeviceTrace)
        ensures
            t.source@ == "HIL Probe [EXPERIMENTAL]"@,
            t.device_name@ == "HIL Capture"@,
            t.events@.len() == samples@.len(),
            forall|i: int|
                0 <= i < samples@.len() ==> {
                    let e = #[trigger] t.events@[i];
                    let s = samples@[i];
                    &&& e.timestamp_ns == s.timestamp_ns
                    &&& e.channel@ == bus_channel(s.address)
                    &&& e.event_type == EventType::MmioWrite
                    &&& e.address == s.address as u64
                    &&& e.value == Some(s.data as u64)
                },
    {
        let mut events: Vec<TraceEvent> = Vec::new();
        let mut i: usize = 0;
        while i < samples.len()
            invariant
                i <= samples@.len(),
                events@.len() == i,
                forall|k: int|
                    0 <= k < i ==> {
                        let e = #[trigger] events@[k];
                        let s = samples@[k];
                        &&& e.timestamp_ns == s.timestamp_ns
                        &&& e.channel@ == bus_channel(s.address)
                        &&& e.event_type == EventType::MmioWrite
                        &&& e.address == s.address as u64
                        &&& e.value == Some(s.data as u64)
                    },
            decreases samples@.len() - i,
        {
            let s = &samples[i];
            let mut channel = String::from_str("BUS_");
            push_hex_u16(&mut channel, s.address);
            events.push(
                TraceEvent {
                    timestamp_ns: s.timestamp_ns,
                    channel,
                    event_type: EventType::MmioWrite,
                    address: s.address as u64,
                    value: Some(s.data as u64),
                },
            );
            i = i + 1;
        }
        DeviceTrace {
            source: String::from_str("HIL Probe [EXPERIMENTAL]"),
            device_name: String::from_str("HIL Capture"),
            events,
        }
    }

    /// The scaffold script of the embedded probe project. It calls no CLI:
    /// a `base hil` command does not exist.
    pub fn generate_build_script() -> (s: String)
        ensures
            s@ == build_script_text(),
    {
        let mut s = String::new();
        s.append("#!/bin/bash\n");
        s.append("# B.A.S.E. HIL Probe — EXPERIMENTAL scaffold\n");
        s.append("# Não faz flash. Não faz parte do `base pipeline` default.\n\n");
        s.append("set -euo pipefail\n\n");
        s.append("PROBE_DIR=\"hil_probe\"\n");
        s.append("mkdir -p \"$PROBE_DIR/src\"\n\n");
        s.append("echo \"Escreva o stub com a lib host:\"\n");
        s.append("echo \"  use base_hil::probe::ProbeFirmware;\"\n");
        s.append("echo \"  std::fs::write(\\\"$PROBE_DIR/src/main.rs\\\", ProbeFirmware::generate());\"\n\n");
        s.append("cat > \"$PROBE_DIR/Cargo.toml\" << 'EOF'\n");
        s.append("[package]\n");
        s.append("name = \"hil-probe\"\n");
        s.append("version = \"0.1.0\"\n");
        s.append("edition = \"2021\"\n\n");
        s.append("# Dependências de target embutido — fora do CI default do workspace.\n");
        s.append("[dependencies]\n");
        s.append("rp235x-hal = { git = \"https://github.com/rp-rs/rp-hal\" }\n");
        s.append("usb-device = \"0.3\"\n");
        s.append("usbd-serial = \"0.2\"\n");
        s.append("panic-halt = \"0.2\"\n");
        s.append("cortex-m-rt = \"0.7\"\n");
        s.append("cortex-m = \"0.7\"\n");
        s.append("EOF\n\n");
        s.append("echo \"[EXPERIMENTAL] scaffold em $PROBE_DIR/\"\n");
        s.append("echo \"Build (manual, precisa target): cargo build --release --target thumbv8m.main-none-eabi\"\n");
        s.append("echo \"Flash: só com probe Detected — HilAgent::flash_probe_firmware\"\n");
        s
    }
}

} // verus!
