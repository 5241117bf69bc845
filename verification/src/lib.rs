//! Verified core of the B.A.S.E. tooling: the static intermediate
//! representation and its x86-32 lifter, target ISA names, the honesty
//! flags, the experimental HIL agent, QEMU launch planning, the candidate
//! selection and score terms of the component solver, and the evidence counts
//! behind the tension metric.

pub mod text;

pub mod honesty;
pub mod lift;
pub mod sir;
pub mod target;

pub mod agent;
pub mod trace;
pub mod usb;

pub mod qemu;

pub mod component;
pub mod evidence;
pub mod hw;
pub mod solver;
pub mod tension;
