# base_kit

Verified core of the B.A.S.E. reconstruction tools.

- `src/` — the library, checked by Verus: the SIR (`sir`) and the x86-32
  lifter (`lift`), target ISA names and their parser (`target`), the honesty
  flags (`honesty`), the simulated HIL agent (`agent`, `trace`, `usb`), QEMU
  launch planning (`qemu`), the component database and solver terms
  (`component`, `hw`, `solver`) and the evidence counts of the tension metric
  (`evidence`, `tension`).
- `app/` — plain Rust around it: serde copies of the value types, error
  messages, running QEMU, writing CSV captures, and the floating-point scores
  (tension Ψ, heuristic and solver scores).
- `tests/` — tests of the library.
