# crab_boy

A Game Boy (LR35902) processor core with a small placeholder screen, written in Verus.

- `src/semantics.rs` — the abstract machine: register file, memory, and the meaning of every
  implemented instruction as spec functions (`step`, `faults`, and one function per
  instruction family).
- `src/cpu.rs` — the executable processor. `Cpu::tick` runs one instruction and is proved to
  follow `step`, or to report `Step::Fault` and change nothing when the instruction would touch
  an address that memory does not back or move SP past either end.
- `src/memory.rs` — working memory (addresses `0 ..= 0xFFFE`).
- `src/display.rs` — the placeholder screen painted into an RGBA frame buffer.
- `src/laws.rs` — properties that relate instructions to each other (flag and register-pair
  round trips, `PUSH`/`POP`, rotations, `CP`, increment/decrement).
- `src/bits.rs` — bit-level facts used by the proofs.
- `app/` — the window, the debugger GUI and the main loop; it loads `resources/game.gb`.
