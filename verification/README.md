# p1

Tools for P1, an 8-bit stack processor built from standard logic chips, with their behaviour
proved in Verus.

- `src/cpu.rs`: the instruction set as a model (`CpuState`, `decode_spec`, `CpuState::execute`,
  `CpuState::step`) and the emulator `CPU`, whose `step` is proved to follow the model.
- `src/cpu_laws.rs`: properties of the instruction set (stack rotation, call and return, the
  call-depth limit, which steps write memory, partial loads) and of short programs run step by
  step (`run_steps`).
- `src/assembler.rs`, `src/text.rs`: the assembler for P1 source text, line splitting, word
  splitting and byte parsing.
- `src/assembler_laws.rs`: what the assembler emits decodes back to the instructions it names;
  `SET v` loads `v`.
- `src/memory.rs`: loading memory snapshots.
- `src/matrix.rs`, `src/matrix_laws.rs`: the host benchmark (scaled matrix product and its
  determinant value) and its algebra modulo 256.
- `src/alu_vectors.rs`, `src/branch_vectors.rs`, `src/alu_board.rs`: the test tables for the
  ALU and the branch unit, and the expectations of the ALU board test.
- `app/main.rs`: the command-line programs `p1asm`, `p1emu`, `tb_alu` and `tb_branchunit`.
