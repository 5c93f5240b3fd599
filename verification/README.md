# rv32i

A small RV32I processor model whose functions carry proved contracts.

- `src/isa.rs`: what machine words mean: two's complement, wrapping
  arithmetic, the instruction fields and the sign-extended immediates.
- `src/control.rs`: decoding into control words, the ALU, branch
  comparisons, jump and upper-immediate helpers, the load/store unit and the
  pipeline hazard unit, each with its contract.
- `src/cpu.rs`: the single-cycle processor; `Cpu::step` is specified by
  `execute`, the effect of one instruction.
- `src/laws.rs`: properties across units and steps (store then load reads
  back, stores frame other bytes, only `rd` changes, decode consistency,
  hazard priority).
- `tests/`: executable tests.
