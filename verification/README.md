# m68k

A Motorola 68000-family CPU core written in Verus: instruction semantics,
condition codes, exception entry, timing tables, the decoded-operation cache
and the portable trace executor. Register effects, flags and clock counts are
stated against a mathematical model of the CPU and proved; what the CPU does
on the bus is stated where listed below, and elsewhere only in part.

The bus is the host's: `AddressBus` (`src/memory.rs`) models it as a log of
the calls the CPU makes (reads with the value returned, writes, clock reports,
interrupt-priority samples). The log carries no memory model, so a value read
back is tied to what the bus answered, not to an earlier write (the one
exception is the trace executor's fast-memory window). Contracts state what
the CPU appends to that log for: the frames of address and bus errors on every
model, of traps, privilege violations, trace, CHK, zero divide and the
line-A/line-F and illegal-instruction entries (every word, in bus order, and
the vector fetch that loads the PC); the end-of-instruction sequence of the
68000 register forms (final prefetch, IPL sample, internal clocks) and of the
immediate logic operations on data registers and SR, with the words they take
from the prefetch queue; LINK and UNLK; MOVE16's line transfer; MOVEM loads in
`(An)`/`(An)+` (in order, with the 68000's discarded reads) and stores through
`-(An)` (in order); the 68000's MOVE stores through `-(An)` and `(An)+`, the
store of `write_ea`, and on the 32-bit-bus models the operand a MOVE reads
from memory; the extension word and memory operand of the long multiply and
divide, CMP2/CHK2 and MOVES on the 32-bit-bus models; the immediate operand
of ANDI/ORI/EORI on every model (the stream words it was taken from) with the
read and the store of a memory destination; the data cycle of MOVES
and of NBCD on memory; DIVU/DIVS source reads; and the words a trace is
decoded from. Other memory-operand paths (MOVE from memory on the 68000, MOVEM
with extension-word modes) state their effect on the CPU and the access
checks, not every bus call.

Not covered: the native (machine-code) trace compiler and its region
dispatcher, which generate and run host code; only the portable trace
executor is here.

## Layout

- `src/cpu.rs`, `src/types.rs`: the CPU state (`CpuCore`), CPU models and
  operand sizes, and the condition-code / status-register model.
- `src/memory.rs`: the bus interface and its call log.
- `src/instructions/`: integer arithmetic, BCD, logical and bit operations,
  data movement, shifts, multiply and divide (word and long), CMP2/CHK2,
  MOVES and MOVE16.
- `src/exceptions.rs`, `src/fslw.rs`, `src/fc.rs`, `src/vector.rs`: exception
  entry, stack frames and fault status words (an exception entry is fixed
  by the state it starts from and what the bus answered).
- `src/ea.rs`, `src/addressing.rs`, `src/mem_ops.rs`: effective addresses,
  addressing-mode decoding and bus sequencing.
- `src/timing_020.rs`, `src/timing_040.rs`: clock counts.
- `src/reg_ops.rs`, `src/op_cache.rs`: register-only micro-operations and the
  decoded-operation cache (a cache hit behaves as a fresh decode).
- `src/trace_jit.rs`: hot-loop traces, their decoding, compilation and the
  portable trace executor (a trace that bails commits nothing and never
  stores into its own code).
- `src/trace_profile.rs`: per-trace counters in a `BTreeMap` keyed by head and
  model, per-opcode counts and a `HashMap` of per-site counts of decoded
  memory operations.
- `src/workloads.rs`, `src/engine.rs`: the benchmark workloads and the
  state every engine starts from.
- `app/`: the profile report and process-wide profile state.

`tests/` runs the library on concrete values.
