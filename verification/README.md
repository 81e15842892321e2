# wcbe

A concurrent Befunge-98 interpreter whose behaviour is stated in Verus
contracts and proved.

## Layout

- `src/befunge.rs`: cells, positions, the status a tick reports, the
  visited-cell record and the pixel surface.
- `src/befunge98.rs`: funge-space (a hash map with the 10 by 10 zero page in
  an array), directions, cursors with their stack of stacks, and the program
  state that runs every cursor in turn.
- `src/befunge98/model.rs`: the mathematical model of a cursor and of the
  shared state.
- `src/befunge98/semantics.rs`: what each instruction, each cursor tick and
  each program tick does, as spec functions over the model.
- `src/befunge98/ops.rs`: the instructions, proved against those spec
  functions.
- `src/befunge98/laws.rs`: what holds across operations (read after write,
  `}` undoing `{`, turns undoing each other, push and pop, moves staying in
  the program's box).
- `src/befunge98/fingerprints/`: NULL, ROMA, BOOL, MODU, REFC, FING, HRTI,
  PIXL (whose instructions stand alone: it cannot be loaded), and the
  letter tables of FPDP and FPSP; `src/befunge98/letters.rs`
  loads and unloads them with `(` and `)` and runs the letters `A` to `Z`.
  The floating-point instructions of FPDP and FPSP go through a
  `FloatUnit`, a function that whoever runs programs supplies; HRTI loads
  only once the state's clock is started (`start_clock`), which the web
  build leaves off.
- `src/outside.rs`: the trusted contracts of the calls into `egui`'s `ahash`
  maps, `coarsetime`, `rand` and a few std functions.
- `app/`: loading a program (with the clock off on the web), the
  floating-point unit (FPDP and FPSP), and the colours of the pixel surface
  for `egui`.
