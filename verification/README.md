# spimdisasm (verified core)

A MIPS disassembly toolkit core whose logic is verified with Verus: the functions in `src/`
carry `requires`/`ensures` contracts that Verus proves, on top of a small set of trusted items
that Verus believes without proof. Those are the calls into `rabbitizer` (instruction decoding),
`object` (ELF reading) and a few `BTreeMap`/`BTreeSet` methods, each marked
`#[verifier::external_body]` or stated with `assume_specification`, with a doc comment saying
what is claimed of it.

## Layout

- `src/addresses`, `src/address_range.rs`: virtual addresses, rom offsets, sizes, ranges and the
  global offset table.
- `src/config`: endianness, compilers, `$gp` configuration, global settings.
- `src/isa`: registers, access kinds, and the decoding of a `rabbitizer` instruction into plain
  values (`DecodedInstr`), tied to `rabbitizer` through named results.
- `src/analysis`: what each register holds (`GprRegisterValue`, `RegisterTracker`), `%hi`/`%lo`
  pairing, the per-instruction analysis (`InstructionAnalysisBuilder` and its `finish`), the
  branch-following analysis of a function (`InstructionAnalyzer::analyze`, whose result is
  stated by mutually recursive spec functions that mirror it, with a budget of branches), the
  C-string guesser, referenced addresses and labels, and the preheater: its section
  bookkeeping, the preheating of code sections (`Preheater::preheat_text`, a scan of the words
  whose result is stated as a fold of one step per word) and of exception tables
  (`Preheater::preheat_gcc_except_table`).
- `src/collections`: unordered maps and sets over `BTreeMap`/`BTreeSet`, and an ordered map whose
  keys also find the entry whose span holds them.
- `src/elf`: reading a 32-bit MIPS ELF (through the `object` crate), its GOT, dynamic symbols,
  `.reginfo`, and the plans for the sections and symbols to disassemble.
- `app/`: the command-line program: argument handling and file reading around the library.

## Not in this crate

The symbol metadata, section and context layers of the disassembler are not part of this
crate; what the preheater reads of them is taken as plain values (declared symbols, declared
labels, ignored ranges, instruction flags). Left out are the passes whose decisions rest on
rules of those layers: the preheating of data and read-only data sections (which kinds of
symbol may hold addresses, which are tables and which are late read-only data, the string
encodings), section post-processing and output. The analyzer takes the labels of the known jump
tables as a plain list.
