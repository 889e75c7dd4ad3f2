use spimdisasm::addresses::{Rom, Size, Vram};
use spimdisasm::config::Endian;
use spimdisasm::elf::dynamic_section::{DT_MIPS_GOTSYM, DT_MIPS_LOCAL_GOTNO, DT_PLTGOT};
use spimdisasm::elf::global_ranges::create_global_ranges;
use spimdisasm::elf::parsed_elf::{parse_dynsym, ParseElfError, ParsedElf};
use spimdisasm::elf::section::{
    ElfSectionType, ProgbitsType, RawElfSection, SHF_ALLOC, SHF_EXECINSTR, SHF_WRITE, SHT_DYNAMIC, SHT_MIPS_REGINFO,
    SHT_NOBITS, SHT_PROGBITS, SHT_REL,
};
use spimdisasm::elf::section_plan::{create_sections, SectionKind, SectionPlan};
use spimdisasm::elf::symbol::{ElfSymSectionIndex, ElfSymType, ElfSymbol};
use spimdisasm::elf::symbol_declarations::{fill_symbols, GotAccessKind};
use spimdisasm::cli::ArgCompiler;
use spimdisasm::config::Compiler;
use spimdisasm::metadata::SymbolType;

fn section(sh_type: u32, sh_flags: u32, addr: u32, offset: u32, name: &str, data: Vec<u8>) -> RawElfSection {
    let size = if sh_type == SHT_NOBITS { 0x20 } else { data.len() as u32 };
    RawElfSection::new(sh_type, sh_flags, addr, offset, size, name.to_string(), data, Endian::Big)
        .expect("a section the disassembler reads")
}

fn words(ws: &[u32]) -> Vec<u8> {
    ws.iter().flat_map(|w| w.to_be_bytes()).collect()
}

fn text(addr: u32, offset: u32, len: usize) -> RawElfSection {
    section(SHT_PROGBITS, SHF_ALLOC | SHF_EXECINSTR, addr, offset, ".text", vec![0; len])
}

fn got(addr: u32, entries: &[u32]) -> RawElfSection {
    section(SHT_PROGBITS, SHF_ALLOC | SHF_WRITE, addr, 0x400, ".got", words(entries))
}

fn dynamic(pltgot: u32, local_gotno: u32, gotsym: u32) -> RawElfSection {
    let data = words(&[DT_PLTGOT, pltgot, DT_MIPS_LOCAL_GOTNO, local_gotno, DT_MIPS_GOTSYM, gotsym, 0, 0]);
    section(SHT_DYNAMIC, SHF_ALLOC, 0, 0x500, ".dynamic", data)
}

fn reginfo(gp: u32) -> RawElfSection {
    section(SHT_MIPS_REGINFO, SHF_ALLOC, 0, 0x600, ".reginfo", words(&[0, 0, 0, 0, 0, gp]))
}

fn sym(value: u32, size: u32, typ: u8, shndx: u16, name: &str) -> ElfSymbol {
    ElfSymbol::new(value, size, typ, 1, 0, shndx, name.to_string())
}

#[test]
fn raw_section_kinds() {
    let t = RawElfSection::new(SHT_PROGBITS, SHF_ALLOC | SHF_EXECINSTR, 0x80000000, 0x100, 4, ".text".into(), vec![0; 4], Endian::Big)
        .unwrap();
    assert_eq!(t.section_type(), ElfSectionType::Progbits(ProgbitsType::Text));
    assert_eq!(t.address(), Vram::new(0x80000000));
    assert_eq!(t.offset(), Rom::new(0x100));

    let empty = RawElfSection::new(SHT_PROGBITS, SHF_ALLOC, 0, 0, 0, ".data".into(), vec![], Endian::Big);
    assert!(empty.is_none());

    let unknown = RawElfSection::new(2, 0, 0, 0, 4, ".symtab".into(), vec![0; 4], Endian::Big);
    assert!(unknown.is_none());

    let rel = RawElfSection::new(SHT_REL, 0, 0, 0, 8, ".rel.text".into(), vec![0; 8], Endian::Big).unwrap();
    assert_eq!(rel.section_type(), ElfSectionType::Reloc);

    let rodata = RawElfSection::new(SHT_PROGBITS, SHF_ALLOC, 0, 0, 4, ".rodata".into(), vec![0; 4], Endian::Big).unwrap();
    assert_eq!(rodata.section_type(), ElfSectionType::Progbits(ProgbitsType::Rodata));
}

#[test]
fn from_parts_sorts_sections_by_kind() {
    let sections = vec![
        text(0x80000000, 0x100, 0x40),
        section(SHT_PROGBITS, SHF_ALLOC | SHF_WRITE, 0x80000040, 0x140, ".data", vec![1; 0x10]),
        section(SHT_NOBITS, SHF_ALLOC | SHF_WRITE, 0x80000050, 0x150, ".bss", vec![]),
        section(SHT_PROGBITS, SHF_ALLOC, 0x80000060, 0x150, ".rodata", vec![2; 8]),
    ];
    let elf = ParsedElf::from_parts(Endian::Big, sections, vec![]).unwrap();
    assert_eq!(elf.executable_sections().len(), 1);
    assert_eq!(elf.executable_sections()[0].name(), ".text");
    assert_eq!(elf.data_sections().len(), 2);
    assert_eq!(elf.data_sections()[0].progbits_type(), ProgbitsType::Data);
    assert_eq!(elf.data_sections()[1].progbits_type(), ProgbitsType::Rodata);
    assert_eq!(elf.nobits_sections().len(), 1);
    assert_eq!(elf.nobits_sections()[0].size(), Size::new(0x20));
    assert!(elf.got().is_none());
    assert!(elf.gp_value_in_range());
    assert_eq!(elf.gp_value(), None);
    assert_eq!(elf.endian(), Endian::Big);
}

#[test]
fn from_parts_builds_the_global_offset_table() {
    let sections = vec![got(0x80100000, &[0, 0x80000000, 0x11, 0x22, 0x33]), dynamic(0x80100000, 2, 1)];
    let dynsyms = vec![
        sym(0, 0, 0, 0, ""),
        sym(0x80000010, 8, 2, 1, "foo"),
        sym(0, 0, 2, 0, "bar"),
        sym(0x80000100, 4, 1, 2, "baz"),
    ];
    let elf = ParsedElf::from_parts(Endian::Big, sections, dynsyms).unwrap();
    let table = elf.got().unwrap();
    assert_eq!(table.vram().start(), Vram::new(0x80100000));
    assert_eq!(table.vram().end(), Vram::new(0x80100014));
    assert_eq!(table.locals().len(), 2);
    assert_eq!(table.locals()[1].inner(), 0x80000000);
    assert_eq!(table.globals().len(), 3);
    assert_eq!(table.globals()[0].initial(), 0x11);
    assert_eq!(table.globals()[0].sym_name(), "foo");
    assert!(!table.globals()[0].undef_com_or_abs());
    assert_eq!(table.globals()[1].sym_name(), "bar");
    assert!(table.globals()[1].undef_com_or_abs());
    assert_eq!(table.globals()[2].initial(), 0x33);

    let marked = elf.got_global_symbols();
    assert_eq!(marked.len(), 3);
    assert_eq!(marked[0].elf_sym().name(), "foo");
    assert!(marked[0].elf_sym().is_got_global());
    assert_eq!(marked[2].got_entry().initial(), 0x33);

    assert!(elf.gp_value_in_range());
    assert_eq!(elf.gp_value().unwrap().inner(), 0x80107FF0);
}

#[test]
fn parse_dynsym_without_dynamic_keeps_every_word_local() {
    let parts = parse_dynsym(&vec![1, 2, 3], &vec![sym(0, 0, 0, 0, "")], None);
    assert_eq!(parts.locals.len(), 3);
    assert_eq!(parts.globals.len(), 0);
    assert_eq!(parts.symbols.len(), 1);
}

#[test]
fn parse_dynsym_pairs_while_words_last() {
    let dynsyms = vec![sym(0, 0, 0, 0, ""), sym(4, 0, 2, 1, "a"), sym(8, 0, 3, 1, "sect"), sym(12, 0, 1, 1, "c")];
    let parts = parse_dynsym(&vec![7, 8, 9], &dynsyms, Some((1, 1)));
    assert_eq!(parts.locals.len(), 1);
    assert_eq!(parts.globals.len(), 2);
    assert_eq!(parts.globals[1].sym_name(), "sect");
    // Section symbols are no symbols.
    assert_eq!(parts.symbols.len(), 3);
    assert!(parts.symbols[1].is_got_global());
    assert!(!parts.symbols[2].is_got_global());
}

#[test]
fn reginfo_gp_comes_first() {
    let sections = vec![dynamic(0x80100000, 0, 0), reginfo(0x80008000)];
    let elf = ParsedElf::from_parts(Endian::Big, sections, vec![]).unwrap();
    assert_eq!(elf.gp_value().unwrap().inner(), 0x80008000);

    let sections = vec![dynamic(0x80100000, 0, 0), reginfo(0)];
    let elf = ParsedElf::from_parts(Endian::Big, sections, vec![]).unwrap();
    assert_eq!(elf.gp_value().unwrap().inner(), 0x80107FF0);

    let sections = vec![dynamic(0xFFFFF000, 0, 0)];
    let elf = ParsedElf::from_parts(Endian::Big, sections, vec![]).unwrap();
    assert!(!elf.gp_value_in_range());
}

#[test]
fn symbols_and_labels_split_by_span() {
    let dynsyms = vec![
        sym(0, 0, 0, 0, ""),
        sym(0x80000000, 0x20, 2, 1, "func"),
        sym(0x80000010, 0, 0, 1, "inner"),
        sym(0x80000020, 0, 0, 1, "after"),
        sym(0x80000020, 0, 0, 1, "after_alias"),
        sym(0x80000021, 0, 0, 1, "next"),
        sym(0x80000010, 0, 0, 1, "inner"),
    ];
    let elf = ParsedElf::from_parts(Endian::Big, vec![], dynsyms).unwrap();
    let symbols: Vec<u32> = elf.symbols().iter().map(|g| g.value()).collect();
    let labels: Vec<u32> = elf.labels().iter().map(|g| g.value()).collect();
    // A symbol without a size spans one byte, so `next` starts a span of its own.
    assert_eq!(symbols, vec![0, 0x80000000, 0x80000020, 0x80000021]);
    assert_eq!(labels, vec![0x80000010]);
    // The same symbol twice is kept once.
    assert_eq!(elf.labels()[0].syms().len(), 1);
    assert_eq!(elf.symbols()[2].syms().len(), 2);
}

#[test]
fn undefined_sizes_do_not_span() {
    let dynsyms = vec![sym(0x1000, 0x100, 2, 0, "undefined"), sym(0x1004, 0, 0, 1, "x")];
    let elf = ParsedElf::from_parts(Endian::Big, vec![], dynsyms).unwrap();
    assert_eq!(elf.symbols().len(), 2);
    assert_eq!(elf.labels().len(), 0);
}

#[test]
fn from_parts_errors() {
    let r = ParsedElf::from_parts(Endian::Big, vec![got(0, &[0]), got(0, &[0])], vec![]);
    assert_eq!(r.err(), Some(ParseElfError::DuplicateGot));

    let r = ParsedElf::from_parts(Endian::Big, vec![dynamic(0, 0, 0), dynamic(0, 0, 0)], vec![]);
    assert_eq!(r.err(), Some(ParseElfError::DuplicateDynamic));

    let bad_dynamic = section(SHT_DYNAMIC, SHF_ALLOC, 0, 0, ".dynamic", words(&[DT_PLTGOT, 0, 0, 0]));
    let r = ParsedElf::from_parts(Endian::Big, vec![bad_dynamic], vec![]);
    assert_eq!(r.err(), Some(ParseElfError::InvalidDynamic));

    let r = ParsedElf::from_parts(Endian::Big, vec![reginfo(0), reginfo(0)], vec![]);
    assert_eq!(r.err(), Some(ParseElfError::DuplicateReginfo));

    let bad_reginfo = section(SHT_MIPS_REGINFO, SHF_ALLOC, 0, 0, ".reginfo", words(&[0, 0]));
    let r = ParsedElf::from_parts(Endian::Big, vec![bad_reginfo], vec![]);
    assert_eq!(r.err(), Some(ParseElfError::InvalidReginfo));

    let r = ParsedElf::from_parts(Endian::Big, vec![got(0xFFFFFFF8, &[0, 0, 0])], vec![]);
    assert_eq!(r.err(), Some(ParseElfError::GotOutOfRange));

    // The first problem wins.
    let r = ParsedElf::from_parts(Endian::Big, vec![reginfo(0), got(0, &[0]), reginfo(0), got(0, &[0])], vec![]);
    assert_eq!(r.err(), Some(ParseElfError::DuplicateReginfo));
}

#[test]
fn global_ranges_cover_every_section() {
    let sections = vec![
        text(0x80000000, 0x100, 0x40),
        section(SHT_PROGBITS, SHF_ALLOC | SHF_WRITE, 0x80000040, 0x140, ".data", vec![1; 0x10]),
        section(SHT_NOBITS, SHF_ALLOC | SHF_WRITE, 0x80000050, 0x150, ".bss", vec![]),
    ];
    let elf = ParsedElf::from_parts(Endian::Big, sections, vec![]).unwrap();
    let ranges = create_global_ranges(&elf).unwrap();
    assert_eq!(ranges.rom().start(), Rom::new(0x100));
    assert_eq!(ranges.rom().end(), Rom::new(0x150));
    assert_eq!(ranges.vram().start(), Vram::new(0x80000000));
    assert_eq!(ranges.vram().end(), Vram::new(0x80000070));
}

#[test]
fn global_ranges_of_a_relocatable_file_use_offsets() {
    let sections = vec![text(0, 0x40, 0x20), section(SHT_PROGBITS, SHF_ALLOC | SHF_WRITE, 0, 0x60, ".data", vec![0; 8])];
    let elf = ParsedElf::from_parts(Endian::Big, sections, vec![]).unwrap();
    let ranges = create_global_ranges(&elf).unwrap();
    assert_eq!(ranges.rom().start(), Rom::new(0x40));
    assert_eq!(ranges.rom().end(), Rom::new(0x68));
    assert_eq!(ranges.vram().start(), Vram::new(0x40));
    assert_eq!(ranges.vram().end(), Vram::new(0x68));
}

#[test]
fn global_ranges_need_a_section_in_the_file() {
    let sections = vec![section(SHT_NOBITS, SHF_ALLOC | SHF_WRITE, 0x80000050, 0x150, ".bss", vec![])];
    let elf = ParsedElf::from_parts(Endian::Big, sections, vec![]).unwrap();
    assert!(create_global_ranges(&elf).is_none());

    let sections = vec![text(0x80000002, 0x100, 0x40)];
    let elf = ParsedElf::from_parts(Endian::Big, sections, vec![]).unwrap();
    assert!(create_global_ranges(&elf).is_none());

    let sections = vec![text(0xFFFFFFF0, 0x100, 0x40)];
    let elf = ParsedElf::from_parts(Endian::Big, sections, vec![]).unwrap();
    assert!(create_global_ranges(&elf).is_none());
}

/// A big endian 32-bit MIPS ELF file with the given sections (name, type, flags, address,
/// contents, link, entry size) after the null one, and a section name table.
fn build_elf(sections: &[(&str, u32, u32, u32, Vec<u8>, u32, u32)]) -> Vec<u8> {
    let mut shstrtab = vec![0u8];
    let mut names = Vec::new();
    for s in sections {
        names.push(shstrtab.len() as u32);
        shstrtab.extend_from_slice(s.0.as_bytes());
        shstrtab.push(0);
    }
    let shstrtab_name = shstrtab.len() as u32;
    shstrtab.extend_from_slice(b".shstrtab\0");

    let mut body = Vec::new();
    let mut offsets = Vec::new();
    for s in sections {
        while body.len() % 4 != 0 {
            body.push(0);
        }
        offsets.push(52 + body.len() as u32);
        body.extend_from_slice(&s.4);
    }
    let shstrtab_offset = 52 + body.len() as u32;
    body.extend_from_slice(&shstrtab);
    while body.len() % 4 != 0 {
        body.push(0);
    }
    let shoff = 52 + body.len() as u32;
    let shnum = sections.len() as u16 + 2;

    let mut out = vec![0x7F, b'E', b'L', b'F', 1, 2, 1, 0, 0, 0, 0, 0, 0, 0, 0, 0];
    out.extend_from_slice(&2u16.to_be_bytes());
    out.extend_from_slice(&8u16.to_be_bytes());
    out.extend_from_slice(&1u32.to_be_bytes());
    out.extend_from_slice(&0u32.to_be_bytes());
    out.extend_from_slice(&0u32.to_be_bytes());
    out.extend_from_slice(&shoff.to_be_bytes());
    out.extend_from_slice(&0u32.to_be_bytes());
    out.extend_from_slice(&52u16.to_be_bytes());
    out.extend_from_slice(&32u16.to_be_bytes());
    out.extend_from_slice(&0u16.to_be_bytes());
    out.extend_from_slice(&40u16.to_be_bytes());
    out.extend_from_slice(&shnum.to_be_bytes());
    out.extend_from_slice(&(shnum - 1).to_be_bytes());
    out.extend_from_slice(&body);

    let header = |out: &mut Vec<u8>, fields: [u32; 10]| {
        for f in fields {
            out.extend_from_slice(&f.to_be_bytes());
        }
    };
    header(&mut out, [0; 10]);
    for (i, s) in sections.iter().enumerate() {
        let size = s.4.len() as u32;
        header(&mut out, [names[i], s.1, s.2, s.3, offsets[i], size, s.5, 0, 4, s.6]);
    }
    header(&mut out, [shstrtab_name, 3, 0, 0, shstrtab_offset, shstrtab.len() as u32, 0, 0, 1, 0]);
    out
}

fn dynsym_entry(name: u32, value: u32, size: u32, info: u8, shndx: u16) -> Vec<u8> {
    let mut e = Vec::new();
    e.extend_from_slice(&name.to_be_bytes());
    e.extend_from_slice(&value.to_be_bytes());
    e.extend_from_slice(&size.to_be_bytes());
    e.push(info);
    e.push(0);
    e.extend_from_slice(&shndx.to_be_bytes());
    e
}

#[test]
fn parse_elf_rejects_what_is_no_elf() {
    let r = ParsedElf::parse_elf(b"this is not an elf file at all, not even close to one");
    assert_eq!(r.err(), Some(ParseElfError::NotElf32));
}

#[test]
fn parse_elf_reads_sections_and_dynamic_symbols() {
    let code = words(&[0x27BDFFE8, 0x03E00008, 0x00000000, 0x00000000]);
    let mut dynsym = dynsym_entry(0, 0, 0, 0, 0);
    dynsym.extend(dynsym_entry(1, 0x80000000, 16, 0x12, 1));
    dynsym.extend(dynsym_entry(5, 0x80000008, 0, 0x10, 1));
    let dynstr = b"\0foo\0bar\0".to_vec();
    let data = build_elf(&[
        (".text", SHT_PROGBITS, SHF_ALLOC | SHF_EXECINSTR, 0x80000000, code.clone(), 0, 0),
        (".dynsym", 11, SHF_ALLOC, 0x80001000, dynsym, 3, 16),
        (".dynstr", 3, SHF_ALLOC, 0x80001100, dynstr, 0, 0),
    ]);
    let elf = ParsedElf::parse_elf(&data).unwrap();
    assert_eq!(elf.endian(), Endian::Big);
    assert_eq!(elf.executable_sections().len(), 1);
    let text = &elf.executable_sections()[0];
    assert_eq!(text.name(), ".text");
    assert_eq!(text.address(), Vram::new(0x80000000));
    assert_eq!(text.size(), Size::new(16));
    assert_eq!(text.data(), code.as_slice());
    assert_eq!(elf.data_sections().len(), 0);

    // The null symbol sits at 0; `foo` spans 16 bytes, so `bar` is a label inside it.
    let symbols: Vec<u32> = elf.symbols().iter().map(|g| g.value()).collect();
    assert_eq!(symbols, vec![0, 0x80000000]);
    assert_eq!(elf.symbols()[1].syms()[0].name(), "foo");
    assert_eq!(elf.symbols()[1].syms()[0].typ(), ElfSymType::Function);
    assert_eq!(elf.symbols()[1].syms()[0].section_index(), ElfSymSectionIndex::ActualSectionIndex(1));
    assert_eq!(elf.labels().len(), 1);
    assert_eq!(elf.labels()[0].syms()[0].name(), "bar");
}

#[test]
fn fill_symbols_declares_what_the_file_says() {
    let sections = vec![
        text(0x80000000, 0x100, 0x100),
        got(0x80000200, &[0x8F000000, 0x80000000, 0x12345678, 0x12345678]),
        dynamic(0x80000200, 2, 3),
    ];
    let dynsyms = vec![
        sym(0, 0, 0, 0, ""),
        sym(0x80000000, 0x40, 2, 1, "main"),
        ElfSymbol::new(0x80000000, 0, 2, 2, 0, 1, "entry2".to_string()),
        sym(0, 8, 1, 0, "ext_a"),
        sym(0, 8, 1, 0, "ext_b"),
        sym(0x80000010, 0, 1, 1, "inner"),
        sym(0x90000000, 4, 1, 2, "ext"),
    ];
    let elf = ParsedElf::from_parts(Endian::Big, sections, dynsyms).unwrap();
    let ranges = create_global_ranges(&elf).unwrap();
    let decls = fill_symbols(&elf, ranges);

    assert_eq!(decls.global_symbols.len(), 1);
    let main = &decls.global_symbols[0];
    assert_eq!(main.name, "main");
    assert_eq!(main.vram, Vram::new(0x80000000));
    assert_eq!(main.size, Some(Size::new(0x40)));
    assert_eq!(main.sym_type, Some(SymbolType::Function));
    assert_eq!(main.got_access, None);
    assert_eq!(main.visibility, None);

    let labels: Vec<&str> = decls.labels.iter().map(|l| l.name.as_str()).collect();
    assert_eq!(labels, vec!["entry2", "inner"]);
    assert_eq!(decls.labels[0].visibility, Some("weak"));

    assert_eq!(decls.user_symbols.len(), 2);
    let target = &decls.user_symbols[0];
    assert_eq!(target.name, "ext_a");
    assert_eq!(target.vram, Vram::new(0x12345678));
    assert_eq!(target.size, Size::new(8));
    assert_eq!(target.sym_type, None);
    assert_eq!(target.got_access, GotAccessKind::Global);
    let resolver = &decls.user_symbols[1];
    assert_eq!(resolver.name, "$$.LazyResolver");
    assert_eq!(resolver.vram, Vram::new(0x8F000000));
    assert_eq!(resolver.size, Size::new(4));
    assert_eq!(resolver.got_access, GotAccessKind::Local);

    assert_eq!(decls.unhandled.len(), 1);
    assert_eq!(decls.unhandled[0].name(), "ext");
}

#[test]
fn create_sections_plans_each_kind() {
    let sections = vec![
        text(0, 0x40, 0x20),
        section(SHT_PROGBITS, SHF_ALLOC | SHF_WRITE, 0, 0x60, ".data", vec![0; 8]),
        section(SHT_PROGBITS, SHF_ALLOC, 0x80000100, 0x68, ".rodata", vec![0; 8]),
        section(SHT_NOBITS, SHF_ALLOC | SHF_WRITE, 0x80000200, 0x70, ".bss", vec![]),
    ];
    let elf = ParsedElf::from_parts(Endian::Big, sections, vec![]).unwrap();
    let (text_plans, data_plans, bss_plans) = create_sections(&elf).unwrap();
    assert_eq!(text_plans, vec![SectionPlan { kind: SectionKind::Text, index: 0, rom: Rom::new(0x40), vram: Vram::new(0x40) }]);
    assert_eq!(
        data_plans,
        vec![
            SectionPlan { kind: SectionKind::Data, index: 0, rom: Rom::new(0x60), vram: Vram::new(0x60) },
            SectionPlan { kind: SectionKind::Rodata, index: 1, rom: Rom::new(0x68), vram: Vram::new(0x80000100) },
        ]
    );
    assert_eq!(bss_plans.len(), 1);
    assert_eq!(bss_plans[0].1.start(), Vram::new(0x80000200));
    assert_eq!(bss_plans[0].1.end(), Vram::new(0x80000220));

    let far = vec![section(SHT_NOBITS, SHF_ALLOC | SHF_WRITE, 0xFFFFFFF0, 0x70, ".bss", vec![])];
    let elf = ParsedElf::from_parts(Endian::Big, far, vec![]).unwrap();
    assert!(create_sections(&elf).is_none());
}

#[test]
fn command_line_compilers() {
    assert_eq!(Compiler::from(ArgCompiler::IDO), Compiler::IDO);
}
