use vstd::prelude::*;

use crate::addresses::{AddressRange, AddressValue, Rom, RomVramRange, Size, Vram};
use crate::collections::addended_ordered_map::{
    lemma_inserted_entry_answers, lemma_last_at_or_below_unique, spec_answers, spec_last_at_or_below, spec_sorted, spec_split_at,
    AddendedOrderedMap, FindSettings, SizedValue,
};
use rabbitizer::{Instruction, InstructionFlags};

use crate::addresses::GlobalOffsetTable;
use crate::collections::unordered_map::UnorderedMap;
use crate::collections::unordered_set::UnorderedSet;
use crate::config::endian::spec_words;
use crate::config::{Endian, GpConfig};
use crate::isa::instruction::{
    flags_abi, new_instruction, opcode_is_branch_likely, rabbitizer_instruction, rabbitizer_opcode, spec_decoded,
};
use crate::isa::{AccessType, DecodedInstr, Gpr};
use crate::metadata::SymbolType;

use super::gpr_register_value::GprRegisterValue;
use super::register_tracker::{
    spec_clear_afterwards, spec_initial_regs, spec_process, spec_reset_regs, spec_trackable, InstrOpJumptable,
    InstrOpLink, InstrOpPairedAddress, InstrOpTailCall, InstructionOperation, RegisterTracker,
};

use super::referenced_address::{spec_fresh_reference, spec_push_new, spec_reference_span, ReferencedAddress, ReferencedAddressModel};
use super::referenced_label::{LabelPrecedence, ReferencedLabel};

verus! {

/// Why a section could not be preheated.
#[derive(Debug, Clone, PartialEq, Eq)]
pub enum PreheatErrorKind {
    /// The section's rom span does not lie inside the segment's.
    WrongRom { segment_range: AddressRange<Rom>, section_end: Rom },
    /// The section's virtual span does not lie inside the segment's.
    WrongVram { segment_range: AddressRange<Vram>, section_end: Vram },
    /// A section was already preheated at this rom.
    AlreadyPreheated,
    /// The section's virtual address falls inside a section preheated before.
    OverlapsWithAlreadyPreheated { other_name: String, other_range: AddressRange<Vram> },
}

/// An error while preheating a section, with the section it is about.
#[derive(Debug, Clone, PartialEq, Eq)]
pub struct PreheatError {
    pub segment_name: Option<String>,
    pub section_name: String,
    pub section_rom: Rom,
    pub section_vram: Vram,
    pub inner: PreheatErrorKind,
}

impl PreheatError {
    pub fn new_wrong_rom(
        segment_name: Option<String>,
        section_name: String,
        section_rom: Rom,
        section_vram: Vram,
        segment_range: AddressRange<Rom>,
        section_end: Rom,
    ) -> (r: Self)
        ensures
            r == (PreheatError {
                segment_name,
                section_name,
                section_rom,
                section_vram,
                inner: PreheatErrorKind::WrongRom { segment_range, section_end },
            }),
    {
        PreheatError {
            segment_name,
            section_name,
            section_rom,
            section_vram,
            inner: PreheatErrorKind::WrongRom { segment_range, section_end },
        }
    }

    pub fn new_wrong_vram(
        segment_name: Option<String>,
        section_name: String,
        section_rom: Rom,
        section_vram: Vram,
        segment_range: AddressRange<Vram>,
        section_end: Vram,
    ) -> (r: Self)
        ensures
            r == (PreheatError {
                segment_name,
                section_name,
                section_rom,
                section_vram,
                inner: PreheatErrorKind::WrongVram { segment_range, section_end },
            }),
    {
        PreheatError {
            segment_name,
            section_name,
            section_rom,
            section_vram,
            inner: PreheatErrorKind::WrongVram { segment_range, section_end },
        }
    }

    pub fn new_already_preheated(
        segment_name: Option<String>,
        section_name: String,
        section_rom: Rom,
        section_vram: Vram,
    ) -> (r: Self)
        ensures
            r == (PreheatError {
                segment_name,
                section_name,
                section_rom,
                section_vram,
                inner: PreheatErrorKind::AlreadyPreheated,
            }),
    {
        PreheatError { segment_name, section_name, section_rom, section_vram, inner: PreheatErrorKind::AlreadyPreheated }
    }

    /// The section overlaps the one named `other_name`, which spans `other_size` bytes from
    /// `other_vram`.
    pub fn new_overlaps_with_already_preheated(
        segment_name: Option<String>,
        section_name: String,
        section_rom: Rom,
        section_vram: Vram,
        other_name: String,
        other_vram: Vram,
        other_size: Size,
    ) -> (r: Self)
        requires
            other_vram.inner + other_size.inner <= u32::MAX,
        ensures
            r.segment_name == segment_name,
            r.section_name == section_name,
            r.section_rom == section_rom,
            r.section_vram == section_vram,
            r.inner matches PreheatErrorKind::OverlapsWithAlreadyPreheated { other_name: n, other_range }
                && n == other_name && other_range.spec_start() == other_vram && other_range.spec_end().inner
                == other_vram.inner + other_size.inner,
    {
        let other_end = other_size.add_vram(&other_vram);
        PreheatError {
            segment_name,
            section_name,
            section_rom,
            section_vram,
            inner: PreheatErrorKind::OverlapsWithAlreadyPreheated {
                other_name,
                other_range: AddressRange::new(other_vram, other_end),
            },
        }
    }
}

/// A section already preheated: its name, virtual address and size.
#[derive(Debug, Clone, PartialEq, Eq)]
pub struct PreheatedSection {
    pub name: String,
    pub vram: Vram,
    pub size: Size,
}

impl SizedValue for PreheatedSection {
    open spec fn spec_size(&self) -> nat {
        self.size.inner as nat
    }

    fn size(&self) -> (r: Size) {
        self.size
    }
}

/// Gathers, segment by segment, what the sections tell of their addresses before they are
/// disassembled. This part keeps track of the sections already preheated, so that none is
/// preheated twice and none overlaps another.
#[derive(Debug, Clone)]
pub struct Preheater<L: LabelPrecedence> {
    segment_name: Option<String>,
    ranges: RomVramRange,
    references: AddendedOrderedMap<Vram, ReferencedAddress>,
    label_references: AddendedOrderedMap<Vram, ReferencedLabel<L>>,
    preheated_sections_rom: AddendedOrderedMap<Rom, Size>,
    preheated_sections_vram: AddendedOrderedMap<Vram, PreheatedSection>,
}

/// What the preheater keeps of a label: everything but the detected kind, which the kind's
/// own precedence rule decides.
pub struct LabelModel<L> {
    pub vram: Vram,
    pub user_declared: bool,
    pub user_declared_type: Option<L>,
    pub referenced_by: Seq<Vram>,
}

/// The model of a [`Preheater`].
pub struct PreheaterModel<L> {
    pub segment_name: Option<String>,
    pub ranges: RomVramRange,
    /// The referenced addresses, in address order.
    pub references: Seq<(Vram, ReferencedAddressModel)>,
    /// The referenced labels, in address order.
    pub labels: Seq<(Vram, LabelModel<L>)>,
    /// The preheated sections by rom, in rom order, with their sizes.
    pub sections_rom: Seq<(Rom, Size)>,
    /// The preheated sections by virtual address, in address order.
    pub sections_vram: Seq<(Vram, PreheatedSection)>,
}

pub open spec fn spec_label_model<L: LabelPrecedence>(l: ReferencedLabel<L>) -> LabelModel<L> {
    LabelModel {
        vram: l.spec_vram(),
        user_declared: l.spec_user_declared(),
        user_declared_type: l.spec_user_declared_type(),
        referenced_by: l.spec_referenced_by(),
    }
}

pub open spec fn spec_reference_models(e: Seq<(Vram, ReferencedAddress)>) -> Seq<(Vram, ReferencedAddressModel)> {
    Seq::new(e.len(), |i: int| (e[i].0, e[i].1@))
}

pub open spec fn spec_label_models<L: LabelPrecedence>(e: Seq<(Vram, ReferencedLabel<L>)>) -> Seq<(Vram, LabelModel<L>)> {
    Seq::new(e.len(), |i: int| (e[i].0, spec_label_model(e[i].1)))
}

impl<L: LabelPrecedence> View for Preheater<L> {
    type V = PreheaterModel<L>;

    closed spec fn view(&self) -> PreheaterModel<L> {
        PreheaterModel {
            segment_name: self.segment_name,
            ranges: self.ranges,
            references: spec_reference_models(self.references.spec_entries()),
            labels: spec_label_models(self.label_references.spec_entries()),
            sections_rom: self.preheated_sections_rom.spec_entries(),
            sections_vram: self.preheated_sections_vram.spec_entries(),
        }
    }
}

/// What the user declared of a symbol: where it starts, and optionally its kind and size.
#[derive(Debug, Clone, Copy, PartialEq, Eq)]
pub struct UserSymbolInfo {
    pub vram: Vram,
    pub user_declared_type: Option<SymbolType>,
    pub user_declared_size: Option<Size>,
}

/// A declared symbol spans its declared size, or one address when it has none.
impl SizedValue for UserSymbolInfo {
    open spec fn spec_size(&self) -> nat {
        match self.user_declared_size {
            Some(s) => s.inner as nat,
            None => 1,
        }
    }

    fn size(&self) -> (r: Size) {
        match self.user_declared_size {
            Some(s) => s,
            None => Size::new(1),
        }
    }
}

/// What is recorded on a reference once found.
#[derive(Debug, Clone, Copy, PartialEq, Eq)]
pub enum RefAction {
    Nothing,
    SymType(SymbolType),
    AddGpToPointedData,
    Access(AccessType),
}

pub open spec fn spec_apply_action(m: ReferencedAddressModel, action: RefAction) -> ReferencedAddressModel {
    match action {
        RefAction::Nothing => m,
        RefAction::SymType(t) => ReferencedAddressModel {
            autodetected_types: spec_push_new(m.autodetected_types, t),
            ..m
        },
        RefAction::AddGpToPointedData => ReferencedAddressModel { add_gp_to_pointed_data: true, ..m },
        RefAction::Access(a) => ReferencedAddressModel { access_types: spec_push_new(m.access_types, a), ..m },
    }
}

/// Reference `i` answers a lookup of `q`: it is the last one at or below `q`, and starts at `q`
/// or, with an addend allowed, spans past `q`.
pub open spec fn spec_reference_answers(s: Seq<(Vram, ReferencedAddressModel)>, q: int, allow_addend: bool, i: int) -> bool {
    &&& spec_last_at_or_below(s, q, i)
    &&& (s[i].0.inner == q || (allow_addend && q < s[i].0.inner + spec_reference_span(s[i].1)))
}

/// The reference a lookup of `vram` creates when none answers: the declared symbol that
/// answers the lookup among `user_symbols`, or a fresh reference to `vram`.
pub open spec fn spec_reference_made(vram: Vram, user_symbols: Seq<(Vram, UserSymbolInfo)>, allow_addend: bool) -> (
    Vram,
    ReferencedAddressModel,
) {
    if exists|i: int| spec_answers(user_symbols, vram.inner as int, allow_addend, i) {
        let info = user_symbols[choose|i: int| spec_answers(user_symbols, vram.inner as int, allow_addend, i)].1;
        (
            info.vram,
            ReferencedAddressModel {
                user_declared: true,
                user_declared_type: info.user_declared_type,
                user_declared_size: info.user_declared_size,
                ..spec_fresh_reference(info.vram)
            },
        )
    } else {
        (vram, spec_fresh_reference(vram))
    }
}

/// The references once a lookup of `vram` has found or made its entry, and the position of it.
pub open spec fn spec_reference_slot(
    refs: Seq<(Vram, ReferencedAddressModel)>,
    vram: Vram,
    user_symbols: Seq<(Vram, UserSymbolInfo)>,
    allow_addend: bool,
) -> (Seq<(Vram, ReferencedAddressModel)>, int) {
    if exists|i: int| spec_reference_answers(refs, vram.inner as int, allow_addend, i) {
        (refs, choose|i: int| spec_reference_answers(refs, vram.inner as int, allow_addend, i))
    } else {
        let made = spec_reference_made(vram, user_symbols, allow_addend);
        if exists|j: int| 0 <= j < refs.len() && refs[j].0.inner == made.0.inner {
            (refs, choose|j: int| 0 <= j < refs.len() && refs[j].0.inner == made.0.inner)
        } else {
            let p = choose|p: int| spec_split_at(refs, made.0.inner as int, p);
            (refs.insert(p, made), p)
        }
    }
}

/// The references after `vram` is found referenced (by `referenced_by`, if known) and
/// `action` recorded on it, and whether it was: an address inside an ignored range is not.
pub open spec fn spec_new_reference(
    refs: Seq<(Vram, ReferencedAddressModel)>,
    vram: Vram,
    referenced_by: Option<Vram>,
    action: RefAction,
    user_symbols: Seq<(Vram, UserSymbolInfo)>,
    ignored: Seq<(Vram, Size)>,
    allow_addend: bool,
) -> (Seq<(Vram, ReferencedAddressModel)>, bool) {
    if exists|i: int| spec_answers(ignored, vram.inner as int, true, i) {
        (refs, false)
    } else {
        let (s, i) = spec_reference_slot(refs, vram, user_symbols, allow_addend);
        let m = s[i].1;
        let m1 = match referenced_by {
            Some(b) => ReferencedAddressModel { referenced_by: m.referenced_by.push(b), ..m },
            None => m,
        };
        (s.update(i, (s[i].0, spec_apply_action(m1, action))), true)
    }
}

/// Label `i` sits exactly at `q`.
pub open spec fn spec_label_at<L>(s: Seq<(Vram, LabelModel<L>)>, q: int, i: int) -> bool {
    spec_last_at_or_below(s, q, i) && s[i].0.inner == q
}

/// The kind the user declared for a label at `vram`: that of the first declaration there.
pub open spec fn spec_user_label<L>(user_labels: Seq<(Vram, L)>, vram: Vram) -> Option<L> {
    if exists|i: int| 0 <= i < user_labels.len() && user_labels[i].0 == vram {
        let i = choose|i: int|
            0 <= i < user_labels.len() && user_labels[i].0 == vram && forall|j: int| 0 <= j < i ==> user_labels[j].0 != vram;
        Some(user_labels[i].1)
    } else {
        None
    }
}

/// The labels after the one at `vram` is found referenced by `referenced_by`; a new one is
/// user declared when `user_labels` declares a label there.
pub open spec fn spec_new_label<L>(
    labels: Seq<(Vram, LabelModel<L>)>,
    vram: Vram,
    referenced_by: Vram,
    user_labels: Seq<(Vram, L)>,
) -> Seq<(Vram, LabelModel<L>)> {
    let (s, i) = if exists|i: int| spec_label_at(labels, vram.inner as int, i) {
        (labels, choose|i: int| spec_label_at(labels, vram.inner as int, i))
    } else {
        let p = choose|p: int| spec_split_at(labels, vram.inner as int, p);
        let made = LabelModel {
            vram,
            user_declared: spec_user_label(user_labels, vram) is Some,
            user_declared_type: spec_user_label(user_labels, vram),
            referenced_by: Seq::empty(),
        };
        (labels.insert(p, (vram, made)), p)
    };
    s.update(i, (s[i].0, LabelModel { referenced_by: s[i].1.referenced_by.push(referenced_by), ..s[i].1 }))
}

/// Whether some preheated section spans `rom`.
pub open spec fn spec_rom_taken<L>(m: PreheaterModel<L>, rom: Rom) -> bool {
    exists|i: int| spec_answers(m.sections_rom, rom.inner as int, true, i)
}

/// Whether some preheated section spans `vram`.
pub open spec fn spec_vram_taken<L>(m: PreheaterModel<L>, vram: Vram) -> bool {
    exists|i: int| spec_answers(m.sections_vram, vram.inner as int, true, i)
}

/// Whether the `size` bytes from `rom`, loaded at `vram`, start inside the segment and end
/// inside it or at its end, by rom and by virtual address.
pub open spec fn spec_rom_inside<L>(m: PreheaterModel<L>, rom: Rom, size: nat) -> bool {
    m.ranges.spec_rom().spec_in_range(rom) && rom.inner + size <= m.ranges.spec_rom().spec_end().inner
}

pub open spec fn spec_vram_inside<L>(m: PreheaterModel<L>, vram: Vram, size: nat) -> bool {
    m.ranges.spec_vram().spec_in_range(vram) && vram.inner + size <= m.ranges.spec_vram().spec_end().inner
}

/// Whether preheating a section of `size` bytes at `rom` and `vram` fails: it lies outside the
/// segment, or a section was preheated at that rom or around that address.
pub open spec fn spec_preheat_fails<L>(m: PreheaterModel<L>, rom: Rom, vram: Vram, size: nat) -> bool {
    !spec_rom_inside(m, rom, size) || !spec_vram_inside(m, vram, size) || spec_rom_taken(m, rom)
        || spec_vram_taken(m, vram)
}



/// How the code of a section is read and what its branch labels are.
pub struct TextPreheatSettings<L> {
    pub instruction_flags: InstructionFlags,
    pub endian: Endian,
    pub gp_config: Option<GpConfig>,
    /// The kind given to the labels that branches target.
    pub branch_label: L,
}

/// What the user declared, as the preheating of a section reads it.
pub struct TextInputs<L> {
    pub user_symbols: Seq<(Vram, UserSymbolInfo)>,
    pub user_labels: Seq<(Vram, L)>,
    pub ignored: Seq<(Vram, Size)>,
}

/// What the scan of a code section records besides the register file: the references and
/// labels, the `$gp`-relative GOT loads by rom (`pic_locals`), the addresses of the second
/// halves of doubles (`to_remove`), and the countdown after a jump table's `jr` (`hack`).
pub struct Bookkeeping<L> {
    pub references: Seq<(Vram, ReferencedAddressModel)>,
    pub labels: Seq<(Vram, LabelModel<L>)>,
    pub pic_locals: Map<u32, Vram>,
    pub to_remove: Set<u32>,
    pub hack: int,
}

/// The state of the scan of a code section after some of its words.
pub struct TextScanState<L> {
    pub book: Bookkeeping<L>,
    pub regs: Seq<GprRegisterValue>,
    pub prev: Option<Instruction>,
    pub maybe_ended: bool,
}

pub open spec fn spec_book_ref<L>(b: Bookkeeping<L>, inp: TextInputs<L>, vram: Vram, by: Option<Vram>, a: RefAction) -> Bookkeeping<L> {
    Bookkeeping { references: spec_new_reference(b.references, vram, by, a, inp.user_symbols, inp.ignored, true).0, ..b }
}

pub open spec fn spec_book_label<L>(b: Bookkeeping<L>, inp: TextInputs<L>, vram: Vram, by: Vram) -> Bookkeeping<L> {
    Bookkeeping { labels: spec_new_label(b.labels, vram, by, inp.user_labels), ..b }
}

/// Whether `d` reads `$gp` and writes `$gp` (as `addiu $gp, $gp, %lo(...)` does).
pub open spec fn spec_gp_to_gp(d: DecodedInstr) -> bool {
    &&& d.reads_rs && d.rs == Some(Gpr::gp)
    &&& d.modifies_rt && d.rt == Some(Gpr::gp)
}

/// The address an operation completes, the instruction that refers to it (if it is that
/// instruction's own), and the access made there.
pub open spec fn spec_paired_target(op: InstructionOperation, d: DecodedInstr, cur_vram: Vram) -> Option<
    (Vram, Option<Vram>, Option<(AccessType, bool)>),
> {
    match op {
        InstructionOperation::PairedAddress { vram, info } => match info {
            InstrOpPairedAddress::PairedLo { access_info, .. } => if spec_gp_to_gp(d) {
                None
            } else {
                Some((vram, Some(cur_vram), access_info))
            },
            InstrOpPairedAddress::GpRel { access_info } => Some((vram, Some(cur_vram), access_info)),
            InstrOpPairedAddress::GpGotGlobal {  } => Some((vram, Some(cur_vram), None)),
            InstrOpPairedAddress::GpGotLazyResolver {  } => Some((vram, Some(cur_vram), None)),
            InstrOpPairedAddress::GpGotLocal {  } => None,
            InstrOpPairedAddress::PairedGpGotLo { access_info, .. } => Some((vram, Some(cur_vram), access_info)),
            InstrOpPairedAddress::PairedGotLo { .. } => Some((vram, Some(cur_vram), None)),
            InstrOpPairedAddress::PairedLoUnaligned { access_info, unaddended_address, .. } => Some(
                (unaddended_address, Some(cur_vram), Some(access_info)),
            ),
            InstrOpPairedAddress::GpRelUnaligned { access_info, unaddended_address } => Some(
                (unaddended_address, Some(cur_vram), Some(access_info)),
            ),
        },
        InstructionOperation::DereferencedRawAddress { original_address, access_info, .. } => Some(
            (original_address, None, Some(access_info)),
        ),
        _ => None,
    }
}

/// The address of the second word of the double at or just below `addr`: no symbol is made
/// there.
pub open spec fn spec_double_second_half(addr: Vram) -> u32 {
    (addr.inner - addr.inner % 8 + 4) as u32
}

/// What one operation of the code adds: a reference (a called function, a jump table, an
/// accessed address) or a branch label, unless the address is ignored.
pub open spec fn spec_operation_book<L>(
    b: Bookkeeping<L>,
    inp: TextInputs<L>,
    op: InstructionOperation,
    d: DecodedInstr,
    cur_vram: Vram,
    cur_rom: Rom,
) -> Bookkeeping<L> {
    let function = RefAction::SymType(SymbolType::Function);
    let b1 = match op {
        InstructionOperation::Link { info } => match info {
            InstrOpLink::DirectLinkingCall { target_vram } => spec_book_ref(b, inp, target_vram, Some(cur_vram), function),
            InstrOpLink::LinkingBranch { target_vram } => spec_book_label(b, inp, target_vram, cur_vram),
            InstrOpLink::RawRegisterLink { vram, .. } => spec_book_ref(b, inp, vram, None, function),
            InstrOpLink::Call16RegisterLink { vram, .. } => spec_book_ref(b, inp, vram, None, function),
            InstrOpLink::CallHiLoRegisterLink { vram, .. } => spec_book_ref(b, inp, vram, None, function),
            _ => b,
        },
        InstructionOperation::TailCall { info } => match info {
            InstrOpTailCall::MaybeDirectTailCall { target_vram } => spec_book_label(b, inp, target_vram, cur_vram),
            InstrOpTailCall::RawRegisterTailCall { vram, .. } => spec_book_ref(b, inp, vram, None, function),
            _ => b,
        },
        InstructionOperation::JumptableJump { jumptable_vram, dereferenced_rom, info } => {
            let b2 = spec_book_ref(b, inp, jumptable_vram, None, RefAction::SymType(SymbolType::Jumptable));
            let b3 = if info is Pic && b2.pic_locals.contains_key(dereferenced_rom.inner) {
                spec_book_ref(b2, inp, b2.pic_locals[dereferenced_rom.inner], None, RefAction::AddGpToPointedData)
            } else {
                b2
            };
            Bookkeeping { hack: 2, ..b3 }
        },
        InstructionOperation::Branch { target_vram } => spec_book_label(b, inp, target_vram, cur_vram),
        InstructionOperation::PairedAddress { vram, info } => if info is PairedGpGotLo {
            Bookkeeping { pic_locals: b.pic_locals.insert(cur_rom.inner, vram), ..b }
        } else {
            b
        },
        _ => b,
    };
    match spec_paired_target(op, d, cur_vram) {
        Some((addr, by, access)) => {
            let action = match access {
                Some((a, _)) => RefAction::Access(a),
                None => RefAction::Nothing,
            };
            let (refs, found) = spec_new_reference(b1.references, addr, by, action, inp.user_symbols, inp.ignored, true);
            let to_remove = if found && access == Some((AccessType::DOUBLEFLOAT, true)) {
                b1.to_remove.insert(spec_double_second_half(addr))
            } else {
                b1.to_remove
            };
            Bookkeeping { references: refs, to_remove, ..b1 }
        },
        None => b1,
    }
}

pub open spec fn spec_book<L>(m: PreheaterModel<L>, pic_locals: Map<u32, Vram>, to_remove: Set<u32>, hack: int) -> Bookkeeping<L> {
    Bookkeeping { references: m.references, labels: m.labels, pic_locals, to_remove, hack }
}

/// See [`spec_paired_target`].
fn paired_target(op: &InstructionOperation, d: &DecodedInstr, cur_vram: Vram) -> (r: Option<(Vram, Option<Vram>, Option<(AccessType, bool)>)>)
    ensures
        r == spec_paired_target(*op, *d, cur_vram),
{
    match *op {
        InstructionOperation::PairedAddress { vram, info } => match info {
            InstrOpPairedAddress::PairedLo { access_info, .. } => {
                let gp_to_gp = d.reads_rs && matches!(d.rs, Some(Gpr::gp)) && d.modifies_rt && matches!(d.rt, Some(Gpr::gp));
                if gp_to_gp {
                    None
                } else {
                    Some((vram, Some(cur_vram), access_info))
                }
            },
            InstrOpPairedAddress::GpRel { access_info } => Some((vram, Some(cur_vram), access_info)),
            InstrOpPairedAddress::GpGotGlobal {  } => Some((vram, Some(cur_vram), None)),
            InstrOpPairedAddress::GpGotLazyResolver {  } => Some((vram, Some(cur_vram), None)),
            InstrOpPairedAddress::GpGotLocal {  } => None,
            InstrOpPairedAddress::PairedGpGotLo { access_info, .. } => Some((vram, Some(cur_vram), access_info)),
            InstrOpPairedAddress::PairedGotLo { .. } => Some((vram, Some(cur_vram), None)),
            InstrOpPairedAddress::PairedLoUnaligned { access_info, unaddended_address, .. } => Some(
                (unaddended_address, Some(cur_vram), Some(access_info)),
            ),
            InstrOpPairedAddress::GpRelUnaligned { access_info, unaddended_address } => Some(
                (unaddended_address, Some(cur_vram), Some(access_info)),
            ),
        },
        InstructionOperation::DereferencedRawAddress { original_address, access_info, .. } => Some(
            (original_address, None, Some(access_info)),
        ),
        _ => None,
    }
}


/// One word of a code section at position `k`: the register tracker restarts after the nops
/// that follow a function's end; an invalid word forgets the previous instruction; the
/// instruction after a branch-likely's delay slot is skipped; any other is tracked and what it
/// refers to recorded (see [`spec_operation_book`]), and the tracker is cleared after a
/// call's or a jump's delay slot (but for the `jr` of a jump table's delay slot).
pub open spec fn spec_text_step<L>(
    st: TextScanState<L>,
    inp: TextInputs<L>,
    settings: TextPreheatSettings<L>,
    got: Option<&GlobalOffsetTable>,
    words: Seq<u32>,
    rom: Rom,
    vram: Vram,
    k: int,
) -> TextScanState<L> {
    let w = words[k];
    let cv = Vram { inner: (vram.inner + 4 * k) as u32 };
    let cr = Rom { inner: (rom.inner + 4 * k) as u32 };
    let next = Some(Vram { inner: (vram.inner + 4 * k + 4) as u32 });
    let instr = rabbitizer_instruction(w, cv.inner, settings.instruction_flags);
    let d = spec_decoded(instr);
    let restart = st.maybe_ended && w != 0;
    let regs0 = if restart {
        spec_reset_regs(st.regs, Some(cv), settings.gp_config)
    } else {
        st.regs
    };
    let ended0 = st.maybe_ended && !restart;
    let prev_d = match st.prev {
        Some(p) => Some(spec_decoded(p)),
        None => None,
    };
    if !d.is_valid {
        let (e, regs1) = spec_clear_afterwards(regs0, settings.gp_config, prev_d, next);
        TextScanState { book: st.book, regs: regs1, prev: None, maybe_ended: ended0 || e }
    } else if st.prev matches Some(p) && opcode_is_branch_likely(rabbitizer_opcode(p)) {
        let (e, regs1) = spec_clear_afterwards(regs0, settings.gp_config, prev_d, next);
        TextScanState { book: st.book, regs: regs1, prev: Some(instr), maybe_ended: ended0 || e }
    } else {
        let (op, regs1) = if spec_trackable(d) {
            spec_process(regs0, settings.gp_config, settings.endian, d, cr, got)
        } else {
            (InstructionOperation::InvalidInstr {  }, regs0)
        };
        let book = spec_operation_book(st.book, inp, op, d, cv, cr);
        let (e, regs2) = if book.hack != 1 {
            spec_clear_afterwards(regs1, settings.gp_config, prev_d, next)
        } else {
            (false, regs1)
        };
        TextScanState {
            book: Bookkeeping { hack: book.hack - 1, ..book },
            regs: regs2,
            prev: Some(instr),
            maybe_ended: ended0 || e,
        }
    }
}

/// The scan before the first word of a code section at `vram`, with the references and
/// labels found before.
pub open spec fn spec_text_init<L>(
    references: Seq<(Vram, ReferencedAddressModel)>,
    labels: Seq<(Vram, LabelModel<L>)>,
    settings: TextPreheatSettings<L>,
    vram: Vram,
) -> TextScanState<L> {
    TextScanState {
        book: Bookkeeping {
            references,
            labels,
            pic_locals: Map::empty(),
            to_remove: Set::empty(),
            hack: 0,
        },
        regs: spec_initial_regs(Some(vram), settings.gp_config),
        prev: None,
        maybe_ended: false,
    }
}

/// The scan after the first `n` words of a code section, from `init`.
pub open spec fn spec_text_scan<L>(
    init: TextScanState<L>,
    inp: TextInputs<L>,
    settings: TextPreheatSettings<L>,
    got: Option<&GlobalOffsetTable>,
    words: Seq<u32>,
    rom: Rom,
    vram: Vram,
    n: nat,
) -> TextScanState<L>
    decreases n,
{
    if n == 0 {
        init
    } else {
        spec_text_step(spec_text_scan(init, inp, settings, got, words, rom, vram, (n - 1) as nat), inp, settings, got, words, rom, vram, n - 1)
    }
}

/// The references after preheating the code `bytes` at `rom` and `vram`: those the scan of
/// all its words leaves, but for the ones at the second half of a double.
pub open spec fn spec_text_references<L>(
    m: PreheaterModel<L>,
    inp: TextInputs<L>,
    settings: TextPreheatSettings<L>,
    got: Option<&GlobalOffsetTable>,
    bytes: Seq<u8>,
    rom: Rom,
    vram: Vram,
) -> Seq<(Vram, ReferencedAddressModel)> {
    let words = spec_words(settings.endian, bytes);
    let init = spec_text_init(m.references, m.labels, settings, vram);
    let fin = spec_text_scan(init, inp, settings, got, words, rom, vram, words.len());
    fin.book.references.filter(|e: (Vram, ReferencedAddressModel)| !fin.book.to_remove.contains(e.0.inner))
}

/// The labels after preheating the code `bytes` at `rom` and `vram`.
pub open spec fn spec_text_labels<L>(
    m: PreheaterModel<L>,
    inp: TextInputs<L>,
    settings: TextPreheatSettings<L>,
    got: Option<&GlobalOffsetTable>,
    bytes: Seq<u8>,
    rom: Rom,
    vram: Vram,
) -> Seq<(Vram, LabelModel<L>)> {
    let words = spec_words(settings.endian, bytes);
    let init = spec_text_init(m.references, m.labels, settings, vram);
    spec_text_scan(init, inp, settings, got, words, rom, vram, words.len()).book.labels
}

pub open spec fn spec_scan_state<L>(
    m: PreheaterModel<L>,
    pic_locals: Map<u32, Vram>,
    to_remove: Set<u32>,
    hack: int,
    regs: Seq<GprRegisterValue>,
    prev: Option<Instruction>,
    maybe_ended: bool,
) -> TextScanState<L> {
    TextScanState { book: spec_book(m, pic_locals, to_remove, hack), regs, prev, maybe_ended }
}

/// Keeping, of sorted entries `s`, exactly those whose address is not in `rm` gives `t`: the
/// filter of `s`.
proof fn lemma_kept_is_filter<V>(s: Seq<(Vram, V)>, t: Seq<(Vram, V)>, rm: Set<u32>)
    requires
        spec_sorted(s),
        spec_sorted(t),
        forall|i: int| 0 <= i < t.len() ==> s.contains(#[trigger] t[i]) && !rm.contains(t[i].0.inner),
        forall|i: int| 0 <= i < s.len() && !rm.contains(s[i].0.inner) ==> t.contains(#[trigger] s[i]),
    ensures
        t == s.filter(|e: (Vram, V)| !rm.contains(e.0.inner)),
    decreases s.len(),
{
    let pred = |e: (Vram, V)| !rm.contains(e.0.inner);
    reveal(Seq::filter);
    if s.len() == 0 {
        if t.len() > 0 {
            assert(s.contains(t[0]));
        }
        assert(t =~= s);
    } else {
        let x = s.last();
        let n = s.len() - 1;
        let s2 = s.drop_last();
        assert forall|j: int| 0 <= j < n implies s[j].0.inner < x.0.inner by {
            assert(s[j].0.spec_key() < s[n].0.spec_key());
        }
        if pred(x) {
            assert(t.contains(s[n]));
            let jx = choose|j: int| 0 <= j < t.len() && t[j] == x;
            let m = t.len() - 1;
            if jx < m {
                assert(s.contains(t[m]));
                let k = choose|k: int| 0 <= k < s.len() && s[k] == t[m];
                assert(t[jx].0.spec_key() < t[m].0.spec_key());
                if k < n {
                    assert(s[k].0.inner < x.0.inner);
                }
            }
            assert(jx == m);
            let t2 = t.drop_last();
            assert forall|i: int| 0 <= i < t2.len() implies s2.contains(#[trigger] t2[i]) && !rm.contains(t2[i].0.inner) by {
                assert(t2[i] == t[i]);
                assert(s.contains(t[i]));
                let k = choose|k: int| 0 <= k < s.len() && s[k] == t[i];
                assert(t[i].0.spec_key() < t[m].0.spec_key());
                assert(k != n);
                assert(s2[k] == s[k]);
            }
            assert forall|i: int| 0 <= i < s2.len() && !rm.contains(s2[i].0.inner) implies t2.contains(#[trigger] s2[i]) by {
                assert(s2[i] == s[i]);
                assert(t.contains(s[i]));
                let k = choose|k: int| 0 <= k < t.len() && t[k] == s[i];
                assert(s[i].0.inner < x.0.inner);
                assert(k != m);
                assert(t2[k] == t[k]);
            }
            lemma_kept_is_filter(s2, t2, rm);
            assert(t =~= t2.push(x));
        } else {
            assert forall|i: int| 0 <= i < t.len() implies s2.contains(#[trigger] t[i]) && !rm.contains(t[i].0.inner) by {
                assert(s.contains(t[i]));
                let k = choose|k: int| 0 <= k < s.len() && s[k] == t[i];
                assert(k != n);
                assert(s2[k] == s[k]);
            }
            assert forall|i: int| 0 <= i < s2.len() && !rm.contains(s2[i].0.inner) implies t.contains(#[trigger] s2[i]) by {
                assert(s2[i] == s[i]);
            }
            lemma_kept_is_filter(s2, t, rm);
        }
    }
}


/// The labels after the first `n` words of an exception table at `vram`: each word that is an
/// address inside the segment and not ignored marks a label there, referenced by the word.
pub open spec fn spec_except_table_labels<L>(
    labels: Seq<(Vram, LabelModel<L>)>,
    words: Seq<u32>,
    vram: Vram,
    segment: AddressRange<Vram>,
    ignored: Seq<(Vram, Size)>,
    user_labels: Seq<(Vram, L)>,
    n: nat,
) -> Seq<(Vram, LabelModel<L>)>
    decreases n,
{
    if n == 0 {
        labels
    } else {
        let prev = spec_except_table_labels(labels, words, vram, segment, ignored, user_labels, (n - 1) as nat);
        let target = Vram { inner: words[n - 1] };
        if !(exists|i: int| spec_answers(ignored, target.inner as int, true, i)) && segment.spec_in_range(target) {
            spec_new_label(prev, target, Vram { inner: (vram.inner + 4 * (n - 1)) as u32 }, user_labels)
        } else {
            prev
        }
    }
}


/// A section once preheated cannot be preheated again: after its rom and address are
/// recorded (as every successful preheat records them), preheating a section at the same rom
/// fails, whatever its size and address.
pub proof fn lemma_preheated_section_refused_again<L>(
    before: PreheaterModel<L>,
    after: PreheaterModel<L>,
    rom: Rom,
    size: Size,
    other_vram: Vram,
    other_size: nat,
)
    requires
        after.ranges == before.ranges,
        exists|p: int|
            spec_split_at(before.sections_rom, rom.inner as int, p) && after.sections_rom == before.sections_rom.insert(
                p,
                (rom, size),
            ),
    ensures
        spec_preheat_fails(after, rom, other_vram, other_size),
{
    let p = choose|p: int|
        spec_split_at(before.sections_rom, rom.inner as int, p) && after.sections_rom == before.sections_rom.insert(
            p,
            (rom, size),
        );
    lemma_inserted_entry_answers(before.sections_rom, rom.inner as int, p, (rom, size), true);
    assert(spec_rom_taken(after, rom));
}


/// A sorted sequence can be split at any key.
pub proof fn lemma_split_exists<K: AddressValue, V>(s: Seq<(K, V)>, q: int)
    requires
        spec_sorted(s),
    ensures
        exists|p: int| spec_split_at(s, q, p),
    decreases s.len(),
{
    if s.len() == 0 {
        assert(spec_split_at(s, q, 0));
    } else if s.last().0.spec_key() <= q {
        assert forall|j: int| 0 <= j < s.len() implies s[j].0.spec_key() <= q by {
            if j < s.len() - 1 {
                assert(s[j].0.spec_key() < s[s.len() - 1].0.spec_key());
            }
        }
        assert(spec_split_at(s, q, s.len() as int));
    } else {
        let t = s.drop_last();
        lemma_split_exists(t, q);
        let p = choose|p: int| spec_split_at(t, q, p);
        assert forall|j: int| 0 <= j < p implies s[j].0.spec_key() <= q by {
            assert(s[j] == t[j]);
        }
        if p < t.len() {
            assert(s[p] == t[p]);
        }
        assert(spec_split_at(s, q, p));
    }
}

/// Where recording a reference lands, in the references it gives: within them.
proof fn lemma_reference_slot_in_range(
    refs: Seq<(Vram, ReferencedAddressModel)>,
    vram: Vram,
    user_symbols: Seq<(Vram, UserSymbolInfo)>,
)
    requires
        spec_sorted(refs),
    ensures
        0 <= spec_reference_slot(refs, vram, user_symbols, true).1 < spec_reference_slot(refs, vram, user_symbols, true).0.len(),
{
    let q = vram.inner as int;
    if !(exists|k: int| spec_reference_answers(refs, q, true, k)) {
        let made = spec_reference_made(vram, user_symbols, true);
        if !(exists|j: int| 0 <= j < refs.len() && refs[j].0.inner == made.0.inner) {
            lemma_split_exists(refs, made.0.inner as int);
        }
    }
}

/// Recording a reference to an address that is not ignored touches one entry of the
/// references: that entry gets `referenced_by` as its last referrer, and recording `action`
/// on it again would change nothing (it is recorded).
pub proof fn lemma_new_reference_records(
    refs: Seq<(Vram, ReferencedAddressModel)>,
    vram: Vram,
    referenced_by: Vram,
    action: RefAction,
    user_symbols: Seq<(Vram, UserSymbolInfo)>,
    ignored: Seq<(Vram, Size)>,
)
    requires
        spec_sorted(refs),
        forall|i: int| !spec_answers(ignored, vram.inner as int, true, i),
    ensures
        spec_new_reference(refs, vram, Some(referenced_by), action, user_symbols, ignored, true).1,
        exists|i: int|
            #![trigger spec_new_reference(refs, vram, Some(referenced_by), action, user_symbols, ignored, true).0[i]]
            {
                &&& 0 <= i < spec_new_reference(refs, vram, Some(referenced_by), action, user_symbols, ignored, true).0.len()
                &&& spec_new_reference(refs, vram, Some(referenced_by), action, user_symbols, ignored, true).0[i].1.referenced_by.len() >= 1
                &&& spec_new_reference(refs, vram, Some(referenced_by), action, user_symbols, ignored, true).0[i].1.referenced_by.last() == referenced_by
                &&& spec_new_reference(refs, vram, Some(referenced_by), action, user_symbols, ignored, true).0[i].1 == spec_apply_action(
                    spec_new_reference(refs, vram, Some(referenced_by), action, user_symbols, ignored, true).0[i].1,
                    action,
                )
            },
{
    lemma_reference_slot_in_range(refs, vram, user_symbols);
    let (s, i) = spec_reference_slot(refs, vram, user_symbols, true);
    let m = s[i].1;
    let m1 = ReferencedAddressModel { referenced_by: m.referenced_by.push(referenced_by), ..m };
    let after = s.update(i, (s[i].0, spec_apply_action(m1, action)));
    assert(spec_new_reference(refs, vram, Some(referenced_by), action, user_symbols, ignored, true) == (after, true));
    assert(spec_new_reference(refs, vram, Some(referenced_by), action, user_symbols, ignored, true).0[i] == after[i]);
    assert(after[i].1.referenced_by == m1.referenced_by);
    assert(spec_apply_action(after[i].1, action) == after[i].1) by {
        match action {
            RefAction::SymType(t) => {
                let x = m1.autodetected_types;
                if !x.contains(t) {
                    assert(x.push(t)[x.len() as int] == t);
                }
            },
            RefAction::Access(a) => {
                let x = m1.access_types;
                if !x.contains(a) {
                    assert(x.push(a)[x.len() as int] == a);
                }
            },
            _ => {},
        }
    }
}

/// Recording a reference to an address that nothing answers (it is not ignored, no reference
/// spans it, no declared symbol does, and no reference starts there) adds one new reference
/// there, referenced only by `referenced_by`, with `action` recorded.
pub proof fn lemma_new_reference_to_fresh_address(
    refs: Seq<(Vram, ReferencedAddressModel)>,
    vram: Vram,
    referenced_by: Vram,
    action: RefAction,
    user_symbols: Seq<(Vram, UserSymbolInfo)>,
    ignored: Seq<(Vram, Size)>,
)
    requires
        spec_sorted(refs),
        forall|i: int| !spec_answers(ignored, vram.inner as int, true, i),
        forall|i: int| !spec_reference_answers(refs, vram.inner as int, true, i),
        forall|i: int| !spec_answers(user_symbols, vram.inner as int, true, i),
        forall|j: int| 0 <= j < refs.len() ==> refs[j].0.inner != vram.inner,
    ensures
        spec_new_reference(refs, vram, Some(referenced_by), action, user_symbols, ignored, true).0.len() == refs.len() + 1,
        exists|i: int|
            #![trigger spec_new_reference(refs, vram, Some(referenced_by), action, user_symbols, ignored, true).0[i]]
            {
                &&& 0 <= i < spec_new_reference(refs, vram, Some(referenced_by), action, user_symbols, ignored, true).0.len()
                &&& spec_new_reference(refs, vram, Some(referenced_by), action, user_symbols, ignored, true).0[i].0 == vram
                &&& spec_new_reference(refs, vram, Some(referenced_by), action, user_symbols, ignored, true).0[i].1 == spec_apply_action(
                    ReferencedAddressModel { referenced_by: seq![referenced_by], ..spec_fresh_reference(vram) },
                    action,
                )
            },
{
    lemma_reference_slot_in_range(refs, vram, user_symbols);
    let made = spec_reference_made(vram, user_symbols, true);
    assert(made == (vram, spec_fresh_reference(vram)));
    assert(!(exists|j: int| 0 <= j < refs.len() && refs[j].0.inner == made.0.inner));
    lemma_split_exists(refs, vram.inner as int);
    let (s, i) = spec_reference_slot(refs, vram, user_symbols, true);
    assert(s.len() == refs.len() + 1);
    assert(s[i] == made);
    let m1 = ReferencedAddressModel { referenced_by: s[i].1.referenced_by.push(referenced_by), ..s[i].1 };
    assert(m1.referenced_by =~= seq![referenced_by]);
    let after = s.update(i, (s[i].0, spec_apply_action(m1, action)));
    assert(spec_new_reference(refs, vram, Some(referenced_by), action, user_symbols, ignored, true) == (after, true));
    assert(spec_new_reference(refs, vram, Some(referenced_by), action, user_symbols, ignored, true).0[i] == after[i]);
    assert(after[i].0 == vram);
}

/// A `%gp_rel` access (`lw $a0, %gp_rel(sym)($gp)`), or a `%lo` access paired to a `%hi`
/// (`lw $a0, %lo(sym)($at)`) other than one that sets `$gp` from itself, in code makes the
/// preheater record a reference for `sym`, referenced by the instruction and with the instruction's kind of
/// access, unless `sym` is ignored: the references change exactly as recording `sym` does.
/// Nothing else the preheater keeps changes.
pub proof fn lemma_gp_rel_access_is_referenced<L>(
    b: Bookkeeping<L>,
    inp: TextInputs<L>,
    d: DecodedInstr,
    cur_vram: Vram,
    cur_rom: Rom,
    vram: Vram,
    access_info: Option<(AccessType, bool)>,
    info: InstrOpPairedAddress,
)
    requires
        spec_sorted(b.references),
        forall|i: int| !spec_answers(inp.ignored, vram.inner as int, true, i),
        info == (InstrOpPairedAddress::GpRel { access_info }) || (info matches InstrOpPairedAddress::PairedLo {
            access_info: a,
            ..
        } && a == access_info && !spec_gp_to_gp(d)),
    ensures
        ({
            let op = InstructionOperation::PairedAddress { vram, info };
            let after = spec_operation_book(b, inp, op, d, cur_vram, cur_rom);
            let action = match access_info {
                Some((a, _)) => RefAction::Access(a),
                None => RefAction::Nothing,
            };
            &&& after.references == spec_new_reference(
                b.references,
                vram,
                Some(cur_vram),
                action,
                inp.user_symbols,
                inp.ignored,
                true,
            ).0
            &&& after.labels == b.labels
            &&& after.pic_locals == b.pic_locals
            &&& after.hack == b.hack
            &&& exists|i: int|
                0 <= i < after.references.len() && (#[trigger] after.references[i]).1.referenced_by.len() >= 1
                    && after.references[i].1.referenced_by.last() == cur_vram && (access_info matches Some((a, _))
                    ==> after.references[i].1.access_types.contains(a))
        }),
{
    let action = match access_info {
        Some((a, _)) => RefAction::Access(a),
        None => RefAction::Nothing,
    };
    let op = InstructionOperation::PairedAddress { vram, info };
    assert(spec_paired_target(op, d, cur_vram) == Some((vram, Some(cur_vram), access_info)));
    assert(!(info is PairedGpGotLo));
    lemma_new_reference_records(b.references, vram, cur_vram, action, inp.user_symbols, inp.ignored);
    let after = spec_new_reference(b.references, vram, Some(cur_vram), action, inp.user_symbols, inp.ignored, true).0;
    assert(spec_operation_book(b, inp, op, d, cur_vram, cur_rom).references == after);
    let i = choose|i: int|
        {
            &&& 0 <= i < after.len()
            &&& (#[trigger] after[i]).1.referenced_by.len() >= 1
            &&& after[i].1.referenced_by.last() == cur_vram
            &&& after[i].1 == spec_apply_action(after[i].1, action)
        };
    if let Some((a, _)) = access_info {
        assert(after[i].1.access_types == spec_push_new(after[i].1.access_types, a));
        if !after[i].1.access_types.contains(a) {
            assert(after[i].1.access_types.push(a).len() == after[i].1.access_types.len() + 1);
        }
    }
}

/// A `%gp_rel` access to a symbol nothing is known of yet (not ignored, not inside a known
/// reference or declared symbol, no reference starting there) adds exactly one reference, at
/// the symbol, referenced only by the instruction and with only the instruction's kind of
/// access.
pub proof fn lemma_gp_rel_access_to_fresh_symbol<L>(
    b: Bookkeeping<L>,
    inp: TextInputs<L>,
    d: DecodedInstr,
    cur_vram: Vram,
    cur_rom: Rom,
    vram: Vram,
    access: AccessType,
    unsigned: bool,
)
    requires
        spec_sorted(b.references),
        forall|i: int| !spec_answers(inp.ignored, vram.inner as int, true, i),
        forall|i: int| !spec_reference_answers(b.references, vram.inner as int, true, i),
        forall|i: int| !spec_answers(inp.user_symbols, vram.inner as int, true, i),
        forall|j: int| 0 <= j < b.references.len() ==> b.references[j].0.inner != vram.inner,
    ensures
        spec_operation_book(
            b,
            inp,
            InstructionOperation::PairedAddress {
                vram,
                info: InstrOpPairedAddress::GpRel { access_info: Some((access, unsigned)) },
            },
            d,
            cur_vram,
            cur_rom,
        ).references.len() == b.references.len() + 1,
        exists|i: int|
            #![trigger spec_operation_book(b, inp, InstructionOperation::PairedAddress { vram, info: InstrOpPairedAddress::GpRel { access_info: Some((access, unsigned)) } }, d, cur_vram, cur_rom).references[i]]
            {
                let refs = spec_operation_book(
                    b,
                    inp,
                    InstructionOperation::PairedAddress {
                        vram,
                        info: InstrOpPairedAddress::GpRel { access_info: Some((access, unsigned)) },
                    },
                    d,
                    cur_vram,
                    cur_rom,
                ).references;
                &&& 0 <= i < refs.len()
                &&& refs[i].0 == vram
                &&& refs[i].1.referenced_by == seq![cur_vram]
                &&& refs[i].1.access_types == seq![access]
            },
{
    let action = RefAction::Access(access);
    lemma_new_reference_to_fresh_address(b.references, vram, cur_vram, action, inp.user_symbols, inp.ignored);
    let after = spec_new_reference(b.references, vram, Some(cur_vram), action, inp.user_symbols, inp.ignored, true).0;
    let i = choose|i: int|
        #![trigger after[i]]
        {
            &&& 0 <= i < after.len()
            &&& after[i].0 == vram
            &&& after[i].1 == spec_apply_action(
                ReferencedAddressModel { referenced_by: seq![cur_vram], ..spec_fresh_reference(vram) },
                action,
            )
        };
    assert(after[i].1.access_types =~= seq![access]);
    let op = InstructionOperation::PairedAddress { vram, info: InstrOpPairedAddress::GpRel { access_info: Some((access, unsigned)) } };
    assert(spec_operation_book(b, inp, op, d, cur_vram, cur_rom).references == after);
    assert(spec_operation_book(b, inp, op, d, cur_vram, cur_rom).references[i] == after[i]);
}

/// `u32` keys are ordered as the integers are, so the unordered collections' contracts apply.
proof fn lemma_u32_keys_ordered()
    ensures
        vstd::laws_cmp::obeys_cmp::<u32>(),
{
    broadcast use vstd::laws_cmp::group_laws_cmp;
}

/// A position that splits a sequence at a key is unique.
pub proof fn lemma_split_unique<K: AddressValue, V>(s: Seq<(K, V)>, q: int, p1: int, p2: int)
    requires
        spec_split_at(s, q, p1),
        spec_split_at(s, q, p2),
    ensures
        p1 == p2,
{
    if p1 < p2 {
        assert(s[p1].0.spec_key() <= q);
    } else if p2 < p1 {
        assert(s[p2].0.spec_key() <= q);
    }
}

proof fn lemma_reference_models(e: Seq<(Vram, ReferencedAddress)>)
    ensures
        spec_reference_models(e).len() == e.len(),
        forall|i: int| 0 <= i < e.len() ==> #[trigger] spec_reference_models(e)[i] == (e[i].0, e[i].1@),
        spec_sorted(e) ==> spec_sorted(spec_reference_models(e)),
        forall|q: int, allow: bool, i: int|
            #[trigger] spec_answers(e, q, allow, i) == spec_reference_answers(spec_reference_models(e), q, allow, i),
{
    let m = spec_reference_models(e);
    assert forall|q: int, allow: bool, i: int|
        #[trigger] spec_answers(e, q, allow, i) == spec_reference_answers(m, q, allow, i) by {
        if 0 <= i < e.len() {
            assert(m[i] == (e[i].0, e[i].1@));
            if i + 1 < e.len() {
                assert(m[i + 1] == (e[i + 1].0, e[i + 1].1@));
            }
        }
    }
}

proof fn lemma_label_models<L: LabelPrecedence>(e: Seq<(Vram, ReferencedLabel<L>)>)
    ensures
        spec_label_models(e).len() == e.len(),
        forall|i: int| 0 <= i < e.len() ==> #[trigger] spec_label_models(e)[i] == (e[i].0, spec_label_model(e[i].1)),
        spec_sorted(e) ==> spec_sorted(spec_label_models(e)),
        forall|q: int, i: int|
            #[trigger] spec_answers(e, q, false, i) == spec_label_at(spec_label_models(e), q, i),
{
    let m = spec_label_models(e);
    assert forall|q: int, i: int| #[trigger] spec_answers(e, q, false, i) == spec_label_at(m, q, i) by {
        if 0 <= i < e.len() {
            assert(m[i] == (e[i].0, spec_label_model(e[i].1)));
            if i + 1 < e.len() {
                assert(m[i + 1] == (e[i + 1].0, spec_label_model(e[i + 1].1)));
            }
        }
    }
}


/// A lookup that an existing reference answers touches that reference.
proof fn lemma_slot_found(
    before: Seq<(Vram, ReferencedAddress)>,
    after: Seq<(Vram, ReferencedAddress)>,
    vram: Vram,
    user_symbols: Seq<(Vram, UserSymbolInfo)>,
    allow: bool,
    i: int,
    changed: ReferencedAddress,
)
    requires
        spec_sorted(before),
        spec_answers(before, vram.inner as int, allow, i),
        after == before.update(i, (before[i].0, changed)),
    ensures
        ({
            let m = spec_reference_models(before);
            let (s, k) = spec_reference_slot(m, vram, user_symbols, allow);
            &&& s == m
            &&& k == i
            &&& spec_reference_models(after) == s.update(k, (s[k].0, changed@))
        }),
{
    lemma_reference_models(before);
    lemma_reference_models(after);
    let m = spec_reference_models(before);
    let q = vram.inner as int;
    assert(spec_reference_answers(m, q, allow, i));
    let c = choose|c: int| spec_reference_answers(m, q, allow, c);
    lemma_last_at_or_below_unique(m, q, i, c);
    assert(spec_reference_models(after) =~= m.update(i, (m[i].0, changed@)));
}

/// A lookup that nothing answers, whose made reference's address already has an entry,
/// touches that entry.
proof fn lemma_slot_existing(
    before: Seq<(Vram, ReferencedAddress)>,
    after: Seq<(Vram, ReferencedAddress)>,
    vram: Vram,
    user_symbols: Seq<(Vram, UserSymbolInfo)>,
    allow: bool,
    made: (Vram, ReferencedAddress),
    j: int,
    changed: ReferencedAddress,
)
    requires
        spec_sorted(before),
        forall|i: int| !spec_answers(before, vram.inner as int, allow, i),
        (made.0, made.1@) == spec_reference_made(vram, user_symbols, allow),
        0 <= j < before.len(),
        before[j].0.spec_key() == made.0.spec_key(),
        after == before.update(j, (before[j].0, changed)),
    ensures
        ({
            let m = spec_reference_models(before);
            let (s, k) = spec_reference_slot(m, vram, user_symbols, allow);
            &&& s == m
            &&& k == j
            &&& spec_reference_models(after) == s.update(k, (s[k].0, changed@))
        }),
{
    lemma_reference_models(before);
    lemma_reference_models(after);
    let m = spec_reference_models(before);
    let q = vram.inner as int;
    assert forall|i: int| !spec_reference_answers(m, q, allow, i) by {
        assert(!spec_answers(before, q, allow, i));
    }
    let mm = spec_reference_made(vram, user_symbols, allow);
    assert(0 <= j < m.len() && m[j].0.inner == mm.0.inner);
    let c = choose|c: int| 0 <= c < m.len() && m[c].0.inner == mm.0.inner;
    if c < j {
        assert(m[c].0.spec_key() < m[j].0.spec_key());
    } else if j < c {
        assert(m[j].0.spec_key() < m[c].0.spec_key());
    }
    assert(spec_reference_models(after) =~= m.update(j, (m[j].0, changed@)));
}

/// A lookup that nothing answers, whose made reference's address has no entry, inserts it.
proof fn lemma_slot_new(
    before: Seq<(Vram, ReferencedAddress)>,
    after: Seq<(Vram, ReferencedAddress)>,
    vram: Vram,
    user_symbols: Seq<(Vram, UserSymbolInfo)>,
    allow: bool,
    made: (Vram, ReferencedAddress),
    p: int,
    changed: ReferencedAddress,
)
    requires
        spec_sorted(before),
        forall|i: int| !spec_answers(before, vram.inner as int, allow, i),
        (made.0, made.1@) == spec_reference_made(vram, user_symbols, allow),
        spec_split_at(before, made.0.spec_key(), p),
        forall|j: int| 0 <= j < before.len() ==> before[j].0.spec_key() != made.0.spec_key(),
        after == before.insert(p, (made.0, changed)),
    ensures
        ({
            let m = spec_reference_models(before);
            let (s, k) = spec_reference_slot(m, vram, user_symbols, allow);
            &&& s == m.insert(p, spec_reference_made(vram, user_symbols, allow))
            &&& k == p
            &&& spec_reference_models(after) == s.update(k, (s[k].0, changed@))
        }),
{
    lemma_reference_models(before);
    lemma_reference_models(after);
    let m = spec_reference_models(before);
    let q = vram.inner as int;
    assert forall|i: int| !spec_reference_answers(m, q, allow, i) by {
        assert(!spec_answers(before, q, allow, i));
    }
    let mm = spec_reference_made(vram, user_symbols, allow);
    assert forall|j: int| 0 <= j < m.len() implies m[j].0.inner != mm.0.inner by {
        assert(before[j].0.spec_key() != made.0.spec_key());
    }
    assert forall|j: int| 0 <= j < p implies m[j].0.spec_key() <= mm.0.inner as int by {
        assert(before[j].0.spec_key() <= made.0.spec_key());
    }
    assert(spec_split_at(m, mm.0.inner as int, p));
    let c = choose|c: int| spec_split_at(m, mm.0.inner as int, c);
    lemma_split_unique(m, mm.0.inner as int, p, c);
    let ins = m.insert(p, mm);
    assert(ins[p] == mm);
    assert(spec_reference_models(after) =~= ins.update(p, (ins[p].0, changed@)));
}

/// The reference a lookup of `vram` makes when none answers it (see [`spec_reference_made`]).
fn make_reference(vram: Vram, user_symbols: &AddendedOrderedMap<Vram, UserSymbolInfo>, settings: FindSettings) -> (r: (
    Vram,
    ReferencedAddress,
))
    requires
        user_symbols.well_formed(),
    ensures
        (r.0, r.1@) == spec_reference_made(vram, user_symbols.spec_entries(), settings.allows_addend()),
{
    match user_symbols.find(&vram, settings) {
        Some(info) => {
            proof {
                let s = user_symbols.spec_entries();
                let i = choose|i: int| spec_answers(s, vram.spec_key(), settings.allows_addend(), i) && s[i].1 == *info;
                let c = choose|i: int| spec_answers(s, vram.inner as int, settings.allows_addend(), i);
                lemma_last_at_or_below_unique(s, vram.inner as int, i, c);
            }
            let v = info.vram;
            let mut refer = ReferencedAddress::new_user_declared(v);
            if let Some(t) = info.user_declared_type {
                refer.set_user_declared_type(t);
            }
            if let Some(size) = info.user_declared_size {
                refer.set_user_declared_size(size);
            }
            (v, refer)
        },
        None => (vram, ReferencedAddress::new(vram)),
    }
}

/// The kind the first of `user_labels` at `vram` declares (see [`spec_user_label`]).
fn find_user_label<L: LabelPrecedence>(user_labels: &Vec<(Vram, L)>, vram: Vram) -> (r: Option<L>)
    ensures
        r == spec_user_label(user_labels@, vram),
{
    let mut i: usize = 0;
    while i < user_labels.len()
        invariant
            i <= user_labels@.len(),
            forall|j: int| 0 <= j < i ==> user_labels@[j].0 != vram,
        decreases user_labels@.len() - i,
    {
        if user_labels[i].0.inner == vram.inner {
            proof {
                let s = user_labels@;
                assert(0 <= i < s.len() && s[i as int].0 == vram && forall|j: int| 0 <= j < i ==> s[j].0 != vram);
                let c = choose|c: int|
                    0 <= c < s.len() && s[c].0 == vram && forall|j: int| 0 <= j < c ==> s[j].0 != vram;
                if c < i {
                } else if i < c {
                    assert(s[i as int].0 != vram);
                }
            }
            return Some(user_labels[i].1);
        }
        i = i + 1;
    }
    None
}

/// A label at `vram` not seen before: user declared when `user_labels` declares one there.
fn make_label<L: LabelPrecedence>(vram: Vram, label_type: L, user_labels: &Vec<(Vram, L)>) -> (r: ReferencedLabel<L>)
    ensures
        spec_label_model(r) == (LabelModel {
            vram,
            user_declared: spec_user_label(user_labels@, vram) is Some,
            user_declared_type: spec_user_label(user_labels@, vram),
            referenced_by: Seq::<Vram>::empty(),
        }),
{
    match find_user_label(user_labels, vram) {
        Some(t) => ReferencedLabel::new_user_declared(vram, t),
        None => ReferencedLabel::new(vram, label_type),
    }
}

fn apply_action(refer: &mut ReferencedAddress, action: RefAction)
    ensures
        final(refer)@ == spec_apply_action(old(refer)@, action),
{
    match action {
        RefAction::Nothing => {},
        RefAction::SymType(t) => refer.set_sym_type(t),
        RefAction::AddGpToPointedData => refer.set_add_gp_to_pointed_data(),
        RefAction::Access(a) => refer.set_access_type(a),
    }
}

impl<L: LabelPrecedence> Preheater<L> {
    /// Every map is ordered, and every preheated section lies inside the address space.
    pub closed spec fn well_formed(self) -> bool {
        &&& self.references.well_formed()
        &&& self.label_references.well_formed()
        &&& self.preheated_sections_rom.well_formed()
        &&& self.preheated_sections_vram.well_formed()
        &&& forall|i: int|
            0 <= i < self@.sections_vram.len() ==> {
                let (k, s) = #[trigger] self@.sections_vram[i];
                &&& s.vram == k
                &&& k.inner + s.size.inner <= u32::MAX
            }
    }

    /// A preheater for the segment `segment_name` spanning `ranges`; nothing preheated yet.
    pub fn new(segment_name: Option<String>, ranges: RomVramRange) -> (r: Self)
        ensures
            r.well_formed(),
            r@.segment_name == segment_name,
            r@.ranges == ranges,
            r@.references == Seq::<(Vram, ReferencedAddressModel)>::empty(),
            r@.labels == Seq::<(Vram, LabelModel<L>)>::empty(),
            r@.sections_rom == Seq::<(Rom, Size)>::empty(),
            r@.sections_vram == Seq::<(Vram, PreheatedSection)>::empty(),
    {
        Preheater {
            segment_name,
            ranges,
            references: AddendedOrderedMap::new(),
            label_references: AddendedOrderedMap::new(),
            preheated_sections_rom: AddendedOrderedMap::new(),
            preheated_sections_vram: AddendedOrderedMap::new(),
        }
    }


    /// The references found so far, in address order.
    pub fn references(&self) -> (r: &AddendedOrderedMap<Vram, ReferencedAddress>)
        requires
            self.well_formed(),
        ensures
            r.well_formed(),
            spec_reference_models(r.spec_entries()) == self@.references,
    {
        &self.references
    }

    /// The labels found so far, in address order.
    pub fn label_references(&self) -> (r: &AddendedOrderedMap<Vram, ReferencedLabel<L>>)
        requires
            self.well_formed(),
        ensures
            r.well_formed(),
            spec_label_models(r.spec_entries()) == self@.labels,
    {
        &self.label_references
    }

    /// The sections preheated so far, by rom, with their sizes.
    pub fn preheated_sections_rom(&self) -> (r: &AddendedOrderedMap<Rom, Size>)
        ensures
            r.spec_entries() == self@.sections_rom,
    {
        &self.preheated_sections_rom
    }

    /// Checks that the section `name`, holding `raw_bytes` at `rom` and loaded at `vram`, may be
    /// preheated, and records it as preheated. It fails, changing nothing, when the section lies
    /// outside the segment (by rom first, then by virtual address), when a section was already
    /// preheated at that rom, or when its address falls inside a section preheated before.
    pub fn check_failable_preconditions(&mut self, name: String, raw_bytes: &[u8], rom: Rom, vram: Vram) -> (r:
        Result<(), PreheatError>)
        requires
            old(self).well_formed(),
            raw_bytes@.len() <= u32::MAX,
            rom.inner + raw_bytes@.len() <= u32::MAX,
            vram.inner + raw_bytes@.len() <= u32::MAX,
        ensures
            final(self).well_formed(),
            r is Err <==> spec_preheat_fails(old(self)@, rom, vram, raw_bytes@.len()),
            r is Err ==> final(self)@ == old(self)@,
            r matches Err(e) ==> e.segment_name == old(self)@.segment_name && e.section_name == name
                && e.section_rom == rom && e.section_vram == vram,
            r matches Err(e) ==> (e.inner is WrongRom <==> !spec_rom_inside(old(self)@, rom, raw_bytes@.len())),
            r matches Err(e) ==> (e.inner is WrongVram <==> (spec_rom_inside(old(self)@, rom, raw_bytes@.len())
                && !spec_vram_inside(old(self)@, vram, raw_bytes@.len()))),
            r matches Err(e) ==> (e.inner is AlreadyPreheated <==> (spec_rom_inside(old(self)@, rom, raw_bytes@.len())
                && spec_vram_inside(old(self)@, vram, raw_bytes@.len()) && spec_rom_taken(old(self)@, rom))),
            r matches Err(PreheatError { inner: PreheatErrorKind::WrongRom { segment_range, section_end }, .. })
                ==> segment_range == old(self)@.ranges.spec_rom() && section_end.inner == rom.inner
                + raw_bytes@.len(),
            r matches Err(PreheatError { inner: PreheatErrorKind::WrongVram { segment_range, section_end }, .. })
                ==> segment_range == old(self)@.ranges.spec_vram() && section_end.inner == vram.inner
                + raw_bytes@.len(),
            r matches Err(PreheatError { inner: PreheatErrorKind::OverlapsWithAlreadyPreheated { other_name, other_range }, .. })
                ==> exists|i: int|
                spec_answers(old(self)@.sections_vram, vram.inner as int, true, i) && other_name
                    == old(self)@.sections_vram[i].1.name && other_range.spec_start() == old(self)@.sections_vram[i].0
                    && other_range.spec_end().inner == old(self)@.sections_vram[i].0.inner
                    + old(self)@.sections_vram[i].1.size.inner,
            r is Ok ==> final(self)@.segment_name == old(self)@.segment_name && final(self)@.ranges == old(
                self,
            )@.ranges && final(self)@.references == old(self)@.references && final(self)@.labels == old(
                self,
            )@.labels,
            r is Ok ==> exists|p: int|
                spec_split_at(old(self)@.sections_rom, rom.inner as int, p) && final(self)@.sections_rom == old(
                    self,
                )@.sections_rom.insert(p, (rom, Size { inner: raw_bytes@.len() as u32 })),
            r is Ok ==> exists|p: int|
                spec_split_at(old(self)@.sections_vram, vram.inner as int, p) && final(self)@.sections_vram == old(
                    self,
                )@.sections_vram.insert(
                    p,
                    (vram, PreheatedSection { name, vram, size: Size { inner: raw_bytes@.len() as u32 } }),
                ),
    {
        let size = Size::new(raw_bytes.len() as u32);
        let rom_end = size.add_rom(&rom);
        let vram_end = size.add_vram(&vram);
        let rom_range = *self.ranges.rom();
        let vram_range = *self.ranges.vram();
        let rom_start = rom_range.start();
        let rom_limit = rom_range.end();
        let vram_start = vram_range.start();
        let vram_limit = vram_range.end();
        if !rom_range.in_range(rom) || !(rom_start.inner <= rom_end.inner && rom_end.inner <= rom_limit.inner) {
            return Err(
                PreheatError::new_wrong_rom(self.segment_name.clone(), name, rom, vram, rom_range, rom_end),
            );
        }
        if !vram_range.in_range(vram) || !(vram_start.inner <= vram_end.inner && vram_end.inner
            <= vram_limit.inner) {
            return Err(
                PreheatError::new_wrong_vram(self.segment_name.clone(), name, rom, vram, vram_range, vram_end),
            );
        }
        let settings = FindSettings::new(true);
        if let Some(taken) = self.preheated_sections_rom.find(&rom, settings) {
            proof {
                let i = choose|i: int|
                    spec_answers(self.preheated_sections_rom.spec_entries(), rom.spec_key(), settings.allows_addend(), i)
                        && self.preheated_sections_rom.spec_entries()[i].1 == *taken;
                assert(spec_answers(self@.sections_rom, rom.inner as int, true, i));
            }
            return Err(PreheatError::new_already_preheated(self.segment_name.clone(), name, rom, vram));
        }
        if let Some(other) = self.preheated_sections_vram.find(&vram, FindSettings::new(true)) {
            proof {
                let i = choose|i: int|
                    spec_answers(self@.sections_vram, vram.inner as int, true, i) && self@.sections_vram[i].1
                        == *other;
                assert(self@.sections_vram[i].0.inner + self@.sections_vram[i].1.size.inner <= u32::MAX);
            }
            return Err(
                PreheatError::new_overlaps_with_already_preheated(
                    self.segment_name.clone(),
                    name,
                    rom,
                    vram,
                    other.name.clone(),
                    other.vram,
                    other.size,
                ),
            );
        }
        let ghost before = self@;
        proof {
            assert forall|i: int| !spec_answers(before.sections_rom, rom.inner as int, false, i) by {
                assert(!spec_answers(before.sections_rom, rom.inner as int, true, i));
            }
            assert forall|i: int| !spec_answers(before.sections_vram, vram.inner as int, false, i) by {
                assert(!spec_answers(before.sections_vram, vram.inner as int, true, i));
            }
        }
        let inserted = self.preheated_sections_rom.find_mut_or_insert_with(
            rom,
            FindSettings::new(false),
            (|| -> (r: Size) ensures r == size, { size }),
        );
        let ghost new_size = *inserted.0;
        proof {
            let p = choose|p: int|
                spec_split_at(before.sections_rom, rom.spec_key(), p) && inserted.1 && new_size == size
                    && self.preheated_sections_rom.spec_entries() == before.sections_rom.insert(p, (rom, new_size));
            assert(spec_split_at(before.sections_rom, rom.inner as int, p));
        }
        let section = PreheatedSection { name, vram, size };
        let ghost new_section = section;
        let _ = self.preheated_sections_vram.find_mut_or_insert_with(
            vram,
            FindSettings::new(false),
            (|| -> (r: PreheatedSection) ensures r == section, { section }),
        );
        proof {
            let p = choose|p: int|
                spec_split_at(before.sections_vram, vram.inner as int, p) && self@.sections_vram == before.sections_vram.insert(
                    p,
                    (vram, new_section),
                );
            assert forall|i: int| 0 <= i < self@.sections_vram.len() implies {
                let (k, s) = #[trigger] self@.sections_vram[i];
                &&& s.vram == k
                &&& k.inner + s.size.inner <= u32::MAX
            } by {
                if i < p {
                    assert(self@.sections_vram[i] == before.sections_vram[i]);
                } else if i > p {
                    assert(self@.sections_vram[i] == before.sections_vram[i - 1]);
                }
            }
        }
        Ok(())
    }

    /// Records that `vram` is referenced (by `referenced_by`, if known) and records `action` on
    /// its reference, unless it lies in an ignored range. With `allow_addend`, an address
    /// inside a known reference or a declared symbol counts as that one.
    fn new_ref(
        &mut self,
        vram: Vram,
        referenced_by: Option<Vram>,
        action: RefAction,
        user_symbols: &AddendedOrderedMap<Vram, UserSymbolInfo>,
        ignored_addresses: &AddendedOrderedMap<Vram, Size>,
        allow_addend: bool,
    ) -> (r: bool)
        requires
            old(self).well_formed(),
            user_symbols.well_formed(),
            ignored_addresses.well_formed(),
        ensures
            final(self).well_formed(),
            (final(self)@.references, r) == spec_new_reference(
                old(self)@.references,
                vram,
                referenced_by,
                action,
                user_symbols.spec_entries(),
                ignored_addresses.spec_entries(),
                allow_addend,
            ),
            final(self)@ == (PreheaterModel { references: final(self)@.references, ..old(self)@ }),
    {
        if ignored_addresses.find(&vram, FindSettings::new(true)).is_some() {
            return false;
        }
        let ghost before = self.references.spec_entries();
        proof {
            lemma_reference_models(before);
        }
        let settings = FindSettings::new(allow_addend);
        let make = || -> (r: (Vram, ReferencedAddress))
            requires
                user_symbols.well_formed(),
            ensures
                (r.0, r.1@) == spec_reference_made(vram, user_symbols.spec_entries(), allow_addend),
            { make_reference(vram, user_symbols, settings) };
        let (refer, _) = self.references.find_mut_or_insert_with_key_value(&vram, settings, make);
        let ghost found = *refer;
        if let Some(by) = referenced_by {
            refer.add_referenced_by(by);
        }
        apply_action(refer, action);
        let ghost changed = *refer;
        proof {
            let after = self.references.spec_entries();
            let q = vram.inner as int;
            let m1 = match referenced_by {
                Some(b) => ReferencedAddressModel { referenced_by: found@.referenced_by.push(b), ..found@ },
                None => found@,
            };
            assert(changed@ == spec_apply_action(m1, action));
            if exists|i: int| spec_answers(before, q, allow_addend, i) {
                let i = choose|i: int|
                    {
                        &&& spec_answers(before, vram.spec_key(), settings.allows_addend(), i)
                        &&& found == before[i].1
                        &&& after == before.update(i, (before[i].0, changed))
                    };
                lemma_slot_found(before, after, vram, user_symbols.spec_entries(), allow_addend, i, changed);
            } else {
                let made = choose|made: (Vram, ReferencedAddress)|
                    {
                        &&& make.ensures((), made)
                        &&& ((exists|j: int|
                            {
                                &&& 0 <= j < before.len()
                                &&& before[j].0.spec_key() == made.0.spec_key()
                                &&& found == before[j].1
                                &&& after == before.update(j, (before[j].0, changed))
                            }) || (exists|p: int|
                            {
                                &&& spec_split_at(before, made.0.spec_key(), p)
                                &&& (forall|j: int| 0 <= j < before.len() ==> before[j].0.spec_key() != made.0.spec_key())
                                &&& found == made.1
                                &&& after == before.insert(p, (made.0, changed))
                            }))
                    };
                assert((made.0, made.1@) == spec_reference_made(vram, user_symbols.spec_entries(), allow_addend));
                if exists|j: int|
                    {
                        &&& 0 <= j < before.len()
                        &&& before[j].0.spec_key() == made.0.spec_key()
                        &&& found == before[j].1
                        &&& after == before.update(j, (before[j].0, changed))
                    } {
                    let j = choose|j: int|
                        {
                            &&& 0 <= j < before.len()
                            &&& before[j].0.spec_key() == made.0.spec_key()
                            &&& found == before[j].1
                            &&& after == before.update(j, (before[j].0, changed))
                        };
                    lemma_slot_existing(before, after, vram, user_symbols.spec_entries(), allow_addend, made, j, changed);
                } else {
                    let p = choose|p: int|
                        {
                            &&& spec_split_at(before, made.0.spec_key(), p)
                            &&& (forall|j: int| 0 <= j < before.len() ==> before[j].0.spec_key() != made.0.spec_key())
                            &&& found == made.1
                            &&& after == before.insert(p, (made.0, changed))
                        };
                    lemma_slot_new(before, after, vram, user_symbols.spec_entries(), allow_addend, made, p, changed);
                }
            }
        }
        true
    }

    /// Records that the label at `vram`, of kind `label_type`, is referenced by
    /// `referenced_by`. A label not seen before is user declared when `user_labels` declares
    /// one there; the detected kind is updated by the kind's precedence rule.
    fn new_label_ref(&mut self, vram: Vram, label_type: L, referenced_by: Vram, user_labels: &Vec<(Vram, L)>)
        requires
            old(self).well_formed(),
        ensures
            final(self).well_formed(),
            final(self)@.labels == spec_new_label(old(self)@.labels, vram, referenced_by, user_labels@),
            final(self)@ == (PreheaterModel { labels: final(self)@.labels, ..old(self)@ }),
    {
        let ghost before = self.label_references.spec_entries();
        let make = || -> (r: ReferencedLabel<L>)
            ensures
                spec_label_model(r) == (LabelModel {
                    vram,
                    user_declared: spec_user_label(user_labels@, vram) is Some,
                    user_declared_type: spec_user_label(user_labels@, vram),
                    referenced_by: Seq::<Vram>::empty(),
                }),
            { make_label(vram, label_type, user_labels) };
        let (label, _) = self.label_references.find_mut_or_insert_with(vram, FindSettings::new(false), make);
        let ghost found = *label;
        label.add_referenced_by(referenced_by);
        label.set_autodetected_type(label_type);
        let ghost changed = *label;
        proof {
            let after = self.label_references.spec_entries();
            lemma_label_models(before);
            lemma_label_models(after);
            let m = spec_label_models(before);
            let q = vram.inner as int;
            let lm = LabelModel { referenced_by: spec_label_model(found).referenced_by.push(referenced_by), ..spec_label_model(found) };
            assert(spec_label_model(changed) == lm);
            if exists|i: int| spec_answers(before, q, false, i) {
                let i = choose|i: int|
                    {
                        &&& spec_answers(before, vram.spec_key(), false, i)
                        &&& found == before[i].1
                        &&& after == before.update(i, (before[i].0, changed))
                    };
                assert(spec_label_at(m, q, i));
                let c = choose|c: int| spec_label_at(m, q, c);
                lemma_last_at_or_below_unique(m, q, i, c);
                assert(spec_label_models(after) =~= m.update(i, (m[i].0, lm)));
            } else {
                assert forall|i: int| !spec_label_at(m, q, i) by {
                    assert(!spec_answers(before, q, false, i));
                }
                let p = choose|p: int|
                    {
                        &&& spec_split_at(before, vram.spec_key(), p)
                        &&& make.ensures((), found)
                        &&& after == before.insert(p, (vram, changed))
                    };
                assert forall|j: int| 0 <= j < p implies m[j].0.spec_key() <= q by {
                    assert(before[j].0.spec_key() <= q);
                }
                assert(spec_split_at(m, q, p));
                let c = choose|c: int| spec_split_at(m, q, c);
                lemma_split_unique(m, q, p, c);
                let made = LabelModel {
                    vram,
                    user_declared: spec_user_label(user_labels@, vram) is Some,
                    user_declared_type: spec_user_label(user_labels@, vram),
                    referenced_by: Seq::<Vram>::empty(),
                };
                let ins = m.insert(p, (vram, made));
                assert(ins[p] == (vram, made));
                assert(spec_label_models(after) =~= ins.update(p, (ins[p].0, lm)));
            }
        }
    }

    /// Records what one operation of the code refers to (see [`spec_operation_book`]).
    fn handle_operation(
        &mut self,
        op: InstructionOperation,
        d: &DecodedInstr,
        cur_vram: Vram,
        cur_rom: Rom,
        pic_locals: &mut UnorderedMap<u32, Vram>,
        to_remove: &mut UnorderedSet<u32>,
        hack: &mut i32,
        user_symbols: &AddendedOrderedMap<Vram, UserSymbolInfo>,
        user_labels: &Vec<(Vram, L)>,
        ignored_addresses: &AddendedOrderedMap<Vram, Size>,
        branch_label: L,
    )
        requires
            old(self).well_formed(),
            user_symbols.well_formed(),
            ignored_addresses.well_formed(),
        ensures
            final(self).well_formed(),
            spec_book(final(self)@, final(pic_locals)@, final(to_remove)@, *final(hack) as int) == spec_operation_book(
                spec_book(old(self)@, old(pic_locals)@, old(to_remove)@, *old(hack) as int),
                TextInputs { user_symbols: user_symbols.spec_entries(), user_labels: user_labels@, ignored: ignored_addresses.spec_entries() },
                op,
                *d,
                cur_vram,
                cur_rom,
            ),
            final(self)@ == (PreheaterModel { references: final(self)@.references, labels: final(self)@.labels, ..old(self)@ }),
    {
        broadcast use vstd::std_specs::btree::group_btree_axioms;
        proof {
            lemma_u32_keys_ordered();
        }
        let function = RefAction::SymType(SymbolType::Function);
        match op {
            InstructionOperation::Link { info } => match info {
                InstrOpLink::DirectLinkingCall { target_vram } => {
                    self.new_ref(target_vram, Some(cur_vram), function, user_symbols, ignored_addresses, true);
                },
                InstrOpLink::LinkingBranch { target_vram } => {
                    self.new_label_ref(target_vram, branch_label, cur_vram, user_labels);
                },
                InstrOpLink::RawRegisterLink { vram, .. } => {
                    self.new_ref(vram, None, function, user_symbols, ignored_addresses, true);
                },
                InstrOpLink::Call16RegisterLink { vram, .. } => {
                    self.new_ref(vram, None, function, user_symbols, ignored_addresses, true);
                },
                InstrOpLink::CallHiLoRegisterLink { vram, .. } => {
                    self.new_ref(vram, None, function, user_symbols, ignored_addresses, true);
                },
                _ => {},
            },
            InstructionOperation::TailCall { info } => match info {
                InstrOpTailCall::MaybeDirectTailCall { target_vram } => {
                    self.new_label_ref(target_vram, branch_label, cur_vram, user_labels);
                },
                InstrOpTailCall::RawRegisterTailCall { vram, .. } => {
                    self.new_ref(vram, None, function, user_symbols, ignored_addresses, true);
                },
                _ => {},
            },
            InstructionOperation::JumptableJump { jumptable_vram, dereferenced_rom, info } => {
                self.new_ref(
                    jumptable_vram,
                    None,
                    RefAction::SymType(SymbolType::Jumptable),
                    user_symbols,
                    ignored_addresses,
                    true,
                );
                if let InstrOpJumptable::Pic = info {
                    if let Some(got_address) = pic_locals.get(&dereferenced_rom.inner) {
                        let a = *got_address;
                        self.new_ref(a, None, RefAction::AddGpToPointedData, user_symbols, ignored_addresses, true);
                    }
                }
                *hack = 2;
            },
            InstructionOperation::Branch { target_vram } => {
                self.new_label_ref(target_vram, branch_label, cur_vram, user_labels);
            },
            InstructionOperation::PairedAddress { vram, info } => {
                if let InstrOpPairedAddress::PairedGpGotLo { .. } = info {
                    pic_locals.insert(cur_rom.inner, vram);
                }
            },
            _ => {},
        }
        if let Some((addr, by, access)) = paired_target(&op, d, cur_vram) {
            let action = match access {
                Some((a, _)) => RefAction::Access(a),
                None => RefAction::Nothing,
            };
            let found = self.new_ref(addr, by, action, user_symbols, ignored_addresses, true);
            if found {
                if let Some((AccessType::DOUBLEFLOAT, true)) = access {
                    to_remove.insert(addr.inner - addr.inner % 8 + 4);
                }
            }
        }
    }

    /// Preheats the code section `name`: checks it may be preheated (see
    /// [`Preheater::check_failable_preconditions`]), then reads its words in order, tracking
    /// registers, and records the functions, jump tables and accessed addresses they refer to
    /// as references and the targets of branches as labels (see [`spec_text_step`]). An
    /// address in an ignored range gets no reference; a reference at the second word of an
    /// accessed double is dropped at the end.
    pub fn preheat_text(
        &mut self,
        settings: &TextPreheatSettings<L>,
        name: String,
        raw_bytes: &[u8],
        rom: Rom,
        vram: Vram,
        global_offset_table: Option<&GlobalOffsetTable>,
        user_symbols: &AddendedOrderedMap<Vram, UserSymbolInfo>,
        user_labels: &Vec<(Vram, L)>,
        ignored_addresses: &AddendedOrderedMap<Vram, Size>,
    ) -> (r: Result<(), PreheatError>)
        requires
            old(self).well_formed(),
            user_symbols.well_formed(),
            ignored_addresses.well_formed(),
            rom.inner + raw_bytes@.len() <= u32::MAX,
            vram.inner + raw_bytes@.len() <= u32::MAX,
        ensures
            final(self).well_formed(),
            r is Err <==> spec_preheat_fails(old(self)@, rom, vram, raw_bytes@.len()),
            r is Err ==> final(self)@ == old(self)@,
            r is Ok ==> final(self)@.segment_name == old(self)@.segment_name && final(self)@.ranges == old(
                self,
            )@.ranges,
            r is Ok ==> exists|p: int|
                spec_split_at(old(self)@.sections_rom, rom.inner as int, p) && final(self)@.sections_rom == old(
                    self,
                )@.sections_rom.insert(p, (rom, Size { inner: raw_bytes@.len() as u32 })),
            r is Ok ==> exists|p: int|
                spec_split_at(old(self)@.sections_vram, vram.inner as int, p) && final(self)@.sections_vram == old(
                    self,
                )@.sections_vram.insert(
                    p,
                    (vram, PreheatedSection { name, vram, size: Size { inner: raw_bytes@.len() as u32 } }),
                ),
            r is Ok ==> final(self)@.references == spec_text_references(
                old(self)@,
                TextInputs { user_symbols: user_symbols.spec_entries(), user_labels: user_labels@, ignored: ignored_addresses.spec_entries() },
                *settings,
                global_offset_table,
                raw_bytes@,
                rom,
                vram,
            ),
            r is Ok ==> final(self)@.labels == spec_text_labels(
                old(self)@,
                TextInputs { user_symbols: user_symbols.spec_entries(), user_labels: user_labels@, ignored: ignored_addresses.spec_entries() },
                *settings,
                global_offset_table,
                raw_bytes@,
                rom,
                vram,
            ),
    {
        match self.check_failable_preconditions(name, raw_bytes, rom, vram) {
            Err(e) => {
                return Err(e);
            },
            Ok(()) => {},
        }
        let ghost checked = self@;
        let ghost inp = TextInputs {
            user_symbols: user_symbols.spec_entries(),
            user_labels: user_labels@,
            ignored: ignored_addresses.spec_entries(),
        };
        let ghost words = spec_words(settings.endian, raw_bytes@);
        let ghost init = spec_text_init(checked.references, checked.labels, *settings, vram);
        let n: usize = raw_bytes.len() / 4;
        let abi = flags_abi(&settings.instruction_flags);
        let mut regs_tracker = RegisterTracker::new(abi, Some(vram), settings.gp_config, settings.endian);
        let mut prev_instr: Option<Instruction> = None;
        let mut function_maybe_ended = false;
        let mut pic_locals: UnorderedMap<u32, Vram> = UnorderedMap::new();
        let mut jumptable_silly_hack: i32 = 0;
        let mut accesses_to_remove: UnorderedSet<u32> = UnorderedSet::new();
        let mut i: usize = 0;
        proof {
            assert(spec_scan_state(self@, pic_locals@, accesses_to_remove@, 0, regs_tracker.regs(), prev_instr, false)
                == spec_text_scan(init, inp, *settings, global_offset_table, words, rom, vram, 0));
        }
        while i < n
            invariant
                n == raw_bytes@.len() / 4,
                words == spec_words(settings.endian, raw_bytes@),
                words.len() == n,
                i <= n,
                rom.inner + raw_bytes@.len() <= u32::MAX,
                vram.inner + raw_bytes@.len() <= u32::MAX,
                self.well_formed(),
                user_symbols.well_formed(),
                ignored_addresses.well_formed(),
                inp == (TextInputs {
                    user_symbols: user_symbols.spec_entries(),
                    user_labels: user_labels@,
                    ignored: ignored_addresses.spec_entries(),
                }),
                init == spec_text_init(checked.references, checked.labels, *settings, vram),
                abi == crate::isa::instruction::rabbitizer_flags_abi(settings.instruction_flags),
                regs_tracker.well_formed(),
                regs_tracker.spec_gp_config() == settings.gp_config,
                regs_tracker.spec_endian() == settings.endian,
                prev_instr matches Some(p) ==> crate::isa::instruction::spec_decodable(p),
                -(i as int) <= jumptable_silly_hack <= 2,
                self@ == (PreheaterModel { references: self@.references, labels: self@.labels, ..checked }),
                spec_scan_state(
                    self@,
                    pic_locals@,
                    accesses_to_remove@,
                    jumptable_silly_hack as int,
                    regs_tracker.regs(),
                    prev_instr,
                    function_maybe_ended,
                ) == spec_text_scan(init, inp, *settings, global_offset_table, words, rom, vram, i as nat),
            decreases n - i,
        {
            self.scan_word(
                &mut regs_tracker,
                &mut prev_instr,
                &mut function_maybe_ended,
                &mut pic_locals,
                &mut accesses_to_remove,
                &mut jumptable_silly_hack,
                settings,
                abi,
                raw_bytes,
                rom,
                vram,
                i,
                global_offset_table,
                user_symbols,
                user_labels,
                ignored_addresses,
            );
            i = i + 1;
        }
        let ghost fin = spec_text_scan(init, inp, *settings, global_offset_table, words, rom, vram, n as nat);
        let ghost before = self.references.spec_entries();
        let ghost rm = accesses_to_remove@;
        proof {
            lemma_reference_models(before);
            assert(fin.book.references == spec_reference_models(before));
            assert(fin.book.to_remove == rm);
            assert(fin.book.labels == self@.labels);
        }
        if !accesses_to_remove.is_empty() {
            let removed = &accesses_to_remove;
            let keep = |k: &Vram, _v: &ReferencedAddress| -> (r: bool)
                ensures
                    r == !removed@.contains(k.inner),
                {
                    proof {
                        lemma_u32_keys_ordered();
                    }
                    broadcast use vstd::std_specs::btree::group_btree_axioms;
                    !removed.contains(&k.inner)
                };
            self.references.retain(keep);
            proof {
                let after = self.references.spec_entries();
                lemma_reference_models(after);
                let mb = spec_reference_models(before);
                let ma = spec_reference_models(after);
                assert forall|i: int| 0 <= i < ma.len() implies mb.contains(#[trigger] ma[i]) && !rm.contains(ma[i].0.inner) by {
                    assert(before.contains(after[i]));
                    let k = choose|k: int| 0 <= k < before.len() && before[k] == after[i];
                    assert(mb[k] == ma[i]);
                    assert(keep.ensures((&after[i].0, &after[i].1), true));
                }
                assert forall|i: int| 0 <= i < mb.len() && !rm.contains(mb[i].0.inner) implies ma.contains(#[trigger] mb[i]) by {
                    if !after.contains(before[i]) {
                        assert(keep.ensures((&before[i].0, &before[i].1), false));
                    }
                    let k = choose|k: int| 0 <= k < after.len() && after[k] == before[i];
                    assert(ma[k] == mb[i]);
                }
                lemma_kept_is_filter(mb, ma, rm);
            }
        } else {
            proof {
                let mb = spec_reference_models(before);
                assert forall|i: int| 0 <= i < mb.len() implies mb.contains(#[trigger] mb[i]) && !rm.contains(mb[i].0.inner) by {
                }
                lemma_kept_is_filter(mb, mb, rm);
            }
        }
        Ok(())
    }

    /// Scans the word at position `k` of the code `raw_bytes` (see [`spec_text_step`]).
    fn scan_word(
        &mut self,
        regs_tracker: &mut RegisterTracker,
        prev_instr: &mut Option<Instruction>,
        function_maybe_ended: &mut bool,
        pic_locals: &mut UnorderedMap<u32, Vram>,
        accesses_to_remove: &mut UnorderedSet<u32>,
        jumptable_silly_hack: &mut i32,
        settings: &TextPreheatSettings<L>,
        abi: crate::isa::Abi,
        raw_bytes: &[u8],
        rom: Rom,
        vram: Vram,
        k: usize,
        global_offset_table: Option<&GlobalOffsetTable>,
        user_symbols: &AddendedOrderedMap<Vram, UserSymbolInfo>,
        user_labels: &Vec<(Vram, L)>,
        ignored_addresses: &AddendedOrderedMap<Vram, Size>,
    )
        requires
            k < raw_bytes@.len() / 4,
            rom.inner + raw_bytes@.len() <= u32::MAX,
            vram.inner + raw_bytes@.len() <= u32::MAX,
            old(self).well_formed(),
            user_symbols.well_formed(),
            ignored_addresses.well_formed(),
            abi == crate::isa::instruction::rabbitizer_flags_abi(settings.instruction_flags),
            old(regs_tracker).well_formed(),
            old(regs_tracker).spec_gp_config() == settings.gp_config,
            old(regs_tracker).spec_endian() == settings.endian,
            *old(prev_instr) matches Some(p) ==> crate::isa::instruction::spec_decodable(p),
            -(k as int) <= *old(jumptable_silly_hack) <= 2,
        ensures
            final(self).well_formed(),
            final(regs_tracker).well_formed(),
            final(regs_tracker).spec_gp_config() == settings.gp_config,
            final(regs_tracker).spec_endian() == settings.endian,
            *final(prev_instr) matches Some(p) ==> crate::isa::instruction::spec_decodable(p),
            -(k + 1) <= *final(jumptable_silly_hack) <= 2,
            final(self)@ == (PreheaterModel { references: final(self)@.references, labels: final(self)@.labels, ..old(self)@ }),
            spec_scan_state(
                final(self)@,
                final(pic_locals)@,
                final(accesses_to_remove)@,
                *final(jumptable_silly_hack) as int,
                final(regs_tracker).regs(),
                *final(prev_instr),
                *final(function_maybe_ended),
            ) == spec_text_step(
                spec_scan_state(
                    old(self)@,
                    old(pic_locals)@,
                    old(accesses_to_remove)@,
                    *old(jumptable_silly_hack) as int,
                    old(regs_tracker).regs(),
                    *old(prev_instr),
                    *old(function_maybe_ended),
                ),
                TextInputs { user_symbols: user_symbols.spec_entries(), user_labels: user_labels@, ignored: ignored_addresses.spec_entries() },
                *settings,
                global_offset_table,
                spec_words(settings.endian, raw_bytes@),
                rom,
                vram,
                k as int,
            ),
    {
        let offset = 4 * k;
        let word = settings.endian.word_at(raw_bytes, offset);
        let current_vram = Vram::new(vram.inner + offset as u32);
        let current_rom = Rom::new(rom.inner + offset as u32);
        let next_vram = Vram::new(vram.inner + offset as u32 + 4);
        let instr = new_instruction(word, current_vram.inner, &settings.instruction_flags);
        if *function_maybe_ended && word != 0 {
            regs_tracker.soft_reset(abi, Some(current_vram));
            *function_maybe_ended = false;
        }
        let decoded = DecodedInstr::from_instruction(&instr);
        let prev_likely = match &*prev_instr {
            Some(p) => p.opcode().is_branch_likely(),
            None => false,
        };
        if !decoded.is_valid {
            let ended = match &*prev_instr {
                Some(p) => regs_tracker.clear_afterwards(Some(p), Some(next_vram)),
                None => regs_tracker.clear_afterwards(None, Some(next_vram)),
            };
            *function_maybe_ended = *function_maybe_ended || ended;
            *prev_instr = None;
        } else if prev_likely {
            let ended = match &*prev_instr {
                Some(p) => regs_tracker.clear_afterwards(Some(p), Some(next_vram)),
                None => regs_tracker.clear_afterwards(None, Some(next_vram)),
            };
            *function_maybe_ended = *function_maybe_ended || ended;
            *prev_instr = Some(instr);
        } else {
            let op = regs_tracker.process_instruction(&instr, current_rom, global_offset_table);
            self.handle_operation(
                op,
                &decoded,
                current_vram,
                current_rom,
                pic_locals,
                accesses_to_remove,
                jumptable_silly_hack,
                user_symbols,
                user_labels,
                ignored_addresses,
                settings.branch_label,
            );
            if *jumptable_silly_hack != 1 {
                let ended = match &*prev_instr {
                    Some(p) => regs_tracker.clear_afterwards(Some(p), Some(next_vram)),
                    None => regs_tracker.clear_afterwards(None, Some(next_vram)),
                };
                *function_maybe_ended = *function_maybe_ended || ended;
            }
            *prev_instr = Some(instr);
            *jumptable_silly_hack = *jumptable_silly_hack - 1;
        }
    }

    /// Preheats the exception table section `name` (`.gcc_except_table`): checks it may be
    /// preheated (see [`Preheater::check_failable_preconditions`]); then, when it is word
    /// aligned, a reference to a table is recorded at its start and every word that is an
    /// address inside the segment, not ignored, becomes a label of kind `label_type` (see
    /// [`spec_except_table_labels`]). A section that is not word aligned is left as it is.
    pub fn preheat_gcc_except_table(
        &mut self,
        endian: Endian,
        label_type: L,
        name: String,
        raw_bytes: &[u8],
        rom: Rom,
        vram: Vram,
        user_symbols: &AddendedOrderedMap<Vram, UserSymbolInfo>,
        user_labels: &Vec<(Vram, L)>,
        ignored_addresses: &AddendedOrderedMap<Vram, Size>,
    ) -> (r: Result<(), PreheatError>)
        requires
            old(self).well_formed(),
            user_symbols.well_formed(),
            ignored_addresses.well_formed(),
            rom.inner + raw_bytes@.len() <= u32::MAX,
            vram.inner + raw_bytes@.len() <= u32::MAX,
        ensures
            final(self).well_formed(),
            r is Err <==> spec_preheat_fails(old(self)@, rom, vram, raw_bytes@.len()),
            r is Err ==> final(self)@ == old(self)@,
            r is Ok ==> final(self)@.segment_name == old(self)@.segment_name && final(self)@.ranges == old(
                self,
            )@.ranges,
            r is Ok ==> exists|p: int|
                spec_split_at(old(self)@.sections_rom, rom.inner as int, p) && final(self)@.sections_rom == old(
                    self,
                )@.sections_rom.insert(p, (rom, Size { inner: raw_bytes@.len() as u32 })),
            r is Ok ==> exists|p: int|
                spec_split_at(old(self)@.sections_vram, vram.inner as int, p) && final(self)@.sections_vram == old(
                    self,
                )@.sections_vram.insert(
                    p,
                    (vram, PreheatedSection { name, vram, size: Size { inner: raw_bytes@.len() as u32 } }),
                ),
            r is Ok && (rom.inner % 4 != 0 || vram.inner % 4 != 0) ==> final(self)@.references == old(self)@.references
                && final(self)@.labels == old(self)@.labels,
            r is Ok && rom.inner % 4 == 0 && vram.inner % 4 == 0 ==> final(self)@.references == spec_new_reference(
                old(self)@.references,
                vram,
                None,
                RefAction::SymType(SymbolType::GccExceptTable),
                user_symbols.spec_entries(),
                ignored_addresses.spec_entries(),
                false,
            ).0,
            r is Ok && rom.inner % 4 == 0 && vram.inner % 4 == 0 ==> final(self)@.labels == spec_except_table_labels(
                old(self)@.labels,
                spec_words(endian, raw_bytes@),
                vram,
                old(self)@.ranges.spec_vram(),
                ignored_addresses.spec_entries(),
                user_labels@,
                (raw_bytes@.len() / 4) as nat,
            ),
    {
        match self.check_failable_preconditions(name, raw_bytes, rom, vram) {
            Err(e) => {
                return Err(e);
            },
            Ok(()) => {},
        }
        if rom.inner % 4 != 0 || vram.inner % 4 != 0 {
            return Ok(());
        }
        let ghost checked = self@;
        self.new_ref(
            vram,
            None,
            RefAction::SymType(SymbolType::GccExceptTable),
            user_symbols,
            ignored_addresses,
            false,
        );
        let ghost with_table = self@;
        let ghost words = spec_words(endian, raw_bytes@);
        let n: usize = raw_bytes.len() / 4;
        let mut i: usize = 0;
        while i < n
            invariant
                n == raw_bytes@.len() / 4,
                words == spec_words(endian, raw_bytes@),
                words.len() == n,
                i <= n,
                vram.inner + raw_bytes@.len() <= u32::MAX,
                self.well_formed(),
                ignored_addresses.well_formed(),
                self@ == (PreheaterModel { labels: self@.labels, ..with_table }),
                self@.labels == spec_except_table_labels(
                    with_table.labels,
                    words,
                    vram,
                    with_table.ranges.spec_vram(),
                    ignored_addresses.spec_entries(),
                    user_labels@,
                    i as nat,
                ),
            decreases n - i,
        {
            let word = endian.word_at(raw_bytes, 4 * i);
            proof {
                assert(word == words[i as int]);
            }
            let target = Vram::new(word);
            let current_vram = Vram::new(vram.inner + 4 * i as u32);
            if ignored_addresses.find(&target, FindSettings::new(true)).is_none() && self.ranges.in_vram_range(target) {
                self.new_label_ref(target, label_type, current_vram, user_labels);
            }
            i = i + 1;
        }
        Ok(())
    }
}

} // verus!
