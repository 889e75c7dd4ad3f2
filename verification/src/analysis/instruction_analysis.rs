use vstd::prelude::*;

use super::instr_analysis_info::{
    lemma_align_down_unaddended_idempotent, spec_align_down_unaddended, spec_upper_rom, InstrAnalysisInfo,
};
use super::gpr_register_value::GprRegisterValue;
use super::register_tracker::{
    is_trackable, spec_process, spec_trackable, RegisterTracker,
    InstrOpLink, InstrOpPairedAddress, InstrOpRegisterOperation, InstrOpTailCall, InstructionOperation,
};
use crate::addresses::{GlobalOffsetTable, Rom, RomVramRange, Vram};
use crate::config::{Endian, GpConfig};
use crate::isa::instruction::{rabbitizer_is_likely_handwritten, spec_decodable, spec_decoded};
use crate::isa::{AccessType, DecodedInstr};
use rabbitizer::Instruction;

verus! {

/// What one instruction says about the address it refers to.
#[derive(Debug, Clone, Copy)]
pub enum TypeInfo {
    No,
    Function,
    Jumptable,
    BranchTarget,
    AccessInfo((AccessType, bool)),
}

/// The type that an optional memory access gives.
pub open spec fn spec_type_info_of(access_info: Option<(AccessType, bool)>) -> TypeInfo {
    match access_info {
        Some(x) => TypeInfo::AccessInfo(x),
        None => TypeInfo::No,
    }
}

impl TypeInfo {
    /// The type an instruction gives to the address it accesses, if it accesses memory.
    pub fn from_access_info(access_info: Option<(AccessType, bool)>) -> (r: Self)
        ensures
            r == spec_type_info_of(access_info),
    {
        match access_info {
            Some(x) => TypeInfo::AccessInfo(x),
            None => TypeInfo::No,
        }
    }
}

/// Everything gathered about one address: the strongest kind seen, or, while only memory
/// accesses were seen, each access kind together with the rom of the instruction making it.
#[derive(Debug)]
pub enum GatheredTypeInfo {
    No,
    Function,
    Jumptable,
    BranchTarget,
    AccessInfoCounter(Vec<((AccessType, bool), Rom)>),
}

/// The model of [`GatheredTypeInfo`]: the accesses as a set of (access kind, instruction rom)
/// pairs.
pub enum TypeInfoSummary {
    No,
    Function,
    Jumptable,
    BranchTarget,
    AccessInfoCounter(Set<((AccessType, bool), Rom)>),
}

impl View for GatheredTypeInfo {
    type V = TypeInfoSummary;

    open spec fn view(&self) -> TypeInfoSummary {
        match self {
            GatheredTypeInfo::No => TypeInfoSummary::No,
            GatheredTypeInfo::Function => TypeInfoSummary::Function,
            GatheredTypeInfo::Jumptable => TypeInfoSummary::Jumptable,
            GatheredTypeInfo::BranchTarget => TypeInfoSummary::BranchTarget,
            GatheredTypeInfo::AccessInfoCounter(v) => TypeInfoSummary::AccessInfoCounter(v@.to_set()),
        }
    }
}

/// What an address has gathered after one more instruction referred to it.
///
/// A call or a jump table use wins over everything; a branch target wins over accesses; the
/// accesses are collected.
pub open spec fn spec_gather(g: TypeInfoSummary, t: TypeInfo, instr_rom: Rom) -> TypeInfoSummary {
    match (g, t) {
        (_, TypeInfo::Function) => TypeInfoSummary::Function,
        (_, TypeInfo::Jumptable) => TypeInfoSummary::Jumptable,
        (TypeInfoSummary::No, TypeInfo::BranchTarget) => TypeInfoSummary::BranchTarget,
        (TypeInfoSummary::Function, _) => TypeInfoSummary::Function,
        (TypeInfoSummary::Jumptable, _) => TypeInfoSummary::Jumptable,
        (TypeInfoSummary::BranchTarget, _) => TypeInfoSummary::BranchTarget,
        (TypeInfoSummary::AccessInfoCounter(_), TypeInfo::BranchTarget) => TypeInfoSummary::BranchTarget,
        (TypeInfoSummary::No, TypeInfo::No) => TypeInfoSummary::No,
        (TypeInfoSummary::AccessInfoCounter(s), TypeInfo::No) => TypeInfoSummary::AccessInfoCounter(s),
        (TypeInfoSummary::No, TypeInfo::AccessInfo(a)) => TypeInfoSummary::AccessInfoCounter(
            Set::empty().insert((a, instr_rom)),
        ),
        (TypeInfoSummary::AccessInfoCounter(s), TypeInfo::AccessInfo(a)) => TypeInfoSummary::AccessInfoCounter(
            s.insert((a, instr_rom)),
        ),
    }
}

/// Pushing onto a sequence adds the element to its set of elements.
proof fn lemma_push_to_set<A>(s: Seq<A>, x: A)
    ensures
        s.push(x).to_set() == s.to_set().insert(x),
{
    broadcast use vstd::seq_lib::lemma_seq_contains_after_push;

    assert(s.push(x).to_set() =~= s.to_set().insert(x));
}

/// Whether `records` holds `record`.
fn has_record(records: &Vec<((AccessType, bool), Rom)>, record: ((AccessType, bool), Rom)) -> (r: bool)
    ensures
        r == records@.contains(record),
{
    let mut i: usize = 0;
    while i < records.len()
        invariant
            i <= records@.len(),
            forall|j: int| 0 <= j < i ==> records@[j] != record,
        decreases records@.len() - i,
    {
        let (kind, rom) = records[i];
        if kind.0 == record.0.0 && kind.1 == record.0.1 && rom == record.1 {
            return true;
        }
        i = i + 1;
    }
    false
}

/// A copy of `records`.
fn copy_records(records: &Vec<((AccessType, bool), Rom)>) -> (r: Vec<((AccessType, bool), Rom)>)
    ensures
        r@ == records@,
{
    let mut out: Vec<((AccessType, bool), Rom)> = Vec::new();
    let mut i: usize = 0;
    while i < records.len()
        invariant
            i <= records@.len(),
            out@ == records@.subrange(0, i as int),
        decreases records@.len() - i,
    {
        out.push(records[i]);
        i = i + 1;
        assert(out@ =~= records@.subrange(0, i as int));
    }
    assert(out@ =~= records@);
    out
}

impl GatheredTypeInfo {
    /// A copy of this value.
    pub fn duplicate(&self) -> (r: Self)
        ensures
            r@ == self@,
    {
        match self {
            GatheredTypeInfo::No => GatheredTypeInfo::No,
            GatheredTypeInfo::Function => GatheredTypeInfo::Function,
            GatheredTypeInfo::Jumptable => GatheredTypeInfo::Jumptable,
            GatheredTypeInfo::BranchTarget => GatheredTypeInfo::BranchTarget,
            GatheredTypeInfo::AccessInfoCounter(v) => GatheredTypeInfo::AccessInfoCounter(copy_records(v)),
        }
    }

    /// Records that the instruction at `instr_rom` refers to this address as `type_info`.
    pub fn insert(&mut self, type_info: TypeInfo, instr_rom: Rom)
        ensures
            final(self)@ == spec_gather(old(self)@, type_info, instr_rom),
    {
        let mut myself = GatheredTypeInfo::No;
        std::mem::swap(&mut myself, self);
        *self = match (myself, type_info) {
            (_, TypeInfo::Function) => GatheredTypeInfo::Function,
            (_, TypeInfo::Jumptable) => GatheredTypeInfo::Jumptable,
            (GatheredTypeInfo::No, TypeInfo::BranchTarget) => GatheredTypeInfo::BranchTarget,
            (GatheredTypeInfo::Function, _) => GatheredTypeInfo::Function,
            (GatheredTypeInfo::Jumptable, _) => GatheredTypeInfo::Jumptable,
            (GatheredTypeInfo::BranchTarget, _) => GatheredTypeInfo::BranchTarget,
            (GatheredTypeInfo::AccessInfoCounter(_), TypeInfo::BranchTarget) => GatheredTypeInfo::BranchTarget,
            (GatheredTypeInfo::No, TypeInfo::No) => GatheredTypeInfo::No,
            (GatheredTypeInfo::AccessInfoCounter(counter), TypeInfo::No) => GatheredTypeInfo::AccessInfoCounter(
                counter,
            ),
            (GatheredTypeInfo::No, TypeInfo::AccessInfo(access_info)) => {
                let mut counter: Vec<((AccessType, bool), Rom)> = Vec::new();
                counter.push((access_info, instr_rom));
                proof {
                    lemma_push_to_set(Seq::empty(), (access_info, instr_rom));
                    assert(counter@ =~= Seq::empty().push((access_info, instr_rom)));
                    assert(Seq::<((AccessType, bool), Rom)>::empty().to_set() =~= Set::empty());
                }
                GatheredTypeInfo::AccessInfoCounter(counter)
            },
            (GatheredTypeInfo::AccessInfoCounter(mut counter), TypeInfo::AccessInfo(access_info)) => {
                let ghost before = counter@;
                if !has_record(&counter, (access_info, instr_rom)) {
                    counter.push((access_info, instr_rom));
                    proof {
                        lemma_push_to_set(before, (access_info, instr_rom));
                    }
                } else {
                    proof {
                        assert(before.to_set().contains((access_info, instr_rom)));
                        assert(before.to_set() =~= before.to_set().insert((access_info, instr_rom)));
                    }
                }
                GatheredTypeInfo::AccessInfoCounter(counter)
            },
        };
    }
}

/// Whether no address occurs twice among `entries`.
pub open spec fn spec_distinct_addresses(entries: Seq<(Vram, GatheredTypeInfo)>) -> bool {
    forall|i: int, j: int|
        0 <= i < entries.len() && 0 <= j < entries.len() && i != j ==> #[trigger] entries[i].0
            != #[trigger] entries[j].0
}

/// Whether some entry is about `vram`.
pub open spec fn spec_has_address(entries: Seq<(Vram, GatheredTypeInfo)>, vram: Vram) -> bool {
    exists|i: int| 0 <= i < entries.len() && #[trigger] entries[i].0 == vram
}

/// The map from each address to the model of what was gathered about it.
pub open spec fn spec_entries_map(entries: Seq<(Vram, GatheredTypeInfo)>) -> Map<Vram, TypeInfoSummary> {
    Map::new(
        |k: Vram| spec_has_address(entries, k),
        |k: Vram| entries[choose|i: int| 0 <= i < entries.len() && #[trigger] entries[i].0 == k].1@,
    )
}

/// With distinct addresses, the map sends the address of each entry to that entry's model.
proof fn lemma_entries_map_at(entries: Seq<(Vram, GatheredTypeInfo)>, i: int)
    requires
        spec_distinct_addresses(entries),
        0 <= i < entries.len(),
    ensures
        spec_entries_map(entries).contains_key(entries[i].0),
        spec_entries_map(entries)[entries[i].0] == entries[i].1@,
{
    let k = entries[i].0;
    assert(spec_has_address(entries, k));
    let j = choose|j: int| 0 <= j < entries.len() && #[trigger] entries[j].0 == k;
    assert(entries[j].0 == entries[i].0);
}

/// What was gathered per referenced address: a list whose entries have distinct addresses.
#[derive(Debug)]
pub struct TypeInfoMap {
    entries: Vec<(Vram, GatheredTypeInfo)>,
}

impl View for TypeInfoMap {
    type V = Map<Vram, TypeInfoSummary>;

    closed spec fn view(&self) -> Map<Vram, TypeInfoSummary> {
        spec_entries_map(self.entries@)
    }
}

impl TypeInfoMap {
    pub closed spec fn well_formed(self) -> bool {
        spec_distinct_addresses(self.entries@)
    }

    pub fn new() -> (r: Self)
        ensures
            r.well_formed(),
            r@ == Map::<Vram, TypeInfoSummary>::empty(),
    {
        let r = TypeInfoMap { entries: Vec::new() };
        assert(r@ =~= Map::<Vram, TypeInfoSummary>::empty());
        r
    }

    /// The position of the entry about `vram`, if there is one.
    fn find(&self, vram: Vram) -> (r: Option<usize>)
        requires
            self.well_formed(),
        ensures
            match r {
                Some(i) => i < self.entries@.len() && self.entries@[i as int].0 == vram,
                None => !self@.contains_key(vram),
            },
    {
        let mut i: usize = 0;
        while i < self.entries.len()
            invariant
                i <= self.entries@.len(),
                forall|j: int| 0 <= j < i ==> self.entries@[j].0 != vram,
            decreases self.entries@.len() - i,
        {
            if self.entries[i].0 == vram {
                return Some(i);
            }
            i = i + 1;
        }
        None
    }

    pub fn len(&self) -> (r: usize)
        requires
            self.well_formed(),
        ensures
            r == self@.len(),
    {
        proof {
            self.lemma_len();
        }
        self.entries.len()
    }

    /// The map has as many keys as there are entries.
    proof fn lemma_len(&self)
        requires
            self.well_formed(),
        ensures
            self@.dom().finite(),
            self@.len() == self.entries@.len(),
    {
        let s = self.entries@;
        let keys = s.map_values(|e: (Vram, GatheredTypeInfo)| e.0);
        assert forall|i: int, j: int| 0 <= i < keys.len() && 0 <= j < keys.len() && i != j implies keys[i]
            != keys[j] by {
            assert(s[i].0 != s[j].0);
        }
        assert(keys.no_duplicates());
        assert(self@.dom() =~= keys.to_set()) by {
            assert forall|k: Vram| self@.dom().contains(k) implies keys.to_set().contains(k) by {
                let i = choose|i: int| 0 <= i < s.len() && #[trigger] s[i].0 == k;
                assert(keys[i] == k);
            }
            assert forall|k: Vram| keys.to_set().contains(k) implies self@.dom().contains(k) by {
                let i = choose|i: int| 0 <= i < keys.len() && keys[i] == k;
                assert(s[i].0 == k);
            }
        }
        keys.unique_seq_to_set();
    }

    /// What was gathered about `vram`, if anything.
    pub fn get(&self, vram: Vram) -> (r: Option<&GatheredTypeInfo>)
        requires
            self.well_formed(),
        ensures
            match r {
                Some(g) => self@.contains_key(vram) && self@[vram] == g@,
                None => !self@.contains_key(vram),
            },
    {
        match self.find(vram) {
            Some(i) => {
                proof {
                    lemma_entries_map_at(self.entries@, i as int);
                }
                Some(&self.entries[i].1)
            },
            None => None,
        }
    }

    /// Sets what was gathered about `vram`.
    pub fn insert(&mut self, vram: Vram, info: GatheredTypeInfo)
        requires
            old(self).well_formed(),
        ensures
            final(self).well_formed(),
            final(self)@ == old(self)@.insert(vram, info@),
    {
        let ghost before = self.entries@;
        let ghost info_view = info@;
        match self.find(vram) {
            Some(i) => {
                self.entries.set(i, (vram, info));
                proof {
                    let after = self.entries@;
                    assert(after == before.update(i as int, (vram, info)));
                    assert(spec_distinct_addresses(after)) by {
                        assert forall|a: int, b: int|
                            0 <= a < after.len() && 0 <= b < after.len() && a != b implies #[trigger] after[a].0
                            != #[trigger] after[b].0 by {
                            assert(before[a].0 != before[b].0);
                        }
                    }
                    assert(spec_entries_map(after) =~= spec_entries_map(before).insert(vram, info_view)) by {
                        assert forall|k: Vram| #[trigger] spec_entries_map(after).contains_key(k)
                            == spec_entries_map(before).insert(vram, info_view).contains_key(k) by {
                            if spec_has_address(before, k) {
                                let j = choose|j: int| 0 <= j < before.len() && #[trigger] before[j].0 == k;
                                assert(after[j].0 == k);
                            }
                            if spec_has_address(after, k) {
                                let j = choose|j: int| 0 <= j < after.len() && #[trigger] after[j].0 == k;
                                assert(before[j].0 == k);
                            }
                        }
                        assert forall|k: Vram| #[trigger] spec_entries_map(after).contains_key(k) implies spec_entries_map(
                            after,
                        )[k] == spec_entries_map(before).insert(vram, info_view)[k] by {
                            let j = choose|j: int| 0 <= j < after.len() && #[trigger] after[j].0 == k;
                            lemma_entries_map_at(after, j);
                            if k != vram {
                                lemma_entries_map_at(before, j);
                            }
                        }
                    }
                }
            },
            None => {
                self.entries.push((vram, info));
                proof {
                    let after = self.entries@;
                    assert(after == before.push((vram, info)));
                    assert(spec_distinct_addresses(after)) by {
                        assert forall|a: int, b: int|
                            0 <= a < after.len() && 0 <= b < after.len() && a != b implies #[trigger] after[a].0
                            != #[trigger] after[b].0 by {
                            if a < before.len() && b < before.len() {
                                assert(before[a].0 != before[b].0);
                            } else if a < before.len() {
                                assert(before[a].0 == after[a].0);
                                assert(spec_entries_map(before).contains_key(before[a].0)) by {
                                    assert(spec_has_address(before, before[a].0));
                                }
                            } else {
                                assert(before[b].0 == after[b].0);
                                assert(spec_entries_map(before).contains_key(before[b].0)) by {
                                    assert(spec_has_address(before, before[b].0));
                                }
                            }
                        }
                    }
                    assert(spec_entries_map(after) =~= spec_entries_map(before).insert(vram, info_view)) by {
                        assert forall|k: Vram| #[trigger] spec_entries_map(after).contains_key(k)
                            == spec_entries_map(before).insert(vram, info_view).contains_key(k) by {
                            if spec_has_address(before, k) {
                                let j = choose|j: int| 0 <= j < before.len() && #[trigger] before[j].0 == k;
                                assert(after[j].0 == k);
                            }
                            if k == vram {
                                assert(after[before.len() as int].0 == k);
                            }
                            if spec_has_address(after, k) && k != vram {
                                let j = choose|j: int| 0 <= j < after.len() && #[trigger] after[j].0 == k;
                                assert(before[j].0 == k);
                            }
                        }
                        assert forall|k: Vram| #[trigger] spec_entries_map(after).contains_key(k) implies spec_entries_map(
                            after,
                        )[k] == spec_entries_map(before).insert(vram, info_view)[k] by {
                            let j = choose|j: int| 0 <= j < after.len() && #[trigger] after[j].0 == k;
                            lemma_entries_map_at(after, j);
                            if k != vram {
                                lemma_entries_map_at(before, j);
                            }
                        }
                    }
                }
            },
        }
    }

    /// Records that the instruction at `instr_rom` refers to `vram` as `type_info`.
    pub fn gather(&mut self, vram: Vram, type_info: TypeInfo, instr_rom: Rom)
        requires
            old(self).well_formed(),
        ensures
            final(self).well_formed(),
            final(self)@ == old(self)@.insert(
                vram,
                spec_gather(
                    if old(self)@.contains_key(vram) {
                        old(self)@[vram]
                    } else {
                        TypeInfoSummary::No
                    },
                    type_info,
                    instr_rom,
                ),
            ),
    {
        let mut g = match self.get(vram) {
            Some(g) => g.duplicate(),
            None => GatheredTypeInfo::No,
        };
        g.insert(type_info, instr_rom);
        self.insert(vram, g);
    }

    /// Takes out what was gathered about `vram`, if anything.
    pub fn remove(&mut self, vram: Vram) -> (r: Option<GatheredTypeInfo>)
        requires
            old(self).well_formed(),
        ensures
            final(self).well_formed(),
            final(self)@ == old(self)@.remove(vram),
            match r {
                Some(g) => old(self)@.contains_key(vram) && old(self)@[vram] == g@,
                None => !old(self)@.contains_key(vram),
            },
    {
        let ghost before = self.entries@;
        match self.find(vram) {
            Some(i) => {
                proof {
                    lemma_entries_map_at(before, i as int);
                }
                let (_, g) = self.entries.remove(i);
                proof {
                    let after = self.entries@;
                    assert(after == before.remove(i as int));
                    assert(forall|a: int| 0 <= a < after.len() ==> #[trigger] after[a] == before[if a < i {
                        a
                    } else {
                        a + 1
                    }]);
                    assert(spec_distinct_addresses(after)) by {
                        assert forall|a: int, b: int|
                            0 <= a < after.len() && 0 <= b < after.len() && a != b implies #[trigger] after[a].0
                            != #[trigger] after[b].0 by {
                            let a2 = if a < i {
                                a
                            } else {
                                a + 1
                            };
                            let b2 = if b < i {
                                b
                            } else {
                                b + 1
                            };
                            assert(before[a2].0 != before[b2].0);
                        }
                    }
                    assert(spec_entries_map(after) =~= spec_entries_map(before).remove(vram)) by {
                        assert forall|k: Vram| #[trigger] spec_entries_map(after).contains_key(k)
                            == spec_entries_map(before).remove(vram).contains_key(k) by {
                            if spec_has_address(before, k) && k != vram {
                                let j = choose|j: int| 0 <= j < before.len() && #[trigger] before[j].0 == k;
                                assert(j != i);
                                let j2 = if j < i {
                                    j
                                } else {
                                    j - 1
                                };
                                assert(after[j2].0 == k);
                            }
                            if spec_has_address(after, k) {
                                let j = choose|j: int| 0 <= j < after.len() && #[trigger] after[j].0 == k;
                                let j2 = if j < i {
                                    j
                                } else {
                                    j + 1
                                };
                                assert(before[j2].0 == k);
                                assert(j2 != i);
                            }
                        }
                        assert forall|k: Vram| #[trigger] spec_entries_map(after).contains_key(k) implies spec_entries_map(
                            after,
                        )[k] == spec_entries_map(before).remove(vram)[k] by {
                            let j = choose|j: int| 0 <= j < after.len() && #[trigger] after[j].0 == k;
                            let j2 = if j < i {
                                j
                            } else {
                                j + 1
                            };
                            lemma_entries_map_at(after, j);
                            lemma_entries_map_at(before, j2);
                        }
                    }
                }
                Some(g)
            },
            None => {
                proof {
                    assert(spec_entries_map(before).remove(vram) =~= spec_entries_map(before));
                }
                None
            },
        }
    }
}

/// The model of an analysis in progress.
pub struct AnalysisModel {
    pub ranges: RomVramRange,
    /// What is known of each instruction, by its position (rom offset over 4).
    pub infos: Seq<InstrAnalysisInfo>,
    /// Every address some instruction refers to.
    pub referenced_vrams: Set<Vram>,
    /// What was gathered about each referenced address.
    pub type_infos: Map<Vram, TypeInfoSummary>,
    /// The roms of the instructions that look written by hand.
    pub handwritten_instrs: Set<Rom>,
}

/// The first rom offset of the analysed range.
pub open spec fn spec_rom_start(m: AnalysisModel) -> int {
    m.ranges.spec_rom().spec_start().inner as int
}

/// The position of the instruction at `rom`.
pub open spec fn spec_instr_index(m: AnalysisModel, rom: Rom) -> int {
    (rom.inner - spec_rom_start(m)) / 4
}

/// Whether `rom` is the rom of one of the analysed instructions.
pub open spec fn spec_rom_ok(m: AnalysisModel, rom: Rom) -> bool {
    spec_rom_start(m) <= rom.inner && spec_instr_index(m, rom) < m.infos.len()
}

/// `m` with `vram` recorded as referenced.
pub open spec fn spec_with_referenced(m: AnalysisModel, vram: Vram) -> AnalysisModel {
    AnalysisModel { referenced_vrams: m.referenced_vrams.insert(vram), ..m }
}

/// `m` after the instruction at `instr_rom` referred to `vram` as `type_info`.
pub open spec fn spec_with_type(m: AnalysisModel, vram: Vram, type_info: TypeInfo, instr_rom: Rom) -> AnalysisModel {
    let before = if m.type_infos.contains_key(vram) {
        m.type_infos[vram]
    } else {
        TypeInfoSummary::No
    };
    AnalysisModel { type_infos: m.type_infos.insert(vram, spec_gather(before, type_info, instr_rom)), ..m }
}

/// `m` with the instruction at `rom` set to `info`. `No` never overwrites anything, and an
/// unpaired `%hi` or a GOT global access only fills an instruction nothing is known of, so
/// that a pairing found earlier is kept.
pub open spec fn spec_with_info(m: AnalysisModel, rom: Rom, info: InstrAnalysisInfo) -> AnalysisModel {
    let i = spec_instr_index(m, rom);
    if info is No {
        m
    } else if (info is UnpairedHi || info is GotGlobal) && !(m.infos[i] is No) {
        m
    } else {
        AnalysisModel { infos: m.infos.update(i, info), ..m }
    }
}

/// `m` with the instruction at `rom` set to `info` if nothing, or only an unpaired `%hi`, is
/// known of it; `No` never overwrites anything.
pub open spec fn spec_with_info_if_empty(m: AnalysisModel, rom: Rom, info: InstrAnalysisInfo) -> AnalysisModel {
    let i = spec_instr_index(m, rom);
    if !(info is No) && (m.infos[i] is No || m.infos[i] is UnpairedHi) {
        AnalysisModel { infos: m.infos.update(i, info), ..m }
    } else {
        m
    }
}

/// Whether every rom that `op` names is that of one of the analysed instructions.
pub open spec fn spec_op_roms_ok(m: AnalysisModel, op: InstructionOperation) -> bool {
    match op {
        InstructionOperation::Link { info: InstrOpLink::Call16RegisterLink { rom, .. } } => spec_rom_ok(m, rom),
        InstructionOperation::Link { info: InstrOpLink::CallHiLoRegisterLink { rom, .. } } => spec_rom_ok(m, rom),
        InstructionOperation::PairedAddress { info, .. } => match info {
            InstrOpPairedAddress::PairedLo { hi_rom, .. } => spec_rom_ok(m, hi_rom),
            InstrOpPairedAddress::PairedLoUnaligned { hi_rom, .. } => spec_rom_ok(m, hi_rom),
            InstrOpPairedAddress::PairedGpGotLo { upper_rom, .. } => spec_rom_ok(m, upper_rom),
            InstrOpPairedAddress::PairedGotLo { hi_rom } => spec_rom_ok(m, hi_rom),
            _ => true,
        },
        InstructionOperation::GpSet { hi_rom } => spec_rom_ok(m, hi_rom),
        InstructionOperation::Constant { hi_rom, .. } => spec_rom_ok(m, hi_rom),
        InstructionOperation::RegisterOperation {
            info: InstrOpRegisterOperation::SuspectedCpload { hi_rom, lo_rom },
        } => spec_rom_ok(m, hi_rom) && spec_rom_ok(m, lo_rom),
        _ => true,
    }
}

/// The info and the new analysis from a linking jump or branch.
pub open spec fn spec_record_link(m: AnalysisModel, r: Rom, info: InstrOpLink) -> (InstrAnalysisInfo, AnalysisModel) {
    match info {
        InstrOpLink::DirectLinkingCall { target_vram } => (
            InstrAnalysisInfo::DirectLink { target_vram },
            spec_with_type(spec_with_referenced(m, target_vram), target_vram, TypeInfo::Function, r),
        ),
        InstrOpLink::LinkingBranch { target_vram } => (
            InstrAnalysisInfo::BranchLink { target_vram },
            spec_with_type(spec_with_referenced(m, target_vram), target_vram, TypeInfo::Function, r),
        ),
        InstrOpLink::RawRegisterLink { vram, .. } => (
            InstrAnalysisInfo::JumpAndLinkRegisterRaw { raw_vram: vram },
            spec_with_type(m, vram, TypeInfo::Function, r),
        ),
        InstrOpLink::Call16RegisterLink { vram, rom } => (
            InstrAnalysisInfo::JumpAndLinkRegisterRaw { raw_vram: vram },
            spec_with_info(spec_with_type(m, vram, TypeInfo::Function, r), rom, InstrAnalysisInfo::GotCall16 { vram }),
        ),
        InstrOpLink::CallHiLoRegisterLink { vram, rom } => (
            InstrAnalysisInfo::JumpAndLinkRegisterRaw { raw_vram: vram },
            spec_with_info(spec_with_type(m, vram, TypeInfo::Function, r), rom, InstrAnalysisInfo::GotCallLo { vram }),
        ),
        InstrOpLink::DereferencedRegisterLink { dereferenced_vram, .. } => (
            InstrAnalysisInfo::JumpAndLinkRegisterDereferenced { dereferenced_vram },
            m,
        ),
        InstrOpLink::UnknownJumpAndLinkRegister { .. } => (InstrAnalysisInfo::No, m),
    }
}

/// The info and the new analysis from a jump that leaves without linking.
pub open spec fn spec_record_tail_call(m: AnalysisModel, r: Rom, info: InstrOpTailCall) -> (InstrAnalysisInfo, AnalysisModel) {
    match info {
        InstrOpTailCall::MaybeDirectTailCall { target_vram } => (
            InstrAnalysisInfo::MaybeDirectTailCall { target_vram },
            spec_with_type(spec_with_referenced(m, target_vram), target_vram, TypeInfo::Function, r),
        ),
        InstrOpTailCall::RawRegisterTailCall { vram, .. } => (
            InstrAnalysisInfo::RawRegisterTailCall { raw_vram: vram },
            spec_with_type(m, vram, TypeInfo::Function, r),
        ),
        InstrOpTailCall::DereferencedRegisterTailCall { dereferenced_vram, .. } => (
            InstrAnalysisInfo::DereferencedRegisterTailCall { dereferenced_vram },
            m,
        ),
        InstrOpTailCall::UnknownRegisterJump { .. } => (InstrAnalysisInfo::No, m),
    }
}

/// The info and the new analysis from an instruction completing the address `vram`. An
/// unaligned access refers to the aligned address it is part of.
pub open spec fn spec_record_paired(m: AnalysisModel, r: Rom, vram: Vram, info: InstrOpPairedAddress) -> (
    InstrAnalysisInfo,
    AnalysisModel,
) {
    match info {
        InstrOpPairedAddress::PairedLo { hi_rom, access_info } => (
            InstrAnalysisInfo::PairedLo { addended_vram: vram, unaddended_vram: vram, upper_rom: hi_rom },
            spec_with_info_if_empty(
                spec_with_type(spec_with_referenced(m, vram), vram, spec_type_info_of(access_info), r),
                hi_rom,
                InstrAnalysisInfo::PairedHi { addended_vram: vram, unaddended_vram: vram },
            ),
        ),
        InstrOpPairedAddress::PairedLoUnaligned { hi_rom, access_info, unaddended_address } => (
            InstrAnalysisInfo::PairedLo { addended_vram: vram, unaddended_vram: unaddended_address, upper_rom: hi_rom },
            spec_with_info_if_empty(
                spec_with_type(
                    spec_with_referenced(m, unaddended_address),
                    unaddended_address,
                    TypeInfo::AccessInfo(access_info),
                    r,
                ),
                hi_rom,
                InstrAnalysisInfo::PairedHi { addended_vram: vram, unaddended_vram: unaddended_address },
            ),
        ),
        InstrOpPairedAddress::GpRel { access_info } => (
            InstrAnalysisInfo::GpRel { addended_vram: vram, unaddended_vram: vram },
            spec_with_type(spec_with_referenced(m, vram), vram, spec_type_info_of(access_info), r),
        ),
        InstrOpPairedAddress::GpRelUnaligned { access_info, unaddended_address } => (
            InstrAnalysisInfo::GpRel { addended_vram: vram, unaddended_vram: unaddended_address },
            spec_with_type(
                spec_with_referenced(m, unaddended_address),
                unaddended_address,
                TypeInfo::AccessInfo(access_info),
                r,
            ),
        ),
        InstrOpPairedAddress::GpGotLazyResolver {} => (
            InstrAnalysisInfo::GotLazyResolver { addended_vram: vram, unaddended_vram: vram },
            spec_with_type(m, vram, TypeInfo::No, r),
        ),
        InstrOpPairedAddress::GpGotGlobal {} => (
            InstrAnalysisInfo::GotGlobal { addended_vram: vram, unaddended_vram: vram },
            spec_with_type(spec_with_referenced(m, vram), vram, TypeInfo::No, r),
        ),
        InstrOpPairedAddress::GpGotLocal {} => (
            InstrAnalysisInfo::GotLocal { addended_vram: vram, unaddended_vram: vram },
            m,
        ),
        InstrOpPairedAddress::PairedGpGotLo { upper_rom, access_info } => (
            InstrAnalysisInfo::PairedLo { addended_vram: vram, unaddended_vram: vram, upper_rom },
            spec_with_info(
                spec_with_type(spec_with_referenced(m, vram), vram, spec_type_info_of(access_info), r),
                upper_rom,
                InstrAnalysisInfo::GotLocalPaired { addended_vram: vram, unaddended_vram: vram },
            ),
        ),
        InstrOpPairedAddress::PairedGotLo { hi_rom } => (
            InstrAnalysisInfo::PairedGotLo { vram },
            spec_with_info_if_empty(
                spec_with_type(spec_with_referenced(m, vram), vram, TypeInfo::No, r),
                hi_rom,
                InstrAnalysisInfo::PairedGotHi { vram },
            ),
        ),
    }
}

/// The info and the new analysis from what the register tracker made of the instruction at
/// `r`, before that info is stored for the instruction itself.
pub open spec fn spec_record_op(m: AnalysisModel, r: Rom, op: InstructionOperation) -> (InstrAnalysisInfo, AnalysisModel) {
    match op {
        InstructionOperation::Link { info } => spec_record_link(m, r, info),
        InstructionOperation::TailCall { info } => spec_record_tail_call(m, r, info),
        InstructionOperation::JumptableJump { jumptable_vram, info, .. } => (
            InstrAnalysisInfo::Jumptable { jumptable_vram, kind: info },
            spec_with_type(m, jumptable_vram, TypeInfo::Jumptable, r),
        ),
        InstructionOperation::Branch { target_vram } => (
            if m.ranges.spec_vram().spec_in_range(target_vram) {
                InstrAnalysisInfo::Branch { target_vram }
            } else {
                InstrAnalysisInfo::BranchOutside { target_vram }
            },
            spec_with_type(spec_with_referenced(m, target_vram), target_vram, TypeInfo::BranchTarget, r),
        ),
        InstructionOperation::Hi { value, .. } => (InstrAnalysisInfo::UnpairedHi { value }, m),
        InstructionOperation::PairedAddress { vram, info } => spec_record_paired(m, r, vram, info),
        InstructionOperation::GpSet { hi_rom } => (
            InstrAnalysisInfo::GpSetLo,
            spec_with_info_if_empty(m, hi_rom, InstrAnalysisInfo::GpSetHi),
        ),
        InstructionOperation::DereferencedRawAddress { original_address, access_info, .. } => (
            InstrAnalysisInfo::No,
            spec_with_type(m, original_address, TypeInfo::AccessInfo(access_info), r),
        ),
        InstructionOperation::Constant { constant, hi_rom } => (
            InstrAnalysisInfo::ConstantLo { constant, upper_rom: hi_rom },
            spec_with_info_if_empty(m, hi_rom, InstrAnalysisInfo::ConstantHi { constant }),
        ),
        InstructionOperation::RegisterOperation {
            info: InstrOpRegisterOperation::SuspectedCpload { hi_rom, lo_rom },
        } => (
            InstrAnalysisInfo::CploadAddu,
            spec_with_info(spec_with_info(m, hi_rom, InstrAnalysisInfo::CploadHi), lo_rom, InstrAnalysisInfo::CploadLo),
        ),
        _ => (InstrAnalysisInfo::No, m),
    }
}

/// The info and the new analysis once the instruction at `r` was processed: it is noted as
/// handwritten if it looks so, what the tracker made of it is recorded, and the resulting info
/// is stored for it.
pub open spec fn spec_record(m: AnalysisModel, r: Rom, likely_handwritten: bool, op: InstructionOperation) -> (
    InstrAnalysisInfo,
    AnalysisModel,
) {
    let m0 = if likely_handwritten {
        AnalysisModel { handwritten_instrs: m.handwritten_instrs.insert(r), ..m }
    } else {
        m
    };
    let (info, m1) = spec_record_op(m0, r, op);
    (info, spec_with_info(m1, r, info))
}

/// A `jalr` through a register loaded with `%call16` (`lw $t9, %call16(f)($gp); jalr $t9`)
/// is recorded as a call to `f`: the `jalr` itself calls the raw address `f`, the load at
/// `rom` becomes the `%call16` of `f`, and every other instruction's info is kept.
pub proof fn lemma_call16_link_marks_the_load(
    m: AnalysisModel,
    r: Rom,
    likely_handwritten: bool,
    vram: Vram,
    rom: Rom,
)
    requires
        spec_rom_ok(m, r),
        spec_rom_ok(m, rom),
        spec_instr_index(m, rom) != spec_instr_index(m, r),
    ensures
        ({
            let (info, m2) = spec_record(
                m,
                r,
                likely_handwritten,
                InstructionOperation::Link { info: InstrOpLink::Call16RegisterLink { vram, rom } },
            );
            &&& info == InstrAnalysisInfo::JumpAndLinkRegisterRaw { raw_vram: vram }
            &&& m2.infos.len() == m.infos.len()
            &&& m2.infos[spec_instr_index(m, rom)] == InstrAnalysisInfo::GotCall16 { vram }
            &&& m2.infos[spec_instr_index(m, r)] == InstrAnalysisInfo::JumpAndLinkRegisterRaw { raw_vram: vram }
            &&& forall|k: int|
                0 <= k < m.infos.len() && k != spec_instr_index(m, rom) && k != spec_instr_index(m, r)
                    ==> m2.infos[k] == m.infos[k]
        }),
{
}

/// A `jalr` through a register loaded with `%call_hi`/`%call_lo` is recorded as a call to the
/// function: the `%call_lo` load at `rom` becomes the `%call_lo` of it, and every other
/// instruction's info but the `jalr`'s own is kept.
pub proof fn lemma_call_hi_lo_link_marks_the_load(
    m: AnalysisModel,
    r: Rom,
    likely_handwritten: bool,
    vram: Vram,
    rom: Rom,
)
    requires
        spec_rom_ok(m, r),
        spec_rom_ok(m, rom),
        spec_instr_index(m, rom) != spec_instr_index(m, r),
    ensures
        ({
            let (info, m2) = spec_record(
                m,
                r,
                likely_handwritten,
                InstructionOperation::Link { info: InstrOpLink::CallHiLoRegisterLink { vram, rom } },
            );
            &&& info == InstrAnalysisInfo::JumpAndLinkRegisterRaw { raw_vram: vram }
            &&& m2.infos[spec_instr_index(m, rom)] == InstrAnalysisInfo::GotCallLo { vram }
            &&& forall|k: int|
                0 <= k < m.infos.len() && k != spec_instr_index(m, rom) && k != spec_instr_index(m, r)
                    ==> m2.infos[k] == m.infos[k]
        }),
{
}

/// A direct call (`jal f`) records `f` as referenced, and the call as a direct link to it.
pub proof fn lemma_direct_call_references_target(m: AnalysisModel, r: Rom, likely_handwritten: bool, target_vram: Vram)
    requires
        spec_rom_ok(m, r),
    ensures
        ({
            let (info, m2) = spec_record(
                m,
                r,
                likely_handwritten,
                InstructionOperation::Link { info: InstrOpLink::DirectLinkingCall { target_vram } },
            );
            &&& info == InstrAnalysisInfo::DirectLink { target_vram }
            &&& m2.referenced_vrams.contains(target_vram)
            &&& m2.type_infos.contains_key(target_vram)
            &&& m2.infos[spec_instr_index(m, r)] == InstrAnalysisInfo::DirectLink { target_vram }
        }),
{
}

/// The rom of the instruction at `vram`, if it is one of the analysed instructions.
pub open spec fn spec_instr_rom(m: AnalysisModel, vram: Vram) -> Option<Rom> {
    let vram_start = m.ranges.spec_vram().spec_start().inner as int;
    if m.ranges.spec_vram().spec_in_range(vram) && (vram.inner - vram_start) / 4 < m.infos.len() {
        Some(Rom { inner: (spec_rom_start(m) + (vram.inner - vram_start)) as u32 })
    } else {
        None
    }
}

/// What the register tracker makes of an instruction: an instruction it cannot read is an
/// invalid one and leaves the registers as they were.
pub open spec fn spec_tracker_step(
    regs: Seq<GprRegisterValue>,
    gp_config: Option<GpConfig>,
    endian: Endian,
    instr: DecodedInstr,
    rom: Rom,
    got: Option<&GlobalOffsetTable>,
) -> (InstructionOperation, Seq<GprRegisterValue>) {
    if spec_trackable(instr) {
        spec_process(regs, gp_config, endian, instr, rom, got)
    } else {
        (InstructionOperation::InvalidInstr {}, regs)
    }
}

/// How processing `instr` takes the analysis from `m` to `m2` and the registers from `regs` to
/// `regs2`, returning `r`. Nothing happens to an instruction outside the analysed range. For one
/// inside, the tracker processes it; what it made of it is recorded unless it names the rom of
/// an instruction outside the range, in which case nothing is recorded and `None` comes back.
pub open spec fn spec_process_step(
    m: AnalysisModel,
    regs: Seq<GprRegisterValue>,
    gp_config: Option<GpConfig>,
    endian: Endian,
    instr: DecodedInstr,
    likely_handwritten: bool,
    got: Option<&GlobalOffsetTable>,
    r: Option<InstrAnalysisInfo>,
    m2: AnalysisModel,
    regs2: Seq<GprRegisterValue>,
) -> bool {
    match spec_instr_rom(m, instr.vram) {
        None => r is None && m2 == m && regs2 == regs,
        Some(rom) => {
            let (op, new_regs) = spec_tracker_step(regs, gp_config, endian, instr, rom, got);
            &&& regs2 == new_regs
            &&& if spec_op_roms_ok(m, op) {
                r == Some(spec_record(m, rom, likely_handwritten, op).0) && m2 == spec_record(
                    m,
                    rom,
                    likely_handwritten,
                    op,
                ).1
            } else {
                r is None && m2 == m
            }
        },
    }
}

/// Whether some access in `s` reads or writes a double-precision float in two 32-bit halves,
/// as MIPS1 does.
pub open spec fn spec_has_mips1_double(s: Set<((AccessType, bool), Rom)>) -> bool {
    exists|r: Rom| #[trigger] s.contains(((AccessType::DOUBLEFLOAT, true), r))
}

/// Whether `g` holds a split double-precision access.
pub open spec fn spec_is_mips1_double(g: TypeInfoSummary) -> bool {
    match g {
        TypeInfoSummary::AccessInfoCounter(s) => spec_has_mips1_double(s),
        _ => false,
    }
}

/// Whether the analysis saw a split double-precision access at `vram`.
pub open spec fn spec_double_source(m: AnalysisModel, vram: Vram) -> bool {
    m.type_infos.contains_key(vram) && spec_is_mips1_double(m.type_infos[vram])
}

/// `vram` rounded down to a multiple of 8, where a double-precision value starts.
pub open spec fn spec_double_start(vram: Vram) -> Vram {
    Vram { inner: (vram.inner - vram.inner % 8) as u32 }
}

/// Whether a split double-precision access was seen at an address that rounds down to `start`.
pub open spec fn spec_double_at(m: AnalysisModel, start: Vram) -> bool {
    exists|v: Vram| spec_double_source(m, v) && #[trigger] spec_double_start(v) == start
}

/// Whether `v` is the highest address rounding down to `start` with a split double-precision
/// access; what was gathered there is what the double keeps.
pub open spec fn spec_is_kept_double(m: AnalysisModel, start: Vram, v: Vram) -> bool {
    &&& spec_double_source(m, v)
    &&& spec_double_start(v) == start
    &&& forall|w: Vram|
        spec_double_source(m, w) && #[trigger] spec_double_start(w) == start ==> w.inner <= v.inner
}

/// The starts of the doubles that the analysis saw split accesses of.
pub open spec fn spec_double_starts(m: AnalysisModel) -> Set<Vram> {
    Set::new(|start: Vram| spec_double_at(m, start))
}

/// The address of the second half of the double that starts at `start`.
pub open spec fn spec_second_half(start: Vram) -> Vram {
    Vram { inner: (start.inner + 4) as u32 }
}

/// Whether `k` is the second half of a double starting at one of `starts`.
pub open spec fn spec_is_second_half(starts: Set<Vram>, k: Vram) -> bool {
    k.inner % 8 == 4 && starts.contains(Vram { inner: (k.inner - 4) as u32 })
}

/// The accesses a double keeps: all but the single-precision ones of its halves.
pub open spec fn spec_without_single_floats(s: Set<((AccessType, bool), Rom)>) -> Set<((AccessType, bool), Rom)> {
    s.filter(|p: ((AccessType, bool), Rom)| p.0 != (AccessType::FLOAT, false))
}

/// What a double starting at `start` keeps: the accesses of its highest split access, minus the
/// single-precision ones.
pub open spec fn spec_double_info(m: AnalysisModel, start: Vram) -> TypeInfoSummary {
    let v = choose|v: Vram| spec_is_kept_double(m, start, v);
    match m.type_infos[v] {
        TypeInfoSummary::AccessInfoCounter(s) => TypeInfoSummary::AccessInfoCounter(spec_without_single_floats(s)),
        other => other,
    }
}

/// What is gathered once the doubles starting at `starts` are handled: each such double gets
/// [`spec_double_info`], their second halves are dropped, the split accesses elsewhere are not
/// kept, and other addresses keep what they had.
pub open spec fn spec_type_infos_with_doubles(m: AnalysisModel, starts: Set<Vram>) -> Map<Vram, TypeInfoSummary> {
    Map::new(
        |k: Vram|
            starts.contains(k) || (!spec_is_second_half(starts, k) && m.type_infos.contains_key(k)
                && !spec_is_mips1_double(m.type_infos[k])),
        |k: Vram|
            if starts.contains(k) {
                spec_double_info(m, k)
            } else {
                m.type_infos[k]
            },
    )
}

/// Whether the instruction at `r` makes an access of kind `kind` to the second half of the
/// double starting at `start`, where no split access was seen.
pub open spec fn spec_second_half_access(m: AnalysisModel, start: Vram, kind: (AccessType, bool), r: Rom) -> bool {
    m.type_infos.contains_key(spec_second_half(start)) && match m.type_infos[spec_second_half(start)] {
        TypeInfoSummary::AccessInfoCounter(s) => !spec_has_mips1_double(s) && s.contains((kind, r)),
        _ => false,
    }
}

/// The roms of the single-precision accesses to the second halves of the doubles starting at
/// `starts`.
pub open spec fn spec_second_half_roms(m: AnalysisModel, starts: Set<Vram>) -> Set<Rom> {
    Set::new(
        |r: Rom|
            exists|start: Vram, kind: (AccessType, bool)|
                starts.contains(start) && #[trigger] spec_second_half_access(m, start, kind, r),
    )
}

/// Whether the instruction at position `i` is one of the instructions at `roms`, or holds the
/// upper half for one of them.
pub open spec fn spec_realigned_by(m: AnalysisModel, roms: Set<Rom>, i: int) -> bool {
    exists|r: Rom|
        #[trigger] roms.contains(r) && (spec_instr_index(m, r) == i || match spec_upper_rom(m.infos[spec_instr_index(m, r)]) {
            Some(u) => spec_instr_index(m, u) == i,
            None => false,
        })
}

/// The infos once the instructions at `roms`, and those holding their upper halves, refer to
/// the start of their double.
pub open spec fn spec_realigned_infos(m: AnalysisModel, roms: Set<Rom>) -> Seq<InstrAnalysisInfo> {
    Seq::new(
        m.infos.len(),
        |i: int|
            if spec_realigned_by(m, roms, i) {
                spec_align_down_unaddended(m.infos[i], 8)
            } else {
                m.infos[i]
            },
    )
}

/// The analysis once finished: every split double-precision access is moved to the start of its
/// double (see [`spec_type_infos_with_doubles`]), the second halves stop being referenced, and
/// the instructions accessing them refer to the start of the double instead.
pub open spec fn spec_finished(m: AnalysisModel) -> AnalysisModel {
    let starts = spec_double_starts(m);
    AnalysisModel {
        ranges: m.ranges,
        infos: spec_realigned_infos(m, spec_second_half_roms(m, starts)),
        referenced_vrams: m.referenced_vrams.filter(|k: Vram| !spec_is_second_half(starts, k)),
        type_infos: spec_type_infos_with_doubles(m, starts),
        handwritten_instrs: m.handwritten_instrs,
    }
}

/// An analysis in progress over the instructions of one rom range: what is known of each
/// instruction, which addresses they refer to and how, and which look handwritten.
#[derive(Debug)]
pub struct InstructionAnalysisBuilder {
    ranges: RomVramRange,
    instruction_infos: Vec<InstrAnalysisInfo>,
    referenced_vrams: Vec<Vram>,
    type_info_per_address: TypeInfoMap,
    handwritten_instrs: Vec<Rom>,
}

impl View for InstructionAnalysisBuilder {
    type V = AnalysisModel;

    closed spec fn view(&self) -> AnalysisModel {
        AnalysisModel {
            ranges: self.ranges,
            infos: self.instruction_infos@,
            referenced_vrams: self.referenced_vrams@.to_set(),
            type_infos: self.type_info_per_address@,
            handwritten_instrs: self.handwritten_instrs@.to_set(),
        }
    }
}

/// The analysis has one entry per instruction of its rom range, and every rom it stores is
/// that of one of its instructions.
pub open spec fn spec_analysis_wf(m: AnalysisModel) -> bool {
    &&& m.infos.len() == (m.ranges.spec_rom().spec_end().inner - spec_rom_start(m)) / 4
    &&& forall|i: int|
        0 <= i < m.infos.len() ==> match #[trigger] spec_upper_rom(m.infos[i]) {
            Some(r) => spec_rom_ok(m, r),
            None => true,
        }
    &&& forall|v: Vram| m.type_infos.contains_key(v) ==> spec_counter_roms_ok(m, #[trigger] m.type_infos[v])
}

/// Every access recorded in `g` was made by one of the analysed instructions.
pub open spec fn spec_counter_roms_ok(m: AnalysisModel, g: TypeInfoSummary) -> bool {
    match g {
        TypeInfoSummary::AccessInfoCounter(s) => forall|p: ((AccessType, bool), Rom)|
            #[trigger] s.contains(p) ==> spec_rom_ok(m, p.1),
        _ => true,
    }
}

/// Whether `vram` is in `v`.
fn has_vram(v: &Vec<Vram>, vram: Vram) -> (r: bool)
    ensures
        r == v@.contains(vram),
{
    let mut i: usize = 0;
    while i < v.len()
        invariant
            i <= v@.len(),
            forall|j: int| 0 <= j < i ==> v@[j] != vram,
        decreases v@.len() - i,
    {
        if v[i] == vram {
            return true;
        }
        i = i + 1;
    }
    false
}

/// Whether `rom` is in `v`.
fn has_rom(v: &Vec<Rom>, rom: Rom) -> (r: bool)
    ensures
        r == v@.contains(rom),
{
    let mut i: usize = 0;
    while i < v.len()
        invariant
            i <= v@.len(),
            forall|j: int| 0 <= j < i ==> v@[j] != rom,
        decreases v@.len() - i,
    {
        if v[i] == rom {
            return true;
        }
        i = i + 1;
    }
    false
}

impl InstructionAnalysisBuilder {
    pub closed spec fn well_formed(self) -> bool {
        &&& self.type_info_per_address.well_formed()
        &&& spec_analysis_wf(self@)
        &&& self.referenced_vrams@.no_duplicates()
        &&& self.handwritten_instrs@.no_duplicates()
    }

    /// A new analysis of `ranges`: nothing is known of any of its instructions yet.
    pub fn new(ranges: RomVramRange) -> (r: Self)
        ensures
            r.well_formed(),
            r@.ranges == ranges,
            r@.infos == Seq::new(
                ((ranges.spec_rom().spec_end().inner - ranges.spec_rom().spec_start().inner) / 4) as nat,
                |i: int| InstrAnalysisInfo::No,
            ),
            r@.referenced_vrams == Set::<Vram>::empty(),
            r@.type_infos == Map::<Vram, TypeInfoSummary>::empty(),
            r@.handwritten_instrs == Set::<Rom>::empty(),
    {
        let start = ranges.rom().start();
        let end = ranges.rom().end();
        let instr_count = (end.inner - start.inner) / 4;
        let mut instruction_infos: Vec<InstrAnalysisInfo> = Vec::new();
        let mut i: u32 = 0;
        while i < instr_count
            invariant
                i <= instr_count,
                instruction_infos@ == Seq::new(i as nat, |j: int| InstrAnalysisInfo::No),
            decreases instr_count - i,
        {
            instruction_infos.push(InstrAnalysisInfo::No);
            i = i + 1;
            assert(instruction_infos@ =~= Seq::new(i as nat, |j: int| InstrAnalysisInfo::No));
        }
        let r = InstructionAnalysisBuilder {
            ranges,
            instruction_infos,
            referenced_vrams: Vec::new(),
            type_info_per_address: TypeInfoMap::new(),
            handwritten_instrs: Vec::new(),
        };
        proof {
            assert(r@.referenced_vrams =~= Set::<Vram>::empty());
            assert(r@.handwritten_instrs =~= Set::<Rom>::empty());
        }
        r
    }

    pub fn ranges(&self) -> (r: &RomVramRange)
        ensures
            *r == self@.ranges,
    {
        &self.ranges
    }

    /// The position of the instruction at `rom`.
    fn index_from_rom(&self, rom: Rom) -> (r: usize)
        requires
            spec_rom_ok(self@, rom),
        ensures
            r == spec_instr_index(self@, rom),
    {
        let start = self.ranges.rom().start();
        ((rom.inner - start.inner) / 4) as usize
    }

    fn set_info(&mut self, rom: Rom, info: InstrAnalysisInfo)
        requires
            old(self).well_formed(),
            spec_rom_ok(old(self)@, rom),
            spec_upper_rom(info) matches Some(u) ==> spec_rom_ok(old(self)@, u),
        ensures
            final(self).well_formed(),
            final(self)@ == spec_with_info(old(self)@, rom, info),
    {
        let index = self.index_from_rom(rom);
        if !matches!(info, InstrAnalysisInfo::No) {
            let only_if_empty = matches!(info, InstrAnalysisInfo::UnpairedHi { .. } | InstrAnalysisInfo::GotGlobal { .. });
            if !only_if_empty || matches!(self.instruction_infos[index], InstrAnalysisInfo::No) {
                self.instruction_infos.set(index, info);
            }
        }
        proof {
            assert(self@ == spec_with_info(old(self)@, rom, info));
        }
    }

    fn set_info_if_empty(&mut self, rom: Rom, info: InstrAnalysisInfo)
        requires
            old(self).well_formed(),
            spec_rom_ok(old(self)@, rom),
            spec_upper_rom(info) matches Some(u) ==> spec_rom_ok(old(self)@, u),
        ensures
            final(self).well_formed(),
            final(self)@ == spec_with_info_if_empty(old(self)@, rom, info),
    {
        let index = self.index_from_rom(rom);
        if !matches!(info, InstrAnalysisInfo::No) {
            if matches!(self.instruction_infos[index], InstrAnalysisInfo::No | InstrAnalysisInfo::UnpairedHi { .. }) {
                self.instruction_infos.set(index, info);
            }
        }
        proof {
            assert(self@ == spec_with_info_if_empty(old(self)@, rom, info));
        }
    }

    fn add_referenced_vram(&mut self, vram: Vram)
        requires
            old(self).well_formed(),
        ensures
            final(self).well_formed(),
            final(self)@ == spec_with_referenced(old(self)@, vram),
    {
        let ghost before = self.referenced_vrams@;
        if !has_vram(&self.referenced_vrams, vram) {
            self.referenced_vrams.push(vram);
            proof {
                lemma_push_to_set(before, vram);
            }
        } else {
            proof {
                assert(before.to_set() =~= before.to_set().insert(vram));
            }
        }
        proof {
            assert(self@ == spec_with_referenced(old(self)@, vram));
        }
    }

    fn add_handwritten(&mut self, rom: Rom)
        requires
            old(self).well_formed(),
        ensures
            final(self).well_formed(),
            final(self)@ == (AnalysisModel { handwritten_instrs: old(self)@.handwritten_instrs.insert(rom), ..old(self)@ }),
    {
        let ghost before = self.handwritten_instrs@;
        if !has_rom(&self.handwritten_instrs, rom) {
            self.handwritten_instrs.push(rom);
            proof {
                lemma_push_to_set(before, rom);
            }
        } else {
            proof {
                assert(before.to_set() =~= before.to_set().insert(rom));
            }
        }
        proof {
            assert(self@ == (AnalysisModel { handwritten_instrs: old(self)@.handwritten_instrs.insert(rom), ..old(self)@ }));
        }
    }

    fn apply_symbol_type(&mut self, vram: Vram, type_info: TypeInfo, instr_rom: Rom)
        requires
            old(self).well_formed(),
            spec_rom_ok(old(self)@, instr_rom),
        ensures
            final(self).well_formed(),
            final(self)@ == spec_with_type(old(self)@, vram, type_info, instr_rom),
    {
        self.type_info_per_address.gather(vram, type_info, instr_rom);
        proof {
            let m = self@;
            let old_m = old(self)@;
            assert(m == spec_with_type(old_m, vram, type_info, instr_rom));
            assert forall|v: Vram| m.type_infos.contains_key(v) implies spec_counter_roms_ok(
                m,
                #[trigger] m.type_infos[v],
            ) by {
                if v != vram {
                    assert(old_m.type_infos.contains_key(v));
                    assert(m.type_infos[v] == old_m.type_infos[v]);
                    assert(spec_counter_roms_ok(old_m, old_m.type_infos[v]));
                } else if old_m.type_infos.contains_key(v) {
                    assert(spec_counter_roms_ok(old_m, old_m.type_infos[v]));
                }
            }
        }
    }
}

impl InstructionAnalysisBuilder {
    fn record_link(&mut self, r: Rom, info: InstrOpLink) -> (res: InstrAnalysisInfo)
        requires
            old(self).well_formed(),
            spec_rom_ok(old(self)@, r),
            spec_op_roms_ok(old(self)@, InstructionOperation::Link { info }),
        ensures
            final(self).well_formed(),
            (res, final(self)@) == spec_record_link(old(self)@, r, info),
    {
        match info {
            InstrOpLink::DirectLinkingCall { target_vram } => {
                self.add_referenced_vram(target_vram);
                self.apply_symbol_type(target_vram, TypeInfo::Function, r);
                InstrAnalysisInfo::DirectLink { target_vram }
            },
            InstrOpLink::LinkingBranch { target_vram } => {
                self.add_referenced_vram(target_vram);
                self.apply_symbol_type(target_vram, TypeInfo::Function, r);
                InstrAnalysisInfo::BranchLink { target_vram }
            },
            InstrOpLink::RawRegisterLink { vram, .. } => {
                self.apply_symbol_type(vram, TypeInfo::Function, r);
                InstrAnalysisInfo::JumpAndLinkRegisterRaw { raw_vram: vram }
            },
            InstrOpLink::Call16RegisterLink { vram, rom } => {
                self.apply_symbol_type(vram, TypeInfo::Function, r);
                self.set_info(rom, InstrAnalysisInfo::GotCall16 { vram });
                InstrAnalysisInfo::JumpAndLinkRegisterRaw { raw_vram: vram }
            },
            InstrOpLink::CallHiLoRegisterLink { vram, rom } => {
                self.apply_symbol_type(vram, TypeInfo::Function, r);
                self.set_info(rom, InstrAnalysisInfo::GotCallLo { vram });
                InstrAnalysisInfo::JumpAndLinkRegisterRaw { raw_vram: vram }
            },
            InstrOpLink::DereferencedRegisterLink { dereferenced_vram, .. } => {
                InstrAnalysisInfo::JumpAndLinkRegisterDereferenced { dereferenced_vram }
            },
            InstrOpLink::UnknownJumpAndLinkRegister { .. } => InstrAnalysisInfo::No,
        }
    }

    fn record_tail_call(&mut self, r: Rom, info: InstrOpTailCall) -> (res: InstrAnalysisInfo)
        requires
            old(self).well_formed(),
            spec_rom_ok(old(self)@, r),
        ensures
            final(self).well_formed(),
            (res, final(self)@) == spec_record_tail_call(old(self)@, r, info),
    {
        match info {
            InstrOpTailCall::MaybeDirectTailCall { target_vram } => {
                self.add_referenced_vram(target_vram);
                self.apply_symbol_type(target_vram, TypeInfo::Function, r);
                InstrAnalysisInfo::MaybeDirectTailCall { target_vram }
            },
            InstrOpTailCall::RawRegisterTailCall { vram, .. } => {
                self.apply_symbol_type(vram, TypeInfo::Function, r);
                InstrAnalysisInfo::RawRegisterTailCall { raw_vram: vram }
            },
            InstrOpTailCall::DereferencedRegisterTailCall { dereferenced_vram, .. } => {
                InstrAnalysisInfo::DereferencedRegisterTailCall { dereferenced_vram }
            },
            InstrOpTailCall::UnknownRegisterJump { .. } => InstrAnalysisInfo::No,
        }
    }

    fn record_paired(&mut self, r: Rom, vram: Vram, info: InstrOpPairedAddress) -> (res: InstrAnalysisInfo)
        requires
            old(self).well_formed(),
            spec_rom_ok(old(self)@, r),
            spec_op_roms_ok(old(self)@, InstructionOperation::PairedAddress { vram, info }),
        ensures
            final(self).well_formed(),
            (res, final(self)@) == spec_record_paired(old(self)@, r, vram, info),
    {
        match info {
            InstrOpPairedAddress::PairedLo { hi_rom, access_info } => {
                self.add_referenced_vram(vram);
                self.apply_symbol_type(vram, TypeInfo::from_access_info(access_info), r);
                self.set_info_if_empty(hi_rom, InstrAnalysisInfo::PairedHi { addended_vram: vram, unaddended_vram: vram });
                InstrAnalysisInfo::PairedLo { addended_vram: vram, unaddended_vram: vram, upper_rom: hi_rom }
            },
            InstrOpPairedAddress::PairedLoUnaligned { hi_rom, access_info, unaddended_address } => {
                self.add_referenced_vram(unaddended_address);
                self.apply_symbol_type(unaddended_address, TypeInfo::AccessInfo(access_info), r);
                self.set_info_if_empty(
                    hi_rom,
                    InstrAnalysisInfo::PairedHi { addended_vram: vram, unaddended_vram: unaddended_address },
                );
                InstrAnalysisInfo::PairedLo { addended_vram: vram, unaddended_vram: unaddended_address, upper_rom: hi_rom }
            },
            InstrOpPairedAddress::GpRel { access_info } => {
                self.add_referenced_vram(vram);
                self.apply_symbol_type(vram, TypeInfo::from_access_info(access_info), r);
                InstrAnalysisInfo::GpRel { addended_vram: vram, unaddended_vram: vram }
            },
            InstrOpPairedAddress::GpRelUnaligned { access_info, unaddended_address } => {
                self.add_referenced_vram(unaddended_address);
                self.apply_symbol_type(unaddended_address, TypeInfo::AccessInfo(access_info), r);
                InstrAnalysisInfo::GpRel { addended_vram: vram, unaddended_vram: unaddended_address }
            },
            InstrOpPairedAddress::GpGotLazyResolver {} => {
                self.apply_symbol_type(vram, TypeInfo::No, r);
                InstrAnalysisInfo::GotLazyResolver { addended_vram: vram, unaddended_vram: vram }
            },
            InstrOpPairedAddress::GpGotGlobal {} => {
                self.add_referenced_vram(vram);
                self.apply_symbol_type(vram, TypeInfo::No, r);
                InstrAnalysisInfo::GotGlobal { addended_vram: vram, unaddended_vram: vram }
            },
            InstrOpPairedAddress::GpGotLocal {} => InstrAnalysisInfo::GotLocal {
                addended_vram: vram,
                unaddended_vram: vram,
            },
            InstrOpPairedAddress::PairedGpGotLo { upper_rom, access_info } => {
                self.add_referenced_vram(vram);
                self.apply_symbol_type(vram, TypeInfo::from_access_info(access_info), r);
                self.set_info(upper_rom, InstrAnalysisInfo::GotLocalPaired { addended_vram: vram, unaddended_vram: vram });
                InstrAnalysisInfo::PairedLo { addended_vram: vram, unaddended_vram: vram, upper_rom }
            },
            InstrOpPairedAddress::PairedGotLo { hi_rom } => {
                self.add_referenced_vram(vram);
                self.apply_symbol_type(vram, TypeInfo::No, r);
                self.set_info_if_empty(hi_rom, InstrAnalysisInfo::PairedGotHi { vram });
                InstrAnalysisInfo::PairedGotLo { vram }
            },
        }
    }

    /// Records what the register tracker made of the instruction at `instr_rom` (see
    /// [`spec_record`]) and returns the info stored for that instruction.
    pub fn record_operation(&mut self, instr_rom: Rom, likely_handwritten: bool, op: InstructionOperation) -> (res:
        InstrAnalysisInfo)
        requires
            old(self).well_formed(),
            spec_rom_ok(old(self)@, instr_rom),
            spec_op_roms_ok(old(self)@, op),
        ensures
            final(self).well_formed(),
            (res, final(self)@) == spec_record(old(self)@, instr_rom, likely_handwritten, op),
    {
        if likely_handwritten {
            self.add_handwritten(instr_rom);
        }
        let info = match op {
            InstructionOperation::Link { info } => self.record_link(instr_rom, info),
            InstructionOperation::TailCall { info } => self.record_tail_call(instr_rom, info),
            InstructionOperation::JumptableJump { jumptable_vram, info, .. } => {
                self.apply_symbol_type(jumptable_vram, TypeInfo::Jumptable, instr_rom);
                InstrAnalysisInfo::Jumptable { jumptable_vram, kind: info }
            },
            InstructionOperation::Branch { target_vram } => {
                self.add_referenced_vram(target_vram);
                self.apply_symbol_type(target_vram, TypeInfo::BranchTarget, instr_rom);
                if self.ranges.in_vram_range(target_vram) {
                    InstrAnalysisInfo::Branch { target_vram }
                } else {
                    InstrAnalysisInfo::BranchOutside { target_vram }
                }
            },
            InstructionOperation::Hi { value, .. } => InstrAnalysisInfo::UnpairedHi { value },
            InstructionOperation::PairedAddress { vram, info } => self.record_paired(instr_rom, vram, info),
            InstructionOperation::GpSet { hi_rom } => {
                self.set_info_if_empty(hi_rom, InstrAnalysisInfo::GpSetHi);
                InstrAnalysisInfo::GpSetLo
            },
            InstructionOperation::DereferencedRawAddress { original_address, access_info, .. } => {
                self.apply_symbol_type(original_address, TypeInfo::AccessInfo(access_info), instr_rom);
                InstrAnalysisInfo::No
            },
            InstructionOperation::Constant { constant, hi_rom } => {
                self.set_info_if_empty(hi_rom, InstrAnalysisInfo::ConstantHi { constant });
                InstrAnalysisInfo::ConstantLo { constant, upper_rom: hi_rom }
            },
            InstructionOperation::RegisterOperation { info } => match info {
                InstrOpRegisterOperation::SuspectedCpload { hi_rom, lo_rom } => {
                    self.set_info(hi_rom, InstrAnalysisInfo::CploadHi);
                    self.set_info(lo_rom, InstrAnalysisInfo::CploadLo);
                    InstrAnalysisInfo::CploadAddu
                },
                _ => InstrAnalysisInfo::No,
            },
            _ => InstrAnalysisInfo::No,
        };
        self.set_info(instr_rom, info);
        info
    }
}

impl InstructionAnalysisBuilder {
    /// Whether `rom` is the rom of one of the analysed instructions.
    fn rom_ok(&self, rom: Rom) -> (r: bool)
        ensures
            r == spec_rom_ok(self@, rom),
    {
        let start = self.ranges.rom().start();
        rom.inner >= start.inner && (((rom.inner - start.inner) / 4) as usize) < self.instruction_infos.len()
    }

    /// Whether every rom that `op` names is that of one of the analysed instructions.
    fn op_roms_ok(&self, op: &InstructionOperation) -> (r: bool)
        ensures
            r == spec_op_roms_ok(self@, *op),
    {
        match op {
            InstructionOperation::Link { info: InstrOpLink::Call16RegisterLink { rom, .. } } => self.rom_ok(*rom),
            InstructionOperation::Link { info: InstrOpLink::CallHiLoRegisterLink { rom, .. } } => self.rom_ok(*rom),
            InstructionOperation::PairedAddress { info, .. } => match info {
                InstrOpPairedAddress::PairedLo { hi_rom, .. } => self.rom_ok(*hi_rom),
                InstrOpPairedAddress::PairedLoUnaligned { hi_rom, .. } => self.rom_ok(*hi_rom),
                InstrOpPairedAddress::PairedGpGotLo { upper_rom, .. } => self.rom_ok(*upper_rom),
                InstrOpPairedAddress::PairedGotLo { hi_rom } => self.rom_ok(*hi_rom),
                _ => true,
            },
            InstructionOperation::GpSet { hi_rom } => self.rom_ok(*hi_rom),
            InstructionOperation::Constant { hi_rom, .. } => self.rom_ok(*hi_rom),
            InstructionOperation::RegisterOperation {
                info: InstrOpRegisterOperation::SuspectedCpload { hi_rom, lo_rom },
            } => self.rom_ok(*hi_rom) && self.rom_ok(*lo_rom),
            _ => true,
        }
    }

    /// The rom of the instruction at `vram`, if it is one of the analysed instructions.
    fn instr_rom(&self, vram: Vram) -> (r: Option<Rom>)
        requires
            self.well_formed(),
        ensures
            r == spec_instr_rom(self@, vram),
    {
        if self.ranges.in_vram_range(vram) {
            let vram_start = self.ranges.vram().start();
            let offset = vram.inner - vram_start.inner;
            if ((offset / 4) as usize) < self.instruction_infos.len() {
                let rom_start = self.ranges.rom().start();
                let rom_end = self.ranges.rom().end();
                proof {
                    let len = self.instruction_infos@.len() as int;
                    let size = rom_end.inner - rom_start.inner;
                    assert(len == size / 4);
                    assert(offset < 4 * len && 4 * (size / 4) <= size) by (nonlinear_arith)
                        requires
                            (offset / 4) < len,
                            len == size / 4,
                            size >= 0,
                            offset >= 0,
                    ;
                }
                return Some(Rom { inner: rom_start.inner + offset });
            }
        }
        None
    }

    /// Processes the instruction `instr` (see [`spec_process_step`]): the register tracker
    /// follows it, and what it made of it is recorded.
    pub fn process_decoded(
        &mut self,
        regs_tracker: &mut RegisterTracker,
        instr: &DecodedInstr,
        likely_handwritten: bool,
        global_offset_table: Option<&GlobalOffsetTable>,
    ) -> (r: Option<InstrAnalysisInfo>)
        requires
            old(self).well_formed(),
            old(regs_tracker).well_formed(),
        ensures
            final(self).well_formed(),
            final(regs_tracker).well_formed(),
            final(regs_tracker).spec_gp_config() == old(regs_tracker).spec_gp_config(),
            final(regs_tracker).spec_endian() == old(regs_tracker).spec_endian(),
            spec_process_step(
                old(self)@,
                old(regs_tracker).regs(),
                old(regs_tracker).spec_gp_config(),
                old(regs_tracker).spec_endian(),
                *instr,
                likely_handwritten,
                global_offset_table,
                r,
                final(self)@,
                final(regs_tracker).regs(),
            ),
    {
        let instr_rom = match self.instr_rom(instr.vram) {
            Some(rom) => rom,
            None => return None,
        };
        let op = if is_trackable(instr) {
            regs_tracker.process_decoded(instr, instr_rom, global_offset_table)
        } else {
            InstructionOperation::InvalidInstr {}
        };
        if !self.op_roms_ok(&op) {
            return None;
        }
        Some(self.record_operation(instr_rom, likely_handwritten, op))
    }

    /// Decodes `instr` (see [`spec_decoded`]) and processes it (see
    /// [`InstructionAnalysisBuilder::process_decoded`]).
    pub fn process_instr(
        &mut self,
        regs_tracker: &mut RegisterTracker,
        instr: &Instruction,
        global_offset_table: Option<&GlobalOffsetTable>,
    ) -> (r: Option<InstrAnalysisInfo>)
        requires
            old(self).well_formed(),
            old(regs_tracker).well_formed(),
            spec_decodable(*instr),
        ensures
            final(self).well_formed(),
            final(regs_tracker).well_formed(),
            final(regs_tracker).spec_gp_config() == old(regs_tracker).spec_gp_config(),
            final(regs_tracker).spec_endian() == old(regs_tracker).spec_endian(),
            spec_process_step(
                old(self)@,
                old(regs_tracker).regs(),
                old(regs_tracker).spec_gp_config(),
                old(regs_tracker).spec_endian(),
                spec_decoded(*instr),
                rabbitizer_is_likely_handwritten(*instr),
                global_offset_table,
                r,
                final(self)@,
                final(regs_tracker).regs(),
            ),
    {
        let decoded = DecodedInstr::from_instruction(instr);
        let likely_handwritten = instr.is_likely_handwritten();
        self.process_decoded(regs_tracker, &decoded, likely_handwritten, global_offset_table)
    }
}

/// Whether `records` holds a split double-precision access.
fn has_mips1_double(records: &Vec<((AccessType, bool), Rom)>) -> (r: bool)
    ensures
        r == spec_has_mips1_double(records@.to_set()),
{
    let mut i: usize = 0;
    while i < records.len()
        invariant
            i <= records@.len(),
            forall|j: int| 0 <= j < i ==> records@[j].0 != (AccessType::DOUBLEFLOAT, true),
        decreases records@.len() - i,
    {
        let (kind, rom) = records[i];
        if kind.0 == AccessType::DOUBLEFLOAT && kind.1 {
            proof {
                assert(records@.to_set().contains(((AccessType::DOUBLEFLOAT, true), rom)));
            }
            return true;
        }
        i = i + 1;
    }
    proof {
        assert forall|r: Rom| !records@.to_set().contains(((AccessType::DOUBLEFLOAT, true), r)) by {
            if records@.to_set().contains(((AccessType::DOUBLEFLOAT, true), r)) {
                let j = choose|j: int| 0 <= j < records@.len() && records@[j] == ((AccessType::DOUBLEFLOAT, true), r);
                assert(records@[j].0 == (AccessType::DOUBLEFLOAT, true));
            }
        }
    }
    false
}

/// `records` without the single-precision accesses.
fn without_single_floats(records: &Vec<((AccessType, bool), Rom)>) -> (r: Vec<((AccessType, bool), Rom)>)
    ensures
        r@.to_set() == spec_without_single_floats(records@.to_set()),
{
    let mut out: Vec<((AccessType, bool), Rom)> = Vec::new();
    let mut i: usize = 0;
    while i < records.len()
        invariant
            i <= records@.len(),
            forall|p: ((AccessType, bool), Rom)|
                out@.contains(p) <==> exists|j: int|
                    0 <= j < i && records@[j] == p && p.0 != (AccessType::FLOAT, false),
        decreases records@.len() - i,
    {
        let (kind, rom) = records[i];
        let ghost before = out@;
        if !(kind.0 == AccessType::FLOAT && !kind.1) {
            out.push((kind, rom));
            proof {
                assert forall|p: ((AccessType, bool), Rom)|
                    out@.contains(p) <==> exists|j: int|
                        0 <= j < i + 1 && records@[j] == p && p.0 != (AccessType::FLOAT, false) by {
                    if p == (kind, rom) {
                        assert(out@[before.len() as int] == p);
                    }
                    if out@.contains(p) && p != (kind, rom) {
                        let k = choose|k: int| 0 <= k < out@.len() && out@[k] == p;
                        assert(before[k] == p);
                    }
                    if before.contains(p) {
                        let k = choose|k: int| 0 <= k < before.len() && before[k] == p;
                        assert(out@[k] == p);
                    }
                }
            }
        } else {
            proof {
                assert forall|p: ((AccessType, bool), Rom)|
                    out@.contains(p) <==> exists|j: int|
                        0 <= j < i + 1 && records@[j] == p && p.0 != (AccessType::FLOAT, false) by {
                    if exists|j: int| 0 <= j < i + 1 && records@[j] == p && p.0 != (AccessType::FLOAT, false) {
                        let j = choose|j: int| 0 <= j < i + 1 && records@[j] == p && p.0 != (AccessType::FLOAT, false);
                        assert(j != i);
                    }
                }
            }
        }
        i = i + 1;
    }
    proof {
        assert(out@.to_set() =~= spec_without_single_floats(records@.to_set())) by {
            assert forall|p: ((AccessType, bool), Rom)| records@.to_set().contains(p) && p.0 != (AccessType::FLOAT, false)
                implies out@.contains(p) by {
                let j = choose|j: int| 0 <= j < records@.len() && records@[j] == p;
            }
        }
    }
    out
}

/// `vrams` without `vram`.
fn without_vram(vrams: &Vec<Vram>, vram: Vram) -> (r: Vec<Vram>)
    ensures
        r@.to_set() == vrams@.to_set().remove(vram),
        vrams@.no_duplicates() ==> r@.no_duplicates(),
{
    let mut out: Vec<Vram> = Vec::new();
    let mut i: usize = 0;
    while i < vrams.len()
        invariant
            i <= vrams@.len(),
            forall|v: Vram| out@.contains(v) <==> exists|j: int| 0 <= j < i && vrams@[j] == v && v != vram,
            vrams@.no_duplicates() ==> out@.no_duplicates(),
        decreases vrams@.len() - i,
    {
        let v = vrams[i];
        let ghost before = out@;
        if v != vram {
            proof {
                if vrams@.no_duplicates() && before.contains(v) {
                    let j = choose|j: int| 0 <= j < i && vrams@[j] == v && v != vram;
                    assert(vrams@[j] == vrams@[i as int]);
                }
            }
            out.push(v);
            proof {
                if vrams@.no_duplicates() {
                    assert forall|a: int, b: int| 0 <= a < b < out@.len() implies out@[a] != out@[b] by {
                        if b == before.len() {
                            assert(before.contains(before[a]));
                        } else {
                            assert(before[a] != before[b]);
                        }
                    }
                }
                assert forall|w: Vram| out@.contains(w) <==> exists|j: int| 0 <= j < i + 1 && vrams@[j] == w && w != vram by {
                    if w == v {
                        assert(out@[before.len() as int] == w);
                    }
                    if out@.contains(w) && w != v {
                        let k = choose|k: int| 0 <= k < out@.len() && out@[k] == w;
                        assert(before[k] == w);
                    }
                    if before.contains(w) {
                        let k = choose|k: int| 0 <= k < before.len() && before[k] == w;
                        assert(out@[k] == w);
                    }
                }
            }
        } else {
            proof {
                assert forall|w: Vram| out@.contains(w) <==> exists|j: int| 0 <= j < i + 1 && vrams@[j] == w && w != vram by {
                    if exists|j: int| 0 <= j < i + 1 && vrams@[j] == w && w != vram {
                        let j = choose|j: int| 0 <= j < i + 1 && vrams@[j] == w && w != vram;
                        assert(j != i);
                    }
                }
            }
        }
        i = i + 1;
    }
    proof {
        assert(out@.to_set() =~= vrams@.to_set().remove(vram)) by {
            assert forall|v: Vram| vrams@.to_set().contains(v) && v != vram implies out@.contains(v) by {
                let j = choose|j: int| 0 <= j < vrams@.len() && vrams@[j] == v;
            }
        }
    }
    out
}

/// Realigning keeps the rom of the upper half.
proof fn lemma_upper_rom_of_realigned(info: InstrAnalysisInfo)
    ensures
        spec_upper_rom(spec_align_down_unaddended(info, 8)) == spec_upper_rom(info),
{
}

/// Makes the instruction at `r`, and the one holding its upper half, refer to the start of
/// their double.
fn realign_at(
    infos: &mut Vec<InstrAnalysisInfo>,
    rom_start: u32,
    r: Rom,
    Ghost(m): Ghost<AnalysisModel>,
    Ghost(roms): Ghost<Set<Rom>>,
)
    requires
        spec_analysis_wf(m),
        rom_start == spec_rom_start(m),
        spec_rom_ok(m, r),
        old(infos)@ == spec_realigned_infos(m, roms),
    ensures
        final(infos)@ == spec_realigned_infos(m, roms.insert(r)),
{
    let ghost new_roms = roms.insert(r);
    let index = ((r.inner - rom_start) / 4) as usize;
    assert(index == spec_instr_index(m, r));
    let value = infos[index].align_down_unaddended(8);
    proof {
        lemma_align_down_unaddended_idempotent(m.infos[index as int], 8);
        lemma_upper_rom_of_realigned(m.infos[index as int]);
        assert(value == spec_align_down_unaddended(m.infos[index as int], 8));
        assert(spec_upper_rom(m.infos[index as int]) matches Some(u) ==> spec_rom_ok(m, u));
    }
    if let Some(upper_rom) = value.upper_rom() {
        let upper_index = ((upper_rom.inner - rom_start) / 4) as usize;
        let upper_value = infos[upper_index].align_down_unaddended(8);
        proof {
            lemma_align_down_unaddended_idempotent(m.infos[upper_index as int], 8);
        }
        infos.set(upper_index, upper_value);
    }
    infos.set(index, value);
    proof {
        let target = spec_realigned_infos(m, new_roms);
        assert forall|i: int| 0 <= i < m.infos.len() implies #[trigger] infos@[i] == target[i] by {
            if spec_realigned_by(m, roms, i) {
                let w = choose|w: Rom|
                    #[trigger] roms.contains(w) && (spec_instr_index(m, w) == i || match spec_upper_rom(
                        m.infos[spec_instr_index(m, w)],
                    ) {
                        Some(u) => spec_instr_index(m, u) == i,
                        None => false,
                    });
                assert(new_roms.contains(w));
                lemma_align_down_unaddended_idempotent(m.infos[i], 8);
            }
            if i == index {
                assert(new_roms.contains(r));
            }
            match spec_upper_rom(m.infos[index as int]) {
                Some(u) => {
                    if i == spec_instr_index(m, u) {
                        assert(new_roms.contains(r));
                        lemma_align_down_unaddended_idempotent(m.infos[i], 8);
                    }
                },
                None => {},
            }
            if spec_realigned_by(m, new_roms, i) && !spec_realigned_by(m, roms, i) {
                let w = choose|w: Rom|
                    #[trigger] new_roms.contains(w) && (spec_instr_index(m, w) == i || match spec_upper_rom(
                        m.infos[spec_instr_index(m, w)],
                    ) {
                        Some(u) => spec_instr_index(m, u) == i,
                        None => false,
                    });
                assert(w == r);
            }
        }
        assert(infos@ =~= target);
    }
}

/// The starts of the doubles listed in `doubles`.
pub open spec fn spec_starts_of(doubles: Seq<(Vram, usize)>) -> Set<Vram> {
    Set::new(|a: Vram| exists|t: int| 0 <= t < doubles.len() && (#[trigger] doubles[t]).0 == a)
}

/// Eight is a power of two.
proof fn lemma_align_unit_eight()
    ensures
        crate::addresses::vram::spec_align_unit(8) == 8,
{
    reveal_with_fuel(crate::addresses::vram::spec_align_unit, 4);
}

impl InstructionAnalysisBuilder {
    /// What was gathered at the addresses without a split double-precision access and, for each
    /// double with one, its start and the position of the entry of its highest such access.
    fn split_doubles(&self) -> (r: (TypeInfoMap, Vec<(Vram, usize)>))
        requires
            self.well_formed(),
        ensures
            r.0.well_formed(),
            forall|k: Vram|
                #[trigger] r.0@.contains_key(k) <==> (self@.type_infos.contains_key(k) && !spec_is_mips1_double(
                    self@.type_infos[k],
                )),
            forall|k: Vram| r.0@.contains_key(k) ==> #[trigger] r.0@[k] == self@.type_infos[k],
            forall|t: int|
                0 <= t < r.1@.len() ==> (#[trigger] r.1@[t]).1 < self.type_info_per_address.entries@.len()
                    && spec_is_kept_double(self@, r.1@[t].0, self.type_info_per_address.entries@[r.1@[t].1 as int].0),
            forall|t1: int, t2: int|
                0 <= t1 < r.1@.len() && 0 <= t2 < r.1@.len() && t1 != t2 ==> (#[trigger] r.1@[t1]).0 != (
                #[trigger] r.1@[t2]).0,
            spec_starts_of(r.1@) == spec_double_starts(self@),
    {
        let entries = &self.type_info_per_address.entries;
        let ghost m = self@;
        let mut kept = TypeInfoMap::new();
        let mut doubles: Vec<(Vram, usize)> = Vec::new();
        let mut i: usize = 0;
        while i < entries.len()
            invariant
                self.well_formed(),
                m == self@,
                entries == &self.type_info_per_address.entries,
                i <= entries@.len(),
                kept.well_formed(),
                forall|k: Vram|
                    #[trigger] kept@.contains_key(k) <==> exists|j: int|
                        0 <= j < i && entries@[j].0 == k && !spec_is_mips1_double(entries@[j].1@),
                forall|k: Vram| kept@.contains_key(k) ==> #[trigger] kept@[k] == m.type_infos[k],
                forall|t: int|
                    0 <= t < doubles@.len() ==> (#[trigger] doubles@[t]).1 < i && spec_is_mips1_double(
                        entries@[doubles@[t].1 as int].1@,
                    ) && spec_double_start(entries@[doubles@[t].1 as int].0) == doubles@[t].0,
                forall|t: int, j: int|
                    0 <= t < doubles@.len() && 0 <= j < i && spec_is_mips1_double(entries@[j].1@)
                        && spec_double_start(entries@[j].0) == (#[trigger] doubles@[t]).0 ==> (#[trigger] entries@[j]).0.inner
                        <= entries@[doubles@[t].1 as int].0.inner,
                forall|t1: int, t2: int|
                    0 <= t1 < doubles@.len() && 0 <= t2 < doubles@.len() && t1 != t2 ==> (#[trigger] doubles@[t1]).0
                        != (#[trigger] doubles@[t2]).0,
                forall|j: int|
                    0 <= j < i && spec_is_mips1_double((#[trigger] entries@[j]).1@) ==> exists|t: int|
                        0 <= t < doubles@.len() && (#[trigger] doubles@[t]).0 == spec_double_start(entries@[j].0),
            decreases entries@.len() - i,
        {
            let vram = entries[i].0;
            let is_double = match &entries[i].1 {
                GatheredTypeInfo::AccessInfoCounter(records) => has_mips1_double(records),
                _ => false,
            };
            proof {
                lemma_entries_map_at(entries@, i as int);
            }
            let ghost kept_before = kept@;
            let ghost doubles_before = doubles@;
            if is_double {
                let start = vram.align_down(8);
                proof {
                    lemma_align_unit_eight();
                }
                let mut t: usize = 0;
                let mut found: Option<usize> = None;
                while t < doubles.len()
                    invariant_except_break
                        found is None,
                    invariant
                        t <= doubles@.len(),
                        forall|u: int| 0 <= u < t ==> (#[trigger] doubles@[u]).0 != start,
                    ensures
                        match found {
                            Some(u) => u < doubles@.len() && doubles@[u as int].0 == start,
                            None => forall|u: int| 0 <= u < doubles@.len() ==> (#[trigger] doubles@[u]).0 != start,
                        },
                    decreases doubles@.len() - t,
                {
                    if doubles[t].0 == start {
                        found = Some(t);
                        break;
                    }
                    t = t + 1;
                }
                match found {
                    Some(t) => {
                        let source = doubles[t].1;
                        if entries[source].0.inner < vram.inner {
                            doubles.set(t, (start, i));
                        }
                    },
                    None => {
                        doubles.push((start, i));
                    },
                }
                proof {
                    assert(kept@ == kept_before);
                    assert forall|t: int, j: int|
                        0 <= t < doubles@.len() && 0 <= j < i + 1 && spec_is_mips1_double(entries@[j].1@)
                            && spec_double_start(entries@[j].0) == (#[trigger] doubles@[t]).0 implies (#[trigger] entries@[j]).0.inner
                        <= entries@[doubles@[t].1 as int].0.inner by {
                        let src = doubles@[t].1 as int;
                        match found {
                            Some(f) => {
                                assert(doubles_before[t].0 == doubles@[t].0);
                                if t != f {
                                    assert(doubles@[t] == doubles_before[t]);
                                    if j == i {
                                        assert(doubles_before[t].0 != doubles_before[f as int].0);
                                    } else {
                                        assert(entries@[j].0.inner <= entries@[doubles_before[t].1 as int].0.inner);
                                    }
                                } else {
                                    let old_src = doubles_before[t].1 as int;
                                    if j < i {
                                        assert(entries@[j].0.inner <= entries@[old_src].0.inner);
                                    }
                                }
                            },
                            None => {
                                if t < doubles_before.len() {
                                    assert(doubles@[t] == doubles_before[t]);
                                    if j < i {
                                        assert(entries@[j].0.inner <= entries@[doubles_before[t].1 as int].0.inner);
                                    }
                                } else if j < i {
                                    let u = choose|u: int|
                                        0 <= u < doubles_before.len() && (#[trigger] doubles_before[u]).0
                                            == spec_double_start(entries@[j].0);
                                    assert(doubles_before[u].0 != start);
                                }
                            },
                        }
                    }
                    assert forall|j: int|
                        0 <= j < i + 1 && spec_is_mips1_double((#[trigger] entries@[j]).1@) implies exists|t: int|
                        0 <= t < doubles@.len() && (#[trigger] doubles@[t]).0 == spec_double_start(entries@[j].0) by {
                        if j < i {
                            let t = choose|t: int|
                                0 <= t < doubles_before.len() && (#[trigger] doubles_before[t]).0 == spec_double_start(
                                    entries@[j].0,
                                );
                            assert(doubles@[t].0 == doubles_before[t].0);
                        } else {
                            match found {
                                Some(t) => assert(doubles@[t as int].0 == start),
                                None => assert(doubles@[doubles_before.len() as int].0 == start),
                            }
                        }
                    }
                }
            } else {
                kept.insert(vram, entries[i].1.duplicate());
                proof {
                    assert forall|k: Vram|
                        #[trigger] kept@.contains_key(k) <==> exists|j: int|
                            0 <= j < i + 1 && entries@[j].0 == k && !spec_is_mips1_double(entries@[j].1@) by {
                        if k == vram {
                            assert(entries@[i as int].0 == k);
                        } else if kept@.contains_key(k) {
                            assert(kept_before.contains_key(k));
                        } else if exists|j: int|
                            0 <= j < i + 1 && entries@[j].0 == k && !spec_is_mips1_double(entries@[j].1@) {
                            let j = choose|j: int|
                                0 <= j < i + 1 && entries@[j].0 == k && !spec_is_mips1_double(entries@[j].1@);
                            assert(j < i);
                        }
                    }
                }
            }
            i = i + 1;
        }
        proof {
            let s = entries@;
            assert forall|k: Vram|
                #[trigger] kept@.contains_key(k) <==> (m.type_infos.contains_key(k) && !spec_is_mips1_double(
                    m.type_infos[k],
                )) by {
                if kept@.contains_key(k) {
                    let j = choose|j: int| 0 <= j < s.len() && s[j].0 == k && !spec_is_mips1_double(s[j].1@);
                    lemma_entries_map_at(s, j);
                }
                if m.type_infos.contains_key(k) {
                    let j = choose|j: int| 0 <= j < s.len() && #[trigger] s[j].0 == k;
                    lemma_entries_map_at(s, j);
                }
            }
            assert forall|t: int| 0 <= t < doubles@.len() implies spec_is_kept_double(
                m,
                (#[trigger] doubles@[t]).0,
                s[doubles@[t].1 as int].0,
            ) by {
                let src = doubles@[t].1 as int;
                lemma_entries_map_at(s, src);
                assert forall|w: Vram|
                    spec_double_source(m, w) && #[trigger] spec_double_start(w) == doubles@[t].0 implies w.inner
                    <= s[src].0.inner by {
                    let j = choose|j: int| 0 <= j < s.len() && #[trigger] s[j].0 == w;
                    lemma_entries_map_at(s, j);
                    assert(s[j].0.inner <= s[src].0.inner);
                }
            }
            assert forall|a: Vram| spec_double_at(m, a) <==> exists|t: int|
                0 <= t < doubles@.len() && (#[trigger] doubles@[t]).0 == a by {
                if spec_double_at(m, a) {
                    let v = choose|v: Vram| spec_double_source(m, v) && #[trigger] spec_double_start(v) == a;
                    assert(spec_has_address(s, v));
                    let j = choose|j: int| 0 <= j < s.len() && #[trigger] s[j].0 == v;
                    lemma_entries_map_at(s, j);
                    assert(spec_is_mips1_double(s[j].1@));
                    let t = choose|t: int|
                        0 <= t < doubles@.len() && (#[trigger] doubles@[t]).0 == spec_double_start(s[j].0);
                    assert(doubles@[t].0 == a);
                }
                if exists|t: int| 0 <= t < doubles@.len() && (#[trigger] doubles@[t]).0 == a {
                    let t = choose|t: int| 0 <= t < doubles@.len() && (#[trigger] doubles@[t]).0 == a;
                    let src = doubles@[t].1 as int;
                    lemma_entries_map_at(s, src);
                    assert(spec_double_source(m, s[src].0));
                    assert(spec_double_start(s[src].0) == a);
                }
            }
            assert(spec_starts_of(doubles@) =~= spec_double_starts(self@));
        }
        (kept, doubles)
    }
}

/// Every access recorded in a well-formed analysis was made by one of its instructions.
proof fn lemma_counter_rom(
    m: AnalysisModel,
    g: TypeInfoSummary,
    s: Set<((AccessType, bool), Rom)>,
    p: ((AccessType, bool), Rom),
)
    requires
        spec_counter_roms_ok(m, g),
        g == TypeInfoSummary::AccessInfoCounter(s),
        s.contains(p),
    ensures
        spec_rom_ok(m, p.1),
{
    match g {
        TypeInfoSummary::AccessInfoCounter(s2) => {
            assert(s2 == s);
            assert(s2.contains(p));
        },
        _ => {},
    }
}

/// The highest split access of a double is unique, and a double starts at a multiple of 8
/// that leaves room for its second half.
proof fn lemma_kept_double(m: AnalysisModel, start: Vram, v: Vram)
    requires
        spec_is_kept_double(m, start, v),
    ensures
        (choose|w: Vram| spec_is_kept_double(m, start, w)) == v,
        start.inner % 8 == 0,
        start.inner + 4 <= u32::MAX,
{
    let w = choose|w: Vram| spec_is_kept_double(m, start, w);
    assert(spec_is_kept_double(m, start, w));
    assert(w.inner <= v.inner && v.inner <= w.inner);
    let x = v.inner;
    assert((x - x % 8) % 8 == 0 && x - x % 8 <= 0xFFFF_FFF8) by (nonlinear_arith)
        requires
            x <= 0xFFFF_FFFF,
            x >= 0,
    ;
}

/// Handles the double starting at `start`, whose highest split access is entry `src` of
/// `entries`: its second half stops being referenced and loses what was gathered there, the
/// instructions accessing that half are realigned, and the double gets its accesses.
fn apply_double(
    entries: &Vec<(Vram, GatheredTypeInfo)>,
    result: &mut TypeInfoMap,
    referenced: &mut Vec<Vram>,
    infos: &mut Vec<InstrAnalysisInfo>,
    rom_start: u32,
    start: Vram,
    src: usize,
    Ghost(m): Ghost<AnalysisModel>,
    Ghost(starts): Ghost<Set<Vram>>,
)
    requires
        spec_analysis_wf(m),
        rom_start == spec_rom_start(m),
        spec_distinct_addresses(entries@),
        m.type_infos == spec_entries_map(entries@),
        src < entries@.len(),
        spec_is_kept_double(m, start, entries@[src as int].0),
        !starts.contains(start),
        forall|a: Vram| #[trigger] starts.contains(a) ==> a.inner % 8 == 0,
        old(result).well_formed(),
        old(result)@ == spec_type_infos_with_doubles(m, starts),
        old(referenced)@.to_set() == m.referenced_vrams.filter(|k: Vram| !spec_is_second_half(starts, k)),
        old(referenced)@.no_duplicates(),
        old(infos)@ == spec_realigned_infos(m, spec_second_half_roms(m, starts)),
    ensures
        final(result).well_formed(),
        final(result)@ == spec_type_infos_with_doubles(m, starts.insert(start)),
        final(referenced)@.to_set() == m.referenced_vrams.filter(
            |k: Vram| !spec_is_second_half(starts.insert(start), k),
        ),
        final(referenced)@.no_duplicates(),
        final(infos)@ == spec_realigned_infos(m, spec_second_half_roms(m, starts.insert(start))),
{
    let ghost new_starts = starts.insert(start);
    let ghost v = entries@[src as int].0;
    proof {
        lemma_kept_double(m, start, v);
        lemma_entries_map_at(entries@, src as int);
    }
    let half = Vram { inner: start.inner + 4 };
    assert(half == spec_second_half(start));
    assert(!starts.contains(half));
    assert(!spec_is_second_half(starts, half));

    let ghost before_referenced = referenced@;
    *referenced = without_vram(referenced, half);
    proof {
        assert(referenced@.to_set() =~= m.referenced_vrams.filter(|k: Vram| !spec_is_second_half(new_starts, k))) by {
            assert forall|k: Vram| spec_is_second_half(new_starts, k) && k != half implies spec_is_second_half(
                starts,
                k,
            ) by {
                assert(Vram { inner: (k.inner - 4) as u32 } != start);
            }
        }
    }

    let ghost old_roms = spec_second_half_roms(m, starts);
    let ghost new_roms = spec_second_half_roms(m, new_starts);
    let removed = result.remove(half);
    match removed {
        Some(GatheredTypeInfo::AccessInfoCounter(other)) => {
            let ghost s = other@.to_set();
            assert(m.type_infos.contains_key(half) && m.type_infos[half] == TypeInfoSummary::AccessInfoCounter(s));
            assert(!spec_has_mips1_double(s));
            assert(old_roms.union(Set::new(|r: Rom| exists|j: int| 0 <= j < 0 && (#[trigger] other@[j]).1 == r))
                =~= old_roms);
            let mut q: usize = 0;
            while q < other.len()
                invariant
                    spec_analysis_wf(m),
                    rom_start == spec_rom_start(m),
                    q <= other@.len(),
                    m.type_infos.contains_key(half),
                    m.type_infos[half] == TypeInfoSummary::AccessInfoCounter(s),
                    s == other@.to_set(),
                    infos@ == spec_realigned_infos(
                        m,
                        old_roms.union(Set::new(|r: Rom| exists|j: int| 0 <= j < q && (#[trigger] other@[j]).1 == r)),
                    ),
                decreases other@.len() - q,
            {
                let r = other[q].1;
                let ghost done = old_roms.union(
                    Set::new(|r: Rom| exists|j: int| 0 <= j < q && (#[trigger] other@[j]).1 == r),
                );
                proof {
                    assert(s.contains(other@[q as int]));
                    assert(spec_counter_roms_ok(m, m.type_infos[half]));
                    lemma_counter_rom(m, m.type_infos[half], s, other@[q as int]);
                }
                realign_at(infos, rom_start, r, Ghost(m), Ghost(done));
                proof {
                    assert(done.insert(r) =~= old_roms.union(
                        Set::new(|r: Rom| exists|j: int| 0 <= j < q + 1 && (#[trigger] other@[j]).1 == r),
                    )) by {
                        assert(other@[q as int].1 == r);
                    }
                }
                q = q + 1;
            }
            proof {
                let added = Set::new(|r: Rom| exists|j: int| 0 <= j < other@.len() && (#[trigger] other@[j]).1 == r);
                assert(old_roms.union(added) =~= new_roms) by {
                    assert forall|r: Rom| added.contains(r) implies new_roms.contains(r) by {
                        let j = choose|j: int| 0 <= j < other@.len() && (#[trigger] other@[j]).1 == r;
                        assert(s.contains(other@[j]));
                        assert(spec_second_half_access(m, start, other@[j].0, r));
                    }
                    assert forall|r: Rom| old_roms.contains(r) implies new_roms.contains(r) by {
                        let (a, kind) = choose|a: Vram, kind: (AccessType, bool)|
                            starts.contains(a) && #[trigger] spec_second_half_access(m, a, kind, r);
                        assert(new_starts.contains(a));
                    }
                    assert forall|r: Rom| new_roms.contains(r) implies old_roms.union(added).contains(r) by {
                        let (a, kind) = choose|a: Vram, kind: (AccessType, bool)|
                            new_starts.contains(a) && #[trigger] spec_second_half_access(m, a, kind, r);
                        if a == start {
                            assert(s.contains((kind, r)));
                            let j = choose|j: int| 0 <= j < other@.len() && other@[j] == (kind, r);
                            assert(added.contains(r));
                        } else {
                            assert(starts.contains(a));
                        }
                    }
                }
            }
        },
        _ => {
            proof {
                assert(old_roms =~= new_roms) by {
                    assert forall|r: Rom| new_roms.contains(r) implies old_roms.contains(r) by {
                        let (a, kind) = choose|a: Vram, kind: (AccessType, bool)|
                            new_starts.contains(a) && #[trigger] spec_second_half_access(m, a, kind, r);
                        if a == start {
                            assert(spec_second_half_access(m, start, kind, r));
                            assert(m.type_infos.contains_key(half));
                            assert(!spec_is_mips1_double(m.type_infos[half]));
                            assert(false);
                        } else {
                            assert(starts.contains(a));
                        }
                    }
                    assert forall|r: Rom| old_roms.contains(r) implies new_roms.contains(r) by {
                        let (a, kind) = choose|a: Vram, kind: (AccessType, bool)|
                            starts.contains(a) && #[trigger] spec_second_half_access(m, a, kind, r);
                        assert(new_starts.contains(a));
                    }
                }
            }
        },
    }

    let kept_records = match &entries[src].1 {
        GatheredTypeInfo::AccessInfoCounter(records) => without_single_floats(records),
        _ => {
            proof {
                assert(false);
            }
            Vec::new()
        },
    };
    let ghost mid = result@;
    result.insert(start, GatheredTypeInfo::AccessInfoCounter(kept_records));
    proof {
        assert(spec_double_info(m, start) == TypeInfoSummary::AccessInfoCounter(kept_records@.to_set()));
        let target = spec_type_infos_with_doubles(m, new_starts);
        assert(result@ =~= target) by {
            assert forall|k: Vram| #[trigger] result@.contains_key(k) == target.contains_key(k) by {
                if k != start && k != half {
                    assert(spec_is_second_half(new_starts, k) == spec_is_second_half(starts, k)) by {
                        if spec_is_second_half(new_starts, k) {
                            assert(Vram { inner: (k.inner - 4) as u32 } != start);
                        }
                    }
                }
                if k == half {
                    assert(spec_is_second_half(new_starts, k));
                    assert(!new_starts.contains(k));
                }
            }
            assert forall|k: Vram| #[trigger] result@.contains_key(k) implies result@[k] == target[k] by {
                if k != start && k != half {
                    assert(mid.contains_key(k));
                    if !starts.contains(k) {
                        assert(!new_starts.contains(k));
                    }
                }
            }
        }
    }
}

/// The finished analysis of the instructions of one rom range.
#[derive(Debug)]
pub struct InstructionAnalysisResult {
    ranges: RomVramRange,
    instruction_infos: Vec<InstrAnalysisInfo>,
    referenced_vrams: Vec<Vram>,
    type_info_per_address: TypeInfoMap,
    handwritten_instrs: Vec<Rom>,
}

impl View for InstructionAnalysisResult {
    type V = AnalysisModel;

    closed spec fn view(&self) -> AnalysisModel {
        AnalysisModel {
            ranges: self.ranges,
            infos: self.instruction_infos@,
            referenced_vrams: self.referenced_vrams@.to_set(),
            type_infos: self.type_info_per_address@,
            handwritten_instrs: self.handwritten_instrs@.to_set(),
        }
    }
}

impl InstructionAnalysisResult {
    pub closed spec fn well_formed(self) -> bool {
        &&& self.type_info_per_address.well_formed()
        &&& self.referenced_vrams@.no_duplicates()
        &&& self.handwritten_instrs@.no_duplicates()
    }

    pub fn ranges(&self) -> (r: &RomVramRange)
        ensures
            *r == self@.ranges,
    {
        &self.ranges
    }

    /// What is known of each instruction, by its position.
    pub fn instruction_infos(&self) -> (r: &[InstrAnalysisInfo])
        ensures
            r@ == self@.infos,
    {
        self.instruction_infos.as_slice()
    }

    /// Every referenced address, each once.
    pub fn referenced_vrams(&self) -> (r: &[Vram])
        requires
            self.well_formed(),
        ensures
            r@.to_set() == self@.referenced_vrams,
            r@.no_duplicates(),
    {
        self.referenced_vrams.as_slice()
    }

    /// What was gathered about each referenced address.
    pub fn type_info_per_address(&self) -> (r: &TypeInfoMap)
        requires
            self.well_formed(),
        ensures
            r.well_formed(),
            r@ == self@.type_infos,
    {
        &self.type_info_per_address
    }

    /// The roms of the instructions that look handwritten, each once.
    pub fn handwritten_instrs(&self) -> (r: &[Rom])
        requires
            self.well_formed(),
        ensures
            r@.to_set() == self@.handwritten_instrs,
            r@.no_duplicates(),
    {
        self.handwritten_instrs.as_slice()
    }
}

impl InstructionAnalysisBuilder {
    /// Ends the analysis (see [`spec_finished`]): MIPS1 reads and writes a double-precision
    /// float in two halves, so a split access at an address becomes an access to the double
    /// that starts at the multiple of 8 below it, and the second half is no address of its own.
    pub fn finish(self) -> (r: InstructionAnalysisResult)
        requires
            self.well_formed(),
        ensures
            r.well_formed(),
            r@ == spec_finished(self@),
    {
        let ghost m = self@;
        let (kept, doubles) = self.split_doubles();
        let ghost entries_view = self.type_info_per_address.entries@;
        let rom_start = self.ranges.rom().start().inner;
        let InstructionAnalysisBuilder {
            ranges,
            instruction_infos,
            referenced_vrams,
            type_info_per_address,
            handwritten_instrs,
        } = self;
        let entries = &type_info_per_address.entries;
        let mut result = kept;
        let mut referenced = referenced_vrams;
        let mut infos = instruction_infos;
        proof {
            let none = spec_starts_of(doubles@.subrange(0, 0));
            assert(none =~= Set::<Vram>::empty());
            assert(result@ =~= spec_type_infos_with_doubles(m, none));
            assert(referenced@.to_set() =~= m.referenced_vrams.filter(|k: Vram| !spec_is_second_half(none, k)));
            assert(spec_second_half_roms(m, none) =~= Set::<Rom>::empty());
            assert(infos@ =~= spec_realigned_infos(m, spec_second_half_roms(m, none)));
        }
        let mut t: usize = 0;
        while t < doubles.len()
            invariant
                t <= doubles@.len(),
                spec_analysis_wf(m),
                rom_start == spec_rom_start(m),
                entries@ == entries_view,
                spec_distinct_addresses(entries@),
                m.type_infos == spec_entries_map(entries@),
                forall|u: int|
                    0 <= u < doubles@.len() ==> (#[trigger] doubles@[u]).1 < entries@.len() && spec_is_kept_double(
                        m,
                        doubles@[u].0,
                        entries@[doubles@[u].1 as int].0,
                    ),
                forall|u1: int, u2: int|
                    0 <= u1 < doubles@.len() && 0 <= u2 < doubles@.len() && u1 != u2 ==> (#[trigger] doubles@[u1]).0
                        != (#[trigger] doubles@[u2]).0,
                result.well_formed(),
                referenced@.no_duplicates(),
                result@ == spec_type_infos_with_doubles(m, spec_starts_of(doubles@.subrange(0, t as int))),
                referenced@.to_set() == m.referenced_vrams.filter(
                    |k: Vram| !spec_is_second_half(spec_starts_of(doubles@.subrange(0, t as int)), k),
                ),
                infos@ == spec_realigned_infos(m, spec_second_half_roms(m, spec_starts_of(doubles@.subrange(0, t as int)))),
            decreases doubles@.len() - t,
        {
            let (start, src) = doubles[t];
            let ghost done = spec_starts_of(doubles@.subrange(0, t as int));
            proof {
                assert(!done.contains(start)) by {
                    if done.contains(start) {
                        let u = choose|u: int|
                            0 <= u < doubles@.subrange(0, t as int).len() && (#[trigger] doubles@.subrange(0, t as int)[u]).0
                                == start;
                        assert(doubles@[u].0 == doubles@[t as int].0);
                    }
                }
                assert forall|a: Vram| #[trigger] done.contains(a) implies a.inner % 8 == 0 by {
                    let u = choose|u: int|
                        0 <= u < doubles@.subrange(0, t as int).len() && (#[trigger] doubles@.subrange(0, t as int)[u]).0
                            == a;
                    assert(doubles@[u] == doubles@.subrange(0, t as int)[u]);
                    lemma_kept_double(m, a, entries@[doubles@[u].1 as int].0);
                }
            }
            apply_double(
                entries,
                &mut result,
                &mut referenced,
                &mut infos,
                rom_start,
                start,
                src,
                Ghost(m),
                Ghost(done),
            );
            proof {
                assert(done.insert(start) =~= spec_starts_of(doubles@.subrange(0, t + 1))) by {
                    assert(doubles@.subrange(0, t + 1)[t as int] == doubles@[t as int]);
                    assert forall|a: Vram| #[trigger] done.contains(a) implies spec_starts_of(
                        doubles@.subrange(0, t + 1),
                    ).contains(a) by {
                        let u = choose|u: int|
                            0 <= u < doubles@.subrange(0, t as int).len() && (#[trigger] doubles@.subrange(0, t as int)[u]).0
                                == a;
                        assert(doubles@.subrange(0, t + 1)[u] == doubles@.subrange(0, t as int)[u]);
                    }
                    assert forall|a: Vram| spec_starts_of(doubles@.subrange(0, t + 1)).contains(a) implies #[trigger] done.insert(
                        start,
                    ).contains(a) by {
                        let u = choose|u: int|
                            0 <= u < doubles@.subrange(0, t + 1).len() && (#[trigger] doubles@.subrange(0, t + 1)[u]).0
                                == a;
                        if u < t {
                            assert(doubles@.subrange(0, t as int)[u] == doubles@.subrange(0, t + 1)[u]);
                        }
                    }
                }
            }
            t = t + 1;
        }
        proof {
            assert(doubles@.subrange(0, doubles@.len() as int) =~= doubles@);
        }
        let r = InstructionAnalysisResult {
            ranges,
            instruction_infos: infos,
            referenced_vrams: referenced,
            type_info_per_address: result,
            handwritten_instrs,
        };
        r
    }
}

/// Once an address is known to be called or used as a jump table, no later reference demotes it
/// to a branch target or a plain data access.
pub proof fn lemma_gather_keeps_calls(g: TypeInfoSummary, t: TypeInfo, instr_rom: Rom)
    requires
        g is Function || g is Jumptable,
    ensures
        spec_gather(g, t, instr_rom) is Function || spec_gather(g, t, instr_rom) is Jumptable,
{
}

/// A `%hi` that could not be paired leaves an instruction that something is already known of
/// as it was, so that pairings found on another path are not undone.
pub proof fn lemma_unpaired_hi_keeps_pairing(
    m: AnalysisModel,
    instr_rom: Rom,
    likely_handwritten: bool,
    value: u32,
    dst_reg: crate::isa::Gpr,
)
    requires
        spec_rom_ok(m, instr_rom),
        !(m.infos[spec_instr_index(m, instr_rom)] is No),
    ensures
        spec_record(m, instr_rom, likely_handwritten, InstructionOperation::Hi { value, dst_reg }).1.infos == m.infos,
{
}

/// Once finished, the second half of a double found by the analysis is neither referenced nor
/// typed on its own, and every address still holding a split double-precision access is the
/// start of a double.
pub proof fn lemma_finished_doubles(m: AnalysisModel, start: Vram, k: Vram)
    requires
        spec_analysis_wf(m),
    ensures
        spec_double_at(m, start) ==> !spec_finished(m).referenced_vrams.contains(spec_second_half(start)),
        spec_double_at(m, start) ==> !spec_finished(m).type_infos.contains_key(spec_second_half(start)),
        spec_finished(m).type_infos.contains_key(k) && spec_is_mips1_double(spec_finished(m).type_infos[k])
            ==> spec_double_at(m, k) && k.inner % 8 == 0,
{
    let starts = spec_double_starts(m);
    if spec_double_at(m, start) {
        let v = choose|v: Vram| spec_double_source(m, v) && #[trigger] spec_double_start(v) == start;
        let x = v.inner;
        assert((x - x % 8) % 8 == 0 && x - x % 8 <= 0xFFFF_FFF8) by (nonlinear_arith)
            requires
                x <= 0xFFFF_FFFF,
                x >= 0,
        ;
        let half = spec_second_half(start);
        assert(Vram { inner: (half.inner - 4) as u32 } == start);
        assert(spec_is_second_half(starts, half));
        assert(!starts.contains(half));
    }
    if spec_finished(m).type_infos.contains_key(k) && spec_is_mips1_double(spec_finished(m).type_infos[k]) {
        if !starts.contains(k) {
            assert(!spec_is_mips1_double(m.type_infos[k]));
        } else {
            let v = choose|v: Vram| spec_double_source(m, v) && #[trigger] spec_double_start(v) == k;
            let x = v.inner;
            assert((x - x % 8) % 8 == 0) by (nonlinear_arith)
                requires
                    x >= 0,
            ;
        }
    }
}

} // verus!
