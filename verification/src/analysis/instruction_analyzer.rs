use vstd::prelude::*;

use rabbitizer::Instruction;

use super::gpr_register_value::GprRegisterValue;
use super::instr_analysis_info::InstrAnalysisInfo;
use super::instruction_analysis::{
    spec_finished, spec_instr_rom, spec_op_roms_ok, spec_process_step, spec_record, spec_tracker_step, AnalysisModel,
    InstructionAnalysisBuilder, InstructionAnalysisResult,
};
use super::register_tracker::{spec_clear_afterwards, spec_initial_regs, RegisterTracker};
use crate::addresses::{GlobalOffsetTable, RomVramRange, Vram};
use crate::collections::unordered_set::UnorderedSet;
use crate::config::{Endian, GpConfig};
use crate::isa::instruction::{
    branch_offset_generic, opcode_is_branch_likely, rabbitizer_is_likely_handwritten, rabbitizer_opcode,
    rabbitizer_vram, spec_branch_offset_generic, spec_decoded,
};
use crate::isa::DecodedInstr;

verus! {

/// What the analysis of a function reads besides its instructions' results: the
/// instructions, the `$gp` configuration, the byte order, and the labels of each known jump
/// table.
pub struct AnalyzerContext {
    pub instrs: Seq<Instruction>,
    pub gp_config: Option<GpConfig>,
    pub endian: Endian,
    pub jumptables: Seq<(Vram, Vec<Vram>)>,
}

/// The branches already followed (by the address of the branch and whether it was reached
/// through a branch likely) and the analysis so far.
pub struct AnalyzerState {
    pub taken: Set<(u32, u32)>,
    pub result: AnalysisModel,
}

/// Whether `instr` is a branch likely, whose delay slot runs only when the branch is taken.
pub open spec fn spec_is_likely(instr: Instruction) -> bool {
    opcode_is_branch_likely(rabbitizer_opcode(instr))
}

/// A branch followed, by its address and whether it was reached through a branch likely (1)
/// or not (0).
pub open spec fn spec_branch_key(instr: Instruction, likely: bool) -> (u32, u32) {
    (rabbitizer_vram(instr), if likely { 1u32 } else { 0u32 })
}

/// What processing `instr` gives (see [`spec_process_step`]): the analysis info, the new
/// analysis and the new registers.
pub open spec fn spec_processed(
    m: AnalysisModel,
    regs: Seq<GprRegisterValue>,
    c: AnalyzerContext,
    got: Option<&GlobalOffsetTable>,
    instr: Instruction,
) -> (Option<InstrAnalysisInfo>, AnalysisModel, Seq<GprRegisterValue>) {
    let d = spec_decoded(instr);
    match spec_instr_rom(m, d.vram) {
        None => (None, m, regs),
        Some(rom) => {
            let (op, new_regs) = spec_tracker_step(regs, c.gp_config, c.endian, d, rom, got);
            if spec_op_roms_ok(m, op) {
                let (info, m2) = spec_record(m, rom, rabbitizer_is_likely_handwritten(instr), op);
                (Some(info), m2, new_regs)
            } else {
                (None, m, new_regs)
            }
        },
    }
}

/// The labels of the first jump table known at `vram`.
pub open spec fn spec_table_labels(jumptables: Seq<(Vram, Vec<Vram>)>, vram: Vram) -> Option<Seq<Vram>> {
    if exists|i: int| 0 <= i < jumptables.len() && jumptables[i].0 == vram {
        let i = choose|i: int|
            0 <= i < jumptables.len() && jumptables[i].0 == vram && forall|j: int| 0 <= j < i ==> jumptables[j].0 != vram;
        Some(jumptables[i].1@)
    } else {
        None
    }
}

/// Following the branch `instrs[prev_k]` (whose delay slot is `instrs[k]`, at offset
/// `local_offset` from the start): a branch not followed before, that does not link and
/// whose target lies after the function's start, is followed from its target with a copy of
/// the registers (after the delay slot, for a branch likely). `budget` bounds the branches
/// that may still be followed.
pub open spec fn spec_look_ahead(
    budget: nat,
    st: AnalyzerState,
    regs: Seq<GprRegisterValue>,
    c: AnalyzerContext,
    got: Option<&GlobalOffsetTable>,
    k: int,
    prev_k: int,
    local_offset: int,
    prev_is_likely: bool,
) -> AnalyzerState
    decreases budget, 0nat, 0nat,
{
    let prev = c.instrs[prev_k];
    if spec_decoded(prev).does_link {
        st
    } else {
        match spec_branch_offset_generic(prev) {
            None => st,
            Some(offset) => {
                let key = spec_branch_key(prev, prev_is_likely);
                if st.taken.contains(key) || budget == 0 {
                    st
                } else {
                    let st1 = AnalyzerState { taken: st.taken.insert(key), ..st };
                    let target = local_offset - 4 + offset;
                    if target <= 0 {
                        st1
                    } else if prev_is_likely {
                        let (_, m, regs1) = spec_processed(st1.result, regs, c, got, c.instrs[k]);
                        spec_look_ahead_impl(
                            (budget - 1) as nat,
                            AnalyzerState { result: m, ..st1 },
                            regs1,
                            c,
                            got,
                            target,
                            None,
                            prev_is_likely,
                        )
                    } else {
                        spec_look_ahead_impl((budget - 1) as nat, st1, regs, c, got, target, None, prev_is_likely)
                    }
                }
            },
        }
    }
}

/// Following the jump table at `jumptable_vram`, reached by the `jr` at `instrs[prev_k]`: if
/// not followed before, the analysis goes on from each of the table's labels inside the
/// function, each time with a copy of the registers.
pub open spec fn spec_follow_jumptable(
    budget: nat,
    st: AnalyzerState,
    regs: Seq<GprRegisterValue>,
    c: AnalyzerContext,
    got: Option<&GlobalOffsetTable>,
    prev_k: int,
    prev_is_likely: bool,
    jumptable_vram: Vram,
) -> AnalyzerState
    decreases budget, 0nat, 0nat,
{
    let key = spec_branch_key(c.instrs[prev_k], prev_is_likely);
    if st.taken.contains(key) || budget == 0 {
        st
    } else {
        let st1 = AnalyzerState { taken: st.taken.insert(key), ..st };
        match spec_table_labels(c.jumptables, jumptable_vram) {
            None => st1,
            Some(labels) => spec_follow_labels((budget - 1) as nat, st1, regs, c, got, labels, 0, prev_is_likely),
        }
    }
}

/// The labels of a jump table from the `idx`-th on (see [`spec_follow_jumptable`]).
pub open spec fn spec_follow_labels(
    budget: nat,
    st: AnalyzerState,
    regs: Seq<GprRegisterValue>,
    c: AnalyzerContext,
    got: Option<&GlobalOffsetTable>,
    labels: Seq<Vram>,
    idx: nat,
    prev_is_likely: bool,
) -> AnalyzerState
    decreases budget, 2nat, labels.len() - idx,
{
    if idx >= labels.len() {
        st
    } else {
        let label = labels[idx as int];
        let vram_range = st.result.ranges.spec_vram();
        let st1 = if vram_range.spec_in_range(label) {
            spec_look_ahead_impl(
                budget,
                st,
                regs,
                c,
                got,
                label.inner - vram_range.spec_start().inner,
                None,
                prev_is_likely,
            )
        } else {
            st
        };
        spec_follow_labels(budget, st1, regs, c, got, labels, idx + 1, prev_is_likely)
    }
}

/// The analysis going on from offset `target` with the registers `regs`, until the end of
/// the function or a jump that leaves it; every branch met on the way is followed too.
/// `prev_info` is what was learned of the instruction before `target`.
pub open spec fn spec_look_ahead_impl(
    budget: nat,
    st: AnalyzerState,
    regs: Seq<GprRegisterValue>,
    c: AnalyzerContext,
    got: Option<&GlobalOffsetTable>,
    target: int,
    prev_info: Option<InstrAnalysisInfo>,
    prev_is_likely: bool,
) -> AnalyzerState
    decreases budget, 1nat, c.instrs.len() - target / 4,
{
    if target / 4 >= c.instrs.len() || target < 4 {
        st
    } else {
        let k = target / 4;
        let prev = c.instrs[k - 1];
        let cur = c.instrs[k];
        let (info, m1, regs1) = if !spec_is_likely(prev) {
            spec_processed(st.result, regs, c, got, cur)
        } else {
            (None, st.result, regs)
        };
        let st1 = AnalyzerState { result: m1, ..st };
        let st2 = match prev_info {
            Some(InstrAnalysisInfo::Jumptable { jumptable_vram, .. }) => spec_follow_jumptable(
                budget,
                st1,
                regs1,
                c,
                got,
                k - 1,
                prev_is_likely,
                jumptable_vram,
            ),
            _ => spec_look_ahead(budget, st1, regs1, c, got, k, k - 1, target, prev_is_likely || spec_is_likely(prev)),
        };
        let next = Some(Vram { inner: (rabbitizer_vram(cur) + 4) as u32 });
        let (ended, regs2) = spec_clear_afterwards(regs1, c.gp_config, Some(spec_decoded(prev)), next);
        if ended {
            st2
        } else {
            spec_look_ahead_impl(budget, st2, regs2, c, got, target + 4, info, prev_is_likely)
        }
    }
}

/// The linear pass over the instructions from the `k`-th on, following every branch met.
pub open spec fn spec_analyze_from(
    budget: nat,
    st: AnalyzerState,
    regs: Seq<GprRegisterValue>,
    c: AnalyzerContext,
    got: Option<&GlobalOffsetTable>,
    k: int,
    prev_info: Option<InstrAnalysisInfo>,
) -> AnalyzerState
    decreases budget, 3nat, c.instrs.len() - k,
{
    if k >= c.instrs.len() || k < 1 {
        st
    } else {
        let prev = c.instrs[k - 1];
        let cur = c.instrs[k];
        let next = Some(Vram { inner: (rabbitizer_vram(cur) + 4) as u32 });
        if !spec_decoded(cur).is_valid {
            let (_, regs1) = spec_clear_afterwards(regs, c.gp_config, Some(spec_decoded(prev)), next);
            spec_analyze_from(budget, st, regs1, c, got, k + 1, None)
        } else {
            let (info, m1, regs1) = if !spec_is_likely(prev) {
                spec_processed(st.result, regs, c, got, cur)
            } else {
                (None, st.result, regs)
            };
            let st1 = AnalyzerState { result: m1, ..st };
            let st2 = match prev_info {
                Some(InstrAnalysisInfo::Jumptable { jumptable_vram, .. }) => spec_follow_jumptable(
                    budget,
                    st1,
                    regs1,
                    c,
                    got,
                    k - 1,
                    false,
                    jumptable_vram,
                ),
                _ => spec_look_ahead(budget, st1, regs1, c, got, k, k - 1, 4 * k, spec_is_likely(prev)),
            };
            let (_, regs2) = spec_clear_afterwards(regs1, c.gp_config, Some(spec_decoded(prev)), next);
            spec_analyze_from(budget, st2, regs2, c, got, k + 1, info)
        }
    }
}

/// Every branch that can be followed: each instruction's address, reached through a branch
/// likely or not.
pub open spec fn spec_branch_keys(instrs: Seq<Instruction>) -> Set<(u32, u32)> {
    Seq::new(2 * instrs.len(), |i: int| (rabbitizer_vram(instrs[i / 2]), (i % 2) as u32)).to_set()
}

/// The analysis of the function made of `instrs`, starting at the start of `ranges`: the first
/// instruction, then the linear pass that follows every branch and jump table met (see
/// [`spec_analyze_from`]).
pub open spec fn spec_analyze(
    ranges: RomVramRange,
    c: AnalyzerContext,
    got: Option<&GlobalOffsetTable>,
    m0: AnalysisModel,
) -> AnalysisModel {
    let regs0 = spec_initial_regs(Some(ranges.spec_vram().spec_start()), c.gp_config);
    let (info, m1, regs1) = spec_processed(m0, regs0, c, got, c.instrs[0]);
    let st = AnalyzerState { taken: Set::empty(), result: m1 };
    spec_finished(spec_analyze_from(2 * c.instrs.len(), st, regs1, c, got, 1, info).result)
}

/// The analysis a new builder for `ranges` starts from: nothing known of any instruction.
pub open spec fn spec_new_analysis(ranges: RomVramRange) -> AnalysisModel {
    AnalysisModel {
        ranges,
        infos: Seq::new(
            ((ranges.spec_rom().spec_end().inner - ranges.spec_rom().spec_start().inner) / 4) as nat,
            |i: int| InstrAnalysisInfo::No,
        ),
        referenced_vrams: Set::empty(),
        type_infos: Map::empty(),
        handwritten_instrs: Set::empty(),
    }
}

/// The instructions can be analysed: at least one, each with room for its delay slot in the
/// address space.
pub open spec fn spec_instrs_ok(instrs: Seq<Instruction>) -> bool {
    &&& 1 <= instrs.len() < 0x1000_0000
    &&& forall|j: int| 0 <= j < instrs.len() ==> rabbitizer_vram(#[trigger] instrs[j]) + 4 <= u32::MAX
}

/// The branches followed are among those that can be, and `budget` covers the ones left.
pub open spec fn spec_budget_ok(taken: Set<(u32, u32)>, instrs: Seq<Instruction>, budget: nat) -> bool {
    &&& taken.finite()
    &&& taken.subset_of(spec_branch_keys(instrs))
    &&& taken.len() + budget >= 2 * instrs.len()
}

pub open spec fn spec_state(taken: Set<(u32, u32)>, result: AnalysisModel) -> AnalyzerState {
    AnalyzerState { taken, result }
}

/// `(u32, u32)` keys are ordered as pairs of integers are, so the set's contracts apply.
proof fn lemma_pair_keys_ordered()
    ensures
        vstd::laws_cmp::obeys_cmp::<(u32, u32)>(),
{
    broadcast use vstd::laws_cmp::group_laws_cmp;

    assert(vstd::laws_cmp::obeys_cmp::<u32>());
}

/// Following one more branch uses one unit of the budget, and leaves the rest covering the
/// others.
proof fn lemma_take_branch(taken: Set<(u32, u32)>, instrs: Seq<Instruction>, budget: nat, p: int, likely: bool)
    requires
        spec_budget_ok(taken, instrs, budget),
        0 <= p < instrs.len(),
        !taken.contains(spec_branch_key(instrs[p], likely)),
    ensures
        budget >= 1,
        spec_budget_ok(taken.insert(spec_branch_key(instrs[p], likely)), instrs, (budget - 1) as nat),
{
    let key = spec_branch_key(instrs[p], likely);
    let all = Seq::new(2 * instrs.len(), |i: int| (rabbitizer_vram(instrs[i / 2]), (i % 2) as u32));
    let i = if likely { 2 * p + 1 } else { 2 * p };
    assert(i / 2 == p && (i % 2) as u32 == key.1);
    assert(all[i] == key);
    assert(spec_branch_keys(instrs).contains(key));
    all.lemma_cardinality_of_set();
    vstd::seq_lib::seq_to_set_is_finite(all);
    let bigger = taken.insert(key);
    vstd::set_lib::lemma_len_subset(bigger, spec_branch_keys(instrs));
}

/// A budget that covered the branches left still does after more were followed.
proof fn lemma_budget_kept(old_taken: Set<(u32, u32)>, taken: Set<(u32, u32)>, instrs: Seq<Instruction>, budget: nat)
    requires
        spec_budget_ok(old_taken, instrs, budget),
        taken.finite(),
        taken.subset_of(spec_branch_keys(instrs)),
        old_taken.subset_of(taken),
    ensures
        spec_budget_ok(taken, instrs, budget),
{
    vstd::set_lib::lemma_len_subset(old_taken, taken);
}

/// What processing an instruction does, as [`spec_processed`] states it.
proof fn lemma_processed(
    m: AnalysisModel,
    regs: Seq<GprRegisterValue>,
    c: AnalyzerContext,
    got: Option<&GlobalOffsetTable>,
    instr: Instruction,
    r: Option<InstrAnalysisInfo>,
    m2: AnalysisModel,
    regs2: Seq<GprRegisterValue>,
)
    requires
        spec_process_step(
            m,
            regs,
            c.gp_config,
            c.endian,
            spec_decoded(instr),
            rabbitizer_is_likely_handwritten(instr),
            got,
            r,
            m2,
            regs2,
        ),
    ensures
        (r, m2, regs2) == spec_processed(m, regs, c, got, instr),
{
}

/// The labels of the first jump table known at `vram` (see [`spec_table_labels`]).
fn find_table_labels(jumptables: &Vec<(Vram, Vec<Vram>)>, vram: Vram) -> (r: Option<&Vec<Vram>>)
    ensures
        match r {
            Some(l) => spec_table_labels(jumptables@, vram) == Some(l@),
            None => spec_table_labels(jumptables@, vram) is None,
        },
{
    let mut i: usize = 0;
    while i < jumptables.len()
        invariant
            i <= jumptables@.len(),
            forall|j: int| 0 <= j < i ==> jumptables@[j].0 != vram,
        decreases jumptables@.len() - i,
    {
        if jumptables[i].0.inner == vram.inner {
            proof {
                let s = jumptables@;
                assert(0 <= i < s.len() && s[i as int].0 == vram);
                let c = choose|c: int| 0 <= c < s.len() && s[c].0 == vram && forall|j: int| 0 <= j < c ==> s[j].0 != vram;
                if c < i {
                } else if i < c {
                    assert(s[i as int].0 != vram);
                }
            }
            return Some(&jumptables[i].1);
        }
        i = i + 1;
    }
    None
}

/// Follows the branches of a function, so that the `%hi`/`%lo` pairs split across them are
/// paired too.
pub struct InstructionAnalyzer {
    ranges: RomVramRange,
    branches_taken: UnorderedSet<(u32, u32)>,
}

impl InstructionAnalyzer {
    /// Analyses the function made of `instrs`, which spans `ranges`: the instructions are
    /// processed in order with a register tracker, and every branch and jump table met is
    /// followed with a copy of the registers (see [`spec_analyze`]). `jumptables` holds the
    /// labels of the jump tables known so far.
    pub fn analyze(
        ranges: RomVramRange,
        instrs: &Vec<Instruction>,
        global_offset_table: Option<&GlobalOffsetTable>,
        gp_config: Option<GpConfig>,
        endian: Endian,
        jumptables: &Vec<(Vram, Vec<Vram>)>,
    ) -> (r: InstructionAnalysisResult)
        requires
            spec_instrs_ok(instrs@),
        ensures
            r@ == spec_analyze(
                ranges,
                AnalyzerContext { instrs: instrs@, gp_config, endian, jumptables: jumptables@ },
                global_offset_table,
                spec_new_analysis(ranges),
            ),
    {
        let ghost c = AnalyzerContext { instrs: instrs@, gp_config, endian, jumptables: jumptables@ };
        let ghost budget: nat = 2 * instrs@.len();
        let mut analyzer = InstructionAnalyzer { ranges, branches_taken: UnorderedSet::new() };
        let first = DecodedInstr::from_instruction(&instrs[0]);
        let mut regs_tracker = RegisterTracker::new(first.abi, Some(ranges.vram().start()), gp_config, endian);
        let mut result = InstructionAnalysisBuilder::new(ranges);
        let ghost m0 = result@;
        let ghost regs0 = regs_tracker.regs();
        proof {
            assert(m0 == spec_new_analysis(ranges));
        }
        let mut prev_info = result.process_instr(&mut regs_tracker, &instrs[0], global_offset_table);
        proof {
            lemma_processed(m0, regs0, c, global_offset_table, instrs@[0], prev_info, result@, regs_tracker.regs());
        }
        regs_tracker.clear_afterwards(None, None);
        let ghost goal = spec_analyze_from(
            budget,
            spec_state(Set::empty(), result@),
            regs_tracker.regs(),
            c,
            global_offset_table,
            1,
            prev_info,
        );
        let n = instrs.len();
        let mut k: usize = 1;
        while k < n
            invariant
                n == instrs@.len(),
                1 <= k <= n,
                c == (AnalyzerContext { instrs: instrs@, gp_config, endian, jumptables: jumptables@ }),
                spec_instrs_ok(instrs@),
                budget == 2 * instrs@.len(),
                result.well_formed(),
                result@.ranges == ranges,
                analyzer.ranges == ranges,
                regs_tracker.well_formed(),
                regs_tracker.spec_gp_config() == gp_config,
                regs_tracker.spec_endian() == endian,
                spec_budget_ok(analyzer.branches_taken@, instrs@, budget),
                spec_analyze_from(
                    budget,
                    spec_state(analyzer.branches_taken@, result@),
                    regs_tracker.regs(),
                    c,
                    global_offset_table,
                    k as int,
                    prev_info,
                ) == goal,
            decreases n - k,
        {
            let prev = &instrs[k - 1];
            let cur = &instrs[k];
            let cur_decoded = DecodedInstr::from_instruction(cur);
            let prev_decoded = DecodedInstr::from_instruction(prev);
            let next = Some(Vram::new(cur_decoded.vram.inner + 4));
            if !cur_decoded.is_valid {
                regs_tracker.clear_afterwards(Some(prev), next);
                prev_info = None;
            } else {
                let prev_likely = prev.opcode().is_branch_likely();
                let ghost st0 = spec_state(analyzer.branches_taken@, result@);
                let ghost regs_before = regs_tracker.regs();
                let info = if !prev_likely {
                    let i = result.process_instr(&mut regs_tracker, cur, global_offset_table);
                    proof {
                        lemma_processed(st0.result, regs_before, c, global_offset_table, instrs@[k as int], i, result@, regs_tracker.regs());
                    }
                    i
                } else {
                    None
                };
                let ghost taken_before = analyzer.branches_taken@;
                match prev_info {
                    Some(InstrAnalysisInfo::Jumptable { jumptable_vram, .. }) => {
                        analyzer.follow_jumptable(
                            &mut result,
                            &regs_tracker,
                            instrs,
                            k - 1,
                            false,
                            global_offset_table,
                            jumptables,
                            jumptable_vram,
                            Ghost(c),
                            Ghost(budget),
                        );
                    },
                    _ => {
                        analyzer.look_ahead(
                            &mut result,
                            &regs_tracker,
                            instrs,
                            k,
                            k - 1,
                            4 * k,
                            prev_likely,
                            global_offset_table,
                            jumptables,
                            Ghost(c),
                            Ghost(budget),
                        );
                    },
                }
                regs_tracker.clear_afterwards(Some(prev), next);
                prev_info = info;
            }
            k = k + 1;
        }
        result.finish()
    }

    /// Follows the branch `instrs[prev_k]`, whose delay slot is `instrs[k]` at `local_offset`
    /// (see [`spec_look_ahead`]).
    fn look_ahead(
        &mut self,
        result: &mut InstructionAnalysisBuilder,
        original_regs: &RegisterTracker,
        instrs: &Vec<Instruction>,
        k: usize,
        prev_k: usize,
        local_offset: usize,
        prev_is_likely: bool,
        global_offset_table: Option<&GlobalOffsetTable>,
        jumptables: &Vec<(Vram, Vec<Vram>)>,
        Ghost(c): Ghost<AnalyzerContext>,
        Ghost(budget): Ghost<nat>,
    )
        requires
            c.instrs == instrs@,
            c.jumptables == jumptables@,
            spec_instrs_ok(instrs@),
            prev_k < k < instrs@.len(),
            local_offset <= 4 * instrs@.len(),
            original_regs.well_formed(),
            original_regs.spec_gp_config() == c.gp_config,
            original_regs.spec_endian() == c.endian,
            old(result).well_formed(),
            old(result)@.ranges == old(self).ranges,
            spec_budget_ok(old(self).branches_taken@, instrs@, budget),
        ensures
            final(result).well_formed(),
            final(result)@.ranges == final(self).ranges,
            final(self).ranges == old(self).ranges,
            spec_budget_ok(final(self).branches_taken@, instrs@, budget),
            old(self).branches_taken@.subset_of(final(self).branches_taken@),
            spec_state(final(self).branches_taken@, final(result)@) == spec_look_ahead(
                budget,
                spec_state(old(self).branches_taken@, old(result)@),
                original_regs.regs(),
                c,
                global_offset_table,
                k as int,
                prev_k as int,
                local_offset as int,
                prev_is_likely,
            ),
        decreases budget, 0nat, 0nat,
    {
        let prev = &instrs[prev_k];
        let prev_decoded = DecodedInstr::from_instruction(prev);
        if prev_decoded.does_link {
            return;
        }
        let offset = match branch_offset_generic(prev) {
            Some(o) => o,
            None => {
                return;
            },
        };
        let key = (prev_decoded.vram.inner, if prev_is_likely { 1u32 } else { 0u32 });
        proof {
            lemma_pair_keys_ordered();
        }
        let ghost taken0 = self.branches_taken@;
        if !self.branches_taken.insert(key) {
            proof {
                assert(self.branches_taken@ =~= taken0);
            }
            return;
        }
        proof {
            lemma_take_branch(taken0, instrs@, budget, prev_k as int, prev_is_likely);
        }
        let target: i64 = local_offset as i64 - 4 + offset as i64;
        if target <= 0 {
            return;
        }
        let limit: i64 = 4 * instrs.len() as i64;
        let t: usize = if target < limit {
            target as usize
        } else {
            4 * instrs.len()
        };
        let mut regs = original_regs.duplicate();
        if prev_is_likely {
            let ghost m0 = result@;
            let ghost regs0 = regs.regs();
            let i = result.process_instr(&mut regs, &instrs[k], global_offset_table);
            proof {
                lemma_processed(m0, regs0, c, global_offset_table, instrs@[k as int], i, result@, regs.regs());
            }
        }
        let ghost st1 = spec_state(self.branches_taken@, result@);
        let ghost regs1 = regs.regs();
        proof {
            assert(spec_look_ahead_impl((budget - 1) as nat, st1, regs1, c, global_offset_table, target as int, None, prev_is_likely)
                == spec_look_ahead_impl((budget - 1) as nat, st1, regs1, c, global_offset_table, t as int, None, prev_is_likely));
        }
        self.look_ahead_impl(
            result,
            regs,
            instrs,
            t,
            prev_is_likely,
            global_offset_table,
            jumptables,
            Ghost(c),
            Ghost((budget - 1) as nat),
        );
        proof {
            assert(taken0.subset_of(taken0.insert(key)));
        }
    }

    /// Follows the jump table at `jumptable_vram`, reached by the `jr` at `instrs[prev_k]` (see
    /// [`spec_follow_jumptable`]).
    #[verifier::loop_isolation(false)]
    fn follow_jumptable(
        &mut self,
        result: &mut InstructionAnalysisBuilder,
        original_regs: &RegisterTracker,
        instrs: &Vec<Instruction>,
        prev_k: usize,
        prev_is_likely: bool,
        global_offset_table: Option<&GlobalOffsetTable>,
        jumptables: &Vec<(Vram, Vec<Vram>)>,
        jumptable_vram: Vram,
        Ghost(c): Ghost<AnalyzerContext>,
        Ghost(budget): Ghost<nat>,
    )
        requires
            c.instrs == instrs@,
            c.jumptables == jumptables@,
            spec_instrs_ok(instrs@),
            prev_k < instrs@.len(),
            original_regs.well_formed(),
            original_regs.spec_gp_config() == c.gp_config,
            original_regs.spec_endian() == c.endian,
            old(result).well_formed(),
            old(result)@.ranges == old(self).ranges,
            spec_budget_ok(old(self).branches_taken@, instrs@, budget),
        ensures
            final(result).well_formed(),
            final(result)@.ranges == final(self).ranges,
            final(self).ranges == old(self).ranges,
            spec_budget_ok(final(self).branches_taken@, instrs@, budget),
            old(self).branches_taken@.subset_of(final(self).branches_taken@),
            spec_state(final(self).branches_taken@, final(result)@) == spec_follow_jumptable(
                budget,
                spec_state(old(self).branches_taken@, old(result)@),
                original_regs.regs(),
                c,
                global_offset_table,
                prev_k as int,
                prev_is_likely,
                jumptable_vram,
            ),
        decreases budget, 0nat, 0nat,
    {
        let prev_decoded = DecodedInstr::from_instruction(&instrs[prev_k]);
        let key = (prev_decoded.vram.inner, if prev_is_likely { 1u32 } else { 0u32 });
        proof {
            lemma_pair_keys_ordered();
        }
        let ghost taken0 = self.branches_taken@;
        if !self.branches_taken.insert(key) {
            proof {
                assert(self.branches_taken@ =~= taken0);
            }
            return;
        }
        proof {
            lemma_take_branch(taken0, instrs@, budget, prev_k as int, prev_is_likely);
        }
        let labels = match find_table_labels(jumptables, jumptable_vram) {
            Some(l) => l,
            None => {
                return;
            },
        };
        let ghost goal = spec_follow_labels(
            (budget - 1) as nat,
            spec_state(self.branches_taken@, result@),
            original_regs.regs(),
            c,
            global_offset_table,
            labels@,
            0,
            prev_is_likely,
        );
        let mut idx: usize = 0;
        while idx < labels.len()
            invariant
                idx <= labels@.len(),
                c.instrs == instrs@,
                c.jumptables == jumptables@,
                spec_instrs_ok(instrs@),
                budget >= 1,
                original_regs.well_formed(),
                original_regs.spec_gp_config() == c.gp_config,
                original_regs.spec_endian() == c.endian,
                result.well_formed(),
                result@.ranges == self.ranges,
                self.ranges == old(self).ranges,
                spec_budget_ok(self.branches_taken@, instrs@, (budget - 1) as nat),
                taken0.subset_of(self.branches_taken@),
                spec_follow_labels(
                    (budget - 1) as nat,
                    spec_state(self.branches_taken@, result@),
                    original_regs.regs(),
                    c,
                    global_offset_table,
                    labels@,
                    idx as nat,
                    prev_is_likely,
                ) == goal,
            decreases labels@.len() - idx,
        {
            let label = labels[idx];
            if result.ranges().in_vram_range(label) {
                let start = result.ranges().vram().start();
                let regs = original_regs.duplicate();
                self.look_ahead_impl(
                    result,
                    regs,
                    instrs,
                    (label.inner - start.inner) as usize,
                    prev_is_likely,
                    global_offset_table,
                    jumptables,
                    Ghost(c),
                    Ghost((budget - 1) as nat),
                );
            }
            idx = idx + 1;
        }
        proof {
            assert(taken0.subset_of(self.branches_taken@));
        }
    }

    /// Goes on from offset `target` with the registers `regs_tracker` (see
    /// [`spec_look_ahead_impl`]). An offset before the second instruction stops at once.
    #[verifier::loop_isolation(false)]
    fn look_ahead_impl(
        &mut self,
        result: &mut InstructionAnalysisBuilder,
        regs_tracker: RegisterTracker,
        instrs: &Vec<Instruction>,
        target: usize,
        prev_is_likely: bool,
        global_offset_table: Option<&GlobalOffsetTable>,
        jumptables: &Vec<(Vram, Vec<Vram>)>,
        Ghost(c): Ghost<AnalyzerContext>,
        Ghost(budget): Ghost<nat>,
    )
        requires
            c.instrs == instrs@,
            c.jumptables == jumptables@,
            spec_instrs_ok(instrs@),
            regs_tracker.well_formed(),
            regs_tracker.spec_gp_config() == c.gp_config,
            regs_tracker.spec_endian() == c.endian,
            old(result).well_formed(),
            old(result)@.ranges == old(self).ranges,
            spec_budget_ok(old(self).branches_taken@, instrs@, budget),
        ensures
            final(result).well_formed(),
            final(result)@.ranges == final(self).ranges,
            final(self).ranges == old(self).ranges,
            spec_budget_ok(final(self).branches_taken@, instrs@, budget),
            old(self).branches_taken@.subset_of(final(self).branches_taken@),
            spec_state(final(self).branches_taken@, final(result)@) == spec_look_ahead_impl(
                budget,
                spec_state(old(self).branches_taken@, old(result)@),
                regs_tracker.regs(),
                c,
                global_offset_table,
                target as int,
                None,
                prev_is_likely,
            ),
        decreases budget, 1nat, 0nat,
    {
        let ghost goal = spec_look_ahead_impl(
            budget,
            spec_state(self.branches_taken@, result@),
            regs_tracker.regs(),
            c,
            global_offset_table,
            target as int,
            None,
            prev_is_likely,
        );
        let ghost taken0 = self.branches_taken@;
        let mut regs_tracker = regs_tracker;
        let mut target = target;
        let mut prev_info: Option<InstrAnalysisInfo> = None;
        let n = instrs.len();
        while target / 4 < n
            invariant
                n == instrs@.len(),
                c.instrs == instrs@,
                c.jumptables == jumptables@,
                spec_instrs_ok(instrs@),
                regs_tracker.well_formed(),
                regs_tracker.spec_gp_config() == c.gp_config,
                regs_tracker.spec_endian() == c.endian,
                result.well_formed(),
                result@.ranges == self.ranges,
                self.ranges == old(self).ranges,
                spec_budget_ok(self.branches_taken@, instrs@, budget),
                taken0.subset_of(self.branches_taken@),
                spec_look_ahead_impl(
                    budget,
                    spec_state(self.branches_taken@, result@),
                    regs_tracker.regs(),
                    c,
                    global_offset_table,
                    target as int,
                    prev_info,
                    prev_is_likely,
                ) == goal,
            decreases n - target / 4,
        {
            if target < 4 {
                proof {
                    assert(taken0.subset_of(self.branches_taken@));
                    assert(spec_look_ahead_impl(
                        budget,
                        spec_state(self.branches_taken@, result@),
                        regs_tracker.regs(),
                        c,
                        global_offset_table,
                        target as int,
                        prev_info,
                        prev_is_likely,
                    ) == spec_state(self.branches_taken@, result@));
                }
                return;
            }
            let k = target / 4;
            let prev = &instrs[k - 1];
            let cur = &instrs[k];
            let prev_likely = prev.opcode().is_branch_likely();
            let ghost st0 = spec_state(self.branches_taken@, result@);
            let ghost regs_before = regs_tracker.regs();
            let info = if !prev_likely {
                let i = result.process_instr(&mut regs_tracker, cur, global_offset_table);
                proof {
                    lemma_processed(st0.result, regs_before, c, global_offset_table, instrs@[k as int], i, result@, regs_tracker.regs());
                }
                i
            } else {
                None
            };
            match prev_info {
                Some(InstrAnalysisInfo::Jumptable { jumptable_vram, .. }) => {
                    self.follow_jumptable(
                        result,
                        &regs_tracker,
                        instrs,
                        k - 1,
                        prev_is_likely,
                        global_offset_table,
                        jumptables,
                        jumptable_vram,
                        Ghost(c),
                        Ghost(budget),
                    );
                },
                _ => {
                    self.look_ahead(
                        result,
                        &regs_tracker,
                        instrs,
                        k,
                        k - 1,
                        target,
                        prev_is_likely || prev_likely,
                        global_offset_table,
                        jumptables,
                        Ghost(c),
                        Ghost(budget),
                    );
                },
            }
            let cur_decoded = DecodedInstr::from_instruction(cur);
            let ended = regs_tracker.clear_afterwards(Some(prev), Some(Vram::new(cur_decoded.vram.inner + 4)));
            if ended {
                return;
            }
            prev_info = info;
            target = target + 4;
        }
    }
}

} // verus!
