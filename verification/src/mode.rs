//! The operating modes of the processor and the steps that lead from one to
//! the next.
//!
//! A boot goes from real mode by way of unreal mode and 32-bit protected
//! mode to 64-bit long mode. Each change of mode is a fixed sequence of
//! steps on control registers, descriptor tables and segment registers. The
//! instructions are the caller's; which steps are taken, in which order, and
//! what state they need and leave, is stated here.

use vstd::prelude::*;

verus! {

/// The protection-enable bit of control register 0.
pub const CR0_PROTECTION_ENABLE: u32 = 0x0000_0001;

/// The paging bit of control register 0.
pub const CR0_PAGING: u32 = 0x8000_0000;

/// The bit of control register 4 that enables the physical address
/// extension.
pub const CR4_PAE: u32 = 0x0000_0020;

/// The number of the model-specific register of extended features.
pub const IA32_EFER: u32 = 0xC000_0080;

/// The bit of the extended feature register that enables long mode.
pub const EFER_LONG_MODE_ENABLE: u32 = 0x0000_0100;

/// The mask that aligns the stack pointer before a jump to the next stage.
pub const STACK_ALIGNMENT_MASK: u32 = 0xffff_ff00;

/// Control register 0 with protection enabled.
pub fn with_protection_enabled(cr0: u32) -> (value: u32)
    ensures
        value == cr0 | CR0_PROTECTION_ENABLE,
{
    cr0 | CR0_PROTECTION_ENABLE
}

/// Control register 0 with paging enabled.
pub fn with_paging_enabled(cr0: u32) -> (value: u32)
    ensures
        value == cr0 | CR0_PAGING,
{
    cr0 | CR0_PAGING
}

/// Control register 4 with the physical address extension enabled.
pub fn with_pae_enabled(cr4: u32) -> (value: u32)
    ensures
        value == cr4 | CR4_PAE,
{
    cr4 | CR4_PAE
}

/// The lower half of the extended feature register with long mode enabled.
pub fn with_long_mode_enabled(efer_low: u32) -> (value: u32)
    ensures
        value == efer_low | EFER_LONG_MODE_ENABLE,
{
    efer_low | EFER_LONG_MODE_ENABLE
}

/// The stack pointer, moved down to a multiple of 256.
pub fn aligned_stack(esp: u32) -> (value: u32)
    ensures
        value == esp & STACK_ALIGNMENT_MASK,
        value <= esp,
        value % 256 == 0,
        esp - value < 256,
{
    let value: u32 = esp & STACK_ALIGNMENT_MASK;
    assert(value <= esp && value % 256 == 0 && esp - value < 256) by (bit_vector)
        requires
            value == esp & 0xffff_ff00u32,
    ;
    value
}

/// The mode in which the processor runs.
#[derive(Clone, Copy, Debug, PartialEq, Eq, Structural)]
pub enum CpuMode {
    /// 16-bit real mode with segments of 64 KiB.
    Real,
    /// 16-bit real mode with data segments of 4 GiB.
    Unreal,
    /// Protected mode.
    Protected32,
    /// 64-bit long mode.
    Long64,
}

/// The descriptor table that the processor has been pointed to.
#[derive(Clone, Copy, Debug, PartialEq, Eq, Structural)]
pub enum LoadedTable {
    /// None yet.
    NoTable,
    /// The table for 32-bit protected mode.
    Protected,
    /// The table for 64-bit long mode.
    Long,
}

/// What the changes of mode depend on in the state of the processor.
#[derive(Clone, Copy, Debug, PartialEq, Eq, Structural)]
pub struct CpuState {
    /// The mode.
    pub mode: CpuMode,
    /// Whether interrupts are taken.
    pub interrupts_enabled: bool,
    /// The descriptor table in use.
    pub table: LoadedTable,
    /// Whether the data segments span 4 GiB.
    pub flat_segments: bool,
    /// Whether the segment registers' values are saved on the stack.
    pub segments_saved: bool,
    /// Whether the processor runs code of the mode's own width, after a far
    /// jump into it.
    pub jumped: bool,
    /// Whether the processor has been pointed to page tables.
    pub page_tables_installed: bool,
    /// Whether the physical address extension is enabled.
    pub pae_enabled: bool,
    /// Whether long mode is enabled.
    pub long_mode_enabled: bool,
    /// Whether paging is enabled.
    pub paging_enabled: bool,
}

/// One step of a change of mode.
#[derive(Clone, Copy, Debug, PartialEq, Eq, Structural)]
pub enum Step {
    /// Push the segment registers.
    SaveSegments,
    /// Pop the segment registers.
    RestoreSegments,
    /// Stop taking interrupts.
    DisableInterrupts,
    /// Take interrupts again.
    EnableInterrupts,
    /// Point the processor to the table for protected mode.
    LoadProtectedTable,
    /// Point the processor to the table for long mode.
    LoadLongTable,
    /// Set the protection-enable bit.
    SetProtectionEnable,
    /// Clear the protection-enable bit.
    ClearProtectionEnable,
    /// Load the data, stack and extra segment registers with the selector
    /// of the flat data segment.
    LoadFlatSegments,
    /// Jump far into 32-bit code.
    FarJump32,
    /// Point the processor to the page tables. This is done once.
    InstallPageTables,
    /// Enable the physical address extension.
    EnablePae,
    /// Enable long mode.
    EnableLongMode,
    /// Enable paging.
    EnablePaging,
    /// Jump far into 64-bit code.
    FarJump64,
}

impl CpuState {
    /// Whether the processor runs 16-bit code without protection.
    pub open spec fn in_real_mode(self) -> bool {
        self.mode == CpuMode::Real || self.mode == CpuMode::Unreal
    }

    /// Whether the state is one that a boot can be in: interrupts are taken
    /// in real and unreal mode only, and the processor has jumped into code
    /// of the mode's width only in protected and long mode.
    pub open spec fn sound(self) -> bool {
        &&& !self.in_real_mode() ==> !self.interrupts_enabled
        &&& self.in_real_mode() ==> !self.jumped
        &&& self.paging_enabled ==> self.jumped
        &&& self.mode == CpuMode::Long64 ==> self.jumped && self.paging_enabled
        &&& self.paging_enabled ==> self.page_tables_installed && self.pae_enabled
            && self.long_mode_enabled
    }

    /// Whether `step` may be taken in this state.
    pub open spec fn allows(self, step: Step) -> bool {
        match step {
            Step::SaveSegments => !self.segments_saved,
            Step::RestoreSegments => self.segments_saved && self.in_real_mode(),
            Step::DisableInterrupts => true,
            Step::EnableInterrupts => self.in_real_mode(),
            Step::LoadProtectedTable => !self.interrupts_enabled && self.in_real_mode(),
            Step::LoadLongTable => !self.interrupts_enabled && self.mode == CpuMode::Protected32
                && self.jumped,
            Step::SetProtectionEnable => self.in_real_mode() && !self.interrupts_enabled
                && self.table == LoadedTable::Protected,
            Step::ClearProtectionEnable => self.mode == CpuMode::Protected32 && !self.jumped,
            Step::LoadFlatSegments => !self.in_real_mode() && self.table != LoadedTable::NoTable,
            Step::FarJump32 => self.mode == CpuMode::Protected32 && !self.jumped && self.table
                == LoadedTable::Protected,
            Step::InstallPageTables => self.mode == CpuMode::Protected32 && self.jumped
                && !self.paging_enabled && !self.page_tables_installed,
            Step::EnablePae => self.mode == CpuMode::Protected32 && self.jumped
                && !self.paging_enabled,
            Step::EnableLongMode => self.mode == CpuMode::Protected32 && self.jumped
                && !self.paging_enabled,
            Step::EnablePaging => self.mode == CpuMode::Protected32 && self.jumped
                && self.page_tables_installed && self.pae_enabled && self.long_mode_enabled,
            Step::FarJump64 => self.mode == CpuMode::Protected32 && self.jumped
                && self.paging_enabled && self.table == LoadedTable::Long,
        }
    }

    /// The state after `step`.
    pub open spec fn after(self, step: Step) -> CpuState {
        match step {
            Step::SaveSegments => CpuState { segments_saved: true, ..self },
            Step::RestoreSegments => CpuState { segments_saved: false, ..self },
            Step::DisableInterrupts => CpuState { interrupts_enabled: false, ..self },
            Step::EnableInterrupts => CpuState { interrupts_enabled: true, ..self },
            Step::LoadProtectedTable => CpuState { table: LoadedTable::Protected, ..self },
            Step::LoadLongTable => CpuState { table: LoadedTable::Long, ..self },
            Step::SetProtectionEnable => CpuState { mode: CpuMode::Protected32, ..self },
            Step::ClearProtectionEnable => CpuState {
                mode: if self.flat_segments {
                    CpuMode::Unreal
                } else {
                    CpuMode::Real
                },
                ..self
            },
            Step::LoadFlatSegments => CpuState { flat_segments: true, ..self },
            Step::FarJump32 => CpuState { jumped: true, ..self },
            Step::InstallPageTables => CpuState { page_tables_installed: true, ..self },
            Step::EnablePae => CpuState { pae_enabled: true, ..self },
            Step::EnableLongMode => CpuState { long_mode_enabled: true, ..self },
            Step::EnablePaging => CpuState { paging_enabled: true, ..self },
            Step::FarJump64 => CpuState { mode: CpuMode::Long64, ..self },
        }
    }

    /// The state after `steps`, taken in order, if each may be taken in the
    /// state that the steps before it leave.
    pub open spec fn after_all(self, steps: Seq<Step>) -> Option<CpuState>
        decreases steps.len(),
    {
        if steps.len() == 0 {
            Some(self)
        } else if !self.allows(steps[0]) {
            None
        } else {
            self.after(steps[0]).after_all(steps.subrange(1, steps.len() as int))
        }
    }

    /// The state in which the firmware hands over: real mode, with
    /// interrupts taken.
    pub fn at_boot() -> (state: CpuState)
        ensures
            state == Self::boot(),
            state.sound(),
    {
        CpuState {
            mode: CpuMode::Real,
            interrupts_enabled: true,
            table: LoadedTable::NoTable,
            flat_segments: false,
            segments_saved: false,
            jumped: false,
            page_tables_installed: false,
            pae_enabled: false,
            long_mode_enabled: false,
            paging_enabled: false,
        }
    }

    /// The state in which the firmware hands over.
    pub open spec fn boot() -> CpuState {
        CpuState {
            mode: CpuMode::Real,
            interrupts_enabled: true,
            table: LoadedTable::NoTable,
            flat_segments: false,
            segments_saved: false,
            jumped: false,
            page_tables_installed: false,
            pae_enabled: false,
            long_mode_enabled: false,
            paging_enabled: false,
        }
    }

    /// Whether `step` may be taken in this state.
    pub fn permits(&self, step: Step) -> (allowed: bool)
        ensures
            allowed == self.allows(step),
    {
        let unprotected = match self.mode {
            CpuMode::Real | CpuMode::Unreal => true,
            _ => false,
        };
        let protected = match self.mode {
            CpuMode::Protected32 => true,
            _ => false,
        };
        let committed = protected && self.jumped;
        match step {
            Step::SaveSegments => !self.segments_saved,
            Step::RestoreSegments => self.segments_saved && unprotected,
            Step::DisableInterrupts => true,
            Step::EnableInterrupts => unprotected,
            Step::LoadProtectedTable => !self.interrupts_enabled && unprotected,
            Step::LoadLongTable => !self.interrupts_enabled && committed,
            Step::SetProtectionEnable => unprotected && !self.interrupts_enabled && match self.table {
                LoadedTable::Protected => true,
                _ => false,
            },
            Step::ClearProtectionEnable => protected && !self.jumped,
            Step::LoadFlatSegments => !unprotected && match self.table {
                LoadedTable::NoTable => false,
                _ => true,
            },
            Step::FarJump32 => protected && !self.jumped && match self.table {
                LoadedTable::Protected => true,
                _ => false,
            },
            Step::InstallPageTables => committed && !self.paging_enabled
                && !self.page_tables_installed,
            Step::EnablePae => committed && !self.paging_enabled,
            Step::EnableLongMode => committed && !self.paging_enabled,
            Step::EnablePaging => committed && self.page_tables_installed && self.pae_enabled
                && self.long_mode_enabled,
            Step::FarJump64 => committed && self.paging_enabled && match self.table {
                LoadedTable::Long => true,
                _ => false,
            },
        }
    }

    /// Takes `step`: gives the state after it, or nothing where the step may
    /// not be taken.
    pub fn apply(&self, step: Step) -> (next: Option<CpuState>)
        ensures
            next == if self.allows(step) {
                Some(self.after(step))
            } else {
                None
            },
    {
        if !self.permits(step) {
            return None;
        }
        let mut next = *self;
        match step {
            Step::SaveSegments => {
                next.segments_saved = true;
            },
            Step::RestoreSegments => {
                next.segments_saved = false;
            },
            Step::DisableInterrupts => {
                next.interrupts_enabled = false;
            },
            Step::EnableInterrupts => {
                next.interrupts_enabled = true;
            },
            Step::LoadProtectedTable => {
                next.table = LoadedTable::Protected;
            },
            Step::LoadLongTable => {
                next.table = LoadedTable::Long;
            },
            Step::SetProtectionEnable => {
                next.mode = CpuMode::Protected32;
            },
            Step::ClearProtectionEnable => {
                next.mode = if self.flat_segments {
                    CpuMode::Unreal
                } else {
                    CpuMode::Real
                };
            },
            Step::LoadFlatSegments => {
                next.flat_segments = true;
            },
            Step::FarJump32 => {
                next.jumped = true;
            },
            Step::InstallPageTables => {
                next.page_tables_installed = true;
            },
            Step::EnablePae => {
                next.pae_enabled = true;
            },
            Step::EnableLongMode => {
                next.long_mode_enabled = true;
            },
            Step::EnablePaging => {
                next.paging_enabled = true;
            },
            Step::FarJump64 => {
                next.mode = CpuMode::Long64;
            },
        }
        Some(next)
    }

    /// Takes `steps` in order: gives the state after the last, or nothing
    /// where one of them may not be taken.
    pub fn run(&self, steps: &[Step]) -> (end: Option<CpuState>)
        ensures
            end == self.after_all(steps@),
    {
        let mut state = *self;
        let mut i: usize = 0;
        assert(steps@.subrange(0, steps@.len() as int) =~= steps@);
        while i < steps.len()
            invariant
                i <= steps@.len(),
                self.after_all(steps@) == state.after_all(
                    steps@.subrange(i as int, steps@.len() as int),
                ),
            decreases steps@.len() - i,
        {
            let ghost rest = steps@.subrange(i as int, steps@.len() as int);
            assert(rest[0] == steps@[i as int]);
            assert(rest.subrange(1, rest.len() as int) =~= steps@.subrange(
                i + 1,
                steps@.len() as int,
            ));
            match state.apply(steps[i]) {
                Some(next) => {
                    state = next;
                },
                None => {
                    return None;
                },
            }
            i += 1;
        }
        Some(state)
    }
}

/// The steps that widen the data segments of real mode: save the segment
/// registers, stop interrupts, load the table, enter protected mode, load
/// the flat segments, leave protected mode, restore the segment registers,
/// take interrupts again.
pub open spec fn unreal_mode_steps() -> Seq<Step> {
    seq![
        Step::SaveSegments,
        Step::DisableInterrupts,
        Step::LoadProtectedTable,
        Step::SetProtectionEnable,
        Step::LoadFlatSegments,
        Step::ClearProtectionEnable,
        Step::RestoreSegments,
        Step::EnableInterrupts,
    ]
}

/// The steps that enter 32-bit protected mode for good: stop interrupts,
/// enter protected mode, jump far into 32-bit code, load the flat segments.
pub open spec fn protected_mode_steps() -> Seq<Step> {
    seq![
        Step::DisableInterrupts,
        Step::SetProtectionEnable,
        Step::FarJump32,
        Step::LoadFlatSegments,
    ]
}

/// The steps that enter 64-bit long mode: install the page tables, enable
/// the physical address extension, long mode and paging, load the table for
/// long mode, jump far into 64-bit code, load the flat segments.
pub open spec fn long_mode_steps() -> Seq<Step> {
    seq![
        Step::InstallPageTables,
        Step::EnablePae,
        Step::EnableLongMode,
        Step::EnablePaging,
        Step::LoadLongTable,
        Step::FarJump64,
        Step::LoadFlatSegments,
    ]
}

/// The steps that widen the data segments of real mode.
pub fn enter_unreal_mode() -> (steps: [Step; 8])
    ensures
        steps@ == unreal_mode_steps(),
{
    let steps = [
        Step::SaveSegments,
        Step::DisableInterrupts,
        Step::LoadProtectedTable,
        Step::SetProtectionEnable,
        Step::LoadFlatSegments,
        Step::ClearProtectionEnable,
        Step::RestoreSegments,
        Step::EnableInterrupts,
    ];
    assert(steps@ =~= unreal_mode_steps());
    steps
}

/// The steps that enter 32-bit protected mode for good.
pub fn protected_mode_jump_to_stage2() -> (steps: [Step; 4])
    ensures
        steps@ == protected_mode_steps(),
{
    let steps = [
        Step::DisableInterrupts,
        Step::SetProtectionEnable,
        Step::FarJump32,
        Step::LoadFlatSegments,
    ];
    assert(steps@ =~= protected_mode_steps());
    steps
}

/// The steps that enter 64-bit long mode.
pub fn enter_long_mode_and_jump_to_stage_3() -> (steps: [Step; 7])
    ensures
        steps@ == long_mode_steps(),
{
    let steps = [
        Step::InstallPageTables,
        Step::EnablePae,
        Step::EnableLongMode,
        Step::EnablePaging,
        Step::LoadLongTable,
        Step::FarJump64,
        Step::LoadFlatSegments,
    ];
    assert(steps@ =~= long_mode_steps());
    steps
}

/// Taking the first step and then the rest is taking all steps.
proof fn lemma_unfold(state: CpuState, steps: Seq<Step>)
    requires
        steps.len() > 0,
        state.allows(steps[0]),
    ensures
        state.after_all(steps) == state.after(steps[0]).after_all(
            steps.subrange(1, steps.len() as int),
        ),
{
}

/// From the state in which the firmware hands over, the steps into unreal
/// mode can all be taken, and leave the processor in unreal mode with flat
/// segments, the segment registers restored and interrupts taken again.
pub proof fn lemma_unreal_mode_is_reached()
    ensures
        CpuState::boot().after_all(unreal_mode_steps()) == Some(
            CpuState {
                mode: CpuMode::Unreal,
                table: LoadedTable::Protected,
                flat_segments: true,
                ..CpuState::boot()
            },
        ),
{
    reveal_with_fuel(CpuState::after_all, 9);
    let steps = unreal_mode_steps();
    let s0 = CpuState::boot();
    let t1 = steps.subrange(1, 8);
    let t2 = t1.subrange(1, 7);
    let t3 = t2.subrange(1, 6);
    let t4 = t3.subrange(1, 5);
    let t5 = t4.subrange(1, 4);
    let t6 = t5.subrange(1, 3);
    let t7 = t6.subrange(1, 2);
    let t8 = t7.subrange(1, 1);
    assert(t1[0] == Step::DisableInterrupts);
    assert(t2[0] == Step::LoadProtectedTable);
    assert(t3[0] == Step::SetProtectionEnable);
    assert(t4[0] == Step::LoadFlatSegments);
    assert(t5[0] == Step::ClearProtectionEnable);
    assert(t6[0] == Step::RestoreSegments);
    assert(t7[0] == Step::EnableInterrupts);
    assert(t8.len() == 0);
}

/// From unreal mode, the steps into protected mode can all be taken, and
/// leave the processor in 32-bit code with interrupts stopped.
pub proof fn lemma_protected_mode_is_reached()
    ensures
        ({
            let unreal = CpuState::boot().after_all(unreal_mode_steps())->Some_0;
            unreal.after_all(protected_mode_steps()) == Some(
                CpuState {
                    mode: CpuMode::Protected32,
                    interrupts_enabled: false,
                    jumped: true,
                    ..unreal
                },
            )
        }),
{
    lemma_unreal_mode_is_reached();
    reveal_with_fuel(CpuState::after_all, 5);
    let steps = protected_mode_steps();
    let t1 = steps.subrange(1, 4);
    let t2 = t1.subrange(1, 3);
    let t3 = t2.subrange(1, 2);
    let t4 = t3.subrange(1, 1);
    assert(t1[0] == Step::SetProtectionEnable);
    assert(t2[0] == Step::FarJump32);
    assert(t3[0] == Step::LoadFlatSegments);
    assert(t4.len() == 0);
}

/// From protected mode, the steps into long mode can all be taken, and
/// leave the processor in long mode with paging enabled.
pub proof fn lemma_long_mode_is_reached()
    ensures
        ({
            let unreal = CpuState::boot().after_all(unreal_mode_steps())->Some_0;
            let protected = unreal.after_all(protected_mode_steps())->Some_0;
            protected.after_all(long_mode_steps()) == Some(
                CpuState {
                    mode: CpuMode::Long64,
                    table: LoadedTable::Long,
                    page_tables_installed: true,
                    pae_enabled: true,
                    long_mode_enabled: true,
                    paging_enabled: true,
                    ..protected
                },
            )
        }),
{
    lemma_unreal_mode_is_reached();
    lemma_protected_mode_is_reached();
    let steps = long_mode_steps();
    let t1 = steps.subrange(1, 7);
    let t2 = t1.subrange(1, 6);
    let t3 = t2.subrange(1, 5);
    let t4 = t3.subrange(1, 4);
    let t5 = t4.subrange(1, 3);
    let t6 = t5.subrange(1, 2);
    let t7 = t6.subrange(1, 1);
    assert(t1[0] == Step::EnablePae);
    assert(t2[0] == Step::EnableLongMode);
    assert(t3[0] == Step::EnablePaging);
    assert(t4[0] == Step::LoadLongTable);
    assert(t5[0] == Step::FarJump64);
    assert(t6[0] == Step::LoadFlatSegments);
    assert(t7.len() == 0);
    let unreal = CpuState::boot().after_all(unreal_mode_steps())->Some_0;
    let s0 = unreal.after_all(protected_mode_steps())->Some_0;
    let s1 = s0.after(Step::InstallPageTables);
    let s2 = s1.after(Step::EnablePae);
    let s3 = s2.after(Step::EnableLongMode);
    let s4 = s3.after(Step::EnablePaging);
    let s5 = s4.after(Step::LoadLongTable);
    let s6 = s5.after(Step::FarJump64);
    let s7 = s6.after(Step::LoadFlatSegments);
    assert(s7.after_all(t7) == Some(s7));
    lemma_unfold(s6, t6);
    assert(t6.subrange(1, t6.len() as int) =~= t7);
    lemma_unfold(s5, t5);
    assert(t5.subrange(1, t5.len() as int) =~= t6);
    lemma_unfold(s4, t4);
    assert(t4.subrange(1, t4.len() as int) =~= t5);
    lemma_unfold(s3, t3);
    assert(t3.subrange(1, t3.len() as int) =~= t4);
    lemma_unfold(s2, t2);
    assert(t2.subrange(1, t2.len() as int) =~= t3);
    lemma_unfold(s1, t1);
    assert(t1.subrange(1, t1.len() as int) =~= t2);
    lemma_unfold(s0, steps);
    assert(steps.subrange(1, steps.len() as int) =~= t1);
}

/// A step that may be taken leaves a sound state sound. It leaves long mode
/// in long mode, and 32-bit code in protected or long mode: the way back to
/// real mode is open only before the far jump.
pub proof fn lemma_modes_are_one_way(state: CpuState, step: Step)
    requires
        state.sound(),
        state.allows(step),
    ensures
        state.after(step).sound(),
        state.mode == CpuMode::Long64 ==> state.after(step).mode == CpuMode::Long64,
        state.jumped ==> state.after(step).jumped && !state.after(step).in_real_mode(),
{
}

/// No sequence of steps leads from 32-bit code or from long mode back to
/// real or unreal mode, and every state on the way is sound.
pub proof fn lemma_no_way_back(state: CpuState, steps: Seq<Step>)
    requires
        state.sound(),
        state.after_all(steps) is Some,
    ensures
        state.after_all(steps)->Some_0.sound(),
        state.jumped ==> !state.after_all(steps)->Some_0.in_real_mode(),
        state.mode == CpuMode::Long64 ==> state.after_all(steps)->Some_0.mode == CpuMode::Long64,
    decreases steps.len(),
{
    if steps.len() > 0 {
        lemma_modes_are_one_way(state, steps[0]);
        lemma_no_way_back(state.after(steps[0]), steps.subrange(1, steps.len() as int));
    }
}

} // verus!
