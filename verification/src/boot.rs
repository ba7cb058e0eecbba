//! Order of core 0's start-up.
use vstd::prelude::*;
use crate::shared::{KernelRound, HANDSHAKE_FINGERPRINT};

verus! {

/// A peripheral that start-up does not put into reset.
#[derive(Clone, Copy, PartialEq, Eq, Debug)]
pub enum KeptPeripheral {
    /// I/O bank of the flash interface.
    IoQspi,
    /// Pads of the flash interface.
    PadsQspi,
    PllUsb,
    PllSys,
}

/// The peripherals that keep running while all others are put into reset: the
/// flash interface, from which core 0 runs, and the two PLLs.
pub fn kept_out_of_reset() -> (kept: [KeptPeripheral; 4])
    ensures
        kept@ == seq![
            KeptPeripheral::IoQspi,
            KeptPeripheral::PadsQspi,
            KeptPeripheral::PllUsb,
            KeptPeripheral::PllSys,
        ],
{
    let kept = [
        KeptPeripheral::IoQspi,
        KeptPeripheral::PadsQspi,
        KeptPeripheral::PllUsb,
        KeptPeripheral::PllSys,
    ];
    assert(kept@ =~= seq![
        KeptPeripheral::IoQspi,
        KeptPeripheral::PadsQspi,
        KeptPeripheral::PllUsb,
        KeptPeripheral::PllSys,
    ]);
    kept
}

/// The fingerprint with which core 0 meets core 1 at the one-time
/// synchronisation. Core 0 dispatches no events meanwhile.
pub fn handshake_fingerprint() -> (fingerprint: u32)
    ensures
        fingerprint == 0,
        fingerprint == HANDSHAKE_FINGERPRINT,
{
    HANDSHAKE_FINGERPRINT
}

/// How core 0 runs a round of its kernel: it may sleep, and serves inter-process
/// communication.
pub fn kernel_round() -> (round: KernelRound)
    ensures
        round == (KernelRound { no_sleep: false, with_ipc: true }),
{
    KernelRound { no_sleep: false, with_ipc: true }
}

/// One stage of core 0's start-up.
#[derive(Clone, Copy, PartialEq, Eq, Debug)]
pub enum BootStep {
    /// Initialise the chip and the kernel's early state, and create the peripherals.
    InitChip,
    /// Put every peripheral into reset but those of [`kept_out_of_reset`].
    ResetPeripherals,
    /// Run the clock bring-up sequence.
    InitClocks,
    /// Take every peripheral out of reset and wait until they are.
    UnresetPeripherals,
    /// Route the serial line to its pins and turn the unused pads off.
    ConfigurePins,
    /// Start core 1, which waits for the handshake.
    LaunchCore1,
    /// Create the kernel, the drivers and the scheduler.
    BuildPlatform,
    /// Load the processes from flash.
    LoadProcesses,
    /// Exchange the one-time synchronisation with core 1, with
    /// [`handshake_fingerprint`].
    Handshake,
    /// Resolve and report the boot-ROM flash routines.
    LookupRomFns,
    /// Check that core 1 parks and resumes.
    ParkTest,
    /// Erase and program the scratch sector with core 1 parked.
    WriteTest,
    /// Serve what start-up left pending.
    DrainKernel,
    /// One round of the kernel's main loop, run as [`kernel_round`] says.
    KernelLoop,
}

/// The stages in order. The last one repeats.
pub open spec fn boot_order() -> Seq<BootStep> {
    seq![
        BootStep::InitChip,
        BootStep::ResetPeripherals,
        BootStep::InitClocks,
        BootStep::UnresetPeripherals,
        BootStep::ConfigurePins,
        BootStep::LaunchCore1,
        BootStep::BuildPlatform,
        BootStep::LoadProcesses,
        BootStep::Handshake,
        BootStep::LookupRomFns,
        BootStep::ParkTest,
        BootStep::WriteTest,
        BootStep::DrainKernel,
        BootStep::KernelLoop,
    ]
}

impl BootStep {
    /// The stage that follows this one in [`boot_order`].
    pub open spec fn successor(self) -> BootStep {
        let i = boot_order().index_of(self);
        if i + 1 < boot_order().len() {
            boot_order()[i + 1]
        } else {
            self
        }
    }

    /// The first stage.
    pub fn first() -> (step: BootStep)
        ensures
            step == boot_order()[0],
    {
        BootStep::InitChip
    }

    /// The next stage.
    pub fn next(self) -> (step: BootStep)
        ensures
            step == self.successor(),
    {
        proof {
            lemma_stage_indices(self);
        }
        match self {
            BootStep::InitChip => BootStep::ResetPeripherals,
            BootStep::ResetPeripherals => BootStep::InitClocks,
            BootStep::InitClocks => BootStep::UnresetPeripherals,
            BootStep::UnresetPeripherals => BootStep::ConfigurePins,
            BootStep::ConfigurePins => BootStep::LaunchCore1,
            BootStep::LaunchCore1 => BootStep::BuildPlatform,
            BootStep::BuildPlatform => BootStep::LoadProcesses,
            BootStep::LoadProcesses => BootStep::Handshake,
            BootStep::Handshake => BootStep::LookupRomFns,
            BootStep::LookupRomFns => BootStep::ParkTest,
            BootStep::ParkTest => BootStep::WriteTest,
            BootStep::WriteTest => BootStep::DrainKernel,
            BootStep::DrainKernel => BootStep::KernelLoop,
            BootStep::KernelLoop => BootStep::KernelLoop,
        }
    }
}

/// Every stage is at exactly one place in the order.
proof fn lemma_stage_indices(step: BootStep)
    ensures
        boot_order().contains(step),
        forall|i: int| 0 <= i < boot_order().len() && #[trigger] boot_order()[i] == step ==> boot_order().index_of(step) == i,
{
    let o = boot_order();
    let i: int = match step {
        BootStep::InitChip => 0,
        BootStep::ResetPeripherals => 1,
        BootStep::InitClocks => 2,
        BootStep::UnresetPeripherals => 3,
        BootStep::ConfigurePins => 4,
        BootStep::LaunchCore1 => 5,
        BootStep::BuildPlatform => 6,
        BootStep::LoadProcesses => 7,
        BootStep::Handshake => 8,
        BootStep::LookupRomFns => 9,
        BootStep::ParkTest => 10,
        BootStep::WriteTest => 11,
        BootStep::DrainKernel => 12,
        BootStep::KernelLoop => 13,
    };
    assert(o[i] == step);
}

/// The stage after `n` moves from the first.
pub open spec fn stage_after(n: nat) -> BootStep
    decreases n,
{
    if n == 0 {
        boot_order()[0]
    } else {
        stage_after((n - 1) as nat).successor()
    }
}

/// Start-up goes through every stage once, in order, and then stays in the
/// kernel's main loop: so a stage is reached only after all stages before it.
pub proof fn law_stages_run_in_order(n: nat)
    ensures
        n < boot_order().len() ==> stage_after(n) == boot_order()[n as int],
        n >= boot_order().len() - 1 ==> stage_after(n) == BootStep::KernelLoop,
    decreases n,
{
    if n > 0 {
        law_stages_run_in_order((n - 1) as nat);
        lemma_stage_indices(stage_after((n - 1) as nat));
        if n < boot_order().len() {
            assert(boot_order()[n - 1] == stage_after((n - 1) as nat));
        } else {
            assert(boot_order()[13] == BootStep::KernelLoop);
        }
    }
}

/// `later` relies on what `earlier` has done.
pub open spec fn needs(later: BootStep, earlier: BootStep) -> bool {
    match later {
        BootStep::InitChip => false,
        BootStep::ResetPeripherals => earlier is InitChip,
        BootStep::InitClocks => earlier is ResetPeripherals,
        BootStep::UnresetPeripherals => earlier is ResetPeripherals || earlier is InitClocks,
        BootStep::ConfigurePins => earlier is UnresetPeripherals,
        BootStep::LaunchCore1 => earlier is InitClocks || earlier is ConfigurePins,
        BootStep::BuildPlatform => earlier is ConfigurePins || earlier is LaunchCore1,
        BootStep::LoadProcesses => earlier is BuildPlatform,
        BootStep::Handshake => earlier is LaunchCore1 || earlier is LoadProcesses,
        BootStep::LookupRomFns => earlier is Handshake,
        BootStep::ParkTest => earlier is Handshake || earlier is LookupRomFns,
        BootStep::WriteTest => earlier is LookupRomFns || earlier is ParkTest,
        BootStep::DrainKernel => earlier is BuildPlatform || earlier is WriteTest,
        BootStep::KernelLoop => earlier is LoadProcesses || earlier is DrainKernel,
    }
}

/// Start-up reaches no stage before one that it relies on.
pub proof fn law_stages_have_what_they_need(a: nat, b: nat)
    requires
        needs(stage_after(b), stage_after(a)),
    ensures
        a < b,
{
    law_stages_run_in_order(a);
    law_stages_run_in_order(b);
    let o = boot_order();
    assert(o[13] == BootStep::KernelLoop);
}

/// Moving on from a stage leads to the next one in start-up, also when stages are
/// asked for one by one.
pub proof fn law_next_follows_start_up(n: nat, first: BootStep, step: BootStep)
    requires
        call_ensures(BootStep::first, (), first),
        call_ensures(BootStep::next, (stage_after(n),), step),
    ensures
        first == stage_after(0),
        first is InitChip,
        step == stage_after(n + 1),
        step == stage_after(n) <==> stage_after(n) is KernelLoop,
{
    law_stages_run_in_order(n);
    law_stages_run_in_order(n + 1);
    let o = boot_order();
    assert(o[13] == BootStep::KernelLoop);
    lemma_stage_indices(stage_after(n));
}

} // verus!
