//! Core 0's start-up checks: that core 1 parks and resumes on request, and that
//! flash can be erased and programmed while core 1 is parked.
//!
//! Core 0 asks core 1 to park by setting the park request, may not turn flash off
//! before it has seen core 1's acknowledgement, and may not take core 1 as resumed
//! before the acknowledgement has gone again. Every wait is bounded. So where the
//! park test ended with an acknowledgement that had not gone, the write test does
//! not begin another request. A core 1 that was merely late to acknowledge is
//! asked again.
use vstd::prelude::*;
use crate::flash::FLASH_PAGE_SIZE;
use crate::shared::{Reply, STAGE_RUNNING};

verus! {

/// Number of times a wait looks again before it gives up.
pub const POLL_LIMIT: u32 = 5_000_000;

/// Spin hints for which the park test holds core 1 parked.
pub const HOLD_SPINS: u32 = 200_000;

/// Address at which flash appears in memory.
pub const FLASH_BASE: usize = 0x1000_0000;

/// Offset of the scratch sector in flash.
pub const FLASH_SCRATCH_OFFSET: u32 = 0x0020_0000;

/// Address of the scratch sector in memory.
pub const FLASH_SCRATCH_ADDR: usize = 0x1020_0000;

/// Size of the board's flash chip.
pub const FLASH_CHIP_SIZE: u32 = 0x0040_0000;

/// End of the flash range that holds kernel and processes.
pub const FLASH_IMAGE_END: u32 = 0x0008_0000;

/// Number of bytes of an erased sector that are looked at.
pub const ERASE_CHECK_LEN: usize = 16;

/// What the park test found.
#[derive(Clone, Copy, PartialEq, Eq, Debug)]
pub struct ParkReport {
    /// Core 1 acknowledged the request.
    pub acked: bool,
    /// Core 1's round number at the start of the hold.
    pub round_before_park: u32,
    /// Core 1's round number at the end of the hold.
    pub round_during_park: u32,
    /// Core 1 withdrew its acknowledgement.
    pub released: bool,
    /// Core 1's round number advanced afterwards.
    pub resumed: bool,
}

/// Where the park test stands. `waited` counts the failed looks of a wait.
#[derive(Clone, Copy, PartialEq, Eq, Debug)]
pub enum ParkTestPhase {
    /// Waiting for core 1 to reach its loop.
    WaitStage { waited: u32 },
    /// About to set the park request.
    Request,
    /// Waiting for the acknowledgement.
    WaitAck { waited: u32 },
    /// About to read the acknowledgement for the report.
    CheckAck,
    /// About to read the round number at the start of the hold.
    ReadBefore,
    /// Holding core 1 parked.
    Hold,
    /// About to read the round number at the end of the hold.
    ReadDuring,
    /// About to clear the park request.
    Release,
    /// Waiting for the acknowledgement to go.
    WaitRelease { waited: u32 },
    /// About to read the acknowledgement for the report.
    CheckRelease,
    /// Waiting for the round number to advance.
    WaitResume { waited: u32 },
    /// About to read the round number for the report.
    CheckResume,
    /// The report is complete.
    Finished,
}

/// An action of the park test. `spin_first` asks for a spin hint before the read.
#[derive(Clone, Copy, PartialEq, Eq, Debug)]
pub enum ParkTestAction {
    /// Read core 1's start-up stage.
    LoadStage { spin_first: bool },
    /// Set or clear the park request.
    StoreRequest(bool),
    /// Read core 1's acknowledgement.
    LoadAck { spin_first: bool },
    /// Read core 1's round number.
    LoadRound { spin_first: bool },
    /// Hint a spin this many times.
    Spin { times: u32 },
    /// Nothing is left to do but report.
    Finish,
}

/// The park test.
#[derive(Clone, Copy, PartialEq, Eq, Debug)]
pub struct ParkTest {
    pub phase: ParkTestPhase,
    pub report: ParkReport,
}

impl ParkTest {
    /// `reply` is of the kind that the current action yields.
    pub open spec fn awaits(self, reply: Reply) -> bool {
        match self.phase {
            ParkTestPhase::WaitStage { .. } => reply is Word,
            ParkTestPhase::Request => reply is Done,
            ParkTestPhase::WaitAck { .. } => reply is Flag,
            ParkTestPhase::CheckAck => reply is Flag,
            ParkTestPhase::ReadBefore => reply is Word,
            ParkTestPhase::Hold => reply is Done,
            ParkTestPhase::ReadDuring => reply is Word,
            ParkTestPhase::Release => reply is Done,
            ParkTestPhase::WaitRelease { .. } => reply is Flag,
            ParkTestPhase::CheckRelease => reply is Flag,
            ParkTestPhase::WaitResume { .. } => reply is Word,
            ParkTestPhase::CheckResume => reply is Word,
            ParkTestPhase::Finished => reply is Done,
        }
    }

    /// The current action.
    pub open spec fn action_spec(self) -> ParkTestAction {
        match self.phase {
            ParkTestPhase::WaitStage { waited } => ParkTestAction::LoadStage { spin_first: waited > 0 },
            ParkTestPhase::Request => ParkTestAction::StoreRequest(true),
            ParkTestPhase::WaitAck { waited } => ParkTestAction::LoadAck { spin_first: waited > 0 },
            ParkTestPhase::CheckAck => ParkTestAction::LoadAck { spin_first: false },
            ParkTestPhase::ReadBefore => ParkTestAction::LoadRound { spin_first: false },
            ParkTestPhase::Hold => ParkTestAction::Spin { times: HOLD_SPINS },
            ParkTestPhase::ReadDuring => ParkTestAction::LoadRound { spin_first: false },
            ParkTestPhase::Release => ParkTestAction::StoreRequest(false),
            ParkTestPhase::WaitRelease { waited } => ParkTestAction::LoadAck { spin_first: waited > 0 },
            ParkTestPhase::CheckRelease => ParkTestAction::LoadAck { spin_first: false },
            ParkTestPhase::WaitResume { waited } => ParkTestAction::LoadRound { spin_first: waited > 0 },
            ParkTestPhase::CheckResume => ParkTestAction::LoadRound { spin_first: false },
            ParkTestPhase::Finished => ParkTestAction::Finish,
        }
    }

    /// The phase after the current action yielded `reply`. A wait goes on while
    /// its condition is not met and its bound is not reached.
    pub open spec fn next_phase(self, reply: Reply) -> ParkTestPhase {
        match self.phase {
            ParkTestPhase::WaitStage { waited } => if reply != Reply::Word(STAGE_RUNNING) && waited < POLL_LIMIT {
                ParkTestPhase::WaitStage { waited: (waited + 1) as u32 }
            } else {
                ParkTestPhase::Request
            },
            ParkTestPhase::Request => ParkTestPhase::WaitAck { waited: 0 },
            ParkTestPhase::WaitAck { waited } => if reply == Reply::Flag(false) && waited < POLL_LIMIT {
                ParkTestPhase::WaitAck { waited: (waited + 1) as u32 }
            } else {
                ParkTestPhase::CheckAck
            },
            ParkTestPhase::CheckAck => ParkTestPhase::ReadBefore,
            ParkTestPhase::ReadBefore => ParkTestPhase::Hold,
            ParkTestPhase::Hold => ParkTestPhase::ReadDuring,
            ParkTestPhase::ReadDuring => ParkTestPhase::Release,
            ParkTestPhase::Release => ParkTestPhase::WaitRelease { waited: 0 },
            ParkTestPhase::WaitRelease { waited } => if reply == Reply::Flag(true) && waited < POLL_LIMIT {
                ParkTestPhase::WaitRelease { waited: (waited + 1) as u32 }
            } else {
                ParkTestPhase::CheckRelease
            },
            ParkTestPhase::CheckRelease => ParkTestPhase::WaitResume { waited: 0 },
            ParkTestPhase::WaitResume { waited } => if reply->Word_0 <= self.report.round_during_park && waited
                < POLL_LIMIT {
                ParkTestPhase::WaitResume { waited: (waited + 1) as u32 }
            } else {
                ParkTestPhase::CheckResume
            },
            ParkTestPhase::CheckResume => ParkTestPhase::Finished,
            ParkTestPhase::Finished => ParkTestPhase::Finished,
        }
    }

    /// The report after the current action yielded `reply`: each finding comes
    /// from one read of its own.
    pub open spec fn next_report(self, reply: Reply) -> ParkReport {
        match self.phase {
            ParkTestPhase::CheckAck => ParkReport { acked: reply->Flag_0, ..self.report },
            ParkTestPhase::ReadBefore => ParkReport { round_before_park: reply->Word_0, ..self.report },
            ParkTestPhase::ReadDuring => ParkReport { round_during_park: reply->Word_0, ..self.report },
            ParkTestPhase::CheckRelease => ParkReport { released: !reply->Flag_0, ..self.report },
            ParkTestPhase::CheckResume => ParkReport {
                resumed: reply->Word_0 > self.report.round_during_park,
                ..self.report
            },
            _ => self.report,
        }
    }

    /// The test after the current action yielded `reply`.
    pub open spec fn next(self, reply: Reply) -> ParkTest {
        ParkTest { phase: self.next_phase(reply), report: self.next_report(reply) }
    }

    /// The test as it starts.
    pub open spec fn initial() -> ParkTest {
        ParkTest {
            phase: ParkTestPhase::WaitStage { waited: 0 },
            report: ParkReport {
                acked: false,
                round_before_park: 0,
                round_during_park: 0,
                released: false,
                resumed: false,
            },
        }
    }

    /// Starts the test.
    pub fn new() -> (test: Self)
        ensures
            test == ParkTest::initial(),
    {
        ParkTest {
            phase: ParkTestPhase::WaitStage { waited: 0 },
            report: ParkReport {
                acked: false,
                round_before_park: 0,
                round_during_park: 0,
                released: false,
                resumed: false,
            },
        }
    }

    /// The action to perform now.
    pub fn action(&self) -> (action: ParkTestAction)
        ensures
            action == self.action_spec(),
    {
        match self.phase {
            ParkTestPhase::WaitStage { waited } => ParkTestAction::LoadStage { spin_first: waited > 0 },
            ParkTestPhase::Request => ParkTestAction::StoreRequest(true),
            ParkTestPhase::WaitAck { waited } => ParkTestAction::LoadAck { spin_first: waited > 0 },
            ParkTestPhase::CheckAck => ParkTestAction::LoadAck { spin_first: false },
            ParkTestPhase::ReadBefore => ParkTestAction::LoadRound { spin_first: false },
            ParkTestPhase::Hold => ParkTestAction::Spin { times: HOLD_SPINS },
            ParkTestPhase::ReadDuring => ParkTestAction::LoadRound { spin_first: false },
            ParkTestPhase::Release => ParkTestAction::StoreRequest(false),
            ParkTestPhase::WaitRelease { waited } => ParkTestAction::LoadAck { spin_first: waited > 0 },
            ParkTestPhase::CheckRelease => ParkTestAction::LoadAck { spin_first: false },
            ParkTestPhase::WaitResume { waited } => ParkTestAction::LoadRound { spin_first: waited > 0 },
            ParkTestPhase::CheckResume => ParkTestAction::LoadRound { spin_first: false },
            ParkTestPhase::Finished => ParkTestAction::Finish,
        }
    }

    /// Takes the result of the current action and moves on.
    pub fn step(&mut self, reply: Reply) -> (action: ParkTestAction)
        requires
            old(self).awaits(reply),
        ensures
            *final(self) == old(self).next(reply),
            action == final(self).action_spec(),
    {
        match (self.phase, reply) {
            (ParkTestPhase::WaitStage { waited }, Reply::Word(stage)) => {
                if stage != STAGE_RUNNING && waited < POLL_LIMIT {
                    self.phase = ParkTestPhase::WaitStage { waited: waited + 1 };
                } else {
                    self.phase = ParkTestPhase::Request;
                }
            },
            (ParkTestPhase::Request, _) => {
                self.phase = ParkTestPhase::WaitAck { waited: 0 };
            },
            (ParkTestPhase::WaitAck { waited }, Reply::Flag(ack)) => {
                if !ack && waited < POLL_LIMIT {
                    self.phase = ParkTestPhase::WaitAck { waited: waited + 1 };
                } else {
                    self.phase = ParkTestPhase::CheckAck;
                }
            },
            (ParkTestPhase::CheckAck, Reply::Flag(ack)) => {
                self.report.acked = ack;
                self.phase = ParkTestPhase::ReadBefore;
            },
            (ParkTestPhase::ReadBefore, Reply::Word(round)) => {
                self.report.round_before_park = round;
                self.phase = ParkTestPhase::Hold;
            },
            (ParkTestPhase::Hold, _) => {
                self.phase = ParkTestPhase::ReadDuring;
            },
            (ParkTestPhase::ReadDuring, Reply::Word(round)) => {
                self.report.round_during_park = round;
                self.phase = ParkTestPhase::Release;
            },
            (ParkTestPhase::Release, _) => {
                self.phase = ParkTestPhase::WaitRelease { waited: 0 };
            },
            (ParkTestPhase::WaitRelease { waited }, Reply::Flag(ack)) => {
                if ack && waited < POLL_LIMIT {
                    self.phase = ParkTestPhase::WaitRelease { waited: waited + 1 };
                } else {
                    self.phase = ParkTestPhase::CheckRelease;
                }
            },
            (ParkTestPhase::CheckRelease, Reply::Flag(ack)) => {
                self.report.released = !ack;
                self.phase = ParkTestPhase::WaitResume { waited: 0 };
            },
            (ParkTestPhase::WaitResume { waited }, Reply::Word(round)) => {
                if round <= self.report.round_during_park && waited < POLL_LIMIT {
                    self.phase = ParkTestPhase::WaitResume { waited: waited + 1 };
                } else {
                    self.phase = ParkTestPhase::CheckResume;
                }
            },
            (ParkTestPhase::CheckResume, Reply::Word(round)) => {
                self.report.resumed = round > self.report.round_during_park;
                self.phase = ParkTestPhase::Finished;
            },
            _ => {},
        }
        self.action()
    }
}

/// Looks that a wait may still take, the one after the last failed look included.
pub open spec fn looks_left(waited: u32) -> nat {
    if waited < POLL_LIMIT {
        (POLL_LIMIT - waited + 1) as nat
    } else {
        1
    }
}

impl ParkTest {
    /// An upper bound on the number of actions before the test is finished.
    pub open spec fn actions_left(self) -> nat {
        let wait = looks_left(0);
        match self.phase {
            ParkTestPhase::WaitStage { waited } => looks_left(waited) + 1 + wait + 5 + wait + 1 + wait + 1,
            ParkTestPhase::Request => 1 + wait + 5 + wait + 1 + wait + 1,
            ParkTestPhase::WaitAck { waited } => looks_left(waited) + 5 + wait + 1 + wait + 1,
            ParkTestPhase::CheckAck => 5 + wait + 1 + wait + 1,
            ParkTestPhase::ReadBefore => 4 + wait + 1 + wait + 1,
            ParkTestPhase::Hold => 3 + wait + 1 + wait + 1,
            ParkTestPhase::ReadDuring => 2 + wait + 1 + wait + 1,
            ParkTestPhase::Release => 1 + wait + 1 + wait + 1,
            ParkTestPhase::WaitRelease { waited } => looks_left(waited) + 1 + wait + 1,
            ParkTestPhase::CheckRelease => 1 + wait + 1,
            ParkTestPhase::WaitResume { waited } => looks_left(waited) + 1,
            ParkTestPhase::CheckResume => 1,
            ParkTestPhase::Finished => 0,
        }
    }
}

/// The park test ends whatever core 1 does: every action brings it closer to its
/// end, which is at most four full waits and eight actions away at the start.
pub proof fn law_park_test_is_bounded(test: ParkTest, reply: Reply)
    requires
        test.awaits(reply),
    ensures
        !(test.phase is Finished) ==> test.next(reply).actions_left() < test.actions_left(),
        ParkTest::initial().actions_left() == 4 * (POLL_LIMIT + 1) + 8,
{
}

/// What the write test found.
#[derive(Clone, Copy, PartialEq, Eq, Debug)]
pub struct WriteReport {
    /// Core 1 acknowledged the request; without that, nothing was written.
    pub parked: bool,
    /// The start of the sector read back as erased.
    pub erase_ok: bool,
    /// The page read back as programmed.
    pub program_ok: bool,
    /// Core 1 withdrew its acknowledgement.
    pub released: bool,
}

/// Where the write test stands. `waited` counts the failed looks of a wait, `i`
/// the bytes found right.
#[derive(Clone, Copy, PartialEq, Eq, Debug)]
pub enum WriteTestPhase {
    /// About to copy boot2 to RAM.
    CopyBoot2,
    /// About to set the park request.
    Request,
    /// Waiting for the acknowledgement.
    WaitAck { waited: u32 },
    /// About to read the acknowledgement that decides.
    CheckAck,
    /// About to erase the scratch sector.
    Erase,
    /// About to look at byte `i` of the erased sector.
    VerifyErase { i: usize },
    /// About to program the scratch page.
    Program,
    /// About to look at byte `i` of the programmed page.
    VerifyProgram { i: usize },
    /// About to clear the park request.
    Release,
    /// Waiting for the acknowledgement to go.
    WaitRelease { waited: u32 },
    /// About to read the acknowledgement for the report.
    CheckRelease,
    /// The report is complete.
    Finished,
}

/// An action of the write test. `spin_first` asks for a spin hint before the read.
#[derive(Clone, Copy, PartialEq, Eq, Debug)]
pub enum WriteTestAction {
    /// Copy boot2 to RAM if that has not been done.
    InitBoot2RamCopy,
    /// Set or clear the park request.
    StoreRequest(bool),
    /// Read core 1's acknowledgement.
    LoadAck { spin_first: bool },
    /// Erase the sector at this offset.
    EraseSector { offset: u32 },
    /// Program the test pattern at this offset.
    ProgramPattern { offset: u32 },
    /// Read the byte at this address.
    ReadByte { addr: usize },
    /// Nothing is left to do but report.
    Finish,
}

/// The write test.
#[derive(Clone, Copy, PartialEq, Eq, Debug)]
pub struct WriteTest {
    pub phase: WriteTestPhase,
    pub report: WriteReport,
}

/// The page that the write test programs: the bytes from zero up.
pub open spec fn pattern_bytes() -> Seq<u8> {
    Seq::new(FLASH_PAGE_SIZE as nat, |i: int| i as u8)
}

/// The page that the write test programs.
pub fn test_pattern() -> (pattern: [u8; FLASH_PAGE_SIZE])
    ensures
        pattern@ == pattern_bytes(),
{
    let mut pattern: [u8; FLASH_PAGE_SIZE] = [0u8; FLASH_PAGE_SIZE];
    let mut i: usize = 0;
    while i < FLASH_PAGE_SIZE
        invariant
            i <= FLASH_PAGE_SIZE,
            forall|k: int| 0 <= k < i ==> pattern@[k] == k,
        decreases FLASH_PAGE_SIZE - i,
    {
        pattern[i] = i as u8;
        i += 1;
    }
    assert(pattern@ =~= pattern_bytes());
    pattern
}

impl WriteTest {
    /// The byte counter is inside the range that is looked at.
    pub open spec fn wf(self) -> bool {
        match self.phase {
            WriteTestPhase::VerifyErase { i } => i < ERASE_CHECK_LEN,
            WriteTestPhase::VerifyProgram { i } => i < FLASH_PAGE_SIZE,
            _ => true,
        }
    }

    /// Core 0 counts on core 1 being parked: it has decided to write and has not
    /// yet cleared its request.
    pub open spec fn writing(self) -> bool {
        match self.phase {
            WriteTestPhase::Erase => true,
            WriteTestPhase::VerifyErase { .. } => true,
            WriteTestPhase::Program => true,
            WriteTestPhase::VerifyProgram { .. } => true,
            _ => false,
        }
    }

    /// `reply` is of the kind that the current action yields.
    pub open spec fn awaits(self, reply: Reply) -> bool {
        match self.phase {
            WriteTestPhase::WaitAck { .. } => reply is Flag,
            WriteTestPhase::CheckAck => reply is Flag,
            WriteTestPhase::VerifyErase { .. } => reply is Byte,
            WriteTestPhase::VerifyProgram { .. } => reply is Byte,
            WriteTestPhase::WaitRelease { .. } => reply is Flag,
            WriteTestPhase::CheckRelease => reply is Flag,
            _ => reply is Done,
        }
    }

    /// The current action.
    pub open spec fn action_spec(self) -> WriteTestAction {
        match self.phase {
            WriteTestPhase::CopyBoot2 => WriteTestAction::InitBoot2RamCopy,
            WriteTestPhase::Request => WriteTestAction::StoreRequest(true),
            WriteTestPhase::WaitAck { waited } => WriteTestAction::LoadAck { spin_first: waited > 0 },
            WriteTestPhase::CheckAck => WriteTestAction::LoadAck { spin_first: false },
            WriteTestPhase::Erase => WriteTestAction::EraseSector { offset: FLASH_SCRATCH_OFFSET },
            WriteTestPhase::VerifyErase { i } => WriteTestAction::ReadByte { addr: (FLASH_SCRATCH_ADDR + i) as usize },
            WriteTestPhase::Program => WriteTestAction::ProgramPattern { offset: FLASH_SCRATCH_OFFSET },
            WriteTestPhase::VerifyProgram { i } => WriteTestAction::ReadByte {
                addr: (FLASH_SCRATCH_ADDR + i) as usize,
            },
            WriteTestPhase::Release => WriteTestAction::StoreRequest(false),
            WriteTestPhase::WaitRelease { waited } => WriteTestAction::LoadAck { spin_first: waited > 0 },
            WriteTestPhase::CheckRelease => WriteTestAction::LoadAck { spin_first: false },
            WriteTestPhase::Finished => WriteTestAction::Finish,
        }
    }

    /// The phase after the current action yielded `reply`. Nothing is written
    /// unless the deciding read saw the acknowledgement, and a comparison stops
    /// at the first byte that is not as expected.
    pub open spec fn next_phase(self, reply: Reply) -> WriteTestPhase {
        match self.phase {
            WriteTestPhase::CopyBoot2 => WriteTestPhase::Request,
            WriteTestPhase::Request => WriteTestPhase::WaitAck { waited: 0 },
            WriteTestPhase::WaitAck { waited } => if reply == Reply::Flag(false) && waited < POLL_LIMIT {
                WriteTestPhase::WaitAck { waited: (waited + 1) as u32 }
            } else {
                WriteTestPhase::CheckAck
            },
            WriteTestPhase::CheckAck => if reply == Reply::Flag(true) {
                WriteTestPhase::Erase
            } else {
                WriteTestPhase::Release
            },
            WriteTestPhase::Erase => WriteTestPhase::VerifyErase { i: 0 },
            WriteTestPhase::VerifyErase { i } => if reply == Reply::Byte(0xFF) && i + 1 < ERASE_CHECK_LEN {
                WriteTestPhase::VerifyErase { i: (i + 1) as usize }
            } else {
                WriteTestPhase::Program
            },
            WriteTestPhase::Program => WriteTestPhase::VerifyProgram { i: 0 },
            WriteTestPhase::VerifyProgram { i } => if reply == Reply::Byte(i as u8) && i + 1 < FLASH_PAGE_SIZE {
                WriteTestPhase::VerifyProgram { i: (i + 1) as usize }
            } else {
                WriteTestPhase::Release
            },
            WriteTestPhase::Release => WriteTestPhase::WaitRelease { waited: 0 },
            WriteTestPhase::WaitRelease { waited } => if reply == Reply::Flag(true) && waited < POLL_LIMIT {
                WriteTestPhase::WaitRelease { waited: (waited + 1) as u32 }
            } else {
                WriteTestPhase::CheckRelease
            },
            WriteTestPhase::CheckRelease => WriteTestPhase::Finished,
            WriteTestPhase::Finished => WriteTestPhase::Finished,
        }
    }

    /// The report after the current action yielded `reply`.
    pub open spec fn next_report(self, reply: Reply) -> WriteReport {
        match self.phase {
            WriteTestPhase::CheckAck => WriteReport { parked: reply->Flag_0, ..self.report },
            WriteTestPhase::VerifyErase { i } => WriteReport {
                erase_ok: reply == Reply::Byte(0xFF) && i + 1 == ERASE_CHECK_LEN,
                ..self.report
            },
            WriteTestPhase::VerifyProgram { i } => WriteReport {
                program_ok: reply == Reply::Byte(i as u8) && i + 1 == FLASH_PAGE_SIZE,
                ..self.report
            },
            WriteTestPhase::CheckRelease => WriteReport { released: !reply->Flag_0, ..self.report },
            _ => self.report,
        }
    }

    /// The test after the current action yielded `reply`.
    pub open spec fn next(self, reply: Reply) -> WriteTest {
        WriteTest { phase: self.next_phase(reply), report: self.next_report(reply) }
    }

    /// The test as it starts.
    pub open spec fn initial() -> WriteTest {
        WriteTest {
            phase: WriteTestPhase::CopyBoot2,
            report: WriteReport { parked: false, erase_ok: false, program_ok: false, released: false },
        }
    }

    /// Starts the test.
    pub fn new() -> (test: Self)
        ensures
            test == WriteTest::initial(),
            test.wf(),
    {
        WriteTest {
            phase: WriteTestPhase::CopyBoot2,
            report: WriteReport { parked: false, erase_ok: false, program_ok: false, released: false },
        }
    }

    /// The write test may touch flash: the boot-ROM routines are resolved, and the
    /// park test did not end with core 1's acknowledgement still standing.
    pub open spec fn permitted(rom_resolved: bool, park: ParkReport) -> bool {
        rom_resolved && park.released
    }

    /// The test as it begins after those checks. Where they do not permit it, all
    /// that is left is to report whether the acknowledgement is gone.
    pub open spec fn begun(rom_resolved: bool, park: ParkReport) -> WriteTest {
        if WriteTest::permitted(rom_resolved, park) {
            WriteTest::initial()
        } else {
            WriteTest { phase: WriteTestPhase::CheckRelease, ..WriteTest::initial() }
        }
    }

    /// Begins the test after the boot-ROM lookup and the park test, and refuses to
    /// touch flash if a routine is missing or the park test's acknowledgement has
    /// not gone.
    pub fn begin(rom_resolved: bool, park: &ParkReport) -> (test: Self)
        ensures
            test == WriteTest::begun(rom_resolved, *park),
            test.wf(),
            test.honest(),
    {
        let mut test = WriteTest::new();
        if !(rom_resolved && park.released) {
            test.phase = WriteTestPhase::CheckRelease;
        }
        test
    }

    /// The action to perform now.
    pub fn action(&self) -> (action: WriteTestAction)
        requires
            self.wf(),
        ensures
            action == self.action_spec(),
    {
        match self.phase {
            WriteTestPhase::CopyBoot2 => WriteTestAction::InitBoot2RamCopy,
            WriteTestPhase::Request => WriteTestAction::StoreRequest(true),
            WriteTestPhase::WaitAck { waited } => WriteTestAction::LoadAck { spin_first: waited > 0 },
            WriteTestPhase::CheckAck => WriteTestAction::LoadAck { spin_first: false },
            WriteTestPhase::Erase => WriteTestAction::EraseSector { offset: FLASH_SCRATCH_OFFSET },
            WriteTestPhase::VerifyErase { i } => WriteTestAction::ReadByte { addr: FLASH_SCRATCH_ADDR + i },
            WriteTestPhase::Program => WriteTestAction::ProgramPattern { offset: FLASH_SCRATCH_OFFSET },
            WriteTestPhase::VerifyProgram { i } => WriteTestAction::ReadByte { addr: FLASH_SCRATCH_ADDR + i },
            WriteTestPhase::Release => WriteTestAction::StoreRequest(false),
            WriteTestPhase::WaitRelease { waited } => WriteTestAction::LoadAck { spin_first: waited > 0 },
            WriteTestPhase::CheckRelease => WriteTestAction::LoadAck { spin_first: false },
            WriteTestPhase::Finished => WriteTestAction::Finish,
        }
    }

    /// Takes the result of the current action and moves on.
    pub fn step(&mut self, reply: Reply) -> (action: WriteTestAction)
        requires
            old(self).wf(),
            old(self).awaits(reply),
        ensures
            final(self).wf(),
            *final(self) == old(self).next(reply),
            action == final(self).action_spec(),
    {
        match (self.phase, reply) {
            (WriteTestPhase::CopyBoot2, _) => {
                self.phase = WriteTestPhase::Request;
            },
            (WriteTestPhase::Request, _) => {
                self.phase = WriteTestPhase::WaitAck { waited: 0 };
            },
            (WriteTestPhase::WaitAck { waited }, Reply::Flag(ack)) => {
                if !ack && waited < POLL_LIMIT {
                    self.phase = WriteTestPhase::WaitAck { waited: waited + 1 };
                } else {
                    self.phase = WriteTestPhase::CheckAck;
                }
            },
            (WriteTestPhase::CheckAck, Reply::Flag(ack)) => {
                self.report.parked = ack;
                if ack {
                    self.phase = WriteTestPhase::Erase;
                } else {
                    self.phase = WriteTestPhase::Release;
                }
            },
            (WriteTestPhase::Erase, _) => {
                self.phase = WriteTestPhase::VerifyErase { i: 0 };
            },
            (WriteTestPhase::VerifyErase { i }, Reply::Byte(byte)) => {
                self.report.erase_ok = byte == 0xFF && i + 1 == ERASE_CHECK_LEN;
                if byte == 0xFF && i + 1 < ERASE_CHECK_LEN {
                    self.phase = WriteTestPhase::VerifyErase { i: i + 1 };
                } else {
                    self.phase = WriteTestPhase::Program;
                }
            },
            (WriteTestPhase::Program, _) => {
                self.phase = WriteTestPhase::VerifyProgram { i: 0 };
            },
            (WriteTestPhase::VerifyProgram { i }, Reply::Byte(byte)) => {
                self.report.program_ok = byte == i as u8 && i + 1 == FLASH_PAGE_SIZE;
                if byte == i as u8 && i + 1 < FLASH_PAGE_SIZE {
                    self.phase = WriteTestPhase::VerifyProgram { i: i + 1 };
                } else {
                    self.phase = WriteTestPhase::Release;
                }
            },
            (WriteTestPhase::Release, _) => {
                self.phase = WriteTestPhase::WaitRelease { waited: 0 };
            },
            (WriteTestPhase::WaitRelease { waited }, Reply::Flag(ack)) => {
                if ack && waited < POLL_LIMIT {
                    self.phase = WriteTestPhase::WaitRelease { waited: waited + 1 };
                } else {
                    self.phase = WriteTestPhase::CheckRelease;
                }
            },
            (WriteTestPhase::CheckRelease, Reply::Flag(ack)) => {
                self.report.released = !ack;
                self.phase = WriteTestPhase::Finished;
            },
            _ => {},
        }
        self.action()
    }

    /// An upper bound on the number of actions before the test is finished.
    pub open spec fn actions_left(self) -> nat {
        let wait = looks_left(0);
        let bytes = ERASE_CHECK_LEN + FLASH_PAGE_SIZE;
        match self.phase {
            WriteTestPhase::CopyBoot2 => (1 + 1 + wait + 1 + 1 + bytes + 1 + 1 + wait + 1) as nat,
            WriteTestPhase::Request => (1 + wait + 1 + 1 + bytes + 1 + 1 + wait + 1) as nat,
            WriteTestPhase::WaitAck { waited } => (looks_left(waited) + 1 + 1 + bytes + 1 + 1 + wait + 1) as nat,
            WriteTestPhase::CheckAck => (1 + 1 + bytes + 1 + 1 + wait + 1) as nat,
            WriteTestPhase::Erase => (1 + bytes + 1 + 1 + wait + 1) as nat,
            WriteTestPhase::VerifyErase { i } => (bytes - i + 1 + 1 + wait + 1) as nat,
            WriteTestPhase::Program => (1 + FLASH_PAGE_SIZE + 1 + wait + 1) as nat,
            WriteTestPhase::VerifyProgram { i } => (FLASH_PAGE_SIZE - i + 1 + wait + 1) as nat,
            WriteTestPhase::Release => (1 + wait + 1) as nat,
            WriteTestPhase::WaitRelease { waited } => (looks_left(waited) + 1) as nat,
            WriteTestPhase::CheckRelease => 1,
            WriteTestPhase::Finished => 0,
        }
    }

    /// The test after it has read `mem` for as long as it wants bytes.
    pub open spec fn against(self, mem: spec_fn(usize) -> u8) -> WriteTest
        decreases (if self.wf() { self.actions_left() } else { 0 }),
    {
        if !self.wf() {
            self
        } else {
            match (self.phase, self.action_spec()) {
                (WriteTestPhase::VerifyErase { i }, WriteTestAction::ReadByte { addr }) => {
                    let after = self.next(Reply::Byte(mem(addr)));
                    if after.phase is VerifyErase { after.against(mem) } else { after }
                },
                (WriteTestPhase::VerifyProgram { i }, WriteTestAction::ReadByte { addr }) => {
                    let after = self.next(Reply::Byte(mem(addr)));
                    if after.phase is VerifyProgram { after.against(mem) } else { after }
                },
                _ => self,
            }
        }
    }
}

/// Byte `k` of the scratch sector in memory `mem`.
pub open spec fn scratch_byte(mem: spec_fn(usize) -> u8, k: int) -> u8 {
    mem((FLASH_SCRATCH_ADDR + k) as usize)
}

/// The write test ends whatever core 1 and the flash do: every action brings it
/// closer to its end.
pub proof fn law_write_test_is_bounded(test: WriteTest, reply: Reply)
    requires
        test.wf(),
        test.awaits(reply),
    ensures
        !(test.phase is Finished) ==> test.next(reply).actions_left() < test.actions_left(),
        WriteTest::initial().actions_left() == 2 * (POLL_LIMIT + 1) + ERASE_CHECK_LEN + FLASH_PAGE_SIZE + 7,
{
}

/// The erase is found right exactly if every byte looked at reads as all ones.
pub proof fn law_erase_check_is_exact(test: WriteTest, mem: spec_fn(usize) -> u8)
    requires
        test.phase == (WriteTestPhase::VerifyErase { i: 0 }),
    ensures
        test.against(mem).phase is Program,
        test.against(mem).report == (WriteReport {
            erase_ok: forall|k: int| 0 <= k < ERASE_CHECK_LEN ==> #[trigger] scratch_byte(mem, k) == 0xFF,
            ..test.report
        }),
{
    lemma_erase_check(test, mem, 0);
}

proof fn lemma_erase_check(test: WriteTest, mem: spec_fn(usize) -> u8, i: usize)
    requires
        test.phase == (WriteTestPhase::VerifyErase { i }),
        i < ERASE_CHECK_LEN,
    ensures
        test.against(mem).phase is Program,
        test.against(mem).report == (WriteReport {
            erase_ok: forall|k: int| i <= k < ERASE_CHECK_LEN ==> #[trigger] scratch_byte(mem, k) == 0xFF,
            ..test.report
        }),
    decreases ERASE_CHECK_LEN - i,
{
    let here = scratch_byte(mem, i as int);
    let after = test.next(Reply::Byte(here));
    if here == 0xFF && i + 1 < ERASE_CHECK_LEN {
        lemma_erase_check(after, mem, (i + 1) as usize);
    }
}

/// The programming is found right exactly if the whole page reads as the pattern.
pub proof fn law_program_check_is_exact(test: WriteTest, mem: spec_fn(usize) -> u8)
    requires
        test.phase == (WriteTestPhase::VerifyProgram { i: 0 }),
    ensures
        test.against(mem).phase is Release,
        test.against(mem).report == (WriteReport {
            program_ok: forall|k: int| 0 <= k < FLASH_PAGE_SIZE ==> #[trigger] scratch_byte(mem, k) == k,
            ..test.report
        }),
{
    lemma_program_check(test, mem, 0);
}

proof fn lemma_program_check(test: WriteTest, mem: spec_fn(usize) -> u8, i: usize)
    requires
        test.phase == (WriteTestPhase::VerifyProgram { i }),
        i < FLASH_PAGE_SIZE,
    ensures
        test.against(mem).phase is Release,
        test.against(mem).report == (WriteReport {
            program_ok: forall|k: int| i <= k < FLASH_PAGE_SIZE ==> #[trigger] scratch_byte(mem, k) == k,
            ..test.report
        }),
    decreases FLASH_PAGE_SIZE - i,
{
    let here = scratch_byte(mem, i as int);
    let after = test.next(Reply::Byte(here));
    if here == i && i + 1 < FLASH_PAGE_SIZE {
        lemma_program_check(after, mem, (i + 1) as usize);
    }
}

impl WriteTest {
    /// The report says no more than what happened: writing goes with an
    /// acknowledged request, and without one neither erase nor program is
    /// reported right.
    pub open spec fn honest(self) -> bool {
        let decided = !(self.phase is CopyBoot2 || self.phase is Request || self.phase is WaitAck
            || self.phase is CheckAck);
        &&& self.writing() ==> self.report.parked
        &&& self.report.parked ==> decided
        &&& !self.report.parked ==> !self.report.erase_ok && !self.report.program_ok
    }
}

/// Flash is written only once core 1 has acknowledged; if it has not, the test
/// goes straight to clearing its request, and reports neither erase nor program.
pub proof fn law_nothing_is_written_unparked(test: WriteTest, reply: Reply)
    requires
        test.honest(),
        test.awaits(reply),
    ensures
        WriteTest::initial().honest(),
        test.next(reply).honest(),
        test.phase is CheckAck && reply == Reply::Flag(false) ==> test.next(reply).action_spec()
            == WriteTestAction::StoreRequest(false),
{
}

/// A write test that is not permitted neither requests anything nor touches flash:
/// it makes one read of the acknowledgement and ends.
pub proof fn law_refused_write_test_does_nothing(rom_resolved: bool, park: ParkReport, ack: bool)
    requires
        !WriteTest::permitted(rom_resolved, park),
    ensures
        WriteTest::begun(rom_resolved, park).action_spec() == (WriteTestAction::LoadAck { spin_first: false }),
        WriteTest::begun(rom_resolved, park).next(Reply::Flag(ack)) == (WriteTest {
            phase: WriteTestPhase::Finished,
            report: WriteReport { parked: false, erase_ok: false, program_ok: false, released: !ack },
        }),
{
}

/// Whatever state the write test is in, what it erases or programs is a range of
/// its scratch sector, which is aligned, more than 1 MiB past the kernel and the
/// processes, and 1.75 MiB clear of the top of the chip.
pub proof fn law_writes_stay_in_scratch_sector(test: WriteTest)
    ensures
        match test.action_spec() {
            WriteTestAction::EraseSector { offset } => {
                &&& offset % crate::flash::FLASH_SECTOR_SIZE == 0
                &&& FLASH_IMAGE_END + 0x10_0000 < offset
                &&& offset + crate::flash::FLASH_SECTOR_SIZE + 0x1c_0000 <= FLASH_CHIP_SIZE
            },
            WriteTestAction::ProgramPattern { offset } => {
                &&& FLASH_SCRATCH_OFFSET <= offset
                &&& offset + FLASH_PAGE_SIZE <= FLASH_SCRATCH_OFFSET + crate::flash::FLASH_SECTOR_SIZE
            },
            _ => true,
        },
{
}

/// Replies that report the counter values `looks`.
pub open spec fn words_read(looks: Seq<u32>) -> Seq<Reply> {
    Seq::new(looks.len(), |i: int| Reply::Word(looks[i]))
}

/// Replies that report the flags `looks`.
pub open spec fn flags_read(looks: Seq<bool>) -> Seq<Reply> {
    Seq::new(looks.len(), |i: int| Reply::Flag(looks[i]))
}

/// Replies that report the bytes `looks`.
pub open spec fn bytes_read(looks: Seq<u8>) -> Seq<Reply> {
    Seq::new(looks.len(), |i: int| Reply::Byte(looks[i]))
}

/// `met` are the looks of one bounded wait, each saying whether what is waited for
/// was there: the wait ends with the first look that finds it, and otherwise after
/// five million looks and one more.
pub open spec fn is_bounded_wait(met: Seq<bool>) -> bool {
    &&& 1 <= met.len() <= 5_000_001
    &&& forall|i: int| 0 <= i < met.len() - 1 ==> !#[trigger] met[i]
    &&& met.last() || met.len() == 5_000_001
}

impl ParkTest {
    /// The test after its actions yielded `replies` in order.
    pub open spec fn run(self, replies: Seq<Reply>) -> ParkTest
        decreases replies.len(),
    {
        if replies.len() == 0 {
            self
        } else {
            self.next(replies[0]).run(replies.drop_first())
        }
    }

    /// The actions that yield `replies`.
    pub open spec fn actions(self, replies: Seq<Reply>) -> Seq<ParkTestAction>
        decreases replies.len(),
    {
        if replies.len() == 0 {
            Seq::empty()
        } else {
            seq![self.action_spec()] + self.next(replies[0]).actions(replies.drop_first())
        }
    }

    /// `replies` are each of the kind that the action before it yields.
    pub open spec fn awaits_all(self, replies: Seq<Reply>) -> bool
        decreases replies.len(),
    {
        replies.len() == 0 || (self.awaits(replies[0]) && self.next(replies[0]).awaits_all(replies.drop_first()))
    }

    /// Over `replies` the test performs `actions` and comes to `end`.
    #[verifier::opaque]
    pub open spec fn goes(self, replies: Seq<Reply>, actions: Seq<ParkTestAction>, end: ParkTest) -> bool {
        self.awaits_all(replies) && self.actions(replies) == actions && self.run(replies) == end
    }
}

proof fn lemma_park_then(
    test: ParkTest,
    r1: Seq<Reply>,
    a1: Seq<ParkTestAction>,
    mid: ParkTest,
    r2: Seq<Reply>,
    a2: Seq<ParkTestAction>,
    end: ParkTest,
)
    requires
        test.goes(r1, a1, mid),
        mid.goes(r2, a2, end),
    ensures
        test.goes(r1 + r2, a1 + a2, end),
    decreases r1.len(),
{
    reveal(ParkTest::goes);
    if r1.len() == 0 {
        assert(r1 + r2 =~= r2);
        assert(a1 + a2 =~= a2);
    } else {
        let next = test.next(r1[0]);
        let rest = r1.drop_first();
        lemma_park_then(next, rest, next.actions(rest), mid, r2, a2, end);
        assert((r1 + r2).drop_first() =~= rest + r2);
        assert(test.actions(r1 + r2) =~= a1 + a2);
    }
}

proof fn lemma_park_one(test: ParkTest, reply: Reply)
    requires
        test.awaits(reply),
    ensures
        test.goes(seq![reply], seq![test.action_spec()], test.next(reply)),
{
    reveal(ParkTest::goes);
    reveal_with_fuel(ParkTest::run, 2);
    reveal_with_fuel(ParkTest::actions, 2);
    reveal_with_fuel(ParkTest::awaits_all, 2);
    assert(seq![reply].drop_first().len() == 0);
    assert(test.actions(seq![reply]) =~= seq![test.action_spec()]);
}

proof fn lemma_park_wait_stage(test: ParkTest, waited: u32, looks: Seq<u32>)
    requires
        test.phase == (ParkTestPhase::WaitStage { waited }),
        1 <= looks.len(),
        waited + looks.len() <= 5_000_001,
        forall|i: int| 0 <= i < looks.len() - 1 ==> !(#[trigger] looks[i] == 3),
        looks.last() == 3 || waited + looks.len() == 5_000_001,
    ensures
        test.goes(
            words_read(looks),
            Seq::new(looks.len(), |i: int| ParkTestAction::LoadStage { spin_first: waited + i > 0 }),
            ParkTest { phase: ParkTestPhase::Request, ..test },
        ),
    decreases looks.len(),
{
    let replies = words_read(looks);
    let actions = Seq::new(looks.len(), |i: int| ParkTestAction::LoadStage { spin_first: waited + i > 0 });
    lemma_park_one(test, replies[0]);
    if looks.len() == 1 {
        assert(replies =~= seq![replies[0]]);
        assert(actions =~= seq![test.action_spec()]);
    } else {
        let next = test.next(replies[0]);
        let rest = looks.drop_first();
        assert(rest.last() == looks.last());
        assert forall|i: int| 0 <= i < rest.len() - 1 implies !(#[trigger] rest[i] == 3) by {
            assert(rest[i] == looks[i + 1]);
        }
        assert(!(looks[0] == 3));
        lemma_park_wait_stage(next, (waited + 1) as u32, rest);
        let rest_actions = Seq::new(rest.len(), |i: int| ParkTestAction::LoadStage { spin_first: waited + 1 + i > 0 });
        assert(rest_actions =~= Seq::new(rest.len(), |i: int| ParkTestAction::LoadStage { spin_first: (waited + 1) as u32 + i > 0 }));
        lemma_park_then(
            test,
            seq![replies[0]],
            seq![test.action_spec()],
            next,
            words_read(rest),
            rest_actions,
            ParkTest { phase: ParkTestPhase::Request, ..test },
        );
        assert(seq![replies[0]] + words_read(rest) =~= replies);
        assert(seq![test.action_spec()] + rest_actions =~= actions);
    }
}

proof fn lemma_park_wait_ack(test: ParkTest, waited: u32, looks: Seq<bool>)
    requires
        test.phase == (ParkTestPhase::WaitAck { waited }),
        1 <= looks.len(),
        waited + looks.len() <= 5_000_001,
        forall|i: int| 0 <= i < looks.len() - 1 ==> !(#[trigger] looks[i]),
        looks.last() || waited + looks.len() == 5_000_001,
    ensures
        test.goes(
            flags_read(looks),
            Seq::new(looks.len(), |i: int| ParkTestAction::LoadAck { spin_first: waited + i > 0 }),
            ParkTest { phase: ParkTestPhase::CheckAck, ..test },
        ),
    decreases looks.len(),
{
    let replies = flags_read(looks);
    let actions = Seq::new(looks.len(), |i: int| ParkTestAction::LoadAck { spin_first: waited + i > 0 });
    lemma_park_one(test, replies[0]);
    if looks.len() == 1 {
        assert(replies =~= seq![replies[0]]);
        assert(actions =~= seq![test.action_spec()]);
    } else {
        let next = test.next(replies[0]);
        let rest = looks.drop_first();
        assert(rest.last() == looks.last());
        assert forall|i: int| 0 <= i < rest.len() - 1 implies !(#[trigger] rest[i]) by {
            assert(rest[i] == looks[i + 1]);
        }
        assert(!(looks[0]));
        lemma_park_wait_ack(next, (waited + 1) as u32, rest);
        let rest_actions = Seq::new(rest.len(), |i: int| ParkTestAction::LoadAck { spin_first: waited + 1 + i > 0 });
        assert(rest_actions =~= Seq::new(rest.len(), |i: int| ParkTestAction::LoadAck { spin_first: (waited + 1) as u32 + i > 0 }));
        lemma_park_then(
            test,
            seq![replies[0]],
            seq![test.action_spec()],
            next,
            flags_read(rest),
            rest_actions,
            ParkTest { phase: ParkTestPhase::CheckAck, ..test },
        );
        assert(seq![replies[0]] + flags_read(rest) =~= replies);
        assert(seq![test.action_spec()] + rest_actions =~= actions);
    }
}

proof fn lemma_park_wait_release(test: ParkTest, waited: u32, looks: Seq<bool>)
    requires
        test.phase == (ParkTestPhase::WaitRelease { waited }),
        1 <= looks.len(),
        waited + looks.len() <= 5_000_001,
        forall|i: int| 0 <= i < looks.len() - 1 ==> !(!(#[trigger] looks[i])),
        !looks.last() || waited + looks.len() == 5_000_001,
    ensures
        test.goes(
            flags_read(looks),
            Seq::new(looks.len(), |i: int| ParkTestAction::LoadAck { spin_first: waited + i > 0 }),
            ParkTest { phase: ParkTestPhase::CheckRelease, ..test },
        ),
    decreases looks.len(),
{
    let replies = flags_read(looks);
    let actions = Seq::new(looks.len(), |i: int| ParkTestAction::LoadAck { spin_first: waited + i > 0 });
    lemma_park_one(test, replies[0]);
    if looks.len() == 1 {
        assert(replies =~= seq![replies[0]]);
        assert(actions =~= seq![test.action_spec()]);
    } else {
        let next = test.next(replies[0]);
        let rest = looks.drop_first();
        assert(rest.last() == looks.last());
        assert forall|i: int| 0 <= i < rest.len() - 1 implies !(!(#[trigger] rest[i])) by {
            assert(rest[i] == looks[i + 1]);
        }
        assert(!(!looks[0]));
        lemma_park_wait_release(next, (waited + 1) as u32, rest);
        let rest_actions = Seq::new(rest.len(), |i: int| ParkTestAction::LoadAck { spin_first: waited + 1 + i > 0 });
        assert(rest_actions =~= Seq::new(rest.len(), |i: int| ParkTestAction::LoadAck { spin_first: (waited + 1) as u32 + i > 0 }));
        lemma_park_then(
            test,
            seq![replies[0]],
            seq![test.action_spec()],
            next,
            flags_read(rest),
            rest_actions,
            ParkTest { phase: ParkTestPhase::CheckRelease, ..test },
        );
        assert(seq![replies[0]] + flags_read(rest) =~= replies);
        assert(seq![test.action_spec()] + rest_actions =~= actions);
    }
}

proof fn lemma_park_wait_resume(test: ParkTest, waited: u32, looks: Seq<u32>)
    requires
        test.phase == (ParkTestPhase::WaitResume { waited }),
        1 <= looks.len(),
        waited + looks.len() <= 5_000_001,
        forall|i: int| 0 <= i < looks.len() - 1 ==> !(#[trigger] looks[i] > test.report.round_during_park),
        looks.last() > test.report.round_during_park || waited + looks.len() == 5_000_001,
    ensures
        test.goes(
            words_read(looks),
            Seq::new(looks.len(), |i: int| ParkTestAction::LoadRound { spin_first: waited + i > 0 }),
            ParkTest { phase: ParkTestPhase::CheckResume, ..test },
        ),
    decreases looks.len(),
{
    let replies = words_read(looks);
    let actions = Seq::new(looks.len(), |i: int| ParkTestAction::LoadRound { spin_first: waited + i > 0 });
    lemma_park_one(test, replies[0]);
    if looks.len() == 1 {
        assert(replies =~= seq![replies[0]]);
        assert(actions =~= seq![test.action_spec()]);
    } else {
        let next = test.next(replies[0]);
        let rest = looks.drop_first();
        assert(rest.last() == looks.last());
        assert forall|i: int| 0 <= i < rest.len() - 1 implies !(#[trigger] rest[i] > test.report.round_during_park) by {
            assert(rest[i] == looks[i + 1]);
        }
        assert(!(looks[0] > test.report.round_during_park));
        lemma_park_wait_resume(next, (waited + 1) as u32, rest);
        let rest_actions = Seq::new(rest.len(), |i: int| ParkTestAction::LoadRound { spin_first: waited + 1 + i > 0 });
        assert(rest_actions =~= Seq::new(rest.len(), |i: int| ParkTestAction::LoadRound { spin_first: (waited + 1) as u32 + i > 0 }));
        lemma_park_then(
            test,
            seq![replies[0]],
            seq![test.action_spec()],
            next,
            words_read(rest),
            rest_actions,
            ParkTest { phase: ParkTestPhase::CheckResume, ..test },
        );
        assert(seq![replies[0]] + words_read(rest) =~= replies);
        assert(seq![test.action_spec()] + rest_actions =~= actions);
    }
}

/// Everything that a park test reads, from its start to its end: the looks of its
/// four waits, and the reads that make up its report.
pub struct ParkReads {
    /// Core 1's stage, until it is 3.
    pub stages: Seq<u32>,
    /// The acknowledgement, until it is set.
    pub acks: Seq<bool>,
    /// The acknowledgement for the report.
    pub ack: bool,
    /// The round number at the start of the hold.
    pub before: u32,
    /// The round number at the end of the hold.
    pub during: u32,
    /// The acknowledgement, until it is clear.
    pub withdrawals: Seq<bool>,
    /// The acknowledgement for the report.
    pub ack_after: bool,
    /// The round number, until it is past that at the end of the hold.
    pub rounds: Seq<u32>,
    /// The round number for the report.
    pub last_round: u32,
}

impl ParkReads {
    /// Each of the four waits goes on for as long as it has to and no longer.
    pub open spec fn complete(self) -> bool {
        &&& is_bounded_wait(Seq::new(self.stages.len(), |i: int| self.stages[i] == 3))
        &&& is_bounded_wait(self.acks)
        &&& is_bounded_wait(Seq::new(self.withdrawals.len(), |i: int| !self.withdrawals[i]))
        &&& is_bounded_wait(Seq::new(self.rounds.len(), |i: int| self.rounds[i] > self.during))
    }

    /// The replies up to the clearing of the request.
    pub open spec fn replies_holding(self) -> Seq<Reply> {
        words_read(self.stages) + (seq![Reply::Done] + (flags_read(self.acks) + seq![
            Reply::Flag(self.ack),
            Reply::Word(self.before),
            Reply::Done,
            Reply::Word(self.during),
            Reply::Done,
        ]))
    }

    /// The replies after the clearing of the request.
    pub open spec fn replies_after(self) -> Seq<Reply> {
        flags_read(self.withdrawals) + (seq![Reply::Flag(self.ack_after)] + (words_read(self.rounds) + seq![
            Reply::Word(self.last_round),
        ]))
    }

    /// All replies in the order in which they come.
    pub open spec fn replies(self) -> Seq<Reply> {
        self.replies_holding() + self.replies_after()
    }

    /// The actions up to the clearing of the request: the waits hint a spin before
    /// every look but the first.
    pub open spec fn actions_holding(self) -> Seq<ParkTestAction> {
        Seq::new(self.stages.len(), |i: int| ParkTestAction::LoadStage { spin_first: i > 0 }) + (seq![
            ParkTestAction::StoreRequest(true),
        ] + (Seq::new(self.acks.len(), |i: int| ParkTestAction::LoadAck { spin_first: i > 0 }) + seq![
            ParkTestAction::LoadAck { spin_first: false },
            ParkTestAction::LoadRound { spin_first: false },
            ParkTestAction::Spin { times: 200_000 },
            ParkTestAction::LoadRound { spin_first: false },
            ParkTestAction::StoreRequest(false),
        ]))
    }

    /// The actions after the clearing of the request.
    pub open spec fn actions_after(self) -> Seq<ParkTestAction> {
        Seq::new(self.withdrawals.len(), |i: int| ParkTestAction::LoadAck { spin_first: i > 0 }) + (seq![
            ParkTestAction::LoadAck { spin_first: false },
        ] + (Seq::new(self.rounds.len(), |i: int| ParkTestAction::LoadRound { spin_first: i > 0 }) + seq![
            ParkTestAction::LoadRound { spin_first: false },
        ]))
    }

    /// All actions in order.
    pub open spec fn actions(self) -> Seq<ParkTestAction> {
        self.actions_holding() + self.actions_after()
    }
}

proof fn lemma_park_holding(test: ParkTest, reads: ParkReads)
    requires
        test == ParkTest::initial(),
        reads.complete(),
    ensures
        test.goes(
            reads.replies_holding(),
            reads.actions_holding(),
            ParkTest {
                phase: ParkTestPhase::WaitRelease { waited: 0 },
                report: ParkReport {
                    acked: reads.ack,
                    round_before_park: reads.before,
                    round_during_park: reads.during,
                    ..test.report
                },
            },
        ),
{
    let met = Seq::new(reads.stages.len(), |i: int| reads.stages[i] == 3);
    assert forall|i: int| 0 <= i < reads.stages.len() - 1 implies !(#[trigger] reads.stages[i] == 3) by {
        assert(!met[i]);
    }
    assert(met.last() == (reads.stages.last() == 3));
    let t1 = ParkTest { phase: ParkTestPhase::Request, ..test };
    let t2 = t1.next(Reply::Done);
    let t3 = ParkTest { phase: ParkTestPhase::CheckAck, ..t2 };
    let u1 = t3.next(Reply::Flag(reads.ack));
    let u2 = u1.next(Reply::Word(reads.before));
    let u3 = u2.next(Reply::Done);
    let u4 = u3.next(Reply::Word(reads.during));
    let t4 = u4.next(Reply::Done);
    let r4 = seq![
        Reply::Flag(reads.ack),
        Reply::Word(reads.before),
        Reply::Done,
        Reply::Word(reads.during),
        Reply::Done,
    ];
    let a4 = seq![
        ParkTestAction::LoadAck { spin_first: false },
        ParkTestAction::LoadRound { spin_first: false },
        ParkTestAction::Spin { times: 200_000 },
        ParkTestAction::LoadRound { spin_first: false },
        ParkTestAction::StoreRequest(false),
    ];
    assert(t3.goes(r4, a4, t4)) by {
        reveal(ParkTest::goes);
        reveal_with_fuel(ParkTest::run, 6);
        reveal_with_fuel(ParkTest::actions, 6);
        reveal_with_fuel(ParkTest::awaits_all, 6);
        let q1 = r4.drop_first();
        let q2 = q1.drop_first();
        let q3 = q2.drop_first();
        let q4 = q3.drop_first();
        assert(q4.drop_first().len() == 0);
        assert(t3.actions(r4) =~= a4);
    }
    let r3 = flags_read(reads.acks);
    let a3 = Seq::new(reads.acks.len(), |i: int| ParkTestAction::LoadAck { spin_first: i > 0 });
    lemma_park_wait_ack(t2, 0, reads.acks);
    assert(Seq::new(reads.acks.len(), |i: int| ParkTestAction::LoadAck { spin_first: 0u32 + i > 0 }) =~= a3);
    lemma_park_then(t2, r3, a3, t3, r4, a4, t4);
    let r2 = seq![Reply::Done];
    let a2 = seq![ParkTestAction::StoreRequest(true)];
    lemma_park_one(t1, Reply::Done);
    lemma_park_then(t1, r2, a2, t2, r3 + r4, a3 + a4, t4);
    let r1 = words_read(reads.stages);
    let a1 = Seq::new(reads.stages.len(), |i: int| ParkTestAction::LoadStage { spin_first: i > 0 });
    lemma_park_wait_stage(test, 0, reads.stages);
    assert(Seq::new(reads.stages.len(), |i: int| ParkTestAction::LoadStage { spin_first: 0u32 + i > 0 }) =~= a1);
    lemma_park_then(test, r1, a1, t1, r2 + (r3 + r4), a2 + (a3 + a4), t4);
}

proof fn lemma_park_after(test: ParkTest, reads: ParkReads)
    requires
        test.phase == (ParkTestPhase::WaitRelease { waited: 0 }),
        test.report.round_during_park == reads.during,
        reads.complete(),
    ensures
        test.goes(
            reads.replies_after(),
            reads.actions_after(),
            ParkTest {
                phase: ParkTestPhase::Finished,
                report: ParkReport {
                    released: !reads.ack_after,
                    resumed: reads.last_round > reads.during,
                    ..test.report
                },
            },
        ),
{
    let met1 = Seq::new(reads.withdrawals.len(), |i: int| !reads.withdrawals[i]);
    let met2 = Seq::new(reads.rounds.len(), |i: int| reads.rounds[i] > reads.during);
    assert forall|i: int| 0 <= i < reads.withdrawals.len() - 1 implies !(!(#[trigger] reads.withdrawals[i])) by {
        assert(!met1[i]);
    }
    assert forall|i: int| 0 <= i < reads.rounds.len() - 1 implies !(#[trigger] reads.rounds[i] > reads.during) by {
        assert(!met2[i]);
    }
    assert(met1.last() == !reads.withdrawals.last());
    assert(met2.last() == (reads.rounds.last() > reads.during));
    let t1 = ParkTest { phase: ParkTestPhase::CheckRelease, ..test };
    let t2 = t1.next(Reply::Flag(reads.ack_after));
    let t3 = ParkTest { phase: ParkTestPhase::CheckResume, ..t2 };
    let t4 = t3.next(Reply::Word(reads.last_round));
    let r4 = seq![Reply::Word(reads.last_round)];
    let a4 = seq![ParkTestAction::LoadRound { spin_first: false }];
    lemma_park_one(t3, Reply::Word(reads.last_round));
    let r3 = words_read(reads.rounds);
    let a3 = Seq::new(reads.rounds.len(), |i: int| ParkTestAction::LoadRound { spin_first: i > 0 });
    lemma_park_wait_resume(t2, 0, reads.rounds);
    assert(Seq::new(reads.rounds.len(), |i: int| ParkTestAction::LoadRound { spin_first: 0u32 + i > 0 }) =~= a3);
    lemma_park_then(t2, r3, a3, t3, r4, a4, t4);
    let r2 = seq![Reply::Flag(reads.ack_after)];
    let a2 = seq![ParkTestAction::LoadAck { spin_first: false }];
    lemma_park_one(t1, Reply::Flag(reads.ack_after));
    lemma_park_then(t1, r2, a2, t2, r3 + r4, a3 + a4, t4);
    let r1 = flags_read(reads.withdrawals);
    let a1 = Seq::new(reads.withdrawals.len(), |i: int| ParkTestAction::LoadAck { spin_first: i > 0 });
    lemma_park_wait_release(test, 0, reads.withdrawals);
    assert(Seq::new(reads.withdrawals.len(), |i: int| ParkTestAction::LoadAck { spin_first: 0u32 + i > 0 }) =~= a1);
    lemma_park_then(test, r1, a1, t1, r2 + (r3 + r4), a2 + (a3 + a4), t4);
}

/// A park test from its start to its end, whatever it reads: it waits for core 1 to
/// be in its loop, sets the request, waits for the acknowledgement, holds core 1,
/// clears the request, waits for the acknowledgement to go and for a later round.
/// It reports the acknowledgement, the two round numbers and the release as read,
/// and that core 1 resumed if and only if the last round number read is greater
/// than the one read at the end of the hold.
pub proof fn law_park_test_reports_what_it_read(test: ParkTest, reads: ParkReads)
    requires
        call_ensures(ParkTest::new, (), test),
        reads.complete(),
    ensures
        test.awaits_all(reads.replies()),
        test.actions(reads.replies()) == reads.actions(),
        test.run(reads.replies()).phase is Finished,
        test.run(reads.replies()).report.acked == reads.ack,
        test.run(reads.replies()).report.round_before_park == reads.before,
        test.run(reads.replies()).report.round_during_park == reads.during,
        test.run(reads.replies()).report.released == !reads.ack_after,
        test.run(reads.replies()).report.resumed <==> reads.last_round > reads.during,
{
    lemma_park_holding(test, reads);
    let held = ParkTest {
        phase: ParkTestPhase::WaitRelease { waited: 0 },
        report: ParkReport {
            acked: reads.ack,
            round_before_park: reads.before,
            round_during_park: reads.during,
            ..test.report
        },
    };
    lemma_park_after(held, reads);
    let end = ParkTest {
        phase: ParkTestPhase::Finished,
        report: ParkReport {
            released: !reads.ack_after,
            resumed: reads.last_round > reads.during,
            ..held.report
        },
    };
    lemma_park_then(
        test,
        reads.replies_holding(),
        reads.actions_holding(),
        held,
        reads.replies_after(),
        reads.actions_after(),
        end,
    );
    reveal(ParkTest::goes);
}

/// The step that ends a park test takes a round number, and finds core 1 resumed if
/// and only if that number is greater than the one read at the end of the hold,
/// whatever the numbers are.
pub proof fn law_resumed_is_exact(test: &mut ParkTest, reply: Reply, action: ParkTestAction)
    requires
        !(old(test).phase is Finished),
        old(test).awaits(reply),
        call_ensures(ParkTest::step, (test, reply), action),
        final(test).phase is Finished,
    ensures
        reply matches Reply::Word(round) && (final(test).report.resumed <==> round
            > final(test).report.round_during_park),
        final(test).report.round_during_park == old(test).report.round_during_park,
        final(test).report.round_before_park == old(test).report.round_before_park,
        final(test).report.acked == old(test).report.acked,
        final(test).report.released == old(test).report.released,
{
}

impl WriteTest {
    /// The test after its actions yielded `replies` in order.
    pub open spec fn run(self, replies: Seq<Reply>) -> WriteTest
        decreases replies.len(),
    {
        if replies.len() == 0 {
            self
        } else {
            self.next(replies[0]).run(replies.drop_first())
        }
    }

    /// The actions that yield `replies`.
    pub open spec fn actions(self, replies: Seq<Reply>) -> Seq<WriteTestAction>
        decreases replies.len(),
    {
        if replies.len() == 0 {
            Seq::empty()
        } else {
            seq![self.action_spec()] + self.next(replies[0]).actions(replies.drop_first())
        }
    }

    /// `replies` are each of the kind that the action before it yields.
    pub open spec fn awaits_all(self, replies: Seq<Reply>) -> bool
        decreases replies.len(),
    {
        replies.len() == 0 || (self.awaits(replies[0]) && self.next(replies[0]).awaits_all(replies.drop_first()))
    }

    /// Over `replies` the test performs `actions` and comes to `end`.
    #[verifier::opaque]
    pub open spec fn goes(self, replies: Seq<Reply>, actions: Seq<WriteTestAction>, end: WriteTest) -> bool {
        self.awaits_all(replies) && self.actions(replies) == actions && self.run(replies) == end
    }
}

proof fn lemma_write_then(
    test: WriteTest,
    r1: Seq<Reply>,
    a1: Seq<WriteTestAction>,
    mid: WriteTest,
    r2: Seq<Reply>,
    a2: Seq<WriteTestAction>,
    end: WriteTest,
)
    requires
        test.goes(r1, a1, mid),
        mid.goes(r2, a2, end),
    ensures
        test.goes(r1 + r2, a1 + a2, end),
    decreases r1.len(),
{
    reveal(WriteTest::goes);
    if r1.len() == 0 {
        assert(r1 + r2 =~= r2);
        assert(a1 + a2 =~= a2);
    } else {
        let next = test.next(r1[0]);
        let rest = r1.drop_first();
        lemma_write_then(next, rest, next.actions(rest), mid, r2, a2, end);
        assert((r1 + r2).drop_first() =~= rest + r2);
        assert(test.actions(r1 + r2) =~= a1 + a2);
    }
}

proof fn lemma_write_one(test: WriteTest, reply: Reply)
    requires
        test.awaits(reply),
    ensures
        test.goes(seq![reply], seq![test.action_spec()], test.next(reply)),
{
    reveal(WriteTest::goes);
    reveal_with_fuel(WriteTest::run, 2);
    reveal_with_fuel(WriteTest::actions, 2);
    reveal_with_fuel(WriteTest::awaits_all, 2);
    assert(seq![reply].drop_first().len() == 0);
    assert(test.actions(seq![reply]) =~= seq![test.action_spec()]);
}

proof fn lemma_write_wait_ack(test: WriteTest, waited: u32, looks: Seq<bool>)
    requires
        test.phase == (WriteTestPhase::WaitAck { waited }),
        1 <= looks.len(),
        waited + looks.len() <= 5_000_001,
        forall|i: int| 0 <= i < looks.len() - 1 ==> !(#[trigger] looks[i]),
        looks.last() || waited + looks.len() == 5_000_001,
    ensures
        test.goes(
            flags_read(looks),
            Seq::new(looks.len(), |i: int| WriteTestAction::LoadAck { spin_first: waited + i > 0 }),
            WriteTest { phase: WriteTestPhase::CheckAck, ..test },
        ),
    decreases looks.len(),
{
    let replies = flags_read(looks);
    let actions = Seq::new(looks.len(), |i: int| WriteTestAction::LoadAck { spin_first: waited + i > 0 });
    lemma_write_one(test, replies[0]);
    if looks.len() == 1 {
        assert(replies =~= seq![replies[0]]);
        assert(actions =~= seq![test.action_spec()]);
    } else {
        let next = test.next(replies[0]);
        let rest = looks.drop_first();
        assert(rest.last() == looks.last());
        assert forall|i: int| 0 <= i < rest.len() - 1 implies !(#[trigger] rest[i]) by {
            assert(rest[i] == looks[i + 1]);
        }
        assert(!(looks[0]));
        lemma_write_wait_ack(next, (waited + 1) as u32, rest);
        let rest_actions = Seq::new(rest.len(), |i: int| WriteTestAction::LoadAck { spin_first: waited + 1 + i > 0 });
        assert(rest_actions =~= Seq::new(rest.len(), |i: int| WriteTestAction::LoadAck { spin_first: (waited + 1) as u32 + i > 0 }));
        lemma_write_then(
            test,
            seq![replies[0]],
            seq![test.action_spec()],
            next,
            flags_read(rest),
            rest_actions,
            WriteTest { phase: WriteTestPhase::CheckAck, ..test },
        );
        assert(seq![replies[0]] + flags_read(rest) =~= replies);
        assert(seq![test.action_spec()] + rest_actions =~= actions);
    }
}

proof fn lemma_write_wait_release(test: WriteTest, waited: u32, looks: Seq<bool>)
    requires
        test.phase == (WriteTestPhase::WaitRelease { waited }),
        1 <= looks.len(),
        waited + looks.len() <= 5_000_001,
        forall|i: int| 0 <= i < looks.len() - 1 ==> !(!(#[trigger] looks[i])),
        !looks.last() || waited + looks.len() == 5_000_001,
    ensures
        test.goes(
            flags_read(looks),
            Seq::new(looks.len(), |i: int| WriteTestAction::LoadAck { spin_first: waited + i > 0 }),
            WriteTest { phase: WriteTestPhase::CheckRelease, ..test },
        ),
    decreases looks.len(),
{
    let replies = flags_read(looks);
    let actions = Seq::new(looks.len(), |i: int| WriteTestAction::LoadAck { spin_first: waited + i > 0 });
    lemma_write_one(test, replies[0]);
    if looks.len() == 1 {
        assert(replies =~= seq![replies[0]]);
        assert(actions =~= seq![test.action_spec()]);
    } else {
        let next = test.next(replies[0]);
        let rest = looks.drop_first();
        assert(rest.last() == looks.last());
        assert forall|i: int| 0 <= i < rest.len() - 1 implies !(!(#[trigger] rest[i])) by {
            assert(rest[i] == looks[i + 1]);
        }
        assert(!(!looks[0]));
        lemma_write_wait_release(next, (waited + 1) as u32, rest);
        let rest_actions = Seq::new(rest.len(), |i: int| WriteTestAction::LoadAck { spin_first: waited + 1 + i > 0 });
        assert(rest_actions =~= Seq::new(rest.len(), |i: int| WriteTestAction::LoadAck { spin_first: (waited + 1) as u32 + i > 0 }));
        lemma_write_then(
            test,
            seq![replies[0]],
            seq![test.action_spec()],
            next,
            flags_read(rest),
            rest_actions,
            WriteTest { phase: WriteTestPhase::CheckRelease, ..test },
        );
        assert(seq![replies[0]] + flags_read(rest) =~= replies);
        assert(seq![test.action_spec()] + rest_actions =~= actions);
    }
}

proof fn lemma_write_read_erased(test: WriteTest, i: usize, bytes: Seq<u8>)
    requires
        test.phase == (WriteTestPhase::VerifyErase { i }),
        1 <= bytes.len(),
        i + bytes.len() <= 16,
        forall|k: int| 0 <= k < bytes.len() - 1 ==> #[trigger] bytes[k] == 0xFF,
        bytes.last() != 0xFF || i + bytes.len() == 16,
    ensures
        test.goes(
            bytes_read(bytes),
            Seq::new(
                bytes.len(),
                |k: int| WriteTestAction::ReadByte { addr: (0x1020_0000 + i + k) as usize },
            ),
            WriteTest {
                phase: WriteTestPhase::Program,
                report: WriteReport {
                    erase_ok: bytes.last() == 0xFF && i + bytes.len() == 16,
                    ..test.report
                },
            },
        ),
    decreases bytes.len(),
{
    let replies = bytes_read(bytes);
    let actions = Seq::new(
        bytes.len(),
        |k: int| WriteTestAction::ReadByte { addr: (0x1020_0000 + i + k) as usize },
    );
    let end = WriteTest {
        phase: WriteTestPhase::Program,
        report: WriteReport {
            erase_ok: bytes.last() == 0xFF && i + bytes.len() == 16,
            ..test.report
        },
    };
    lemma_write_one(test, replies[0]);
    if bytes.len() == 1 {
        assert(replies =~= seq![replies[0]]);
        assert(actions =~= seq![test.action_spec()]);
        assert(test.next(replies[0]) == end);
    } else {
        assert(bytes[0] == 0xFF);
        let next = test.next(replies[0]);
        let rest = bytes.drop_first();
        assert(rest.last() == bytes.last());
        assert forall|k: int| 0 <= k < rest.len() - 1 implies #[trigger] rest[k] == 0xFF by {
            assert(rest[k] == bytes[k + 1]);
        }
        lemma_write_read_erased(next, (i + 1) as usize, rest);
        let rest_actions = Seq::new(
            rest.len(),
            |k: int| WriteTestAction::ReadByte { addr: (0x1020_0000 + (i + 1) as usize + k) as usize },
        );
        lemma_write_then(
            test,
            seq![replies[0]],
            seq![test.action_spec()],
            next,
            bytes_read(rest),
            rest_actions,
            end,
        );
        assert(seq![replies[0]] + bytes_read(rest) =~= replies);
        assert(seq![test.action_spec()] + rest_actions =~= actions);
    }
}

proof fn lemma_write_read_page(test: WriteTest, i: usize, bytes: Seq<u8>)
    requires
        test.phase == (WriteTestPhase::VerifyProgram { i }),
        1 <= bytes.len(),
        i + bytes.len() <= 256,
        forall|k: int| 0 <= k < bytes.len() - 1 ==> #[trigger] bytes[k] == i + k,
        bytes.last() != i + bytes.len() - 1 || i + bytes.len() == 256,
    ensures
        test.goes(
            bytes_read(bytes),
            Seq::new(
                bytes.len(),
                |k: int| WriteTestAction::ReadByte { addr: (0x1020_0000 + i + k) as usize },
            ),
            WriteTest {
                phase: WriteTestPhase::Release,
                report: WriteReport {
                    program_ok: bytes.last() == i + bytes.len() - 1 && i + bytes.len() == 256,
                    ..test.report
                },
            },
        ),
    decreases bytes.len(),
{
    let replies = bytes_read(bytes);
    let actions = Seq::new(
        bytes.len(),
        |k: int| WriteTestAction::ReadByte { addr: (0x1020_0000 + i + k) as usize },
    );
    let end = WriteTest {
        phase: WriteTestPhase::Release,
        report: WriteReport {
            program_ok: bytes.last() == i + bytes.len() - 1 && i + bytes.len() == 256,
            ..test.report
        },
    };
    lemma_write_one(test, replies[0]);
    if bytes.len() == 1 {
        assert(replies =~= seq![replies[0]]);
        assert(actions =~= seq![test.action_spec()]);
        assert(test.next(replies[0]) == end);
    } else {
        assert(bytes[0] == i);
        let next = test.next(replies[0]);
        let rest = bytes.drop_first();
        assert(rest.last() == bytes.last());
        assert forall|k: int| 0 <= k < rest.len() - 1 implies #[trigger] rest[k] == i + (k + 1) by {
            assert(rest[k] == bytes[k + 1]);
        }
        lemma_write_read_page(next, (i + 1) as usize, rest);
        let rest_actions = Seq::new(
            rest.len(),
            |k: int| WriteTestAction::ReadByte { addr: (0x1020_0000 + (i + 1) as usize + k) as usize },
        );
        lemma_write_then(
            test,
            seq![replies[0]],
            seq![test.action_spec()],
            next,
            bytes_read(rest),
            rest_actions,
            end,
        );
        assert(seq![replies[0]] + bytes_read(rest) =~= replies);
        assert(seq![test.action_spec()] + rest_actions =~= actions);
    }
}

/// `right` are the looks of one comparison of `n` bytes, each saying whether the
/// byte was as expected: it ends with the first byte that is not, and otherwise
/// with the last.
pub open spec fn is_comparison(right: Seq<bool>, n: int) -> bool {
    &&& 1 <= right.len() <= n
    &&& forall|i: int| 0 <= i < right.len() - 1 ==> #[trigger] right[i]
    &&& !right.last() || right.len() == n
}

/// Everything that a write test reads, from its start to its end. `erased` and
/// `page` are read only if `ack` is set.
pub struct WriteReads {
    /// The acknowledgement, until it is set.
    pub acks: Seq<bool>,
    /// The acknowledgement that decides.
    pub ack: bool,
    /// The start of the erased sector, until a byte is wrong.
    pub erased: Seq<u8>,
    /// The programmed page, until a byte is wrong.
    pub page: Seq<u8>,
    /// The acknowledgement, until it is clear.
    pub withdrawals: Seq<bool>,
    /// The acknowledgement for the report.
    pub ack_after: bool,
}

impl WriteReads {
    /// Each wait and each comparison goes on for as long as it has to and no longer.
    pub open spec fn complete(self) -> bool {
        &&& is_bounded_wait(self.acks)
        &&& is_bounded_wait(Seq::new(self.withdrawals.len(), |i: int| !self.withdrawals[i]))
        &&& is_comparison(Seq::new(self.erased.len(), |i: int| self.erased[i] == 0xFF), 16)
        &&& is_comparison(Seq::new(self.page.len(), |i: int| self.page[i] == i), 256)
    }

    /// The replies up to the deciding read.
    pub open spec fn replies_before(self) -> Seq<Reply> {
        seq![Reply::Done, Reply::Done] + (flags_read(self.acks) + seq![Reply::Flag(self.ack)])
    }

    /// The replies while flash is written.
    pub open spec fn replies_writing(self) -> Seq<Reply> {
        seq![Reply::Done] + (bytes_read(self.erased) + (seq![Reply::Done] + bytes_read(self.page)))
    }

    /// The replies from the clearing of the request on.
    pub open spec fn replies_after(self) -> Seq<Reply> {
        seq![Reply::Done] + (flags_read(self.withdrawals) + seq![Reply::Flag(self.ack_after)])
    }

    /// All replies in the order in which they come.
    pub open spec fn replies(self) -> Seq<Reply> {
        if self.ack {
            self.replies_before() + (self.replies_writing() + self.replies_after())
        } else {
            self.replies_before() + self.replies_after()
        }
    }

    /// The actions up to the deciding read.
    pub open spec fn actions_before(self) -> Seq<WriteTestAction> {
        seq![WriteTestAction::InitBoot2RamCopy, WriteTestAction::StoreRequest(true)] + (Seq::new(
            self.acks.len(),
            |i: int| WriteTestAction::LoadAck { spin_first: i > 0 },
        ) + seq![WriteTestAction::LoadAck { spin_first: false }])
    }

    /// The actions while flash is written: the scratch sector is erased and looked
    /// at, then the pattern is programmed at its start and looked at.
    pub open spec fn actions_writing(self) -> Seq<WriteTestAction> {
        seq![WriteTestAction::EraseSector { offset: 0x20_0000 }] + (Seq::new(
            self.erased.len(),
            |i: int| WriteTestAction::ReadByte { addr: (0x1020_0000 + i) as usize },
        ) + (seq![WriteTestAction::ProgramPattern { offset: 0x20_0000 }] + Seq::new(
            self.page.len(),
            |i: int| WriteTestAction::ReadByte { addr: (0x1020_0000 + i) as usize },
        )))
    }

    /// The actions from the clearing of the request on.
    pub open spec fn actions_after(self) -> Seq<WriteTestAction> {
        seq![WriteTestAction::StoreRequest(false)] + (Seq::new(
            self.withdrawals.len(),
            |i: int| WriteTestAction::LoadAck { spin_first: i > 0 },
        ) + seq![WriteTestAction::LoadAck { spin_first: false }])
    }

    /// All actions in order.
    pub open spec fn actions(self) -> Seq<WriteTestAction> {
        if self.ack {
            self.actions_before() + (self.actions_writing() + self.actions_after())
        } else {
            self.actions_before() + self.actions_after()
        }
    }
}

proof fn lemma_write_before(test: WriteTest, reads: WriteReads)
    requires
        test == WriteTest::initial(),
        reads.complete(),
    ensures
        test.goes(
            reads.replies_before(),
            reads.actions_before(),
            WriteTest {
                phase: if reads.ack { WriteTestPhase::Erase } else { WriteTestPhase::Release },
                report: WriteReport { parked: reads.ack, ..test.report },
            },
        ),
{
    let t1 = test.next(Reply::Done);
    let t2 = t1.next(Reply::Done);
    let t3 = WriteTest { phase: WriteTestPhase::CheckAck, ..t2 };
    let t4 = t3.next(Reply::Flag(reads.ack));
    let r1 = seq![Reply::Done, Reply::Done];
    let a1 = seq![WriteTestAction::InitBoot2RamCopy, WriteTestAction::StoreRequest(true)];
    lemma_write_one(test, Reply::Done);
    lemma_write_one(t1, Reply::Done);
    lemma_write_then(
        test,
        seq![Reply::Done],
        seq![WriteTestAction::InitBoot2RamCopy],
        t1,
        seq![Reply::Done],
        seq![WriteTestAction::StoreRequest(true)],
        t2,
    );
    assert(seq![Reply::Done] + seq![Reply::Done] =~= r1);
    assert(seq![WriteTestAction::InitBoot2RamCopy] + seq![WriteTestAction::StoreRequest(true)] =~= a1);
    let r2 = flags_read(reads.acks);
    let a2 = Seq::new(reads.acks.len(), |i: int| WriteTestAction::LoadAck { spin_first: i > 0 });
    lemma_write_wait_ack(t2, 0, reads.acks);
    assert(Seq::new(reads.acks.len(), |i: int| WriteTestAction::LoadAck { spin_first: 0u32 + i > 0 }) =~= a2);
    let r3 = seq![Reply::Flag(reads.ack)];
    let a3 = seq![WriteTestAction::LoadAck { spin_first: false }];
    lemma_write_one(t3, Reply::Flag(reads.ack));
    lemma_write_then(t2, r2, a2, t3, r3, a3, t4);
    lemma_write_then(test, r1, a1, t2, r2 + r3, a2 + a3, t4);
}

proof fn lemma_write_writing(test: WriteTest, reads: WriteReads)
    requires
        test.phase is Erase,
        reads.complete(),
    ensures
        test.goes(
            reads.replies_writing(),
            reads.actions_writing(),
            WriteTest {
                phase: WriteTestPhase::Release,
                report: WriteReport {
                    erase_ok: reads.erased.len() == 16 && reads.erased.last() == 0xFF,
                    program_ok: reads.page.len() == 256 && reads.page.last() == 255,
                    ..test.report
                },
            },
        ),
{
    let right1 = Seq::new(reads.erased.len(), |i: int| reads.erased[i] == 0xFF);
    let right2 = Seq::new(reads.page.len(), |i: int| reads.page[i] == i);
    assert forall|k: int| 0 <= k < reads.erased.len() - 1 implies #[trigger] reads.erased[k] == 0xFF by {
        assert(right1[k]);
    }
    assert forall|k: int| 0 <= k < reads.page.len() - 1 implies #[trigger] reads.page[k] == 0usize + k by {
        assert(right2[k]);
    }
    assert(right1.last() == (reads.erased.last() == 0xFF));
    assert(right2.last() == (reads.page.last() == reads.page.len() - 1));
    let t1 = test.next(Reply::Done);
    let t2 = WriteTest {
        phase: WriteTestPhase::Program,
        report: WriteReport { erase_ok: reads.erased.len() == 16 && reads.erased.last() == 0xFF, ..test.report },
    };
    let t3 = t2.next(Reply::Done);
    let t4 = WriteTest {
        phase: WriteTestPhase::Release,
        report: WriteReport { program_ok: reads.page.len() == 256 && reads.page.last() == 255, ..t2.report },
    };
    let r1 = seq![Reply::Done];
    let a1 = seq![WriteTestAction::EraseSector { offset: 0x20_0000 }];
    lemma_write_one(test, Reply::Done);
    let r2 = bytes_read(reads.erased);
    let a2 = Seq::new(
        reads.erased.len(),
        |i: int| WriteTestAction::ReadByte { addr: (0x1020_0000 + i) as usize },
    );
    lemma_write_read_erased(t1, 0, reads.erased);
    assert(Seq::new(
        reads.erased.len(),
        |k: int| WriteTestAction::ReadByte { addr: (0x1020_0000 + 0usize + k) as usize },
    ) =~= a2);
    let r3 = seq![Reply::Done];
    let a3 = seq![WriteTestAction::ProgramPattern { offset: 0x20_0000 }];
    lemma_write_one(t2, Reply::Done);
    let r4 = bytes_read(reads.page);
    let a4 = Seq::new(reads.page.len(), |i: int| WriteTestAction::ReadByte { addr: (0x1020_0000 + i) as usize });
    lemma_write_read_page(t3, 0, reads.page);
    assert(Seq::new(
        reads.page.len(),
        |k: int| WriteTestAction::ReadByte { addr: (0x1020_0000 + 0usize + k) as usize },
    ) =~= a4);
    lemma_write_then(t2, r3, a3, t3, r4, a4, t4);
    lemma_write_then(t1, r2, a2, t2, r3 + r4, a3 + a4, t4);
    lemma_write_then(test, r1, a1, t1, r2 + (r3 + r4), a2 + (a3 + a4), t4);
}

proof fn lemma_write_after(test: WriteTest, reads: WriteReads)
    requires
        test.phase is Release,
        reads.complete(),
    ensures
        test.goes(
            reads.replies_after(),
            reads.actions_after(),
            WriteTest {
                phase: WriteTestPhase::Finished,
                report: WriteReport { released: !reads.ack_after, ..test.report },
            },
        ),
{
    let met = Seq::new(reads.withdrawals.len(), |i: int| !reads.withdrawals[i]);
    assert forall|i: int| 0 <= i < reads.withdrawals.len() - 1 implies !(!(#[trigger] reads.withdrawals[i])) by {
        assert(!met[i]);
    }
    assert(met.last() == !reads.withdrawals.last());
    let t1 = test.next(Reply::Done);
    let t2 = WriteTest { phase: WriteTestPhase::CheckRelease, ..t1 };
    let t3 = t2.next(Reply::Flag(reads.ack_after));
    let r1 = seq![Reply::Done];
    let a1 = seq![WriteTestAction::StoreRequest(false)];
    lemma_write_one(test, Reply::Done);
    let r2 = flags_read(reads.withdrawals);
    let a2 = Seq::new(reads.withdrawals.len(), |i: int| WriteTestAction::LoadAck { spin_first: i > 0 });
    lemma_write_wait_release(t1, 0, reads.withdrawals);
    assert(Seq::new(reads.withdrawals.len(), |i: int| WriteTestAction::LoadAck { spin_first: 0u32 + i > 0 }) =~= a2);
    let r3 = seq![Reply::Flag(reads.ack_after)];
    let a3 = seq![WriteTestAction::LoadAck { spin_first: false }];
    lemma_write_one(t2, Reply::Flag(reads.ack_after));
    lemma_write_then(t1, r2, a2, t2, r3, a3, t3);
    lemma_write_then(test, r1, a1, t1, r2 + r3, a2 + a3, t3);
}

/// A write test from its start to its end, whatever it reads, begun after a ROM
/// lookup that found every routine and a park test whose acknowledgement went: it
/// copies boot2, sets the request and waits for the acknowledgement; if the
/// deciding read sees it, the scratch sector is erased and read back, and the
/// pattern is programmed and read back, and otherwise flash is left alone; then the
/// request is cleared and the acknowledgement waited out. It reports the erase right
/// if and only if sixteen bytes were read as all ones, and the programming if and
/// only if the whole page was read as the bytes from zero up.
pub proof fn law_write_test_reports_what_it_read(
    rom_resolved: bool,
    park: ParkReport,
    test: WriteTest,
    reads: WriteReads,
)
    requires
        rom_resolved,
        park.released,
        call_ensures(WriteTest::begin, (rom_resolved, &park), test),
        reads.complete(),
    ensures
        test.awaits_all(reads.replies()),
        test.actions(reads.replies()) == reads.actions(),
        test.run(reads.replies()).phase is Finished,
        test.run(reads.replies()).report.parked == reads.ack,
        test.run(reads.replies()).report.erase_ok <==> reads.ack && reads.erased.len() == 16 && forall|i: int|
            0 <= i < 16 ==> #[trigger] reads.erased[i] == 0xFF,
        test.run(reads.replies()).report.program_ok <==> reads.ack && reads.page.len() == 256 && forall|i: int|
            0 <= i < 256 ==> #[trigger] reads.page[i] == i,
        test.run(reads.replies()).report.released == !reads.ack_after,
{
    let right1 = Seq::new(reads.erased.len(), |i: int| reads.erased[i] == 0xFF);
    let right2 = Seq::new(reads.page.len(), |i: int| reads.page[i] == i);
    assert forall|k: int| 0 <= k < reads.erased.len() - 1 implies #[trigger] reads.erased[k] == 0xFF by {
        assert(right1[k]);
    }
    assert forall|k: int| 0 <= k < reads.page.len() - 1 implies #[trigger] reads.page[k] == k by {
        assert(right2[k]);
    }
    lemma_write_before(test, reads);
    let decided = WriteTest {
        phase: if reads.ack { WriteTestPhase::Erase } else { WriteTestPhase::Release },
        report: WriteReport { parked: reads.ack, ..test.report },
    };
    if reads.ack {
        lemma_write_writing(decided, reads);
        let written = WriteTest {
            phase: WriteTestPhase::Release,
            report: WriteReport {
                erase_ok: reads.erased.len() == 16 && reads.erased.last() == 0xFF,
                program_ok: reads.page.len() == 256 && reads.page.last() == 255,
                ..decided.report
            },
        };
        lemma_write_after(written, reads);
        let end = WriteTest {
            phase: WriteTestPhase::Finished,
            report: WriteReport { released: !reads.ack_after, ..written.report },
        };
        lemma_write_then(
            decided,
            reads.replies_writing(),
            reads.actions_writing(),
            written,
            reads.replies_after(),
            reads.actions_after(),
            end,
        );
        lemma_write_then(
            test,
            reads.replies_before(),
            reads.actions_before(),
            decided,
            reads.replies_writing() + reads.replies_after(),
            reads.actions_writing() + reads.actions_after(),
            end,
        );
    } else {
        lemma_write_after(decided, reads);
        let end = WriteTest {
            phase: WriteTestPhase::Finished,
            report: WriteReport { released: !reads.ack_after, ..decided.report },
        };
        lemma_write_then(
            test,
            reads.replies_before(),
            reads.actions_before(),
            decided,
            reads.replies_after(),
            reads.actions_after(),
            end,
        );
    }
    reveal(WriteTest::goes);
}

/// Begun after a lookup that missed a routine, or a park test whose acknowledgement
/// had not gone, and only then, the write test leaves flash and the request alone.
/// Nothing else of the park test's report has a say.
pub proof fn law_write_test_is_refused_exactly_when_unsafe(rom_resolved: bool, park: ParkReport, test: WriteTest)
    requires
        call_ensures(WriteTest::begin, (rom_resolved, &park), test),
    ensures
        rom_resolved && park.released ==> test.action_spec() == WriteTestAction::InitBoot2RamCopy,
        !(rom_resolved && park.released) ==> {
            &&& test.action_spec() == (WriteTestAction::LoadAck { spin_first: false })
            &&& forall|ack: bool|
                {
                    let end = #[trigger] test.next(Reply::Flag(ack));
                    end.phase is Finished && end.report.released == !ack && !end.report.parked && !end.report.erase_ok
                        && !end.report.program_ok
                }
        },
{
}

/// A write test that is started without such a report starts as one that is
/// permitted.
pub proof fn law_new_write_test_is_permitted(fresh: WriteTest, park: ParkReport, begun: WriteTest)
    requires
        call_ensures(WriteTest::new, (), fresh),
        park.released,
        call_ensures(WriteTest::begin, (true, &park), begun),
    ensures
        fresh == begun,
{
}

/// The page that is programmed is the page that is looked for: byte `i` is `i`.
pub proof fn law_pattern_counts_up(pattern: [u8; FLASH_PAGE_SIZE], i: int)
    requires
        call_ensures(test_pattern, (), pattern),
        0 <= i < 256,
    ensures
        pattern@.len() == 256,
        pattern@[i] == i,
        pattern@ == pattern_bytes(),
{
}

/// The scratch sector appears in memory at its offset from the flash base.
pub proof fn law_scratch_address_is_its_offset()
    ensures
        FLASH_SCRATCH_ADDR == FLASH_BASE + FLASH_SCRATCH_OFFSET,
        FLASH_BASE == 0x1000_0000,
{
}

proof fn lemma_park_push(start: ParkTest, replies: Seq<Reply>, reply: Reply)
    ensures
        start.run(replies.push(reply)) == start.run(replies).next(reply),
        start.actions(replies.push(reply)) == start.actions(replies).push(start.run(replies).action_spec()),
    decreases replies.len(),
{
    let all = replies.push(reply);
    assert(start.run(all) == start.next(all[0]).run(all.drop_first()));
    if replies.len() == 0 {
        assert(all.drop_first().len() == 0);
        assert(start.next(reply).run(all.drop_first()) == start.next(reply));
        assert(start.next(reply).actions(all.drop_first()) =~= Seq::empty());
        assert(start.actions(all) =~= seq![start.action_spec()]);
        assert(start.actions(replies) =~= Seq::empty());
    } else {
        assert(all.drop_first() =~= replies.drop_first().push(reply));
        lemma_park_push(start.next(replies[0]), replies.drop_first(), reply);
        assert(start.actions(all) =~= start.actions(replies).push(start.run(replies).action_spec()));
    }
}

/// Stepping a park test extends its run by one reply, and names the action that comes
/// next; a test that has ended stays as it is.
pub proof fn law_park_step_extends_the_run(
    start: ParkTest,
    replies: Seq<Reply>,
    test: &mut ParkTest,
    reply: Reply,
    action: ParkTestAction,
    later: Reply,
)
    requires
        *old(test) == start.run(replies),
        old(test).awaits(reply),
        call_ensures(ParkTest::step, (test, reply), action),
    ensures
        *final(test) == start.run(replies.push(reply)),
        start.actions(replies.push(reply).push(later)).last() == action,
        old(test).phase is Finished ==> *final(test) == *old(test) && action == ParkTestAction::Finish,
{
    lemma_park_push(start, replies, reply);
    lemma_park_push(start, replies.push(reply), later);
}

proof fn lemma_write_push(start: WriteTest, replies: Seq<Reply>, reply: Reply)
    ensures
        start.run(replies.push(reply)) == start.run(replies).next(reply),
        start.actions(replies.push(reply)) == start.actions(replies).push(start.run(replies).action_spec()),
    decreases replies.len(),
{
    let all = replies.push(reply);
    assert(start.run(all) == start.next(all[0]).run(all.drop_first()));
    if replies.len() == 0 {
        assert(all.drop_first().len() == 0);
        assert(start.next(reply).run(all.drop_first()) == start.next(reply));
        assert(start.next(reply).actions(all.drop_first()) =~= Seq::empty());
        assert(start.actions(all) =~= seq![start.action_spec()]);
        assert(start.actions(replies) =~= Seq::empty());
    } else {
        assert(all.drop_first() =~= replies.drop_first().push(reply));
        lemma_write_push(start.next(replies[0]), replies.drop_first(), reply);
        assert(start.actions(all) =~= start.actions(replies).push(start.run(replies).action_spec()));
    }
}

/// Stepping a write test extends its run by one reply, and names the action that
/// comes next; a test that has ended stays as it is.
pub proof fn law_write_step_extends_the_run(
    start: WriteTest,
    replies: Seq<Reply>,
    test: &mut WriteTest,
    reply: Reply,
    action: WriteTestAction,
    later: Reply,
)
    requires
        *old(test) == start.run(replies),
        old(test).awaits(reply),
        call_ensures(WriteTest::step, (test, reply), action),
    ensures
        *final(test) == start.run(replies.push(reply)),
        start.actions(replies.push(reply).push(later)).last() == action,
        old(test).phase is Finished ==> *final(test) == *old(test) && action == WriteTestAction::Finish,
{
    lemma_write_push(start, replies, reply);
    lemma_write_push(start, replies.push(reply), later);
}

} // verus!
