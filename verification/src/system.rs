//! The two cores together.
//!
//! A [`System`] is core 0 in one of its checks, core 1, the variables that both
//! see, and the flash contents. An execution interleaves the cores' actions in
//! any order, each action taking effect at once.
use vstd::prelude::*;
use crate::checks::{
    ParkTest, ParkTestAction, ParkTestPhase, WriteTest, WriteTestAction, WriteTestPhase, FLASH_BASE,
    FLASH_SCRATCH_OFFSET,
};
use crate::core1::{Core1, Core1Action, Core1Phase, ParkAction, ParkLoop, ParkPhase};
use crate::flash::{FLASH_PAGE_SIZE, FLASH_SECTOR_SIZE};
use crate::shared::Reply;

verus! {

/// The check that core 0 is in.
pub enum Core0 {
    Parking(ParkTest),
    Writing(WriteTest),
}

/// Both cores and what they share. `rom_resolved` says whether core 0 found all
/// the boot-ROM routines. `park` is core 1's wait loop, which matters only while
/// core 1 is in it.
pub struct System {
    pub rom_resolved: bool,
    pub core0: Core0,
    pub core1: Core1,
    pub park: ParkLoop,
    pub request: bool,
    pub ack: bool,
    pub stage: u32,
    pub round: u32,
    pub flash: Seq<u8>,
}

impl System {
    /// Core 1 is in its wait loop, announced, and will stay for as long as the
    /// request stands: it runs from RAM alone.
    pub open spec fn core1_spinning(self) -> bool {
        self.core1.phase is Parked && (self.park.phase is Poll || self.park.phase is Write)
    }

    /// No trace of an earlier request is left: neither flag is set, and core 1 is
    /// outside its wait loop or just about to return from it.
    pub open spec fn quiescent(self) -> bool {
        &&& !self.request
        &&& !self.ack
        &&& self.core1.phase is Parked ==> self.park.phase is Left
    }

    /// The system after core 0's current action.
    pub open spec fn core0_next(self) -> System {
        match self.core0 {
            Core0::Parking(test) => match test.action_spec() {
                ParkTestAction::LoadStage { .. } => System {
                    core0: Core0::Parking(test.next(Reply::Word(self.stage))),
                    ..self
                },
                ParkTestAction::StoreRequest(on) => System {
                    core0: Core0::Parking(test.next(Reply::Done)),
                    request: on,
                    ..self
                },
                ParkTestAction::LoadAck { .. } => System {
                    core0: Core0::Parking(test.next(Reply::Flag(self.ack))),
                    ..self
                },
                ParkTestAction::LoadRound { .. } => System {
                    core0: Core0::Parking(test.next(Reply::Word(self.round))),
                    ..self
                },
                ParkTestAction::Spin { .. } => System { core0: Core0::Parking(test.next(Reply::Done)), ..self },
                ParkTestAction::Finish => System {
                    core0: Core0::Writing(WriteTest::begun(self.rom_resolved, test.report)),
                    ..self
                },
            },
            Core0::Writing(test) => match test.action_spec() {
                WriteTestAction::InitBoot2RamCopy => System { core0: Core0::Writing(test.next(Reply::Done)), ..self },
                WriteTestAction::StoreRequest(on) => System {
                    core0: Core0::Writing(test.next(Reply::Done)),
                    request: on,
                    ..self
                },
                WriteTestAction::LoadAck { .. } => System {
                    core0: Core0::Writing(test.next(Reply::Flag(self.ack))),
                    ..self
                },
                WriteTestAction::EraseSector { offset } => System {
                    core0: Core0::Writing(test.next(Reply::Done)),
                    flash: crate::nor::erased(self.flash, offset as int, FLASH_SECTOR_SIZE as int),
                    ..self
                },
                WriteTestAction::ProgramPattern { offset } => System {
                    core0: Core0::Writing(test.next(Reply::Done)),
                    flash: crate::nor::programmed(self.flash, offset as int, crate::checks::pattern_bytes()),
                    ..self
                },
                WriteTestAction::ReadByte { addr } => System {
                    core0: Core0::Writing(test.next(Reply::Byte(self.flash[addr - FLASH_BASE]))),
                    ..self
                },
                WriteTestAction::Finish => self,
            },
        }
    }

    /// The system after core 1's current action. `popped` says whether an event
    /// was there, where core 1 looks for one.
    pub open spec fn core1_next(self, popped: bool) -> System {
        match self.core1.action_spec() {
            Core1Action::StoreStage(stage) => System { core1: self.core1.next(Reply::Done), stage, ..self },
            Core1Action::LoadRequest => System {
                core1: self.core1.next(Reply::Flag(self.request)),
                park: ParkLoop { phase: ParkPhase::Announce, i: 0 },
                ..self
            },
            Core1Action::Park => match self.park.action_spec() {
                ParkAction::StoreAck(on) => System { park: self.park.next(Reply::Done), ack: on, ..self },
                ParkAction::LoadRequest => System { park: self.park.next(Reply::Flag(self.request)), ..self },
                ParkAction::WriteBuffer { .. } => System { park: self.park.next(Reply::Done), ..self },
                ParkAction::Return => System { core1: self.core1.next(Reply::Done), ..self },
            },
            Core1Action::StoreRound(round) => System { core1: self.core1.next(Reply::Done), round, ..self },
            Core1Action::PopEvent => System { core1: self.core1.next(Reply::Flag(popped)), ..self },
            _ => System { core1: self.core1.next(Reply::Done), ..self },
        }
    }

    /// `self` can become `after` by one action of one core. A round begins only
    /// while the round counter has room.
    pub open spec fn steps_to(self, after: System) -> bool {
        ||| after == self.core0_next()
        ||| exists|popped: bool| after == #[trigger] self.core1_next(popped) && (self.core1.phase is CheckPark
            && !self.request ==> self.core1.round < u32::MAX)
    }

    /// The state in which core 0 begins its checks: nothing is requested, core 1
    /// is somewhere in its start-up or its loop, and the published round number is
    /// not ahead of core 1's own.
    pub open spec fn starts_checks(self) -> bool {
        &&& self.core0 == Core0::Parking(ParkTest::initial())
        &&& !self.request
        &&& request_is_fresh(self)
        &&& self.round <= self.core1.round
    }
}

/// State `i` of `trace` can become the one after it.
pub open spec fn steps_at(trace: Seq<System>, i: int) -> bool {
    trace[i].steps_to(trace[i + 1])
}

/// `trace` is an execution: each state can become the next.
pub open spec fn is_execution(trace: Seq<System>) -> bool {
    &&& trace.len() > 0
    &&& forall|i: int| 0 <= i < trace.len() - 1 ==> #[trigger] steps_at(trace, i)
}

/// Core 1's acknowledgement is set exactly while core 1 is announced.
pub open spec fn ack_tells_truth(s: System) -> bool {
    s.ack == (s.core1.phase is Parked && (s.park.phase is Poll || s.park.phase is Write || s.park.phase is Withdraw))
}

/// Core 1's acknowledgement is true, and core 1 is in its wait loop only for the
/// request that stands now, or just about to return from it.
pub open spec fn request_is_fresh(s: System) -> bool {
    &&& ack_tells_truth(s)
    &&& s.core1.phase is Parked ==> if s.request {
        s.park.phase is Announce || s.park.phase is Poll || s.park.phase is Write || s.park.phase is Left
    } else {
        s.park.phase is Left
    }
}

/// What holds throughout a write test that began with a fresh request or none.
pub open spec fn write_invariant(s: System) -> bool {
    match s.core0 {
        Core0::Parking(_) => false,
        Core0::Writing(test) => {
            &&& test.wf()
            &&& match test.phase {
                WriteTestPhase::CopyBoot2 => request_is_fresh(s),
                WriteTestPhase::Request => request_is_fresh(s),
                WriteTestPhase::WaitAck { .. } => s.request && request_is_fresh(s),
                WriteTestPhase::CheckAck => s.request && request_is_fresh(s),
                WriteTestPhase::Erase => s.request && s.core1_spinning(),
                WriteTestPhase::VerifyErase { .. } => s.request && s.core1_spinning(),
                WriteTestPhase::Program => s.request && s.core1_spinning(),
                WriteTestPhase::VerifyProgram { .. } => s.request && s.core1_spinning(),
                _ => true,
            }
        },
    }
}

/// Core 0 relies on core 1 being parked.
pub open spec fn core0_relies_on_park(s: System) -> bool {
    match s.core0 {
        Core0::Parking(_) => false,
        Core0::Writing(test) => test.writing(),
    }
}

proof fn lemma_write_invariant_step(s: System, t: System)
    requires
        write_invariant(s),
        s.steps_to(t),
    ensures
        write_invariant(t),
{
}

proof fn lemma_write_invariant(trace: Seq<System>, i: int)
    requires
        is_execution(trace),
        trace[0].core0 == Core0::Writing(WriteTest::initial()),
        request_is_fresh(trace[0]),
        0 <= i < trace.len(),
    ensures
        write_invariant(trace[i]),
    decreases i,
{
    if i > 0 {
        lemma_write_invariant(trace, i - 1);
        assert(steps_at(trace, i - 1));
        lemma_write_invariant_step(trace[i - 1], trace[i]);
    }
}

/// While core 0 erases, programs or reads back flash, core 1 is parked in RAM,
/// in every execution of a write test that does not begin with core 1 still on
/// its way into or out of its wait loop for an earlier request.
pub proof fn law_core1_is_parked_while_flash_is_written(trace: Seq<System>, i: int)
    requires
        is_execution(trace),
        trace[0].core0 == Core0::Writing(WriteTest::initial()),
        request_is_fresh(trace[0]),
        0 <= i < trace.len(),
        core0_relies_on_park(trace[i]),
    ensures
        trace[i].core1_spinning(),
{
    lemma_write_invariant(trace, i);
}

/// An acknowledgement of an earlier request misleads core 0: if the write test
/// begins while core 1 has seen that request go and not yet withdrawn its
/// acknowledgement, core 0's first four actions take it to the erase with core 1
/// on its way out of the wait loop.
pub proof fn law_leftover_acknowledgement_misleads_core0(s: System)
    requires
        s.core0 == Core0::Writing(WriteTest::initial()),
        s.ack,
        s.core1.phase is Parked,
        s.park.phase is Withdraw,
    ensures
        core0_relies_on_park(s.core0_next().core0_next().core0_next().core0_next()),
        !s.core0_next().core0_next().core0_next().core0_next().core1_spinning(),
{
}

/// What holds throughout a park test that began with [`System::starts_checks`].
pub open spec fn park_invariant(s: System) -> bool {
    match s.core0 {
        Core0::Writing(_) => false,
        Core0::Parking(test) => {
            let report = test.report;
            let same_round = report.acked ==> report.round_before_park == report.round_during_park;
            &&& s.round <= s.core1.round
            &&& ack_tells_truth(s)
            &&& match test.phase {
                ParkTestPhase::WaitStage { .. } => !s.request && request_is_fresh(s),
                ParkTestPhase::Request => !s.request && request_is_fresh(s),
                ParkTestPhase::WaitAck { .. } => s.request && request_is_fresh(s),
                ParkTestPhase::CheckAck => s.request && request_is_fresh(s),
                ParkTestPhase::ReadBefore => s.request && request_is_fresh(s) && (report.acked ==> s.core1_spinning()),
                ParkTestPhase::Hold => s.request && request_is_fresh(s) && (report.acked ==> s.core1_spinning()
                    && s.round == report.round_before_park),
                ParkTestPhase::ReadDuring => s.request && request_is_fresh(s) && (report.acked ==> s.core1_spinning()
                    && s.round == report.round_before_park),
                ParkTestPhase::Release => {
                    &&& s.request
                    &&& request_is_fresh(s)
                    &&& report.acked ==> s.core1_spinning()
                    &&& same_round
                    &&& report.round_during_park <= s.round
                },
                ParkTestPhase::WaitRelease { .. } => {
                    &&& !s.request
                    &&& report.acked ==> !(s.core1.phase is Parked && s.park.phase is Announce)
                    &&& same_round
                    &&& report.round_during_park <= s.round
                },
                ParkTestPhase::CheckRelease => {
                    &&& !s.request
                    &&& report.acked ==> !(s.core1.phase is Parked && s.park.phase is Announce)
                    &&& same_round
                    &&& report.round_during_park <= s.round
                },
                ParkTestPhase::WaitResume { .. } => {
                    &&& !s.request
                    &&& report.acked && report.released ==> s.quiescent()
                    &&& same_round
                    &&& report.round_during_park <= s.round
                },
                ParkTestPhase::CheckResume => {
                    &&& !s.request
                    &&& report.acked && report.released ==> s.quiescent()
                    &&& same_round
                    &&& report.round_during_park <= s.round
                },
                ParkTestPhase::Finished => {
                    &&& !s.request
                    &&& report.acked && report.released ==> s.quiescent()
                    &&& same_round
                    &&& report.resumed ==> report.round_during_park < s.round
                },
            }
        },
    }
}

proof fn lemma_park_invariant_step(s: System, t: System)
    requires
        park_invariant(s),
        s.steps_to(t),
        t.core0 is Parking,
    ensures
        park_invariant(t),
{
}

/// The write test begins as core 0's next action after state `k`.
pub open spec fn write_test_begins(trace: Seq<System>, k: int) -> bool {
    &&& trace[k].core0 is Parking
    &&& trace[k + 1].core0 == Core0::Writing(WriteTest::initial())
}

/// Wherever the write test begins in `trace`, the park test saw core 1 acknowledge,
/// or core 1 is not on its way through the wait loop for the park test's request.
pub open spec fn no_late_entry(trace: Seq<System>) -> bool {
    forall|k: int|
        0 <= k < trace.len() - 1 && #[trigger] write_test_begins(trace, k)
            ==> trace[k].core0->Parking_0.report.acked || request_is_fresh(trace[k])
}

/// What holds throughout both checks; `clear` says that core 1 is not late.
pub open spec fn checks_invariant(s: System, clear: bool) -> bool {
    match s.core0 {
        Core0::Parking(_) => park_invariant(s),
        Core0::Writing(test) => {
            &&& clear ==> write_invariant(s)
            &&& !s.rom_resolved ==> test.phase is CheckRelease || test.phase is Finished
        },
    }
}

proof fn lemma_checks_invariant_step(s: System, t: System, clear: bool)
    requires
        checks_invariant(s, clear),
        s.steps_to(t),
        clear && s.core0 is Parking && t.core0 == Core0::Writing(WriteTest::initial())
            ==> s.core0->Parking_0.report.acked || request_is_fresh(s),
    ensures
        checks_invariant(t, clear),
{
    match (s.core0, t.core0) {
        (Core0::Parking(_), Core0::Parking(_)) => {
            lemma_park_invariant_step(s, t);
        },
        (Core0::Parking(test), Core0::Writing(_)) => {
            assert(t == s.core0_next());
            assert(test.phase is Finished);
        },
        _ => {
            if clear {
                lemma_write_invariant_step(s, t);
            }
        },
    }
}

proof fn lemma_checks_invariant(trace: Seq<System>, i: int, clear: bool)
    requires
        is_execution(trace),
        trace[0].starts_checks(),
        clear ==> no_late_entry(trace),
        0 <= i < trace.len(),
    ensures
        checks_invariant(trace[i], clear),
    decreases i,
{
    if i > 0 {
        lemma_checks_invariant(trace, i - 1, clear);
        assert(steps_at(trace, i - 1));
        assert(write_test_begins(trace, i - 1) == (trace[i - 1].core0 is Parking && trace[i].core0
            == Core0::Writing(WriteTest::initial())));
        lemma_checks_invariant_step(trace[i - 1], trace[i], clear);
    }
}

/// An acknowledged request means that core 1 stands still: the round number does
/// not move between the two reads of the park test, in every execution from the
/// start of the checks.
pub proof fn law_acknowledged_core1_stands_still(trace: Seq<System>, i: int, test: ParkTest)
    requires
        is_execution(trace),
        trace[0].starts_checks(),
        0 <= i < trace.len(),
        trace[i].core0 == Core0::Parking(test),
        test.phase is Finished,
        test.report.acked,
    ensures
        test.report.round_before_park == test.report.round_during_park,
{
    lemma_checks_invariant(trace, i, false);
}

/// A park test that saw core 1 acknowledge and release leaves no trace of its
/// request behind.
pub proof fn law_released_park_test_is_over(trace: Seq<System>, i: int, test: ParkTest)
    requires
        is_execution(trace),
        trace[0].starts_checks(),
        0 <= i < trace.len(),
        trace[i].core0 == Core0::Parking(test),
        test.phase is Finished,
        test.report.acked,
        test.report.released,
    ensures
        trace[i].quiescent(),
{
    lemma_checks_invariant(trace, i, false);
}

/// A park test reports that core 1 resumed only if core 1 has begun a round
/// since the end of the hold.
pub proof fn law_resumed_core1_has_moved_on(trace: Seq<System>, i: int, test: ParkTest)
    requires
        is_execution(trace),
        trace[0].starts_checks(),
        0 <= i < trace.len(),
        trace[i].core0 == Core0::Parking(test),
        test.phase is Finished,
        test.report.resumed,
    ensures
        trace[i].core1.round > test.report.round_during_park,
{
    lemma_checks_invariant(trace, i, false);
}

/// Whenever core 0 erases, programs or reads back flash, core 1 is parked in RAM,
/// in every execution from the start of the checks in which the park test saw core
/// 1 acknowledge, or core 1 is not still on its way through the wait loop for the
/// park test's request as the write test begins.
pub proof fn law_handshake_protects_flash_writes(trace: Seq<System>, i: int)
    requires
        is_execution(trace),
        trace[0].starts_checks(),
        no_late_entry(trace),
        0 <= i < trace.len(),
        core0_relies_on_park(trace[i]),
    ensures
        trace[i].core1_spinning(),
{
    lemma_checks_invariant(trace, i, true);
}

/// In every execution from the start of the checks, core 0 erases, programs or
/// reads back flash only if the boot-ROM routines are resolved.
pub proof fn law_flash_is_written_with_resolved_routines(trace: Seq<System>, i: int)
    requires
        is_execution(trace),
        trace[0].starts_checks(),
        0 <= i < trace.len(),
        core0_relies_on_park(trace[i]),
    ensures
        trace[i].rom_resolved,
{
    lemma_checks_invariant(trace, i, false);
}

/// Byte `j` of flash lies in the scratch sector.
pub open spec fn in_scratch_sector(j: int) -> bool {
    FLASH_SCRATCH_OFFSET <= j < FLASH_SCRATCH_OFFSET + FLASH_SECTOR_SIZE
}

/// What the write test has made of flash contents `before`.
pub open spec fn flash_invariant(s: System, before: Seq<u8>) -> bool {
    match s.core0 {
        Core0::Parking(_) => false,
        Core0::Writing(test) => {
            &&& test.wf()
            &&& test.honest()
            &&& s.flash.len() == before.len()
            &&& forall|j: int| 0 <= j < before.len() && !in_scratch_sector(j) ==> #[trigger] s.flash[j] == before[j]
            &&& match test.phase {
                WriteTestPhase::VerifyErase { .. } => {
                    forall|j: int| in_scratch_sector(j) ==> #[trigger] s.flash[j] == 0xFF
                },
                WriteTestPhase::Program => {
                    &&& test.report.erase_ok
                    &&& forall|j: int| in_scratch_sector(j) ==> #[trigger] s.flash[j] == 0xFF
                },
                WriteTestPhase::VerifyProgram { .. } => {
                    &&& test.report.erase_ok
                    &&& forall|j: int|
                        0 <= j < FLASH_PAGE_SIZE ==> #[trigger] s.flash[FLASH_SCRATCH_OFFSET + j] == j
                },
                WriteTestPhase::CopyBoot2 => true,
                WriteTestPhase::Request => true,
                WriteTestPhase::WaitAck { .. } => true,
                WriteTestPhase::CheckAck => true,
                WriteTestPhase::Erase => true,
                _ => test.report.parked ==> test.report.erase_ok && test.report.program_ok,
            }
        },
    }
}

proof fn lemma_flash_invariant_step(s: System, t: System, before: Seq<u8>)
    requires
        flash_invariant(s, before),
        s.steps_to(t),
        before.len() >= FLASH_SCRATCH_OFFSET + FLASH_SECTOR_SIZE,
    ensures
        flash_invariant(t, before),
{
    if t == s.core0_next() {
        let test = s.core0->Writing_0;
        match test.phase {
            WriteTestPhase::VerifyErase { i } => {
                assert(in_scratch_sector(FLASH_SCRATCH_OFFSET + i));
                assert(s.flash[FLASH_SCRATCH_OFFSET + i] == 0xFF);
            },
            WriteTestPhase::Program => {
                assert forall|j: int| 0 <= j < FLASH_PAGE_SIZE implies #[trigger] t.flash[FLASH_SCRATCH_OFFSET + j]
                    == j by {
                    assert(in_scratch_sector(FLASH_SCRATCH_OFFSET + j));
                    assert(s.flash[FLASH_SCRATCH_OFFSET + j] == 0xFF);
                    let b = crate::checks::pattern_bytes()[j];
                    assert(0xFFu8 & b == b) by (bit_vector);
                }
            },
            WriteTestPhase::VerifyProgram { i } => {
                assert(s.flash[FLASH_SCRATCH_OFFSET + i] == i);
            },
            _ => {},
        }
    }
}

/// On an ideal flash chip a write test that core 1 acknowledges finds both the
/// erase and the programming right; and whatever core 1 does, no byte outside
/// the scratch sector changes.
pub proof fn law_write_test_passes_on_ideal_flash(trace: Seq<System>, i: int)
    requires
        is_execution(trace),
        trace[0].core0 == Core0::Writing(WriteTest::initial()),
        trace[0].flash.len() >= FLASH_SCRATCH_OFFSET + FLASH_SECTOR_SIZE,
        0 <= i < trace.len(),
    ensures
        trace[i].core0 matches Core0::Writing(test) && (test.phase is Finished && test.report.parked
            ==> test.report.erase_ok && test.report.program_ok),
        trace[i].flash.len() == trace[0].flash.len(),
        forall|j: int|
            0 <= j < trace[0].flash.len() && !in_scratch_sector(j) ==> #[trigger] trace[i].flash[j]
                == trace[0].flash[j],
{
    lemma_flash_invariant(trace, i);
}

proof fn lemma_flash_invariant(trace: Seq<System>, i: int)
    requires
        is_execution(trace),
        trace[0].core0 == Core0::Writing(WriteTest::initial()),
        trace[0].flash.len() >= FLASH_SCRATCH_OFFSET + FLASH_SECTOR_SIZE,
        0 <= i < trace.len(),
    ensures
        flash_invariant(trace[i], trace[0].flash),
    decreases i,
{
    if i > 0 {
        lemma_flash_invariant(trace, i - 1);
        assert(steps_at(trace, i - 1));
        lemma_flash_invariant_step(trace[i - 1], trace[i], trace[0].flash);
    }
}

/// Core 0 has asked core 1 to park and not yet let it go.
pub open spec fn core0_requests(core0: Core0) -> bool {
    match core0 {
        Core0::Parking(test) => match test.phase {
            ParkTestPhase::WaitAck { .. } => true,
            ParkTestPhase::CheckAck => true,
            ParkTestPhase::ReadBefore => true,
            ParkTestPhase::Hold => true,
            ParkTestPhase::ReadDuring => true,
            ParkTestPhase::Release => true,
            _ => false,
        },
        Core0::Writing(test) => match test.phase {
            WriteTestPhase::WaitAck { .. } => true,
            WriteTestPhase::CheckAck => true,
            WriteTestPhase::Release => true,
            _ => test.writing(),
        },
    }
}

/// The request flag always says what core 0 wants: in particular it is cleared
/// whenever a check has ended, also one that gave up waiting.
pub proof fn law_request_is_cleared_at_the_end(trace: Seq<System>, i: int)
    requires
        is_execution(trace),
        trace[0].request == core0_requests(trace[0].core0),
        0 <= i < trace.len(),
    ensures
        trace[i].request == core0_requests(trace[i].core0),
    decreases i,
{
    if i > 0 {
        law_request_is_cleared_at_the_end(trace, i - 1);
        assert(steps_at(trace, i - 1));
        lemma_request_step(trace[i - 1], trace[i]);
    }
}

proof fn lemma_request_step(s: System, t: System)
    requires
        s.request == core0_requests(s.core0),
        s.steps_to(t),
    ensures
        t.request == core0_requests(t.core0),
{
}

/// Core 1 answers a request at once: from the top of its loop, its next two
/// actions announce it.
pub proof fn law_core1_acknowledges(s: System, popped: bool)
    requires
        s.core1.phase is CheckPark,
        s.request,
    ensures
        s.core1_next(popped).core1_next(popped).ack,
        s.core1_next(popped).core1_next(popped).core1_spinning(),
{
}

/// Core 1 goes once it is released: from looking at a cleared request, its next
/// three actions withdraw the announcement and take it back to the top of its
/// loop, with its round number as it was.
pub proof fn law_core1_goes_when_released(s: System, popped: bool)
    requires
        s.core1.phase is Parked,
        s.park.phase is Poll,
        !s.request,
    ensures
        ({
            let after = s.core1_next(popped).core1_next(popped).core1_next(popped);
            &&& !after.ack
            &&& after.core1 == (Core1 { phase: Core1Phase::CheckPark, round: s.core1.round })
            &&& after.round == s.round
        }),
{
}

} // verus!
