use pico_lockstep::checks::{
    test_pattern, ParkReport, ParkTest, ParkTestAction, WriteTest, WriteTestAction, FLASH_BASE, FLASH_SCRATCH_OFFSET, POLL_LIMIT,
};
use pico_lockstep::core1::{
    core1_entry, core1_flash_park_loop, Core1, Core1Action, Core1Phase, ParkAction, ParkLoop, CORE1_PARK_BUF_LEN,
};
use pico_lockstep::shared::{KernelRound, Reply};

/// Core 1 and the variables it shares with core 0.
struct Machine {
    core1: Core1,
    park: ParkLoop,
    request: bool,
    ack: bool,
    stage: u32,
    round: u32,
    events: u32,
    dispatched: u32,
    counted: u32,
    buffer: [u32; CORE1_PARK_BUF_LEN],
    flash: Vec<u8>,
}

impl Machine {
    fn new() -> Self {
        Machine {
            core1: Core1::new(),
            park: ParkLoop::new(),
            request: false,
            ack: false,
            stage: 0,
            round: 0,
            events: 0,
            dispatched: 0,
            counted: 0,
            buffer: [0; CORE1_PARK_BUF_LEN],
            flash: vec![0x5a; 0x40_0000],
        }
    }

    fn step_core1(&mut self) {
        let reply = match self.core1.action() {
            Core1Action::StoreStage(stage) => {
                self.stage = stage;
                Reply::Done
            }
            Core1Action::LoadRequest => {
                self.park = ParkLoop::new();
                Reply::Flag(self.request)
            }
            Core1Action::Park => {
                let reply = match self.park.action() {
                    ParkAction::StoreAck(on) => {
                        self.ack = on;
                        Reply::Done
                    }
                    ParkAction::LoadRequest => Reply::Flag(self.request),
                    ParkAction::WriteBuffer { index, value } => {
                        self.buffer[index] = value;
                        Reply::Done
                    }
                    ParkAction::Return => {
                        core1_entry(&mut self.core1, Reply::Done);
                        return;
                    }
                };
                core1_flash_park_loop(&mut self.park, reply);
                return;
            }
            Core1Action::StoreRound(round) => {
                self.round = round;
                Reply::Done
            }
            Core1Action::PopEvent => {
                let some = self.events > 0;
                if some {
                    self.events -= 1;
                }
                Reply::Flag(some)
            }
            Core1Action::DispatchEvent => {
                self.dispatched += 1;
                Reply::Done
            }
            Core1Action::CountEvent => {
                self.counted += 1;
                Reply::Done
            }
            _ => Reply::Done,
        };
        core1_entry(&mut self.core1, reply);
    }

    fn step_park_test(&mut self, test: &mut ParkTest) {
        let reply = match test.action() {
            ParkTestAction::LoadStage { .. } => Reply::Word(self.stage),
            ParkTestAction::StoreRequest(on) => {
                self.request = on;
                Reply::Done
            }
            ParkTestAction::LoadAck { .. } => Reply::Flag(self.ack),
            ParkTestAction::LoadRound { .. } => Reply::Word(self.round),
            ParkTestAction::Spin { times } => {
                assert_eq!(times, 200_000);
                Reply::Done
            }
            ParkTestAction::Finish => Reply::Done,
        };
        test.step(reply);
    }

    fn step_write_test(&mut self, test: &mut WriteTest) {
        let reply = match test.action() {
            WriteTestAction::InitBoot2RamCopy => Reply::Done,
            WriteTestAction::StoreRequest(on) => {
                self.request = on;
                Reply::Done
            }
            WriteTestAction::LoadAck { .. } => Reply::Flag(self.ack),
            WriteTestAction::EraseSector { offset } => {
                assert!(self.ack);
                self.flash[offset as usize..offset as usize + 4096].fill(0xff);
                Reply::Done
            }
            WriteTestAction::ProgramPattern { offset } => {
                assert!(self.ack);
                for (i, b) in test_pattern().iter().enumerate() {
                    self.flash[offset as usize + i] &= *b;
                }
                Reply::Done
            }
            WriteTestAction::ReadByte { addr } => Reply::Byte(self.flash[addr - FLASH_BASE]),
            WriteTestAction::Finish => Reply::Done,
        };
        test.step(reply);
    }
}

fn run_park_test(machine: &mut Machine, core1_steps: usize) -> ParkTest {
    let mut test = ParkTest::new();
    while test.action() != ParkTestAction::Finish {
        machine.step_park_test(&mut test);
        for _ in 0..core1_steps {
            machine.step_core1();
        }
    }
    test
}

fn run_write_test(machine: &mut Machine, core1_steps: usize) -> WriteTest {
    let mut test = WriteTest::new();
    while test.action() != WriteTestAction::Finish {
        machine.step_write_test(&mut test);
        for _ in 0..core1_steps {
            machine.step_core1();
        }
    }
    test
}

#[test]
fn core1_reports_its_stages() {
    let mut core = Core1::new();
    let mut actions = vec![core.action()];
    for _ in 0..5 {
        actions.push(core1_entry(&mut core, Reply::Done));
    }
    assert_eq!(
        actions,
        vec![
            Core1Action::StoreStage(1),
            Core1Action::Handshake { fingerprint: 0 },
            Core1Action::StoreStage(2),
            Core1Action::BuildPlatform,
            Core1Action::StoreStage(3),
            Core1Action::LoadRequest,
        ]
    );
}

#[test]
fn unparked_iteration_drains_channel_and_counts_a_round() {
    let mut core = Core1 { phase: Core1Phase::CheckPark, round: 41 };
    let replies = [
        Reply::Flag(false),
        Reply::Done,
        Reply::Flag(true),
        Reply::Done,
        Reply::Done,
        Reply::Flag(true),
        Reply::Done,
        Reply::Done,
        Reply::Flag(false),
        Reply::Done,
        Reply::Done,
        Reply::Done,
    ];
    let actions: Vec<Core1Action> = replies.iter().map(|r| core1_entry(&mut core, *r)).collect();
    assert_eq!(
        actions,
        vec![
            Core1Action::StoreRound(42),
            Core1Action::PopEvent,
            Core1Action::DispatchEvent,
            Core1Action::CountEvent,
            Core1Action::PopEvent,
            Core1Action::DispatchEvent,
            Core1Action::CountEvent,
            Core1Action::PopEvent,
            Core1Action::KernelLoop(KernelRound { no_sleep: true, with_ipc: false }),
            Core1Action::ReplayTxDone,
            Core1Action::SpinHint,
            Core1Action::LoadRequest,
        ]
    );
    assert_eq!(core.round, 42);
}

#[test]
fn parked_iteration_counts_no_round() {
    let mut core = Core1 { phase: Core1Phase::CheckPark, round: 41 };
    assert_eq!(core1_entry(&mut core, Reply::Flag(true)), Core1Action::Park);
    assert_eq!(core1_entry(&mut core, Reply::Done), Core1Action::LoadRequest);
    assert_eq!(core, Core1 { phase: Core1Phase::CheckPark, round: 41 });
}

#[test]
fn park_loop_cycles_through_its_buffer() {
    let mut park = ParkLoop::new();
    assert_eq!(park.action(), ParkAction::StoreAck(true));
    assert_eq!(core1_flash_park_loop(&mut park, Reply::Done), ParkAction::LoadRequest);
    for n in 0..200u32 {
        assert_eq!(
            core1_flash_park_loop(&mut park, Reply::Flag(true)),
            ParkAction::WriteBuffer { index: (n % 64) as usize, value: n }
        );
        assert_eq!(core1_flash_park_loop(&mut park, Reply::Done), ParkAction::LoadRequest);
    }
    assert_eq!(core1_flash_park_loop(&mut park, Reply::Flag(false)), ParkAction::StoreAck(false));
    assert_eq!(core1_flash_park_loop(&mut park, Reply::Done), ParkAction::Return);
}

#[test]
fn park_loop_counter_wraps() {
    let mut park = ParkLoop::new();
    core1_flash_park_loop(&mut park, Reply::Done);
    park.i = u32::MAX;
    assert_eq!(
        core1_flash_park_loop(&mut park, Reply::Flag(true)),
        ParkAction::WriteBuffer { index: 63, value: u32::MAX }
    );
    core1_flash_park_loop(&mut park, Reply::Done);
    assert_eq!(
        core1_flash_park_loop(&mut park, Reply::Flag(true)),
        ParkAction::WriteBuffer { index: 0, value: 0 }
    );
}

#[test]
fn park_test_sees_core1_stop_and_resume() {
    for core1_steps in 1..8 {
        let mut machine = Machine::new();
        machine.events = 5;
        let report = run_park_test(&mut machine, core1_steps).report;
        assert!(report.acked);
        assert!(report.released);
        assert!(report.resumed);
        assert_eq!(report.round_before_park, report.round_during_park);
        assert!(!machine.request);
        assert_eq!(machine.dispatched, 5);
        assert_eq!(machine.counted, 5);
    }
}

#[test]
fn park_test_gives_up_on_a_dead_core1() {
    let mut machine = Machine::new();
    let mut test = ParkTest::new();
    let mut actions = 0u64;
    while test.action() != ParkTestAction::Finish {
        machine.step_park_test(&mut test);
        actions += 1;
    }
    let report = test.report;
    assert!(!report.acked);
    assert!(report.released);
    assert!(!report.resumed);
    assert_eq!(actions, 3 * (POLL_LIMIT as u64 + 1) + 1 + 8);
}

#[test]
fn wait_looks_once_more_than_its_limit() {
    let mut test = ParkTest::new();
    assert_eq!(test.action(), ParkTestAction::LoadStage { spin_first: false });
    for _ in 0..POLL_LIMIT {
        assert_eq!(test.step(Reply::Word(0)), ParkTestAction::LoadStage { spin_first: true });
    }
    assert_eq!(test.step(Reply::Word(0)), ParkTestAction::StoreRequest(true));
}

#[test]
fn late_acknowledgement_still_counts() {
    let mut test = ParkTest::new();
    test.step(Reply::Word(3));
    test.step(Reply::Done);
    for _ in 0..=POLL_LIMIT {
        test.step(Reply::Flag(false));
    }
    test.step(Reply::Flag(true));
    assert!(test.report.acked);
}

#[test]
fn resume_needs_a_later_round() {
    let mut test = ParkTest::new();
    test.step(Reply::Word(3));
    test.step(Reply::Done);
    test.step(Reply::Flag(true));
    test.step(Reply::Flag(true));
    test.step(Reply::Word(10));
    assert_eq!(test.step(Reply::Done), ParkTestAction::LoadRound { spin_first: false });
    assert_eq!(test.step(Reply::Word(11)), ParkTestAction::StoreRequest(false));
    test.step(Reply::Done);
    test.step(Reply::Flag(false));
    assert_eq!(test.step(Reply::Flag(false)), ParkTestAction::LoadRound { spin_first: false });
    assert_eq!(test.step(Reply::Word(11)), ParkTestAction::LoadRound { spin_first: true });
    assert_eq!(test.step(Reply::Word(12)), ParkTestAction::LoadRound { spin_first: false });
    assert_eq!(test.step(Reply::Word(11)), ParkTestAction::Finish);
    assert!(!test.report.resumed);
    assert_eq!(test.report.round_before_park, 10);
    assert_eq!(test.report.round_during_park, 11);
}

#[test]
fn write_test_passes_on_ideal_flash() {
    for core1_steps in 1..8 {
        let mut machine = Machine::new();
        assert!(run_park_test(&mut machine, core1_steps).report.released);
        let before = machine.flash.clone();
        let report = run_write_test(&mut machine, core1_steps).report;
        assert!(report.parked && report.erase_ok && report.program_ok && report.released);
        let start = FLASH_SCRATCH_OFFSET as usize;
        assert_eq!(machine.flash[..start], before[..start]);
        assert_eq!(machine.flash[start + 4096..], before[start + 4096..]);
        assert_eq!(machine.flash[start..start + 256], test_pattern());
    }
}

#[test]
fn write_test_writes_nothing_without_acknowledgement() {
    let mut machine = Machine::new();
    let before = machine.flash.clone();
    let report = run_write_test(&mut machine, 0).report;
    assert!(!report.parked && !report.erase_ok && !report.program_ok);
    assert!(report.released);
    assert!(!machine.request);
    assert_eq!(machine.flash, before);
}

fn writing() -> WriteTest {
    let mut test = WriteTest::new();
    assert_eq!(test.action(), WriteTestAction::InitBoot2RamCopy);
    assert_eq!(test.step(Reply::Done), WriteTestAction::StoreRequest(true));
    assert_eq!(test.step(Reply::Done), WriteTestAction::LoadAck { spin_first: false });
    assert_eq!(test.step(Reply::Flag(true)), WriteTestAction::LoadAck { spin_first: false });
    assert_eq!(test.step(Reply::Flag(true)), WriteTestAction::EraseSector { offset: 0x20_0000 });
    test
}

#[test]
fn erase_check_stops_at_first_wrong_byte() {
    let mut test = writing();
    assert_eq!(test.step(Reply::Done), WriteTestAction::ReadByte { addr: 0x1020_0000 });
    for i in 1..16usize {
        assert_eq!(test.step(Reply::Byte(0xff)), WriteTestAction::ReadByte { addr: 0x1020_0000 + i });
    }
    assert_eq!(test.step(Reply::Byte(0xfe)), WriteTestAction::ProgramPattern { offset: 0x20_0000 });
    assert!(!test.report.erase_ok);
}

#[test]
fn erase_check_looks_at_sixteen_bytes() {
    let mut test = writing();
    test.step(Reply::Done);
    for _ in 0..15 {
        test.step(Reply::Byte(0xff));
    }
    assert!(!test.report.erase_ok);
    assert_eq!(test.step(Reply::Byte(0xff)), WriteTestAction::ProgramPattern { offset: 0x20_0000 });
    assert!(test.report.erase_ok);
}

#[test]
fn program_check_compares_whole_page() {
    for wrong in [None, Some(0usize), Some(17), Some(255)] {
        let mut test = writing();
        test.step(Reply::Done);
        test.step(Reply::Byte(0));
        let mut action = test.step(Reply::Done);
        let mut reads = 0usize;
        while let WriteTestAction::ReadByte { addr } = action {
            let i = addr - 0x1020_0000;
            assert_eq!(i, reads);
            reads += 1;
            let byte = if wrong == Some(i) { !(i as u8) } else { i as u8 };
            action = test.step(Reply::Byte(byte));
        }
        assert_eq!(action, WriteTestAction::StoreRequest(false));
        assert_eq!(test.report.program_ok, wrong.is_none());
        assert_eq!(reads, wrong.map_or(256, |i| i + 1));
        assert!(!test.report.erase_ok);
    }
}

#[test]
fn stuck_acknowledgement_is_reported() {
    let mut test = writing();
    test.step(Reply::Done);
    test.step(Reply::Byte(0));
    test.step(Reply::Done);
    assert_eq!(test.step(Reply::Byte(1)), WriteTestAction::StoreRequest(false));
    test.step(Reply::Done);
    for _ in 0..=POLL_LIMIT {
        test.step(Reply::Flag(true));
    }
    assert_eq!(test.step(Reply::Flag(true)), WriteTestAction::Finish);
    assert!(!test.report.released);
    assert!(test.report.parked);
}

#[test]
fn pattern_counts_up() {
    let pattern = test_pattern();
    assert_eq!(pattern[0], 0);
    assert_eq!(pattern[255], 255);
    for i in 0..256usize {
        assert_eq!(pattern[i] as usize, i);
    }
}

#[test]
fn leftover_acknowledgement_is_taken_at_face_value() {
    let mut machine = Machine::new();
    while machine.core1.action() != Core1Action::LoadRequest {
        machine.step_core1();
    }
    machine.request = true;
    while !machine.ack {
        machine.step_core1();
    }
    machine.request = false;
    while machine.park.action() != ParkAction::StoreAck(false) {
        machine.step_core1();
    }
    let mut test = WriteTest::new();
    for _ in 0..4 {
        machine.step_write_test(&mut test);
    }
    assert_eq!(test.action(), WriteTestAction::EraseSector { offset: 0x20_0000 });
    assert_eq!(machine.park.action(), ParkAction::StoreAck(false));
}

#[test]
fn checks_clear_their_request() {
    let mut machine = Machine::new();
    run_park_test(&mut machine, 3);
    assert!(!machine.request);
    run_write_test(&mut machine, 3);
    assert!(!machine.request);
    assert!(!machine.ack);
}

#[test]
fn core1_answers_and_leaves_promptly() {
    let mut machine = Machine::new();
    while machine.core1.action() != Core1Action::LoadRequest {
        machine.step_core1();
    }
    machine.request = true;
    machine.step_core1();
    machine.step_core1();
    assert!(machine.ack);
    assert_eq!(machine.park.action(), ParkAction::LoadRequest);
    machine.request = false;
    for _ in 0..3 {
        machine.step_core1();
    }
    assert!(!machine.ack);
    assert_eq!(machine.core1.action(), Core1Action::LoadRequest);
    assert_eq!(machine.round, 0);
}

#[test]
fn write_test_is_bounded() {
    let mut test = WriteTest::new();
    let mut actions = 0u64;
    let mut released = false;
    while test.action() != WriteTestAction::Finish {
        let reply = match test.action() {
            WriteTestAction::LoadAck { .. } => Reply::Flag(released || actions >= 2 + POLL_LIMIT as u64),
            WriteTestAction::StoreRequest(on) => {
                released = !on;
                Reply::Done
            }
            WriteTestAction::ReadByte { addr } => {
                Reply::Byte(if test.report.erase_ok { (addr - 0x1020_0000) as u8 } else { 0xff })
            }
            _ => Reply::Done,
        };
        test.step(reply);
        actions += 1;
    }
    assert!(test.report.parked && test.report.erase_ok && test.report.program_ok && !test.report.released);
    assert_eq!(actions, 2 * (POLL_LIMIT as u64 + 1) + 16 + 256 + 7);
}

#[test]
fn write_test_needs_routines_and_a_withdrawn_acknowledgement() {
    for bits in 0..16u32 {
        let rom = bits & 1 != 0;
        let park = ParkReport {
            acked: bits & 2 != 0,
            round_before_park: 5,
            round_during_park: 5,
            released: bits & 4 != 0,
            resumed: bits & 8 != 0,
        };
        let mut test = WriteTest::begin(rom, &park);
        if rom && park.released {
            assert_eq!(test, WriteTest::new());
        } else {
            assert_eq!(test.action(), WriteTestAction::LoadAck { spin_first: false });
            let mut other = test;
            assert_eq!(test.step(Reply::Flag(true)), WriteTestAction::Finish);
            assert!(!test.report.released);
            assert_eq!(other.step(Reply::Flag(false)), WriteTestAction::Finish);
            assert!(other.report.released);
            assert!(!other.report.parked && !other.report.erase_ok && !other.report.program_ok);
        }
    }
}

#[test]
fn event_counter_and_dispatch_follow_the_channel() {
    let mut machine = Machine::new();
    while machine.core1.action() != Core1Action::LoadRequest {
        machine.step_core1();
    }
    machine.events = 9;
    for _ in 0..(6 + 3 * 9) {
        machine.step_core1();
    }
    assert_eq!(machine.core1, Core1 { phase: Core1Phase::CheckPark, round: 1 });
    assert_eq!((machine.events, machine.dispatched, machine.counted, machine.round), (0, 9, 9, 1));
}

#[test]
fn late_core1_is_asked_again() {
    let mut machine = Machine::new();
    let park = run_park_test(&mut machine, 0).report;
    assert!(!park.acked && park.released);
    let mut test = WriteTest::begin(true, &park);
    while test.action() != WriteTestAction::Finish {
        machine.step_write_test(&mut test);
        machine.step_core1();
    }
    let report = test.report;
    assert!(report.parked && report.erase_ok && report.program_ok && report.released);
    let start = FLASH_SCRATCH_OFFSET as usize;
    assert_eq!(machine.flash[start..start + 256], test_pattern());
}

#[test]
fn write_test_is_refused_while_acknowledgement_stands() {
    let mut machine = Machine::new();
    while !(machine.core1.action() == Core1Action::Park && machine.ack) {
        machine.request = true;
        machine.step_core1();
    }
    machine.request = false;
    let before = machine.flash.clone();
    let park = run_park_test(&mut machine, 0).report;
    assert!(park.acked && !park.released);
    let mut test = WriteTest::begin(true, &park);
    while test.action() != WriteTestAction::Finish {
        machine.step_write_test(&mut test);
    }
    assert!(!test.report.parked && !test.report.released && !machine.request);
    assert_eq!(machine.flash, before);
}
