//! Drivers and pins of the Pico 2 board.
//!
//! Core 0 serves all drivers of the board. Core 1 runs a peripheral-free kernel
//! that serves only those with no hardware behind them, or with hardware of its
//! own.
use vstd::prelude::*;

verus! {

/// Number of processes that core 0 supports.
pub const NUM_PROCS: usize = 4;

/// Number of processes that core 1 supports.
pub const NUM_PROCS_H1: usize = 1;

/// Pin of the serial transmitter.
pub const UART_TX_PIN: usize = 0;

/// Pin of the serial receiver.
pub const UART_RX_PIN: usize = 1;

/// Pin of the on-board LED.
pub const LED_PIN: usize = 25;

/// A system-call driver of the board.
#[derive(Clone, Copy, PartialEq, Eq, Debug)]
pub enum Driver {
    Console,
    CycleCount,
    Alarm,
    Gpio,
    Led,
    Ipc,
}

/// Driver numbers under which processes ask for the drivers.
#[derive(Clone, Copy, PartialEq, Eq, Debug)]
pub struct DriverNumbers {
    pub console: usize,
    pub cycle_count: usize,
    pub alarm: usize,
    pub gpio: usize,
    pub led: usize,
    pub ipc: usize,
}

/// `found` is the driver of the first entry of `table` whose number is `num`,
/// and is absent if there is none.
pub open spec fn first_with_number(table: Seq<(usize, Driver)>, num: usize, found: Option<Driver>) -> bool {
    match found {
        Some(d) => exists|i: int|
            0 <= i < table.len() && #[trigger] table[i] == (num, d) && (forall|j: int| 0 <= j < i ==> table[j].0 != num),
        None => forall|j: int| 0 <= j < table.len() ==> table[j].0 != num,
    }
}

/// The platform of core 0.
#[derive(Clone, Copy, PartialEq, Eq, Debug)]
pub struct RaspberryPiPico2 {
    pub numbers: DriverNumbers,
}

impl RaspberryPiPico2 {
    /// The drivers served, in the order in which a number is compared with theirs.
    pub open spec fn table(self) -> Seq<(usize, Driver)> {
        seq![
            (self.numbers.console, Driver::Console),
            (self.numbers.cycle_count, Driver::CycleCount),
            (self.numbers.alarm, Driver::Alarm),
            (self.numbers.gpio, Driver::Gpio),
            (self.numbers.led, Driver::Led),
            (self.numbers.ipc, Driver::Ipc),
        ]
    }

    /// The driver that serves `driver_num`, if any.
    pub fn with_driver(&self, driver_num: usize) -> (found: Option<Driver>)
        ensures
            first_with_number(self.table(), driver_num, found),
    {
        let ghost t = self.table();
        if driver_num == self.numbers.console {
            assert(t[0] == (driver_num, Driver::Console));
            Some(Driver::Console)
        } else if driver_num == self.numbers.cycle_count {
            assert(t[1] == (driver_num, Driver::CycleCount));
            Some(Driver::CycleCount)
        } else if driver_num == self.numbers.alarm {
            assert(t[2] == (driver_num, Driver::Alarm));
            Some(Driver::Alarm)
        } else if driver_num == self.numbers.gpio {
            assert(t[3] == (driver_num, Driver::Gpio));
            Some(Driver::Gpio)
        } else if driver_num == self.numbers.led {
            assert(t[4] == (driver_num, Driver::Led));
            Some(Driver::Led)
        } else if driver_num == self.numbers.ipc {
            assert(t[5] == (driver_num, Driver::Ipc));
            Some(Driver::Ipc)
        } else {
            None
        }
    }
}

/// The platform of core 1.
#[derive(Clone, Copy, PartialEq, Eq, Debug)]
pub struct Core1Platform {
    pub numbers: DriverNumbers,
}

impl Core1Platform {
    /// The drivers served, in the order in which a number is compared with theirs.
    pub open spec fn table(self) -> Seq<(usize, Driver)> {
        seq![(self.numbers.console, Driver::Console), (self.numbers.cycle_count, Driver::CycleCount)]
    }

    /// The driver that serves `driver_num`, if any.
    pub fn with_driver(&self, driver_num: usize) -> (found: Option<Driver>)
        ensures
            first_with_number(self.table(), driver_num, found),
    {
        let ghost t = self.table();
        if driver_num == self.numbers.console {
            assert(t[0] == (driver_num, Driver::Console));
            Some(Driver::Console)
        } else if driver_num == self.numbers.cycle_count {
            assert(t[1] == (driver_num, Driver::CycleCount));
            Some(Driver::CycleCount)
        } else {
            None
        }
    }
}

/// A driver number that core 1 serves reaches the same driver on core 0.
pub proof fn law_core1_drivers_agree_with_core0(numbers: DriverNumbers, num: usize, driver: Driver)
    requires
        first_with_number((Core1Platform { numbers }).table(), num, Some(driver)),
    ensures
        first_with_number((RaspberryPiPico2 { numbers }).table(), num, Some(driver)),
{
    let t1 = (Core1Platform { numbers }).table();
    let t0 = (RaspberryPiPico2 { numbers }).table();
    let i = choose|i: int|
        0 <= i < t1.len() && #[trigger] t1[i] == (num, driver) && (forall|j: int| 0 <= j < i ==> t1[j].0 != num);
    assert(t0[i] == t1[i]);
    assert forall|j: int| 0 <= j < i implies t0[j].0 != num by {
        assert(t0[j] == t1[j]);
    }
}

/// Core 1 offers no driver that core 0 lacks, and lacks exactly the alarm, GPIO,
/// LED and inter-process communication drivers, where those have numbers other
/// than the two that core 1 serves.
pub proof fn law_core1_lacks_exactly_four_drivers(
    numbers: DriverNumbers,
    num: usize,
    core0: Option<Driver>,
    core1: Option<Driver>,
)
    requires
        first_with_number((RaspberryPiPico2 { numbers }).table(), num, core0),
        first_with_number((Core1Platform { numbers }).table(), num, core1),
        !seq![numbers.alarm, numbers.gpio, numbers.led, numbers.ipc].contains(numbers.console),
        !seq![numbers.alarm, numbers.gpio, numbers.led, numbers.ipc].contains(numbers.cycle_count),
    ensures
        core1 is Some ==> core0 == core1,
        core0 is Some && core1 is None <==> num == numbers.alarm || num == numbers.gpio || num == numbers.led || num
            == numbers.ipc,
{
    let t0 = (RaspberryPiPico2 { numbers }).table();
    let t1 = (Core1Platform { numbers }).table();
    let lacking = seq![numbers.alarm, numbers.gpio, numbers.led, numbers.ipc];
    assert(lacking.contains(lacking[0]) && lacking.contains(lacking[1]) && lacking.contains(lacking[2])
        && lacking.contains(lacking[3]));
    if core1 is Some {
        law_core1_drivers_agree_with_core0(numbers, num, core1->0);
        law_driver_lookup_is_unique(t0, num, core0, core1);
    }
    assert(t0[0].0 == numbers.console && t0[1].0 == numbers.cycle_count && t0[2].0 == numbers.alarm);
    assert(t0[3].0 == numbers.gpio && t0[4].0 == numbers.led && t0[5].0 == numbers.ipc);
    assert(t1[0].0 == numbers.console && t1[1].0 == numbers.cycle_count);
}

/// A driver number selects at most one driver.
pub proof fn law_driver_lookup_is_unique(
    table: Seq<(usize, Driver)>,
    num: usize,
    a: Option<Driver>,
    b: Option<Driver>,
)
    requires
        first_with_number(table, num, a),
        first_with_number(table, num, b),
    ensures
        a == b,
{
}

/// The pin behind GPIO `index` of the GPIO driver: pins keep their numbers, and
/// those of the serial line and the LED are left out.
pub fn gpio_pin(index: usize) -> (pin: Option<usize>)
    ensures
        pin == (if 2 <= index <= 24 || 26 <= index <= 29 { Some(index) } else { None::<usize> }),
        pin != Some(UART_TX_PIN) && pin != Some(UART_RX_PIN) && pin != Some(LED_PIN),
{
    if (2 <= index && index <= 24) || (26 <= index && index <= 29) {
        Some(index)
    } else {
        None
    }
}

/// The pins whose input buffers are turned off at start-up: 26 to 29, in order.
pub fn deactivated_pads() -> (pins: [usize; 4])
    ensures
        pins@ == seq![26usize, 27, 28, 29],
{
    let pins: [usize; 4] = [26, 27, 28, 29];
    assert(pins@ =~= seq![26usize, 27, 28, 29]);
    pins
}

/// Core 0 serves each driver under its own number and no other; where two drivers
/// share a number, the earlier of console, cycle count, alarm, GPIO, LED and
/// inter-process communication has it.
pub proof fn law_core0_serves_each_driver_under_its_number(
    board: RaspberryPiPico2,
    num: usize,
    found: Option<Driver>,
)
    requires
        call_ensures(RaspberryPiPico2::with_driver, (&board, num), found),
    ensures
        found == Some(Driver::Console) <==> num == board.numbers.console,
        found == Some(Driver::CycleCount) <==> num == board.numbers.cycle_count && num != board.numbers.console,
        found == Some(Driver::Alarm) <==> num == board.numbers.alarm && num != board.numbers.console && num
            != board.numbers.cycle_count,
        found == Some(Driver::Gpio) <==> num == board.numbers.gpio && num != board.numbers.console && num
            != board.numbers.cycle_count && num != board.numbers.alarm,
        found == Some(Driver::Led) <==> num == board.numbers.led && num != board.numbers.console && num
            != board.numbers.cycle_count && num != board.numbers.alarm && num != board.numbers.gpio,
        found == Some(Driver::Ipc) <==> num == board.numbers.ipc && num != board.numbers.console && num
            != board.numbers.cycle_count && num != board.numbers.alarm && num != board.numbers.gpio && num
            != board.numbers.led,
{
    let t = board.table();
    assert(t[0] == (board.numbers.console, Driver::Console));
    assert(t[1] == (board.numbers.cycle_count, Driver::CycleCount));
    assert(t[2] == (board.numbers.alarm, Driver::Alarm));
    assert(t[3] == (board.numbers.gpio, Driver::Gpio));
    assert(t[4] == (board.numbers.led, Driver::Led));
    assert(t[5] == (board.numbers.ipc, Driver::Ipc));
}

/// Core 1 serves the console and the cycle counter under their own numbers, the
/// console first, and nothing else.
pub proof fn law_core1_serves_two_drivers(platform: Core1Platform, num: usize, found: Option<Driver>)
    requires
        call_ensures(Core1Platform::with_driver, (&platform, num), found),
    ensures
        found == Some(Driver::Console) <==> num == platform.numbers.console,
        found == Some(Driver::CycleCount) <==> num == platform.numbers.cycle_count && num != platform.numbers.console,
        found is None <==> num != platform.numbers.console && num != platform.numbers.cycle_count,
{
    let t = platform.table();
    assert(t[0] == (platform.numbers.console, Driver::Console));
    assert(t[1] == (platform.numbers.cycle_count, Driver::CycleCount));
}

/// Each of the chip's 30 pins either belongs to the serial line or the LED, or is
/// served by the GPIO driver under its own number; no other index has a pin.
pub proof fn law_pins_are_served_or_reserved(index: usize, pin: Option<usize>)
    requires
        call_ensures(gpio_pin, (index,), pin),
    ensures
        pin is Some <==> index < 30 && index != UART_TX_PIN && index != UART_RX_PIN && index != LED_PIN,
        pin is Some ==> pin == Some(index),
        UART_TX_PIN == 0 && UART_RX_PIN == 1 && LED_PIN == 25,
{
}

/// The pads that are turned off are the last four of the chip's 30, in order, and
/// the GPIO driver serves them all.
pub proof fn law_deactivated_pads_are_the_last_four(pins: [usize; 4], i: int, pin: Option<usize>)
    requires
        call_ensures(deactivated_pads, (), pins),
        0 <= i < 4,
        call_ensures(gpio_pin, (pins@[i],), pin),
    ensures
        pins@[i] == 30 - 4 + i,
        pin == Some(pins@[i]),
{
}

} // verus!
