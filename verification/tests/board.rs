use pico_lockstep::board::{deactivated_pads, gpio_pin, Core1Platform, Driver, DriverNumbers, RaspberryPiPico2};
use pico_lockstep::boot::{handshake_fingerprint, kept_out_of_reset, kernel_round, BootStep, KeptPeripheral};
use pico_lockstep::core1::{core1_entry, Core1, Core1Action};
use pico_lockstep::shared::{KernelRound, Reply};
use pico_lockstep::clocks::{init_clocks, AuxiliarySource, ClockSource, ClockStep, PllClock};

fn numbers() -> DriverNumbers {
    DriverNumbers { console: 1, cycle_count: 0x20, alarm: 0, gpio: 4, led: 2, ipc: 0x10000 }
}

#[test]
fn core0_serves_all_drivers() {
    let board = RaspberryPiPico2 { numbers: numbers() };
    assert_eq!(board.with_driver(1), Some(Driver::Console));
    assert_eq!(board.with_driver(0x20), Some(Driver::CycleCount));
    assert_eq!(board.with_driver(0), Some(Driver::Alarm));
    assert_eq!(board.with_driver(4), Some(Driver::Gpio));
    assert_eq!(board.with_driver(2), Some(Driver::Led));
    assert_eq!(board.with_driver(0x10000), Some(Driver::Ipc));
    assert_eq!(board.with_driver(3), None);
}

#[test]
fn core1_serves_console_and_cycle_count_only() {
    let board = RaspberryPiPico2 { numbers: numbers() };
    let core1 = Core1Platform { numbers: numbers() };
    assert_eq!(core1.with_driver(1), Some(Driver::Console));
    assert_eq!(core1.with_driver(0x20), Some(Driver::CycleCount));
    for num in [0usize, 2, 3, 4, 0x10000] {
        assert_eq!(core1.with_driver(num), None);
    }
    for num in 0..0x100usize {
        if let Some(driver) = core1.with_driver(num) {
            assert_eq!(board.with_driver(num), Some(driver));
        }
    }
}

#[test]
fn first_driver_wins_a_shared_number() {
    let mut shared = numbers();
    shared.alarm = 1;
    assert_eq!(RaspberryPiPico2 { numbers: shared }.with_driver(1), Some(Driver::Console));
}

#[test]
fn gpio_leaves_out_serial_and_led_pins() {
    let served: Vec<usize> = (0..40).filter_map(gpio_pin).collect();
    let expected: Vec<usize> = (2..25).chain(26..30).collect();
    assert_eq!(served, expected);
    assert_eq!(gpio_pin(25), None);
    assert_eq!(gpio_pin(usize::MAX), None);
}

#[test]
fn analog_pads_are_turned_off() {
    assert_eq!(deactivated_pads(), [26, 27, 28, 29]);
}

#[test]
fn boot_visits_every_stage_once() {
    let expected = [
        BootStep::InitChip,
        BootStep::ResetPeripherals,
        BootStep::InitClocks,
        BootStep::UnresetPeripherals,
        BootStep::ConfigurePins,
        BootStep::LaunchCore1,
        BootStep::BuildPlatform,
        BootStep::LoadProcesses,
        BootStep::Handshake,
        BootStep::LookupRomFns,
        BootStep::ParkTest,
        BootStep::WriteTest,
        BootStep::DrainKernel,
        BootStep::KernelLoop,
        BootStep::KernelLoop,
    ];
    let mut step = BootStep::first();
    for e in expected {
        assert_eq!(step, e);
        step = step.next();
    }
}

#[test]
fn clocks_come_up_in_order() {
    let steps = init_clocks();
    assert_eq!(steps[0], ClockStep::DisableResus);
    assert_eq!(steps[1], ClockStep::InitXosc);
    assert_eq!(steps[4], ClockStep::ResetPlls);
    assert_eq!(steps[5], ClockStep::UnresetPlls { wait: true });
    assert_eq!(
        steps[6],
        ClockStep::PllInit {
            pll: PllClock::Sys,
            xosc_mhz: 12,
            ref_div: 1,
            vco_hz: 1_500_000_000,
            post_div1: 6,
            post_div2: 2
        }
    );
    assert_eq!(
        steps[7],
        ClockStep::PllInit {
            pll: PllClock::Usb,
            xosc_mhz: 12,
            ref_div: 1,
            vco_hz: 480_000_000,
            post_div1: 5,
            post_div2: 2
        }
    );
    assert_eq!(
        steps[8],
        ClockStep::ConfigureReference {
            source: ClockSource::Xosc,
            aux: AuxiliarySource::PllUsb,
            source_hz: 12_000_000,
            hz: 12_000_000
        }
    );
    assert_eq!(
        steps[12],
        ClockStep::ConfigureHstx { aux: AuxiliarySource::PllUsb, source_hz: 48_000_000, hz: 46_875 }
    );
    assert_eq!(steps[13], ClockStep::ConfigurePeripheral { aux: AuxiliarySource::System, hz: 125_000_000 });
}

#[test]
fn pll_frequencies_divide_out() {
    for step in init_clocks() {
        if let ClockStep::PllInit { pll, xosc_mhz, ref_div, vco_hz, post_div1, post_div2 } = step {
            assert_eq!(vco_hz % (xosc_mhz * 1_000_000 / ref_div), 0);
            let out = vco_hz / post_div1 / post_div2;
            match pll {
                PllClock::Sys => assert_eq!(out, 125_000_000),
                PllClock::Usb => assert_eq!(out, 48_000_000),
            }
        }
    }
}

#[test]
fn clock_inputs_run_before_use() {
    let mut sys = false;
    let mut usb = false;
    let mut system = false;
    for step in init_clocks() {
        let aux = match step {
            ClockStep::ConfigureReference { aux, .. }
            | ClockStep::ConfigureSystem { aux, .. }
            | ClockStep::ConfigureUsb { aux, .. }
            | ClockStep::ConfigureAdc { aux, .. }
            | ClockStep::ConfigureHstx { aux, .. }
            | ClockStep::ConfigurePeripheral { aux, .. } => Some(aux),
            _ => None,
        };
        match aux {
            Some(AuxiliarySource::PllSys) => assert!(sys),
            Some(AuxiliarySource::PllUsb) => assert!(usb),
            Some(AuxiliarySource::System) => assert!(system),
            None => {}
        }
        match step {
            ClockStep::PllInit { pll: PllClock::Sys, .. } => sys = true,
            ClockStep::PllInit { pll: PllClock::Usb, .. } => usb = true,
            ClockStep::ConfigureSystem { source, source_hz, .. } => {
                assert_eq!(source, ClockSource::Auxiliary);
                assert_eq!(source_hz, 125_000_000);
                system = true;
            }
            _ => {}
        }
    }
}

#[test]
fn usb_adc_and_hstx_take_the_usb_pll() {
    let steps = init_clocks();
    assert_eq!(
        steps[10],
        ClockStep::ConfigureUsb { aux: AuxiliarySource::PllUsb, source_hz: 48_000_000, hz: 48_000_000 }
    );
    assert_eq!(
        steps[11],
        ClockStep::ConfigureAdc { aux: AuxiliarySource::PllUsb, source_hz: 48_000_000, hz: 48_000_000 }
    );
}

#[test]
fn flash_interface_and_plls_stay_out_of_reset() {
    assert_eq!(
        kept_out_of_reset(),
        [KeptPeripheral::IoQspi, KeptPeripheral::PadsQspi, KeptPeripheral::PllUsb, KeptPeripheral::PllSys]
    );
}

#[test]
fn cores_meet_with_the_same_fingerprint() {
    assert_eq!(handshake_fingerprint(), 0);
    let mut core = Core1::new();
    assert_eq!(
        core1_entry(&mut core, Reply::Done),
        Core1Action::Handshake { fingerprint: handshake_fingerprint() }
    );
}

#[test]
fn core0_kernel_may_sleep_and_serves_ipc() {
    assert_eq!(kernel_round(), KernelRound { no_sleep: false, with_ipc: true });
}

#[test]
fn core1_lacks_exactly_four_drivers() {
    let n = numbers();
    let board = RaspberryPiPico2 { numbers: n };
    let core1 = Core1Platform { numbers: n };
    for num in (0..0x100usize).chain([0x10000]) {
        let lacking = board.with_driver(num).is_some() && core1.with_driver(num).is_none();
        assert_eq!(lacking, [n.alarm, n.gpio, n.led, n.ipc].contains(&num));
    }
}
