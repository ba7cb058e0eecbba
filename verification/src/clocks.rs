//! Clock bring-up of the Pico 2 board.
//!
//! The 12 MHz crystal feeds two PLLs: 12 MHz * 125 = 1500 MHz, divided by 6 and
//! by 2, gives the 125 MHz system clock; 12 MHz * 40 = 480 MHz, divided by 5 and
//! by 2, gives the 48 MHz from which the USB, ADC and HSTX clocks are taken.
use vstd::prelude::*;

verus! {

/// The two PLLs.
#[derive(Clone, Copy, PartialEq, Eq, Debug)]
pub enum PllClock {
    Sys,
    Usb,
}

/// Where the reference or system clock comes from.
#[derive(Clone, Copy, PartialEq, Eq, Debug)]
pub enum ClockSource {
    Xosc,
    Auxiliary,
}

/// Auxiliary input of a clock.
#[derive(Clone, Copy, PartialEq, Eq, Debug)]
pub enum AuxiliarySource {
    PllSys,
    PllUsb,
    System,
}

/// One operation on the clock hardware. Frequencies are in Hz unless the field
/// says otherwise; `source_hz` is the frequency of the chosen input and `hz` the
/// one wanted.
#[derive(Clone, Copy, PartialEq, Eq, Debug)]
pub enum ClockStep {
    /// Turn the clock resuscitation circuit off.
    DisableResus,
    /// Start the external oscillator.
    InitXosc,
    /// Take the system clock off its auxiliary input.
    DisableSysAux,
    /// Take the reference clock off its auxiliary input.
    DisableRefAux,
    /// Put both PLLs into reset.
    ResetPlls,
    /// Take both PLLs out of reset, and wait until they are if `wait` is set.
    UnresetPlls { wait: bool },
    /// Start a PLL.
    PllInit { pll: PllClock, xosc_mhz: u32, ref_div: u32, vco_hz: u32, post_div1: u32, post_div2: u32 },
    ConfigureReference { source: ClockSource, aux: AuxiliarySource, source_hz: u32, hz: u32 },
    ConfigureSystem { source: ClockSource, aux: AuxiliarySource, source_hz: u32, hz: u32 },
    ConfigureUsb { aux: AuxiliarySource, source_hz: u32, hz: u32 },
    ConfigureAdc { aux: AuxiliarySource, source_hz: u32, hz: u32 },
    ConfigureHstx { aux: AuxiliarySource, source_hz: u32, hz: u32 },
    /// Select and enable the peripheral clock, which has no divider.
    ConfigurePeripheral { aux: AuxiliarySource, hz: u32 },
}

/// The bring-up sequence.
pub open spec fn clock_plan() -> Seq<ClockStep> {
    seq![
        ClockStep::DisableResus,
        ClockStep::InitXosc,
        ClockStep::DisableSysAux,
        ClockStep::DisableRefAux,
        ClockStep::ResetPlls,
        ClockStep::UnresetPlls { wait: true },
        ClockStep::PllInit {
            pll: PllClock::Sys,
            xosc_mhz: 12,
            ref_div: 1,
            vco_hz: 1_500_000_000,
            post_div1: 6,
            post_div2: 2,
        },
        ClockStep::PllInit {
            pll: PllClock::Usb,
            xosc_mhz: 12,
            ref_div: 1,
            vco_hz: 480_000_000,
            post_div1: 5,
            post_div2: 2,
        },
        ClockStep::ConfigureReference {
            source: ClockSource::Xosc,
            aux: AuxiliarySource::PllUsb,
            source_hz: 12_000_000,
            hz: 12_000_000,
        },
        ClockStep::ConfigureSystem {
            source: ClockSource::Auxiliary,
            aux: AuxiliarySource::PllSys,
            source_hz: 125_000_000,
            hz: 125_000_000,
        },
        ClockStep::ConfigureUsb { aux: AuxiliarySource::PllUsb, source_hz: 48_000_000, hz: 48_000_000 },
        ClockStep::ConfigureAdc { aux: AuxiliarySource::PllUsb, source_hz: 48_000_000, hz: 48_000_000 },
        ClockStep::ConfigureHstx { aux: AuxiliarySource::PllUsb, source_hz: 48_000_000, hz: 46_875 },
        ClockStep::ConfigurePeripheral { aux: AuxiliarySource::System, hz: 125_000_000 },
    ]
}

/// The operations that bring the clocks up, in order.
pub fn init_clocks() -> (steps: [ClockStep; 14])
    ensures
        steps@ == clock_plan(),
{
    let steps = [
        ClockStep::DisableResus,
        ClockStep::InitXosc,
        ClockStep::DisableSysAux,
        ClockStep::DisableRefAux,
        ClockStep::ResetPlls,
        ClockStep::UnresetPlls { wait: true },
        ClockStep::PllInit {
            pll: PllClock::Sys,
            xosc_mhz: 12,
            ref_div: 1,
            vco_hz: 1500 * 1000000,
            post_div1: 6,
            post_div2: 2,
        },
        ClockStep::PllInit {
            pll: PllClock::Usb,
            xosc_mhz: 12,
            ref_div: 1,
            vco_hz: 480 * 1000000,
            post_div1: 5,
            post_div2: 2,
        },
        ClockStep::ConfigureReference {
            source: ClockSource::Xosc,
            aux: AuxiliarySource::PllUsb,
            source_hz: 12000000,
            hz: 12000000,
        },
        ClockStep::ConfigureSystem {
            source: ClockSource::Auxiliary,
            aux: AuxiliarySource::PllSys,
            source_hz: 125000000,
            hz: 125000000,
        },
        ClockStep::ConfigureUsb { aux: AuxiliarySource::PllUsb, source_hz: 48000000, hz: 48000000 },
        ClockStep::ConfigureAdc { aux: AuxiliarySource::PllUsb, source_hz: 48000000, hz: 48000000 },
        ClockStep::ConfigureHstx { aux: AuxiliarySource::PllUsb, source_hz: 48000000, hz: 46875 },
        ClockStep::ConfigurePeripheral { aux: AuxiliarySource::System, hz: 125000000 },
    ];
    assert(steps@ =~= clock_plan());
    steps
}

impl ClockStep {
    /// The auxiliary input that the step selects, if any.
    pub open spec fn aux_input(self) -> Option<AuxiliarySource> {
        match self {
            ClockStep::ConfigureReference { aux, .. } => Some(aux),
            ClockStep::ConfigureSystem { aux, .. } => Some(aux),
            ClockStep::ConfigureUsb { aux, .. } => Some(aux),
            ClockStep::ConfigureAdc { aux, .. } => Some(aux),
            ClockStep::ConfigureHstx { aux, .. } => Some(aux),
            ClockStep::ConfigurePeripheral { aux, .. } => Some(aux),
            _ => None,
        }
    }

    /// The step makes `aux` run: a PLL is started, or the system clock is set up.
    pub open spec fn starts(self, aux: AuxiliarySource) -> bool {
        match self {
            ClockStep::PllInit { pll: PllClock::Sys, .. } => aux is PllSys,
            ClockStep::PllInit { pll: PllClock::Usb, .. } => aux is PllUsb,
            ClockStep::ConfigureSystem { .. } => aux is System,
            _ => false,
        }
    }

    /// The frequency of what the step starts.
    pub open spec fn output_hz(self) -> int {
        match self {
            ClockStep::PllInit { vco_hz, post_div1, post_div2, .. } => {
                vco_hz as int / (post_div1 as int) / (post_div2 as int)
            },
            ClockStep::ConfigureSystem { hz, .. } => hz as int,
            _ => 0,
        }
    }

    /// The frequency that the step relies on its auxiliary input to have, where
    /// it runs from that input.
    pub open spec fn relied_on_hz(self) -> Option<int> {
        match self {
            ClockStep::ConfigureSystem { source: ClockSource::Auxiliary, source_hz, .. } => Some(source_hz as int),
            ClockStep::ConfigureUsb { source_hz, .. } => Some(source_hz as int),
            ClockStep::ConfigureAdc { source_hz, .. } => Some(source_hz as int),
            ClockStep::ConfigureHstx { source_hz, .. } => Some(source_hz as int),
            ClockStep::ConfigurePeripheral { hz, .. } => Some(hz as int),
            _ => None,
        }
    }
}

/// `step` is at position `i` of the bring-up sequence.
pub open spec fn at(i: int, step: ClockStep) -> bool {
    0 <= i < clock_plan().len() && clock_plan()[i] == step
}

/// No clock is switched to an auxiliary input before that input runs.
pub proof fn law_inputs_run_before_use(i: int, aux: AuxiliarySource)
    requires
        0 <= i < clock_plan().len(),
        clock_plan()[i].aux_input() == Some(aux),
    ensures
        exists|j: int| 0 <= j < i && (#[trigger] clock_plan()[j]).starts(aux),
{
    assert(clock_plan()[6].starts(AuxiliarySource::PllSys));
    assert(clock_plan()[7].starts(AuxiliarySource::PllUsb));
    assert(clock_plan()[9].starts(AuxiliarySource::System));
    assert(clock_plan()[0].aux_input() is None);
    assert(clock_plan()[8].aux_input() == Some(AuxiliarySource::PllUsb));
    assert(clock_plan()[13].aux_input() == Some(AuxiliarySource::System));
}

/// A PLL is started only after both have been through reset, and both are reset
/// only after no clock runs from an auxiliary input and the crystal is up.
pub proof fn law_plls_start_from_reset(i: int)
    requires
        0 <= i < clock_plan().len(),
        clock_plan()[i] is PllInit,
    ensures
        exists|x: int, s: int, r: int, p: int, u: int|
            x < p && s < p && r < p && p < u < i && at(x, ClockStep::InitXosc) && at(s, ClockStep::DisableSysAux)
                && at(r, ClockStep::DisableRefAux) && at(p, ClockStep::ResetPlls) && at(
                u,
                ClockStep::UnresetPlls { wait: true },
            ),
{
    assert(i == 6 || i == 7);
    assert(at(1, ClockStep::InitXosc));
    assert(at(2, ClockStep::DisableSysAux));
    assert(at(3, ClockStep::DisableRefAux));
    assert(at(4, ClockStep::ResetPlls));
    assert(at(5, ClockStep::UnresetPlls { wait: true }));
}

/// Each PLL's oscillator runs at a whole multiple of its divided crystal input.
pub proof fn law_vco_is_multiple_of_reference(i: int)
    requires
        0 <= i < clock_plan().len(),
    ensures
        clock_plan()[i] matches ClockStep::PllInit { xosc_mhz, ref_div, vco_hz, .. } ==> vco_hz as int % (xosc_mhz
            * 1_000_000 / (ref_div as int)) == 0,
{
    if clock_plan()[i] is PllInit {
        assert(i == 6 || i == 7);
        assert(12int * 1_000_000 / 1 == 12_000_000);
        assert(1_500_000_000int % 12_000_000 == 0);
        assert(480_000_000int % 12_000_000 == 0);
    }
}

/// The frequency that a clock relies on its auxiliary input to have is the one
/// that the input has.
pub proof fn law_relied_on_frequency_is_input_frequency(i: int, j: int, aux: AuxiliarySource)
    requires
        0 <= i < clock_plan().len(),
        0 <= j < clock_plan().len(),
        clock_plan()[i].aux_input() == Some(aux),
        clock_plan()[i].relied_on_hz() is Some,
        clock_plan()[j].starts(aux),
    ensures
        clock_plan()[i].relied_on_hz() == Some(clock_plan()[j].output_hz()),
{
    assert(1_500_000_000int / 6 / 2 == 125_000_000);
    assert(480_000_000int / 5 / 2 == 48_000_000);
}

/// Both PLLs multiply the undivided 12 MHz crystal; the system PLL then gives
/// 125 MHz and the USB PLL 48 MHz.
pub proof fn law_plls_give_their_frequencies(steps: [ClockStep; 14], i: int)
    requires
        call_ensures(init_clocks, (), steps),
        0 <= i < 14,
    ensures
        steps@[i] matches ClockStep::PllInit { pll, xosc_mhz, ref_div, vco_hz, post_div1, post_div2 } ==> {
            &&& xosc_mhz == 12
            &&& ref_div == 1
            &&& post_div2 == 2
            &&& pll is Sys ==> vco_hz == 125 * 12_000_000int && vco_hz == 250_000_000 * post_div1
            &&& pll is Usb ==> vco_hz == 40 * 12_000_000int && vco_hz == 96_000_000 * post_div1
        },
{
}

/// Every clock runs at the frequency of its input, except that of the serial
/// transmitter, whose input is divided by 1024.
pub proof fn law_only_hstx_is_divided(steps: [ClockStep; 14], i: int)
    requires
        call_ensures(init_clocks, (), steps),
        0 <= i < 14,
    ensures
        steps@[i] matches ClockStep::ConfigureReference { source, source_hz, hz, .. } ==> source is Xosc && hz
            == source_hz && hz == 12_000_000,
        steps@[i] matches ClockStep::ConfigureSystem { source, aux, source_hz, hz } ==> source is Auxiliary && aux
            is PllSys && hz == source_hz && hz == 125_000_000,
        steps@[i] matches ClockStep::ConfigureUsb { aux, source_hz, hz } ==> aux is PllUsb && hz == source_hz && hz
            == 48_000_000,
        steps@[i] matches ClockStep::ConfigureAdc { aux, source_hz, hz } ==> aux is PllUsb && hz == source_hz && hz
            == 48_000_000,
        steps@[i] matches ClockStep::ConfigureHstx { aux, source_hz, hz } ==> aux is PllUsb && source_hz
            == 48_000_000 && 1024 * hz == source_hz,
        steps@[i] matches ClockStep::ConfigurePeripheral { aux, hz } ==> aux is System && hz == 125_000_000,
{
}

/// The bring-up takes each step once: the crystal first, then the clocks off their
/// auxiliary inputs, the system clock before the reference clock; then the PLLs
/// through reset and up, the system PLL first; then the clocks onto their inputs,
/// the reference clock first and the peripheral clock last.
pub proof fn law_steps_come_in_order(steps: [ClockStep; 14], i: int, j: int)
    requires
        call_ensures(init_clocks, (), steps),
        0 <= i < 14,
        0 <= j < 14,
    ensures
        steps@[i] is DisableResus && steps@[j] is InitXosc ==> i < j,
        steps@[i] is InitXosc && steps@[j] is DisableSysAux ==> i < j,
        steps@[i] is DisableSysAux && steps@[j] is DisableRefAux ==> i < j,
        steps@[i] is DisableRefAux && steps@[j] is ResetPlls ==> i < j,
        steps@[i] is ResetPlls && steps@[j] is UnresetPlls ==> i < j && steps@[j]->wait,
        steps@[i] is UnresetPlls && steps@[j] is PllInit ==> i < j,
        steps@[i] is PllInit && steps@[j] is PllInit && steps@[i]->pll is Sys && steps@[j]->pll is Usb ==> i < j,
        steps@[i] is PllInit && steps@[j] is ConfigureReference ==> i < j,
        steps@[i] is ConfigureReference && steps@[j] is ConfigureSystem ==> i < j,
        steps@[i] is ConfigureSystem && steps@[j] is ConfigureUsb ==> i < j,
        steps@[i] is ConfigureUsb && steps@[j] is ConfigureAdc ==> i < j,
        steps@[i] is ConfigureAdc && steps@[j] is ConfigureHstx ==> i < j,
        steps@[i] is ConfigureHstx && steps@[j] is ConfigurePeripheral ==> i < j,
        i != j ==> steps@[i] != steps@[j],
{
}

} // verus!
