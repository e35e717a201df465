//! Analog to digital converter configuration.
//!
//! Configuration values for regular conversions: clock prescaler,
//! resolution, alignment, scan and continuous modes, external triggers, DMA
//! and end-of-conversion behavior. The types here describe what is written
//! to the peripheral; the board's bring-up code owns the registers.

use vstd::prelude::*;

verus! {

/// Vref internal signal, used for calibration.
pub struct Vref;

/// Vbat internal signal, used for monitoring the battery (if used).
pub struct Vbat;

/// Core temperature internal signal.
pub struct Temperature;

/// The place in the sequence a given channel should be captured.
#[derive(Copy, Clone, PartialEq, Eq, Structural, PartialOrd, Ord, Debug)]
pub enum Sequence {
    /// 1
    One,
    /// 2
    Two,
    /// 3
    Three,
    /// 4
    Four,
    /// 5
    Five,
    /// 6
    Six,
    /// 7
    Seven,
    /// 8
    Eight,
    /// 9
    Nine,
    /// 10
    Ten,
    /// 11
    Eleven,
    /// 12
    Twelve,
    /// 13
    Thirteen,
    /// 14
    Fourteen,
    /// 15
    Fifteen,
    /// 16
    Sixteen,
}

impl Sequence {
    /// The register bit pattern of this sequence position.
    pub open spec fn spec_bits(self) -> u8 {
        match self {
            Sequence::One => 0,
            Sequence::Two => 1,
            Sequence::Three => 2,
            Sequence::Four => 3,
            Sequence::Five => 4,
            Sequence::Six => 5,
            Sequence::Seven => 6,
            Sequence::Eight => 7,
            Sequence::Nine => 8,
            Sequence::Ten => 9,
            Sequence::Eleven => 10,
            Sequence::Twelve => 11,
            Sequence::Thirteen => 12,
            Sequence::Fourteen => 13,
            Sequence::Fifteen => 14,
            Sequence::Sixteen => 15,
        }
    }

    /// The register bit pattern of this sequence position.
    pub fn bits(self) -> (r: u8)
        ensures
            r == self.spec_bits(),
            r < 16,
    {
        match self {
            Sequence::One => 0,
            Sequence::Two => 1,
            Sequence::Three => 2,
            Sequence::Four => 3,
            Sequence::Five => 4,
            Sequence::Six => 5,
            Sequence::Seven => 6,
            Sequence::Eight => 7,
            Sequence::Nine => 8,
            Sequence::Ten => 9,
            Sequence::Eleven => 10,
            Sequence::Twelve => 11,
            Sequence::Thirteen => 12,
            Sequence::Fourteen => 13,
            Sequence::Fifteen => 14,
            Sequence::Sixteen => 15,
        }
    }

    /// The sequence position stored as `bits`; positions above fifteen do
    /// not exist.
    pub fn from_bits(bits: u8) -> (r: Self)
        requires
            bits < 16,
        ensures
            r.spec_bits() == bits,
    {
        match bits {
            0 => Sequence::One,
            1 => Sequence::Two,
            2 => Sequence::Three,
            3 => Sequence::Four,
            4 => Sequence::Five,
            5 => Sequence::Six,
            6 => Sequence::Seven,
            7 => Sequence::Eight,
            8 => Sequence::Nine,
            9 => Sequence::Ten,
            10 => Sequence::Eleven,
            11 => Sequence::Twelve,
            12 => Sequence::Thirteen,
            13 => Sequence::Fourteen,
            14 => Sequence::Fifteen,
            _ => Sequence::Sixteen,
        }
    }
}

/// The number of cycles to sample a given channel for.
#[derive(Copy, Clone, PartialEq, Eq, Structural, Debug)]
#[allow(non_camel_case_types)]
pub enum SampleTime {
    /// 3 cycles
    Cycles_3,
    /// 15 cycles
    Cycles_15,
    /// 28 cycles
    Cycles_28,
    /// 56 cycles
    Cycles_56,
    /// 84 cycles
    Cycles_84,
    /// 112 cycles
    Cycles_112,
    /// 144 cycles
    Cycles_144,
    /// 480 cycles
    Cycles_480,
}

impl SampleTime {
    /// The register bit pattern of this sample time.
    pub open spec fn spec_bits(self) -> u8 {
        match self {
            SampleTime::Cycles_3 => 0,
            SampleTime::Cycles_15 => 1,
            SampleTime::Cycles_28 => 2,
            SampleTime::Cycles_56 => 3,
            SampleTime::Cycles_84 => 4,
            SampleTime::Cycles_112 => 5,
            SampleTime::Cycles_144 => 6,
            SampleTime::Cycles_480 => 7,
        }
    }

    /// The register bit pattern of this sample time.
    pub fn bits(self) -> (r: u8)
        ensures
            r == self.spec_bits(),
            r < 8,
    {
        match self {
            SampleTime::Cycles_3 => 0,
            SampleTime::Cycles_15 => 1,
            SampleTime::Cycles_28 => 2,
            SampleTime::Cycles_56 => 3,
            SampleTime::Cycles_84 => 4,
            SampleTime::Cycles_112 => 5,
            SampleTime::Cycles_144 => 6,
            SampleTime::Cycles_480 => 7,
        }
    }

    /// The sample time stored as `bits`; patterns above seven do not exist.
    pub fn from_bits(bits: u8) -> (r: Self)
        requires
            bits < 8,
        ensures
            r.spec_bits() == bits,
    {
        match bits {
            0 => SampleTime::Cycles_3,
            1 => SampleTime::Cycles_15,
            2 => SampleTime::Cycles_28,
            3 => SampleTime::Cycles_56,
            4 => SampleTime::Cycles_84,
            5 => SampleTime::Cycles_112,
            6 => SampleTime::Cycles_144,
            _ => SampleTime::Cycles_480,
        }
    }
}

/// Clock config for the ADC: check the datasheet for the maximum speed the
/// ADC supports.
#[derive(Copy, Clone, PartialEq, Eq, Structural, Debug)]
#[allow(non_camel_case_types)]
pub enum Clock {
    /// PCLK2 (APB2) divided by 2
    Pclk2_div_2,
    /// PCLK2 (APB2) divided by 4
    Pclk2_div_4,
    /// PCLK2 (APB2) divided by 6
    Pclk2_div_6,
    /// PCLK2 (APB2) divided by 8
    Pclk2_div_8,
}

impl Clock {
    /// The register bit pattern of this prescaler.
    pub open spec fn spec_bits(self) -> u8 {
        match self {
            Clock::Pclk2_div_2 => 0,
            Clock::Pclk2_div_4 => 1,
            Clock::Pclk2_div_6 => 2,
            Clock::Pclk2_div_8 => 3,
        }
    }

    /// The register bit pattern of this prescaler.
    pub fn bits(self) -> (r: u8)
        ensures
            r == self.spec_bits(),
            r < 4,
    {
        match self {
            Clock::Pclk2_div_2 => 0,
            Clock::Pclk2_div_4 => 1,
            Clock::Pclk2_div_6 => 2,
            Clock::Pclk2_div_8 => 3,
        }
    }
}

/// Resolution to sample at.
#[derive(Copy, Clone, PartialEq, Eq, Structural, Debug)]
pub enum Resolution {
    /// 12-bit
    Twelve,
    /// 10-bit
    Ten,
    /// 8-bit
    Eight,
    /// 6-bit
    Six,
}

impl Resolution {
    /// The register bit pattern of this resolution.
    pub open spec fn spec_bits(self) -> u8 {
        match self {
            Resolution::Twelve => 0,
            Resolution::Ten => 1,
            Resolution::Eight => 2,
            Resolution::Six => 3,
        }
    }

    /// The register bit pattern of this resolution.
    pub fn bits(self) -> (r: u8)
        ensures
            r == self.spec_bits(),
            r < 4,
    {
        match self {
            Resolution::Twelve => 0,
            Resolution::Ten => 1,
            Resolution::Eight => 2,
            Resolution::Six => 3,
        }
    }

    /// The exclusive upper bound on sample values at this resolution.
    pub fn max_sample(self) -> (r: u32)
        ensures
            r == self.spec_max_sample(),
    {
        match self {
            Resolution::Twelve => 0x1000,
            Resolution::Ten => 0x400,
            Resolution::Eight => 0x100,
            Resolution::Six => 0x40,
        }
    }

    /// The exclusive upper bound on sample values at this resolution: one
    /// past the largest representable sample.
    pub open spec fn spec_max_sample(self) -> u32 {
        match self {
            Resolution::Twelve => 0x1000,
            Resolution::Ten => 0x400,
            Resolution::Eight => 0x100,
            Resolution::Six => 0x40,
        }
    }
}

/// Possible external triggers the ADC can listen to.
#[derive(Copy, Clone, PartialEq, Eq, Structural, Debug)]
#[allow(non_camel_case_types)]
pub enum ExternalTrigger {
    /// TIM1 compare channel 1
    Tim_1_cc_1,
    /// TIM1 compare channel 2
    Tim_1_cc_2,
    /// TIM1 compare channel 3
    Tim_1_cc_3,
    /// TIM2 compare channel 2
    Tim_2_cc_2,
    /// TIM2 compare channel 3
    Tim_2_cc_3,
    /// TIM2 compare channel 4
    Tim_2_cc_4,
    /// TIM2 trigger out
    Tim_2_trgo,
    /// TIM3 compare channel 1
    Tim_3_cc_1,
    /// TIM3 trigger out
    Tim_3_trgo,
    /// TIM4 compare channel 4
    Tim_4_cc_4,
    /// TIM5 compare channel 1
    Tim_5_cc_1,
    /// TIM5 compare channel 2
    Tim_5_cc_2,
    /// TIM5 compare channel 3
    Tim_5_cc_3,
    /// External interrupt line 11
    Exti_11,
}

impl ExternalTrigger {
    /// The register bit pattern of this trigger source.
    pub open spec fn spec_bits(self) -> u8 {
        match self {
            ExternalTrigger::Tim_1_cc_1 => 0b0000,
            ExternalTrigger::Tim_1_cc_2 => 0b0001,
            ExternalTrigger::Tim_1_cc_3 => 0b0010,
            ExternalTrigger::Tim_2_cc_2 => 0b0011,
            ExternalTrigger::Tim_2_cc_3 => 0b0100,
            ExternalTrigger::Tim_2_cc_4 => 0b0101,
            ExternalTrigger::Tim_2_trgo => 0b0110,
            ExternalTrigger::Tim_3_cc_1 => 0b0111,
            ExternalTrigger::Tim_3_trgo => 0b1000,
            ExternalTrigger::Tim_4_cc_4 => 0b1001,
            ExternalTrigger::Tim_5_cc_1 => 0b1010,
            ExternalTrigger::Tim_5_cc_2 => 0b1011,
            ExternalTrigger::Tim_5_cc_3 => 0b1100,
            ExternalTrigger::Exti_11 => 0b1111,
        }
    }

    /// The register bit pattern of this trigger source.
    pub fn bits(self) -> (r: u8)
        ensures
            r == self.spec_bits(),
            r < 16,
    {
        match self {
            ExternalTrigger::Tim_1_cc_1 => 0b0000,
            ExternalTrigger::Tim_1_cc_2 => 0b0001,
            ExternalTrigger::Tim_1_cc_3 => 0b0010,
            ExternalTrigger::Tim_2_cc_2 => 0b0011,
            ExternalTrigger::Tim_2_cc_3 => 0b0100,
            ExternalTrigger::Tim_2_cc_4 => 0b0101,
            ExternalTrigger::Tim_2_trgo => 0b0110,
            ExternalTrigger::Tim_3_cc_1 => 0b0111,
            ExternalTrigger::Tim_3_trgo => 0b1000,
            ExternalTrigger::Tim_4_cc_4 => 0b1001,
            ExternalTrigger::Tim_5_cc_1 => 0b1010,
            ExternalTrigger::Tim_5_cc_2 => 0b1011,
            ExternalTrigger::Tim_5_cc_3 => 0b1100,
            ExternalTrigger::Exti_11 => 0b1111,
        }
    }
}

/// Possible trigger modes.
#[derive(Copy, Clone, PartialEq, Eq, Structural, Debug)]
pub enum TriggerMode {
    /// Don't listen to external trigger
    Disabled,
    /// Listen for rising edges of external trigger
    RisingEdge,
    /// Listen for falling edges of external trigger
    FallingEdge,
    /// Listen for both rising and falling edges of external trigger
    BothEdges,
}

impl TriggerMode {
    /// The register bit pattern of this trigger mode.
    pub open spec fn spec_bits(self) -> u8 {
        match self {
            TriggerMode::Disabled => 0,
            TriggerMode::RisingEdge => 1,
            TriggerMode::FallingEdge => 2,
            TriggerMode::BothEdges => 3,
        }
    }

    /// The register bit pattern of this trigger mode.
    pub fn bits(self) -> (r: u8)
        ensures
            r == self.spec_bits(),
            r < 4,
    {
        match self {
            TriggerMode::Disabled => 0,
            TriggerMode::RisingEdge => 1,
            TriggerMode::FallingEdge => 2,
            TriggerMode::BothEdges => 3,
        }
    }
}

/// Data register alignment.
#[derive(Copy, Clone, PartialEq, Eq, Structural, Debug)]
pub enum Align {
    /// Right align output data
    Right,
    /// Left align output data
    Left,
}

impl Align {
    /// The register bit of this alignment: set for left alignment.
    pub open spec fn spec_bit(self) -> bool {
        match self {
            Align::Right => false,
            Align::Left => true,
        }
    }

    /// The register bit of this alignment.
    pub fn bit(self) -> (r: bool)
        ensures
            r == self.spec_bit(),
    {
        match self {
            Align::Right => false,
            Align::Left => true,
        }
    }
}

/// Scan enable/disable.
#[derive(Copy, Clone, PartialEq, Eq, Structural, Debug)]
pub enum Scan {
    /// Scan mode disabled
    Disabled,
    /// Scan mode enabled
    Enabled,
}

impl Scan {
    /// The register bit of this mode: set when scanning is enabled.
    pub open spec fn spec_bit(self) -> bool {
        match self {
            Scan::Disabled => false,
            Scan::Enabled => true,
        }
    }

    /// The register bit of this mode.
    pub fn bit(self) -> (r: bool)
        ensures
            r == self.spec_bit(),
    {
        match self {
            Scan::Disabled => false,
            Scan::Enabled => true,
        }
    }
}

/// Continuous mode enable/disable.
#[derive(Copy, Clone, PartialEq, Eq, Structural, Debug)]
pub enum Continuous {
    /// Single mode, continuous disabled
    Single,
    /// Continuous mode enabled
    Continuous,
}

impl Continuous {
    /// The register bit of this mode: set when continuous.
    pub open spec fn spec_bit(self) -> bool {
        match self {
            Continuous::Single => false,
            Continuous::Continuous => true,
        }
    }

    /// The register bit of this mode.
    pub fn bit(self) -> (r: bool)
        ensures
            r == self.spec_bit(),
    {
        match self {
            Continuous::Single => false,
            Continuous::Continuous => true,
        }
    }
}

/// DMA mode.
#[derive(Copy, Clone, PartialEq, Eq, Structural, Debug)]
pub enum Dma {
    /// No DMA, disabled
    Disabled,
    /// Single DMA, DMA will be disabled after each conversion sequence
    Single,
    /// Continuous DMA, DMA will remain enabled after conversion
    Continuous,
}

/// End-of-conversion interrupt enabled/disabled.
#[derive(Copy, Clone, PartialEq, Eq, Structural, Debug)]
pub enum Eoc {
    /// End-of-conversion interrupt disabled
    Disabled,
    /// End-of-conversion interrupt enabled per conversion
    Conversion,
    /// End-of-conversion interrupt enabled per sequence
    Sequence,
}

/// Configuration for the ADC. There are some additional parameters on the
/// peripheral that can be added here when needed, but this covers several
/// basic use cases.
#[derive(Copy, Clone, PartialEq, Eq, Debug)]
pub struct AdcConfig {
    /// The clock prescaler.
    pub clock: Clock,
    /// The sampling resolution.
    pub resolution: Resolution,
    /// Data register alignment.
    pub align: Align,
    /// Scan mode.
    pub scan: Scan,
    /// External trigger mode and source.
    pub external_trigger: (TriggerMode, ExternalTrigger),
    /// Continuous mode.
    pub continuous: Continuous,
    /// DMA mode.
    pub dma: Dma,
    /// End-of-conversion interrupt behavior.
    pub end_of_conversion_interrupt: Eoc,
    /// The sample time used for one-shot conversions.
    pub default_sample_time: SampleTime,
    /// The reference voltage in millivolts, when the caller overrides the
    /// internally calibrated value.
    pub vdda: Option<u32>,
}

impl AdcConfig {
    /// change the clock field
    pub fn clock(self, clock: Clock) -> (r: Self)
        ensures
            r == (AdcConfig { clock, ..self }),
    {
        AdcConfig { clock, ..self }
    }

    /// change the resolution field
    pub fn resolution(self, resolution: Resolution) -> (r: Self)
        ensures
            r == (AdcConfig { resolution, ..self }),
    {
        AdcConfig { resolution, ..self }
    }

    /// change the align field
    pub fn align(self, align: Align) -> (r: Self)
        ensures
            r == (AdcConfig { align, ..self }),
    {
        AdcConfig { align, ..self }
    }

    /// change the scan field
    pub fn scan(self, scan: Scan) -> (r: Self)
        ensures
            r == (AdcConfig { scan, ..self }),
    {
        AdcConfig { scan, ..self }
    }

    /// change the external_trigger field
    pub fn external_trigger(self, trigger_mode: TriggerMode, trigger: ExternalTrigger) -> (r: Self)
        ensures
            r == (AdcConfig { external_trigger: (trigger_mode, trigger), ..self }),
    {
        AdcConfig { external_trigger: (trigger_mode, trigger), ..self }
    }

    /// change the continuous field
    pub fn continuous(self, continuous: Continuous) -> (r: Self)
        ensures
            r == (AdcConfig { continuous, ..self }),
    {
        AdcConfig { continuous, ..self }
    }

    /// change the dma field
    pub fn dma(self, dma: Dma) -> (r: Self)
        ensures
            r == (AdcConfig { dma, ..self }),
    {
        AdcConfig { dma, ..self }
    }

    /// change the end_of_conversion_interrupt field
    pub fn end_of_conversion_interrupt(self, end_of_conversion_interrupt: Eoc) -> (r: Self)
        ensures
            r == (AdcConfig { end_of_conversion_interrupt, ..self }),
    {
        AdcConfig { end_of_conversion_interrupt, ..self }
    }

    /// change the default_sample_time field
    pub fn default_sample_time(self, default_sample_time: SampleTime) -> (r: Self)
        ensures
            r == (AdcConfig { default_sample_time, ..self }),
    {
        AdcConfig { default_sample_time, ..self }
    }

    /// Specify the reference voltage for the ADC, in millivolts.
    pub fn reference_voltage(self, vdda_mv: u32) -> (r: Self)
        ensures
            r == (AdcConfig { vdda: Some(vdda_mv), ..self }),
    {
        AdcConfig { vdda: Some(vdda_mv), ..self }
    }

    /// The reset configuration: slowest safe clock, full resolution, right
    /// alignment, one-shot conversions with the longest sample time, and no
    /// trigger, DMA or interrupt use.
    pub open spec fn spec_default() -> AdcConfig {
        AdcConfig {
            clock: Clock::Pclk2_div_2,
            resolution: Resolution::Twelve,
            align: Align::Right,
            scan: Scan::Disabled,
            external_trigger: (TriggerMode::Disabled, ExternalTrigger::Tim_1_cc_1),
            continuous: Continuous::Single,
            dma: Dma::Disabled,
            end_of_conversion_interrupt: Eoc::Disabled,
            default_sample_time: SampleTime::Cycles_480,
            vdda: None,
        }
    }
}

impl Default for AdcConfig {
    fn default() -> (r: Self)
        ensures
            r == AdcConfig::spec_default(),
    {
        AdcConfig {
            clock: Clock::Pclk2_div_2,
            resolution: Resolution::Twelve,
            align: Align::Right,
            scan: Scan::Disabled,
            external_trigger: (TriggerMode::Disabled, ExternalTrigger::Tim_1_cc_1),
            continuous: Continuous::Single,
            dma: Dma::Disabled,
            end_of_conversion_interrupt: Eoc::Disabled,
            default_sample_time: SampleTime::Cycles_480,
            vdda: None,
        }
    }
}

} // verus!
