//! Tests for the ADC configuration types.

use stm32f4xx_hal::adc::{
    AdcConfig, Align, Clock, Continuous, Dma, Eoc, ExternalTrigger, Resolution, SampleTime, Scan,
    Sequence, TriggerMode,
};

#[test]
fn default_config_matches_the_reset_values() {
    let c = AdcConfig::default();
    assert_eq!(c.clock, Clock::Pclk2_div_2);
    assert_eq!(c.resolution, Resolution::Twelve);
    assert_eq!(c.align, Align::Right);
    assert_eq!(c.scan, Scan::Disabled);
    assert_eq!(
        c.external_trigger,
        (TriggerMode::Disabled, ExternalTrigger::Tim_1_cc_1)
    );
    assert_eq!(c.continuous, Continuous::Single);
    assert_eq!(c.dma, Dma::Disabled);
    assert_eq!(c.end_of_conversion_interrupt, Eoc::Disabled);
    assert_eq!(c.default_sample_time, SampleTime::Cycles_480);
    assert_eq!(c.vdda, None);
}

#[test]
fn builders_change_exactly_their_field() {
    let c = AdcConfig::default()
        .clock(Clock::Pclk2_div_8)
        .resolution(Resolution::Eight)
        .align(Align::Left)
        .scan(Scan::Enabled)
        .external_trigger(TriggerMode::RisingEdge, ExternalTrigger::Tim_1_cc_1)
        .continuous(Continuous::Continuous)
        .dma(Dma::Continuous)
        .end_of_conversion_interrupt(Eoc::Conversion)
        .default_sample_time(SampleTime::Cycles_112)
        .reference_voltage(3300);
    assert_eq!(c.clock, Clock::Pclk2_div_8);
    assert_eq!(c.resolution, Resolution::Eight);
    assert_eq!(c.align, Align::Left);
    assert_eq!(c.scan, Scan::Enabled);
    assert_eq!(
        c.external_trigger,
        (TriggerMode::RisingEdge, ExternalTrigger::Tim_1_cc_1)
    );
    assert_eq!(c.continuous, Continuous::Continuous);
    assert_eq!(c.dma, Dma::Continuous);
    assert_eq!(c.end_of_conversion_interrupt, Eoc::Conversion);
    assert_eq!(c.default_sample_time, SampleTime::Cycles_112);
    assert_eq!(c.vdda, Some(3300));

    let d = AdcConfig::default().scan(Scan::Enabled);
    assert_eq!(d.clock, Clock::Pclk2_div_2);
    assert_eq!(d.resolution, Resolution::Twelve);
    assert_eq!(d.vdda, None);
}

#[test]
fn sequence_bits_round_trip() {
    for bits in 0u8..16 {
        assert_eq!(Sequence::from_bits(bits).bits(), bits);
    }
    assert_eq!(Sequence::One.bits(), 0);
    assert_eq!(Sequence::Sixteen.bits(), 15);
}

#[test]
fn sample_time_bits_round_trip() {
    for bits in 0u8..8 {
        assert_eq!(SampleTime::from_bits(bits).bits(), bits);
    }
    assert_eq!(SampleTime::Cycles_3.bits(), 0);
    assert_eq!(SampleTime::Cycles_480.bits(), 7);
}

#[test]
fn register_patterns_match_the_reference_manual() {
    assert_eq!(Clock::Pclk2_div_2.bits(), 0);
    assert_eq!(Clock::Pclk2_div_8.bits(), 3);
    assert_eq!(Resolution::Twelve.bits(), 0);
    assert_eq!(Resolution::Six.bits(), 3);
    assert_eq!(ExternalTrigger::Tim_1_cc_1.bits(), 0b0000);
    assert_eq!(ExternalTrigger::Exti_11.bits(), 0b1111);
    assert_eq!(TriggerMode::Disabled.bits(), 0);
    assert_eq!(TriggerMode::BothEdges.bits(), 3);
    assert!(!Align::Right.bit());
    assert!(Align::Left.bit());
    assert!(!Scan::Disabled.bit());
    assert!(Scan::Enabled.bit());
    assert!(!Continuous::Single.bit());
    assert!(Continuous::Continuous.bit());
}

#[test]
fn resolution_bounds_the_samples() {
    assert_eq!(Resolution::Twelve.max_sample(), 1 << 12);
    assert_eq!(Resolution::Ten.max_sample(), 1 << 10);
    assert_eq!(Resolution::Eight.max_sample(), 1 << 8);
    assert_eq!(Resolution::Six.max_sample(), 1 << 6);
}
