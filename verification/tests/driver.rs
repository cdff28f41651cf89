use spcplay::driver::{
    open_config, select_config, ConfigRange, DriverError, SampleFormat, StreamPlan, CHANNELS,
};

fn range(channels: u16, min: u32, max: u32, format: SampleFormat) -> ConfigRange {
    ConfigRange { channels, min_sample_rate: min, max_sample_rate: max, sample_format: format }
}

#[test]
fn picks_the_first_acceptable_configuration() {
    let ranges = [
        range(1, 8000, 48000, SampleFormat::I16),
        range(2, 8000, 48000, SampleFormat::F32),
        range(2, 8000, 48000, SampleFormat::I16),
        range(2, 32000, 32000, SampleFormat::I16),
    ];
    assert_eq!(
        select_config(&ranges),
        Ok(StreamPlan { config_index: 2, channels: 2, sample_rate: 32000 })
    );
    assert_eq!(CHANNELS, 2);
}

#[test]
fn rate_range_bounds_are_inclusive() {
    let ranges = [range(2, 32000, 32000, SampleFormat::I16)];
    assert_eq!(
        select_config(&ranges),
        Ok(StreamPlan { config_index: 0, channels: 2, sample_rate: 32000 })
    );
    let ranges = [range(2, 32001, 48000, SampleFormat::I16)];
    assert_eq!(
        select_config(&ranges),
        Err(DriverError::InvalidSampleRange { min: 32001, max: 48000 })
    );
    let ranges = [range(2, 8000, 31999, SampleFormat::I16)];
    assert_eq!(
        select_config(&ranges),
        Err(DriverError::InvalidSampleRange { min: 8000, max: 31999 })
    );
}

#[test]
fn skips_a_right_format_with_the_wrong_rate_when_a_later_one_fits() {
    let ranges = [
        range(2, 44100, 48000, SampleFormat::I16),
        range(2, 22050, 44100, SampleFormat::I16),
    ];
    assert_eq!(
        select_config(&ranges),
        Ok(StreamPlan { config_index: 1, channels: 2, sample_rate: 32000 })
    );
}

#[test]
fn device_without_a_matching_configuration_is_refused() {
    let ranges = [
        range(1, 8000, 48000, SampleFormat::I16),
        range(2, 8000, 48000, SampleFormat::U16),
        range(2, 8000, 48000, SampleFormat::F32),
        range(6, 8000, 48000, SampleFormat::I16),
    ];
    assert_eq!(select_config(&ranges), Err(DriverError::NoSupportedConfig));
    assert_eq!(open_config(Some(&ranges)), Err(DriverError::NoSupportedConfig));
    let ranges = [
        range(1, 8000, 48000, SampleFormat::I16),
        range(2, 44100, 48000, SampleFormat::I16),
        range(2, 8000, 22050, SampleFormat::I16),
        range(2, 8000, 48000, SampleFormat::F32),
    ];
    assert_eq!(
        select_config(&ranges),
        Err(DriverError::InvalidSampleRange { min: 44100, max: 48000 })
    );
    assert_eq!(
        open_config(Some(&ranges)),
        Err(DriverError::InvalidSampleRange { min: 44100, max: 48000 })
    );
}

#[test]
fn device_without_configurations_is_refused() {
    let ranges: [ConfigRange; 0] = [];
    assert_eq!(select_config(&ranges), Err(DriverError::NoSupportedConfig));
}

#[test]
fn missing_device_is_refused() {
    assert_eq!(open_config(None), Err(DriverError::NoDevice));
}

#[test]
fn present_device_is_negotiated() {
    let ranges = [range(2, 8000, 48000, SampleFormat::I16)];
    assert_eq!(
        open_config(Some(&ranges)),
        Ok(StreamPlan { config_index: 0, channels: 2, sample_rate: 32000 })
    );
}

#[test]
fn format_and_rate_tests_agree_with_the_choice() {
    let good = range(2, 8000, 48000, SampleFormat::I16);
    assert!(good.is_right_format());
    assert!(good.is_right_rate());
    let mono = range(1, 8000, 48000, SampleFormat::I16);
    assert!(!mono.is_right_format());
    let float = range(2, 8000, 48000, SampleFormat::F32);
    assert!(!float.is_right_format());
    let fast = range(2, 44100, 48000, SampleFormat::I16);
    assert!(fast.is_right_format());
    assert!(!fast.is_right_rate());
}

#[test]
fn configurations_can_come_from_an_owned_list() {
    let listed: Option<Vec<ConfigRange>> = Some(vec![
        range(2, 8000, 16000, SampleFormat::I16),
        range(2, 8000, 96000, SampleFormat::I16),
    ]);
    let plan = open_config(listed.as_deref()).expect("the second configuration fits");
    assert_eq!(plan.config_index, 1);
    assert_eq!(plan.sample_rate, 32000);
    assert_eq!(plan.channels, 2);
    let absent: Option<Vec<ConfigRange>> = None;
    assert_eq!(open_config(absent.as_deref()), Err(DriverError::NoDevice));
}
