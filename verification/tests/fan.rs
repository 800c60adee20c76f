use argononed::fan_control::{
    get_fan_speed, temp_pipeline, temp_sink, FAN_SPEED_FULL, FAN_SPEED_LOW, FAN_SPEED_MEDIUM,
    FAN_SPEED_OFF,
};
use argononed::temperature_stream::Temperatures;

fn celsius(degrees: i64) -> Temperatures {
    Temperatures { instant_nanos: 0, cpu_temp_millidegrees: degrees * 1000 }
}

fn samples(degrees: &[i64]) -> Vec<Temperatures> {
    degrees.iter().map(|&d| celsius(d)).collect()
}

#[test]
fn tier_thresholds_are_inclusive() {
    assert_eq!(get_fan_speed(54_999), FAN_SPEED_OFF);
    assert_eq!(get_fan_speed(55_000), FAN_SPEED_LOW);
    assert_eq!(get_fan_speed(59_999), FAN_SPEED_LOW);
    assert_eq!(get_fan_speed(60_000), FAN_SPEED_MEDIUM);
    assert_eq!(get_fan_speed(64_999), FAN_SPEED_MEDIUM);
    assert_eq!(get_fan_speed(65_000), FAN_SPEED_FULL);
    assert_eq!(get_fan_speed(-10_000), FAN_SPEED_OFF);
    assert_eq!(get_fan_speed(i64::MAX), FAN_SPEED_FULL);
}

#[test]
fn rising_temperature_escalates_immediately() {
    // Every threshold crossing writes the new higher tier at once; the
    // initial stopped tier is never written.
    let writes = temp_pipeline(&samples(&[50, 56, 61, 66]));
    assert_eq!(writes, vec![FAN_SPEED_LOW, FAN_SPEED_MEDIUM, FAN_SPEED_FULL]);
}

#[test]
fn deescalation_waits_for_a_confirming_sample() {
    // 61°C spins the fan up at once; the first 59°C only records the lower
    // demand; the second 59°C confirms it and the fan drops.
    let writes = temp_pipeline(&samples(&[61, 59, 59]));
    assert_eq!(writes, vec![FAN_SPEED_MEDIUM, FAN_SPEED_LOW]);
}

#[test]
fn oscillation_near_a_threshold_does_not_flap() {
    // Temperature hopping around the 60°C threshold: one write for the
    // initial spin-up and none for the chatter.
    let writes = temp_pipeline(&samples(&[61, 59, 61, 59]));
    assert_eq!(writes, vec![FAN_SPEED_MEDIUM]);
}

#[test]
fn constant_hot_temperature_writes_once() {
    let writes = temp_pipeline(&samples(&[70, 70, 70, 70, 70]));
    assert_eq!(writes, vec![FAN_SPEED_FULL]);
}

#[test]
fn constant_cool_temperature_never_writes() {
    let writes = temp_pipeline(&samples(&[45, 45, 45, 45]));
    assert!(writes.is_empty());
}

#[test]
fn stateful_sink_applies_hysteresis() {
    let mut state = temp_sink();
    assert_eq!(state.accept(celsius(66)), Some(FAN_SPEED_FULL));
    assert_eq!(state.accept(celsius(58)), None);
    assert_eq!(state.accept(celsius(57)), Some(FAN_SPEED_LOW));
    assert_eq!(state.accept(celsius(57)), None);
}
