use supersilver::knob::{dsp_volume_command, led_pattern, Knob, Rotation};

#[test]
fn knob_steps_by_five_within_bounds() {
    let mut k = Knob::new();
    assert_eq!(k.turn(Rotation::CounterClockwise), None);
    assert_eq!(k.turn(Rotation::Idle), None);
    assert_eq!(k.turn(Rotation::Clockwise), Some(5));
    assert_eq!(k.turn(Rotation::Clockwise), Some(10));
    assert_eq!(k.turn(Rotation::CounterClockwise), Some(5));
    for _ in 0..60 {
        k.turn(Rotation::Clockwise);
    }
    assert_eq!(k.turn(Rotation::Clockwise), None);
    assert_eq!(k.turn(Rotation::CounterClockwise), Some(250));
    assert_eq!(k.turn(Rotation::Clockwise), Some(255));
}

#[test]
fn one_led_per_level() {
    assert_eq!(led_pattern(0), [true, false, false]);
    assert_eq!(led_pattern(5), [false, false, true]);
    assert_eq!(led_pattern(255), [true, false, false]);
    assert_eq!(led_pattern(10), [false, true, false]);
}

#[test]
fn volume_command_text() {
    assert_eq!(dsp_volume_command(200), "amixer set DSPVolume 200");
    assert_eq!(dsp_volume_command(0), "amixer set DSPVolume 0");
}
