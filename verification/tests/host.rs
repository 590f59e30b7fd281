use supersilver::host::{
    parse_volume_level, percent_arg, step_arg, MuteOutcome, PressAction, Reaction, VolumeChange,
    VolumeController,
};
use supersilver::EncoderState;

fn at(right: i32, pressed: bool) -> EncoderState {
    EncoderState { left: 0, right, left_pressed: false, right_pressed: pressed }
}

#[test]
fn parses_first_percent_field() {
    let text = "Simple mixer control 'DSPVolume',0\n  Front Left: Playback 49 [77%] [-13.50dB] [on]\n  Front Right: Playback 40 [60%]\n";
    assert_eq!(parse_volume_level(text), Some(77));
}

#[test]
fn parse_skips_brackets_that_are_not_percentages() {
    assert_eq!(parse_volume_level("  Mono: Playback [on] [50%]\n"), Some(50));
    assert_eq!(parse_volume_level("Playback [on] [77%]"), Some(77));
    assert_eq!(parse_volume_level("[12] [x%] [5 %] [34%] [56%]"), Some(34));
}

#[test]
fn parse_fails_without_a_percentage_field() {
    assert_eq!(parse_volume_level("no brackets at all"), None);
    assert_eq!(parse_volume_level("Playback [77"), None);
    assert_eq!(parse_volume_level("Playback [77%"), None);
    assert_eq!(parse_volume_level("Playback [%]"), None);
    assert_eq!(parse_volume_level("Playback [on]"), None);
}

#[test]
fn parse_takes_digits_only() {
    assert_eq!(parse_volume_level("[+5%]"), None);
    assert_eq!(parse_volume_level("[-5%]"), None);
    assert_eq!(parse_volume_level("[+5%] [6%]"), Some(6));
    assert_eq!(parse_volume_level("[007%]"), Some(7));
    assert_eq!(parse_volume_level("x[4294967295%]"), Some(4294967295));
    // The first field is the one read, even when its number does not fit.
    assert_eq!(parse_volume_level("Playback [99999999999%] [5%]"), None);
}

#[test]
fn read_level_restores_as_same_text() {
    let level = parse_volume_level("  Front Left: Playback 49 [77%] [-13.50dB] [on]").unwrap();
    assert_eq!(percent_arg(level), "77%");
}

#[test]
fn amixer_arguments() {
    assert_eq!(percent_arg(77), "77%");
    assert_eq!(percent_arg(0), "0%");
    assert_eq!(step_arg(5), "5%+");
    assert_eq!(step_arg(-3), "3%-");
    assert_eq!(step_arg(0), "0%-");
    assert_eq!(step_arg(i32::MIN), "2147483648%-");
}

#[test]
fn first_report_only_sets_reference() {
    let mut c = VolumeController::new(false);
    assert_eq!(c.handle(at(12, false)), Reaction { volume: None, press: None });
    assert_eq!(
        c.handle(at(15, false)),
        Reaction { volume: Some(VolumeChange::Adjust(3)), press: None }
    );
    assert_eq!(
        c.handle(at(10, false)),
        Reaction { volume: Some(VolumeChange::Adjust(-5)), press: None }
    );
}

#[test]
fn test_mode_volume_is_clamped() {
    let mut c = VolumeController::new(true);
    c.handle(at(0, false));
    assert_eq!(
        c.handle(at(30, false)),
        Reaction { volume: Some(VolumeChange::TestLevel(80)), press: None }
    );
    assert_eq!(
        c.handle(at(60, false)),
        Reaction { volume: Some(VolumeChange::TestLevel(100)), press: None }
    );
    assert_eq!(
        c.handle(at(-500, false)),
        Reaction { volume: Some(VolumeChange::TestLevel(0)), press: None }
    );
}

#[test]
fn test_mode_press_toggles_mute() {
    let mut c = VolumeController::new(true);
    assert_eq!(c.handle(at(0, true)).press, Some(PressAction::TestMuted(true)));
    assert_eq!(c.handle(at(0, true)).press, None);
    assert_eq!(c.handle(at(0, false)).press, None);
    assert_eq!(c.handle(at(0, true)).press, Some(PressAction::TestMuted(false)));
}

#[test]
fn mute_then_unmute_restores_level() {
    let mut c = VolumeController::new(false);
    c.handle(at(0, false));
    assert_eq!(c.handle(at(0, true)).press, Some(PressAction::QueryForMute));
    assert_eq!(c.mute_at(Some(77)), MuteOutcome::Mute { was: 77 });
    assert_eq!(c.handle(at(0, false)).press, None);
    assert_eq!(c.handle(at(0, true)).press, Some(PressAction::Restore(77)));
    assert_eq!(c.handle(at(0, false)).press, None);
    assert_eq!(c.handle(at(0, true)).press, Some(PressAction::QueryForMute));
}

#[test]
fn turning_after_mute_forgets_saved_level() {
    let mut c = VolumeController::new(false);
    c.handle(at(0, false));
    c.handle(at(0, true));
    c.mute_at(Some(40));
    c.handle(at(2, false));
    assert_eq!(c.handle(at(2, true)).press, Some(PressAction::QueryForMute));
}

#[test]
fn unreadable_level_saves_nothing() {
    let mut c = VolumeController::new(false);
    c.handle(at(0, true));
    assert_eq!(c.mute_at(None), MuteOutcome::Unreadable);
    c.handle(at(0, false));
    assert_eq!(c.handle(at(0, true)).press, Some(PressAction::QueryForMute));
}

#[test]
fn accepts_rejects_overflowing_step() {
    let mut c = VolumeController::new(false);
    c.handle(at(i32::MIN, false));
    assert!(!c.accepts(&at(1, false)));
    assert!(c.accepts(&at(-1, false)));

    let mut t = VolumeController::new(true);
    t.handle(at(0, false));
    assert!(!t.accepts(&at(i32::MAX, false)));
    assert!(t.accepts(&at(i32::MAX - 50, false)));
}
