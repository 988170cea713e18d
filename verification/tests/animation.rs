use character2d::clock::FrameClock;
use character2d::tilesetanims::{
    step_index, FrameResolution, TilesetAnim, TilesetAnims, DEFAULT_FRAME_NANOS,
};
use character2d::tracks::TrackTable;

fn table(tracks: &[(&str, &[u32])]) -> TrackTable {
    let mut table = TrackTable::new();
    for (name, frames) in tracks {
        table.insert(name.to_string(), frames.to_vec());
    }
    table
}

fn layer(tracks: &[(&str, &[u32])], current: &str, period: u64) -> TilesetAnims {
    TilesetAnims::new(table(tracks), current.to_string(), FrameClock::new(period))
}

#[test]
fn step_index_walks_and_wraps() {
    assert_eq!(step_index(0, 3), 1);
    assert_eq!(step_index(1, 3), 2);
    assert_eq!(step_index(2, 3), 0);
    assert_eq!(step_index(0, 1), 0);
    assert_eq!(step_index(7, 3), 2);
    assert_eq!(step_index(u32::MAX, 3), 1);
    assert_eq!(step_index(5, 0), 5);
}

#[test]
fn resolution_says_which_frame_to_show() {
    assert_eq!(FrameResolution::Waiting.frame(7), 7);
    assert_eq!(FrameResolution::Resolved(4).frame(7), 4);
    assert_eq!(FrameResolution::CursorReset.frame(7), 0);
    assert_eq!(FrameResolution::FellBackToDefault.frame(7), 7);
    assert_eq!(FrameResolution::PinnedToZero.frame(7), 0);
}

#[test]
fn resolution_says_when_a_diagnostic_is_due() {
    assert!(!FrameResolution::Waiting.is_fault());
    assert!(!FrameResolution::Resolved(0).is_fault());
    assert!(FrameResolution::CursorReset.is_fault());
    assert!(FrameResolution::FellBackToDefault.is_fault());
    assert!(FrameResolution::PinnedToZero.is_fault());
}

#[test]
fn default_layer_plays_default_every_tenth_of_a_second() {
    let anims = TilesetAnims::default();
    assert_eq!(anims.current_anim, "default");
    assert_eq!(anims.current_anim_index, 0);
    assert_eq!(anims.timer.period(), 100_000_000);
    assert_eq!(anims.timer.period(), DEFAULT_FRAME_NANOS);
    assert_eq!(anims.timer.elapsed(), 0);
    assert!(!anims.anims.contains("default"));
}

#[test]
fn frames_wrap_around_the_track() {
    let mut anims = layer(&[("spin", &[10, 11, 12])], "spin", 50);
    let mut shown = Vec::new();
    for _ in 0..8 {
        shown.push(anims.tick(50));
    }
    let expected: Vec<FrameResolution> = [10, 11, 12, 10, 11, 12, 10, 11]
        .iter()
        .map(|frame| FrameResolution::Resolved(*frame))
        .collect();
    assert_eq!(shown, expected);
    assert_eq!(anims.current_anim_index, 8 % 3);
    assert_eq!(anims.current_anim, "spin");
}

#[test]
fn track_of_one_frame_repeats_it() {
    let mut anims = layer(&[("still", &[6])], "still", 10);
    for _ in 0..4 {
        assert_eq!(anims.tick(10), FrameResolution::Resolved(6));
        assert_eq!(anims.current_anim_index, 0);
    }
}

#[test]
fn tick_below_the_period_waits() {
    let mut anims = layer(&[("spin", &[10, 11, 12])], "spin", 50);
    assert_eq!(anims.tick(20), FrameResolution::Waiting);
    assert_eq!(anims.tick(29), FrameResolution::Waiting);
    assert_eq!(anims.current_anim_index, 0);
    assert_eq!(anims.timer.elapsed(), 49);
    assert_eq!(anims.tick(1), FrameResolution::Resolved(10));
    assert_eq!(anims.current_anim_index, 1);
    assert_eq!(anims.timer.elapsed(), 0);
}

#[test]
fn long_tick_advances_one_frame_only() {
    let mut anims = layer(&[("spin", &[10, 11, 12])], "spin", 50);
    assert_eq!(anims.tick(260), FrameResolution::Resolved(10));
    assert_eq!(anims.current_anim_index, 1);
    assert_eq!(anims.timer.elapsed(), 10);
}

#[test]
fn repeated_request_for_the_current_track_changes_nothing() {
    let mut anims = layer(&[("idle", &[0, 1, 2]), ("walk", &[3, 4])], "idle", 100);
    assert_eq!(anims.tick(100), FrameResolution::Resolved(0));
    assert_eq!(anims.tick(30), FrameResolution::Waiting);
    for _ in 0..3 {
        anims.set_anim("idle");
        assert_eq!(anims.current_anim, "idle");
        assert_eq!(anims.current_anim_index, 1);
        assert_eq!(anims.timer.elapsed(), 30);
    }
    assert_eq!(anims.tick(0), FrameResolution::Waiting);
    assert_eq!(anims.tick(70), FrameResolution::Resolved(1));
}

#[test]
fn request_for_another_track_restarts_and_forces_a_fire() {
    let mut anims = layer(&[("idle", &[0, 1, 2]), ("walk", &[3, 4])], "idle", 100);
    assert_eq!(anims.tick(100), FrameResolution::Resolved(0));
    assert_eq!(anims.tick(100), FrameResolution::Resolved(1));
    anims.set_anim("walk");
    assert_eq!(anims.current_anim, "walk");
    assert_eq!(anims.current_anim_index, 0);
    assert_eq!(anims.timer.elapsed(), 100);
    assert_eq!(anims.tick(0), FrameResolution::Resolved(3));
    assert_eq!(anims.current_anim_index, 1);
    assert_eq!(anims.tick(0), FrameResolution::Waiting);
}

#[test]
fn request_then_tiny_tick_still_fires() {
    let mut anims = layer(&[("idle", &[0, 1, 2]), ("walk", &[3, 4])], "idle", 1_000_000);
    anims.set_anim("walk");
    assert_eq!(anims.tick(1), FrameResolution::Resolved(3));
    assert_eq!(anims.timer.elapsed(), 1);
}

#[test]
fn missing_track_falls_back_to_default() {
    let mut anims = layer(&[("default", &[5, 6])], "jump", 10);
    anims.current_anim_index = 1;
    assert_eq!(anims.tick(10), FrameResolution::FellBackToDefault);
    assert_eq!(anims.current_anim, "default");
    assert_eq!(anims.current_anim_index, 1);
    assert_eq!(anims.tick(10), FrameResolution::Resolved(6));
    assert_eq!(anims.current_anim_index, 0);
}

#[test]
fn fallback_keeps_a_cursor_that_default_is_too_short_for() {
    let mut anims = layer(&[("default", &[5, 6])], "jump", 10);
    anims.current_anim_index = 4;
    assert_eq!(anims.tick(10), FrameResolution::FellBackToDefault);
    assert_eq!(anims.current_anim_index, 4);
    let reset = anims.tick(10);
    assert_eq!(reset, FrameResolution::CursorReset);
    assert_eq!(reset.frame(9), 0);
    assert_eq!(anims.current_anim_index, 1);
    assert_eq!(anims.tick(10), FrameResolution::Resolved(6));
}

#[test]
fn fallback_does_not_reset_the_clock() {
    let mut anims = layer(&[("default", &[5, 6])], "jump", 10);
    assert_eq!(anims.tick(13), FrameResolution::FellBackToDefault);
    assert_eq!(anims.timer.elapsed(), 3);
    assert_eq!(anims.tick(6), FrameResolution::Waiting);
}

#[test]
fn missing_track_without_default_pins_frame_zero() {
    let mut anims = layer(&[("idle", &[4, 5])], "jump", 10);
    anims.current_anim_index = 1;
    for _ in 0..5 {
        let resolution = anims.tick(10);
        assert_eq!(resolution, FrameResolution::PinnedToZero);
        assert_eq!(resolution.frame(3), 0);
        assert_eq!(anims.current_anim, "jump");
        assert_eq!(anims.current_anim_index, 1);
    }
}

#[test]
fn track_without_frames_falls_back_like_a_missing_one() {
    let mut anims = layer(&[("blank", &[]), ("default", &[8])], "blank", 10);
    assert_eq!(anims.tick(10), FrameResolution::FellBackToDefault);
    assert_eq!(anims.current_anim, "default");
    assert_eq!(anims.tick(10), FrameResolution::Resolved(8));

    let mut anims = layer(&[("blank", &[])], "blank", 10);
    assert_eq!(anims.tick(10), FrameResolution::PinnedToZero);
    assert_eq!(anims.current_anim, "blank");
}

#[test]
fn default_track_without_frames_keeps_falling_back() {
    let mut anims = layer(&[("default", &[])], "default", 10);
    for _ in 0..3 {
        assert_eq!(anims.tick(10), FrameResolution::FellBackToDefault);
        assert_eq!(anims.current_anim, "default");
        assert_eq!(anims.current_anim_index, 0);
    }
}

#[test]
fn cursor_set_outside_the_track_is_recovered() {
    let mut anims = layer(&[("spin", &[10, 11, 12])], "spin", 10);
    anims.current_anim_index = 3;
    assert_eq!(anims.tick(10), FrameResolution::CursorReset);
    assert_eq!(anims.current_anim_index, 1);
    assert_eq!(anims.tick(10), FrameResolution::Resolved(11));

    let mut anims = layer(&[("still", &[6])], "still", 10);
    anims.current_anim_index = u32::MAX;
    assert_eq!(anims.tick(10), FrameResolution::CursorReset);
    assert_eq!(anims.current_anim_index, 0);
}

#[test]
fn cloned_layer_ticks_on_its_own() {
    let mut anims = layer(&[("spin", &[10, 11, 12])], "spin", 10);
    anims.tick(10);
    let mut copy = anims.clone();
    assert_eq!(copy.current_anim, "spin");
    assert_eq!(copy.current_anim_index, 1);
    assert_eq!(copy.tick(10), FrameResolution::Resolved(11));
    assert_eq!(anims.current_anim_index, 1);
}

#[test]
fn default_cycle_is_frame_zero_every_tenth_of_a_second() {
    let anim = TilesetAnim::default();
    assert_eq!(anim.0, vec![0]);
    assert_eq!(anim.1, 100_000_000);
}

#[test]
fn cycle_gets_a_clock_on_its_first_tick() {
    let anim = TilesetAnim(vec![4, 5, 6], 40);
    let (clock, frame) = anim.tick(None, 15, 0);
    assert_eq!(clock.period(), 40);
    assert_eq!(clock.elapsed(), 15);
    assert_eq!(frame, 0);
    let (clock, frame) = anim.tick(Some(clock), 25, frame);
    assert_eq!(clock.elapsed(), 0);
    assert_eq!(frame, 1);
}

#[test]
fn cycle_fires_on_the_first_tick_if_it_is_long_enough() {
    let anim = TilesetAnim(vec![4, 5, 6], 40);
    let (clock, frame) = anim.tick(None, 45, 2);
    assert_eq!(clock.elapsed(), 5);
    assert_eq!(frame, 0);
}

#[test]
fn cycle_uses_the_clock_it_is_given() {
    let anim = TilesetAnim(vec![4, 5, 6], 40);
    let (clock, frame) = anim.tick(Some(FrameClock::new(10)), 10, 1);
    assert_eq!(clock.period(), 10);
    assert_eq!(frame, 2);
}

#[test]
fn cycle_steps_modulo_its_length() {
    let anim = TilesetAnim(vec![4, 5, 6], 1);
    let mut clock = None;
    let mut frame = 0;
    let mut seen = Vec::new();
    for _ in 0..7 {
        let (next_clock, next_frame) = anim.tick(clock, 1, frame);
        clock = Some(next_clock);
        frame = next_frame;
        seen.push(frame);
    }
    assert_eq!(seen, vec![1, 2, 0, 1, 2, 0, 1]);
    let (_, wrapped) = anim.tick(None, 1, 10);
    assert_eq!(wrapped, 11 % 3);
}

#[test]
fn cycle_without_frames_leaves_the_sprite_alone() {
    let anim = TilesetAnim(vec![], 1);
    let (clock, frame) = anim.tick(None, 5, 3);
    assert_eq!(frame, 3);
    assert_eq!(clock.period(), 1);
}

#[test]
fn cloned_cycle_is_the_same() {
    let anim = TilesetAnim(vec![4, 5, 6], 40);
    let copy = anim.clone();
    assert_eq!(copy.0, vec![4, 5, 6]);
    assert_eq!(copy.1, 40);
}

#[test]
fn follow_asks_for_the_track_if_the_layer_has_it() {
    let mut anims = layer(&[("idle", &[0, 1]), ("walk", &[3, 4]), ("default", &[9])], "idle", 100);
    anims.tick(100);
    anims.follow("walk");
    assert_eq!(anims.current_anim, "walk");
    assert_eq!(anims.current_anim_index, 0);
    assert_eq!(anims.timer.elapsed(), 100);
}

#[test]
fn follow_asks_for_default_if_the_layer_lacks_the_track() {
    let mut anims = layer(&[("idle", &[0, 1]), ("default", &[9])], "idle", 100);
    anims.tick(100);
    anims.follow("attack");
    assert_eq!(anims.current_anim, "default");
    assert_eq!(anims.current_anim_index, 0);
    assert_eq!(anims.tick(0), FrameResolution::Resolved(9));
}

#[test]
fn follow_asks_for_default_even_where_there_is_none() {
    let mut anims = layer(&[("idle", &[0, 1])], "idle", 100);
    anims.follow("attack");
    assert_eq!(anims.current_anim, "default");
    assert_eq!(anims.tick(0), FrameResolution::PinnedToZero);
    assert_eq!(anims.current_anim, "default");
}

#[test]
fn follow_of_the_current_track_changes_nothing() {
    let mut anims = layer(&[("idle", &[0, 1, 2])], "idle", 100);
    anims.tick(100);
    anims.tick(60);
    anims.follow("idle");
    assert_eq!(anims.current_anim_index, 1);
    assert_eq!(anims.timer.elapsed(), 60);
}

#[test]
fn request_for_an_empty_name_is_a_request_like_any_other() {
    let mut anims = layer(&[("", &[7]), ("idle", &[0])], "idle", 100);
    anims.set_anim("");
    assert_eq!(anims.current_anim, "");
    assert_eq!(anims.tick(0), FrameResolution::Resolved(7));
}

#[test]
fn diagnostic_names_the_animation_that_was_playing() {
    assert_eq!(FrameResolution::Waiting.diagnostic("walk"), None);
    assert_eq!(FrameResolution::Resolved(3).diagnostic("walk"), None);
    assert_eq!(
        FrameResolution::CursorReset.diagnostic("walk"),
        Some("An animation index has gone out of \"walk\"'s bounds. Setting to zero...".to_string())
    );
    assert_eq!(
        FrameResolution::FellBackToDefault.diagnostic("walk"),
        Some("Animation 'walk' Does Not Exist For Sprite".to_string())
    );
    assert_eq!(
        FrameResolution::PinnedToZero.diagnostic(""),
        Some("Animation '' Does Not Exist For Sprite".to_string())
    );
}
