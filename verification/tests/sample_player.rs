use haas_effect::sample_player::SamplePlayer;

fn player(samples: &[u32], channels: usize) -> SamplePlayer {
    SamplePlayer::new(samples.to_vec(), channels)
}

#[test]
fn from_f32_le_bytes_reads_little_endian_words() {
    let mut bytes = Vec::new();
    bytes.extend_from_slice(&1.5f32.to_le_bytes());
    bytes.extend_from_slice(&(-0.25f32).to_le_bytes());
    bytes.extend_from_slice(&[1, 2, 3]);
    let mut p = SamplePlayer::from_f32_le_bytes(&bytes, 1);
    let a = p.tick(true, 1);
    let b = p.tick(true, 1);
    let c = p.tick(true, 1);
    assert_eq!(a, vec![1.5f32.to_bits()]);
    assert_eq!(b, vec![(-0.25f32).to_bits()]);
    assert_eq!(f32::from_bits(b[0]), -0.25);
    assert!(c.is_empty());
}

#[test]
fn from_f32_le_bytes_word_value() {
    let mut p = SamplePlayer::from_f32_le_bytes(&[0x78, 0x56, 0x34, 0x12], 1);
    assert_eq!(p.tick(true, 1), vec![0x1234_5678]);
}

#[test]
fn nothing_plays_without_a_trigger() {
    let mut p = player(&[1, 2, 3], 1);
    assert!(p.tick(false, 2).is_empty());
    assert!(p.tick(false, 2).is_empty());
}

#[test]
fn held_trigger_plays_frames_in_order_then_stops() {
    let mut p = player(&[10, 11, 20, 21, 30, 31], 2);
    assert_eq!(p.tick(true, 2), vec![10, 11]);
    assert_eq!(p.tick(true, 2), vec![20, 21]);
    assert_eq!(p.tick(true, 2), vec![30, 31]);
    assert!(p.tick(true, 2).is_empty());
    assert!(p.tick(true, 2).is_empty());
}

#[test]
fn release_stops_and_a_new_press_restarts() {
    let mut p = player(&[1, 2, 3, 4], 1);
    assert_eq!(p.tick(true, 1), vec![1]);
    assert_eq!(p.tick(true, 1), vec![2]);
    assert!(p.tick(false, 1).is_empty());
    assert_eq!(p.tick(true, 1), vec![1]);
}

#[test]
fn mono_samples_feed_every_output_channel() {
    let mut p = player(&[5, 6], 1);
    assert_eq!(p.tick(true, 2), vec![5, 5]);
    assert_eq!(p.tick(true, 2), vec![6, 6]);
}

#[test]
fn extra_source_channels_are_not_played() {
    let mut p = player(&[1, 2, 3, 4, 5, 6], 3);
    assert_eq!(p.tick(true, 2), vec![1, 2]);
    assert_eq!(p.tick(true, 2), vec![4, 5]);
}

#[test]
fn reset_while_held_stays_silent_until_pressed_again() {
    let mut p = player(&[1, 2, 3], 1);
    assert_eq!(p.tick(true, 1), vec![1]);
    p.reset();
    assert!(p.tick(true, 1).is_empty());
    assert!(p.tick(false, 1).is_empty());
    assert_eq!(p.tick(true, 1), vec![1]);
}

#[test]
fn can_tick_refuses_what_would_read_past_the_samples() {
    // Three samples in frames of two: the second frame lacks its right sample.
    let mut p = player(&[1, 2, 3], 2);
    assert!(p.can_tick(true, 2));
    assert_eq!(p.tick(true, 2), vec![1, 2]);
    assert!(!p.can_tick(true, 2));
    assert!(p.can_tick(true, 1));
    assert!(p.can_tick(false, 2));
}

#[test]
fn can_tick_refuses_zero_channels_with_outputs() {
    let p = player(&[1], 0);
    assert!(!p.can_tick(true, 1));
    assert!(p.can_tick(true, 0));
    assert!(p.can_tick(false, 1));
}

#[test]
fn empty_samples_never_play() {
    let mut p = player(&[], 1);
    assert!(p.tick(true, 2).is_empty());
    assert!(p.tick(true, 2).is_empty());
}

#[test]
fn whole_frames_always_tick() {
    let mut p = player(&[1, 2, 3, 4, 5, 6], 2);
    assert_eq!(p.samples_len(), 6);
    for step in 0..10 {
        let trig = step % 4 != 3;
        for n in 0..5 {
            assert!(p.can_tick(trig, n));
        }
        p.tick(trig, 3);
    }
}
