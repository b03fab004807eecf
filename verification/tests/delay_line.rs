use haas_effect::channel::Channel;
use haas_effect::delay_line::{route, ChannelRoute, DelayLine};

fn ready_line(ceil: usize) -> DelayLine {
    let mut d = DelayLine::new();
    d.initialize(ceil);
    d.reset();
    d
}

#[test]
fn new_line_is_empty_and_not_ready() {
    let d = DelayLine::new();
    assert_eq!(d.len(), 0);
    assert_eq!(d.write_pos(), 0);
    assert!(!d.is_ready());
}

#[test]
fn initialize_allocates_one_more_than_the_ceiling() {
    let mut d = DelayLine::new();
    d.initialize(4410);
    assert_eq!(d.len(), 4411);
    assert!(d.is_ready());
    let t = d.tap(Channel::Left, 100);
    assert_eq!(t.value, Some(0));
}

#[test]
fn initialize_keeps_the_write_position() {
    let mut d = ready_line(9);
    for i in 0..7u32 {
        d.write(i, i);
    }
    assert_eq!(d.write_pos(), 7);
    d.initialize(3);
    assert_eq!(d.len(), 4);
    assert_eq!(d.write_pos(), 7);
    assert!(!d.is_ready());
    d.reset();
    assert_eq!(d.write_pos(), 0);
    assert!(d.is_ready());
}

#[test]
fn tap_reads_the_frame_written_delay_frames_ago() {
    let mut d = ready_line(7);
    for i in 0..20u32 {
        d.write(100 + i, 200 + i);
    }
    // Last written frame is i = 19.
    for delay in 1..8usize {
        let t = d.tap(Channel::Left, delay);
        assert_eq!(t.value, Some(100 + 20 - delay as u32));
        let t = d.tap(Channel::Right, delay);
        assert_eq!(t.value, Some(200 + 20 - delay as u32));
        assert_ne!(t.read_pos, d.write_pos());
    }
}

#[test]
fn tap_clamps_the_delay_to_one_less_than_the_length() {
    let mut d = ready_line(4);
    for i in 0..5u32 {
        d.write(i + 1, 0);
    }
    assert_eq!(d.write_pos(), 0);
    let t = d.tap(Channel::Left, 1000);
    assert_eq!(t.delay_samples, 4);
    assert_eq!(t.read_pos, 1);
    assert_eq!(t.value, Some(2));
}

#[test]
fn zero_delay_reads_nothing() {
    let mut d = ready_line(4);
    d.write(7, 8);
    let t = d.tap(Channel::Right, 0);
    assert_eq!(t.delay_samples, 0);
    assert_eq!(t.read_pos, d.write_pos());
    assert_eq!(t.value, None);
}

#[test]
fn read_position_wraps_around() {
    let mut d = ready_line(9);
    d.write(1, 1);
    d.write(2, 2);
    assert_eq!(d.write_pos(), 2);
    let t = d.tap(Channel::Left, 5);
    // (2 + 10 - 5) % 10 = 7
    assert_eq!(t.read_pos, 7);
    assert_eq!(t.value, Some(0));
}

#[test]
fn tap_further_back_than_the_writes_since_reset_reads_silence() {
    let mut d = ready_line(9);
    d.write(5, 6);
    d.write(7, 8);
    assert_eq!(d.tap(Channel::Left, 1).value, Some(7));
    assert_eq!(d.tap(Channel::Left, 2).value, Some(5));
    for delay in 3..10usize {
        assert_eq!(d.tap(Channel::Left, delay).value, Some(0));
        assert_eq!(d.tap(Channel::Right, delay).value, Some(0));
    }
}

#[test]
fn reset_silences_and_rewinds() {
    let mut d = ready_line(3);
    for i in 0..6u32 {
        d.write(i + 10, i + 20);
    }
    d.reset();
    assert_eq!(d.len(), 4);
    assert_eq!(d.write_pos(), 0);
    for delay in 1..4usize {
        assert_eq!(d.tap(Channel::Left, delay).value, Some(0));
        assert_eq!(d.tap(Channel::Right, delay).value, Some(0));
    }
}

#[test]
fn write_position_wraps_to_zero() {
    let mut d = ready_line(2);
    d.write(1, 1);
    d.write(2, 2);
    assert_eq!(d.write_pos(), 2);
    d.write(3, 3);
    assert_eq!(d.write_pos(), 0);
}

#[test]
fn single_sample_line_always_reads_dry() {
    let mut d = ready_line(0);
    assert_eq!(d.len(), 1);
    d.write(9, 9);
    let t = d.tap(Channel::Left, 3);
    assert_eq!(t.delay_samples, 0);
    assert_eq!(t.value, None);
}

#[test]
fn reset_of_an_empty_line_keeps_it_empty() {
    let mut d = DelayLine::new();
    d.reset();
    assert_eq!(d.len(), 0);
    assert!(!d.is_ready());
}

#[test]
fn selected_channel_is_delayed_and_the_other_crossfed() {
    assert_eq!(route(Channel::Left, 0, Some(5)), ChannelRoute::Delayed { tapped: Some(5) });
    assert_eq!(route(Channel::Left, 1, Some(5)), ChannelRoute::Crossfed { tapped: Some(5) });
    assert_eq!(route(Channel::Right, 1, None), ChannelRoute::Delayed { tapped: None });
    assert_eq!(route(Channel::Right, 0, None), ChannelRoute::Crossfed { tapped: None });
}
