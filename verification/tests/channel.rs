use haas_effect::channel::Channel;

#[test]
fn channel_names() {
    assert_eq!(Channel::Left.to_string(), "Left");
    assert_eq!(Channel::Right.to_string(), "Right");
}

#[test]
fn channel_positions() {
    assert_eq!(Channel::Left.index(), 0);
    assert_eq!(Channel::Right.index(), 1);
}
