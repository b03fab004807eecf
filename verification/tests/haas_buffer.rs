use haas_effect::haas_buffer::{HaasBuffer, HaasPopError, HaasPushError};
use haas_effect::util::ms_to_samples;

fn fill_count(b: &mut HaasBuffer) -> usize {
    let mut n = 0;
    while b.push(n as u32).is_ok() {
        n += 1;
    }
    n
}

#[test]
fn ms_to_samples_rounds_down() {
    assert_eq!(ms_to_samples(20, 44100), 882);
    assert_eq!(ms_to_samples(1, 999), 0);
    assert_eq!(ms_to_samples(3, 48000), 144);
    assert_eq!(ms_to_samples(0, 48000), 0);
}

#[test]
fn new_buffer_holds_the_delay_in_samples() {
    let mut b = HaasBuffer::new(2, 1000);
    assert_eq!(b.delay_ms, 2);
    assert_eq!(b.sample_rate, 1000);
    assert_eq!(b.pop(), Err(HaasPopError::Empty));
    assert_eq!(fill_count(&mut b), 2);
}

#[test]
fn push_refuses_when_full_and_hands_the_value_back() {
    let mut b = HaasBuffer::new(3, 1000);
    assert_eq!(b.push(1), Ok(()));
    assert_eq!(b.push(2), Ok(()));
    assert_eq!(b.push(3), Ok(()));
    assert_eq!(b.push(4), Err(HaasPushError::Full(4)));
    assert_eq!(b.pop(), Ok(1));
    assert_eq!(b.push(5), Ok(()));
    assert_eq!(b.pop(), Ok(2));
    assert_eq!(b.pop(), Ok(3));
    assert_eq!(b.pop(), Ok(5));
    assert_eq!(b.pop(), Err(HaasPopError::Empty));
}

#[test]
fn zero_sized_buffer_refuses_everything() {
    let mut b = HaasBuffer::new(0, 48000);
    assert_eq!(b.push(9), Err(HaasPushError::Full(9)));
    assert_eq!(b.pop(), Err(HaasPopError::Empty));
}

#[test]
fn resize_empties_and_resizes_from_the_construction_delay() {
    let mut b = HaasBuffer::new(4, 1000);
    b.push(1).unwrap();
    b.resize(2);
    assert_eq!(b.delay_ms, 4);
    assert_eq!(b.pop(), Err(HaasPopError::Empty));
    assert_eq!(fill_count(&mut b), 6);
    b.resize(2);
    assert_eq!(fill_count(&mut b), 6);
    b.resize(-3);
    assert_eq!(fill_count(&mut b), 1);
}

#[test]
fn resize_below_zero_gives_an_empty_capacity() {
    let mut b = HaasBuffer::new(4, 1000);
    b.resize(-10);
    assert_eq!(fill_count(&mut b), 0);
}

#[test]
fn reset_leaves_the_buffer_as_it_is() {
    let mut b = HaasBuffer::new(2, 1000);
    b.push(7).unwrap();
    b.reset();
    assert_eq!(b.pop(), Ok(7));
}

#[test]
fn two_resizes_use_only_the_last_delta() {
    let mut b = HaasBuffer::new(10, 1000);
    b.resize(5);
    b.resize(-4);
    assert_eq!(b.delay_ms, 10);
    assert_eq!(fill_count(&mut b), 6);
}
