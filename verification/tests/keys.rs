use inside_overlay::keys::{holds, pressed, Key};

#[test]
fn nothing_held_nothing_pressed() {
    assert_eq!(pressed(&[], &[]), None);
    assert_eq!(pressed(&[], &[Key::X]), None);
}

#[test]
fn a_new_key_is_pressed() {
    assert_eq!(pressed(&[Key::X], &[]), Some(Key::X));
}

#[test]
fn a_key_held_before_is_not_pressed_again() {
    assert_eq!(pressed(&[Key::X], &[Key::X]), None);
}

#[test]
fn the_first_new_key_wins() {
    assert_eq!(pressed(&[Key::Key1, Key::Key2], &[]), Some(Key::Key1));
    assert_eq!(pressed(&[Key::Key1, Key::Key2], &[Key::Key1]), Some(Key::Key2));
    assert_eq!(pressed(&[Key::Key1, Key::Key2, Key::L], &[Key::Key2, Key::Key1]), Some(Key::L));
}

#[test]
fn a_released_key_does_not_count() {
    assert_eq!(pressed(&[Key::Enter], &[Key::Q, Key::Enter]), None);
}

#[test]
fn holds_finds_a_key() {
    assert!(holds(&[Key::C, Key::P], Key::P));
    assert!(!holds(&[Key::C, Key::P], Key::B));
    assert!(!holds(&[], Key::B));
}

#[test]
fn a_key_held_over_several_snapshots_is_pressed_once() {
    let ticks: [&[Key]; 4] = [&[Key::Key7], &[Key::Key7], &[Key::Key7, Key::Dot], &[Key::Key7]];
    let mut previous: Vec<Key> = Vec::new();
    let mut fired = 0;
    for held in ticks {
        if pressed(held, &previous) == Some(Key::Key7) {
            fired += 1;
        }
        previous = held.to_vec();
    }
    assert_eq!(fired, 1);
}
