use inside_overlay::text::{has_suffix, matches_at, replaced, same_text, shortened};

#[test]
fn suffixes() {
    assert!(has_suffix("x_pos", "pos"));
    assert!(!has_suffix("x_pos", "vel"));
    assert!(has_suffix("pos", "pos"));
    assert!(!has_suffix("os", "pos"));
    assert!(has_suffix("anything", ""));
    assert!(has_suffix("", ""));
    assert!(!has_suffix("position", "pos"));
}

#[test]
fn suffixes_agree_with_std() {
    for text in ["x_pos", "x_vel", "breath", "", "pos", "s", "pospos", "é_pos"] {
        for suffix in ["pos", "vel", "", "s", "é_pos"] {
            assert_eq!(has_suffix(text, suffix), text.ends_with(suffix));
        }
    }
}

#[test]
fn matches_at_a_position() {
    assert!(matches_at("x_pos", "pos", 2));
    assert!(!matches_at("x_pos", "pos", 1));
    assert!(!matches_at("x_pos", "pos", 3));
    assert!(!matches_at("x_pos", "pos", 40));
    assert!(matches_at("x_pos", "", 5));
    assert!(!matches_at("x_pos", "", 6));
}

#[test]
fn replaces_every_occurrence() {
    assert_eq!(replaced("x_pos", "pos", "vel"), "x_vel");
    assert_eq!(replaced("x_vel", "vel", "pos"), "x_pos");
    assert_eq!(replaced("pos_pos", "pos", "vel"), "vel_vel");
    assert_eq!(replaced("breath", "pos", "vel"), "breath");
    assert_eq!(replaced("", "pos", "vel"), "");
    assert_eq!(replaced("aaa", "aa", "b"), "ba");
    assert_eq!(replaced("popos", "pos", "vel"), "povel");
}

#[test]
fn replaces_as_std_does() {
    for text in ["x_pos", "pospos", "ppos", "popos", "aaaa", "", "vel", "é_pos_é"] {
        for (from, to) in [("pos", "vel"), ("aa", "a"), ("a", "aa"), ("é", "e"), ("pos", "")] {
            assert_eq!(replaced(text, from, to), text.replace(from, to));
        }
    }
}

#[test]
fn an_empty_pattern_replaces_nothing() {
    assert_eq!(replaced("x_pos", "", "vel"), "x_pos");
}

#[test]
fn shortens_by_one_character() {
    assert_eq!(shortened("12.5"), "12.");
    assert_eq!(shortened("1"), "");
    assert_eq!(shortened(""), "");
    assert_eq!(shortened("1é"), "1");
}

#[test]
fn same_text_compares_characters() {
    assert!(same_text("x_pos", "x_pos"));
    assert!(!same_text("x_pos", "x_vel"));
    assert!(!same_text("x_pos", "x_po"));
    assert!(same_text("", ""));
}
