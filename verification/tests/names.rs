use slapdash::cli::{judge_name, validate_name, NAME_PATTERN};

const EMPTY: &str = "Cannot be empty";
const SHAPE: &str = "Must contain only lowercase letters, underscores, and hyphens";

#[test]
fn name_pattern_is_anchored() {
    assert_eq!(NAME_PATTERN, "^[a-z0-9_-]+$");
}

#[test]
fn plain_names_are_accepted() {
    assert_eq!(validate_name("default"), Ok("default".to_string()));
    assert_eq!(validate_name("my_example_series"), Ok("my_example_series".to_string()));
    assert_eq!(validate_name("a-b_c-0123456789"), Ok("a-b_c-0123456789".to_string()));
    assert_eq!(validate_name("-"), Ok("-".to_string()));
    assert_eq!(validate_name("_"), Ok("_".to_string()));
    assert_eq!(validate_name("7"), Ok("7".to_string()));
}

#[test]
fn empty_name_is_refused() {
    assert_eq!(validate_name(""), Err(EMPTY.to_string()));
}

#[test]
fn other_characters_are_refused() {
    for name in ["Default", "a b", "a.b", "a/b", " a", "a ", "naïve", "a\n", "\na", "a\nb", "A", "é"] {
        assert_eq!(validate_name(name), Err(SHAPE.to_string()), "{:?}", name);
    }
}

#[test]
fn verdict_follows_the_match() {
    assert_eq!(judge_name("x y", Some(true)), Ok("x y".to_string()));
    assert_eq!(judge_name("xy", Some(false)), Err(SHAPE.to_string()));
    assert_eq!(judge_name("xy", None), Err(SHAPE.to_string()));
    assert_eq!(judge_name("", Some(true)), Err(EMPTY.to_string()));
    assert_eq!(judge_name("", Some(false)), Err(EMPTY.to_string()));
    assert_eq!(judge_name("", None), Err(EMPTY.to_string()));
}
