use gaspy::exclude::{should_exclude, ExclusionSet};
use gaspy::lines::{count_text_lines, is_blank, CountRule};

#[test]
fn all_lines_counts_unterminated_last_line() {
    assert_eq!(count_text_lines("a\nb\nc", CountRule::AllLines), 3);
}

#[test]
fn trimmed_lines_skip_blank_ones() {
    assert_eq!(count_text_lines("a\n\n   \nb", CountRule::NonEmptyTrimmedLines), 2);
}

#[test]
fn terminated_last_line_counts_once() {
    assert_eq!(count_text_lines("x\ny\n", CountRule::AllLines), 2);
}

#[test]
fn empty_text_has_no_lines() {
    assert_eq!(count_text_lines("", CountRule::AllLines), 0);
    assert_eq!(count_text_lines("", CountRule::NonEmptyTrimmedLines), 0);
}

#[test]
fn empty_lines_count_under_all_lines() {
    assert_eq!(count_text_lines("\n\n", CountRule::AllLines), 2);
    assert_eq!(count_text_lines("\n\n", CountRule::NonEmptyTrimmedLines), 0);
}

#[test]
fn carriage_returns_and_unicode_spaces_are_blank() {
    assert_eq!(count_text_lines("a\r\n\r\n\u{3000}\u{a0}\nb\r\n", CountRule::NonEmptyTrimmedLines), 2);
    assert_eq!(count_text_lines("a\r\n\r\n\u{3000}\u{a0}\nb\r\n", CountRule::AllLines), 4);
}

#[test]
fn blank_matches_char_is_whitespace() {
    for code in 0u32..0x3100 {
        if let Some(c) = char::from_u32(code) {
            assert_eq!(is_blank(c), c.is_whitespace(), "{:?}", c);
        }
    }
}

fn set_of(names: &[&str]) -> ExclusionSet {
    ExclusionSet::from_names(names.iter().map(|s| s.to_string()).collect())
}

#[test]
fn exclusion_matches_exact_names() {
    let set = set_of(&[".git", "node_modules"]);
    assert!(set.contains(&".git".to_string()));
    assert!(!set.contains(&".GIT".to_string()));
    assert!(!set.contains(&"git".to_string()));
    let mut other = ExclusionSet::new();
    assert!(!other.contains(&"x".to_string()));
    other.insert("x".to_string());
    assert!(other.contains(&"x".to_string()));
}

#[test]
fn should_exclude_uses_last_component() {
    let set = set_of(&[".git"]);
    assert!(should_exclude(".git", &set));
    assert!(should_exclude("project/.git", &set));
    assert!(should_exclude("project/.git/", &set));
    assert!(!should_exclude(".git/config", &set));
    assert!(!should_exclude("README", &set));
}

#[test]
fn should_exclude_fails_open_without_a_name() {
    let set = set_of(&["..", "", "/"]);
    assert!(!should_exclude("a/..", &set));
    assert!(!should_exclude("", &set));
    assert!(!should_exclude("/", &set));
}

#[test]
fn excludes_base_name_never_matches_none() {
    let set = set_of(&["a"]);
    assert!(set.excludes_base_name(&Some("a".to_string())));
    assert!(!set.excludes_base_name(&Some("b".to_string())));
    assert!(!set.excludes_base_name(&None));
}
