use dash_resolver::period::{find_period, requested_position_is_valid};
use dash_resolver::error::ResolveError;
use dash_resolver::tree::ManifestTree;

const SECOND: i64 = 1_000_000;

fn manifest(total: Option<&str>) -> (ManifestTree, usize) {
    let mut tree = ManifestTree::new();
    let mpd = tree.add_element(0, "MPD");
    if let Some(text) = total {
        tree.set_attribute(mpd, "mediaPresentationDuration", text);
    }
    (tree, mpd)
}

fn period(tree: &mut ManifestTree, mpd: usize, start: Option<&str>, duration: Option<&str>) -> usize {
    let node = tree.add_element(mpd, "Period");
    if let Some(text) = start {
        tree.set_attribute(node, "start", text);
    }
    if let Some(text) = duration {
        tree.set_attribute(node, "duration", text);
    }
    node
}

#[test]
fn a_position_before_the_end_is_valid() {
    let (tree, mpd) = manifest(Some("PT30S"));
    assert!(requested_position_is_valid(&tree, mpd, 0));
    assert!(requested_position_is_valid(&tree, mpd, 30 * SECOND - 1));
}

#[test]
fn a_position_at_or_behind_the_end_is_invalid() {
    let (tree, mpd) = manifest(Some("PT30S"));
    assert!(!requested_position_is_valid(&tree, mpd, 30 * SECOND));
    assert!(!requested_position_is_valid(&tree, mpd, 31 * SECOND));
    assert!(!requested_position_is_valid(&tree, mpd, i64::MAX));
}

#[test]
fn without_a_total_duration_no_position_is_valid() {
    let (tree, mpd) = manifest(None);
    assert!(!requested_position_is_valid(&tree, mpd, 0));
    assert!(!requested_position_is_valid(&tree, mpd, 1));
    let (tree, mpd) = manifest(Some("half a minute"));
    assert!(!requested_position_is_valid(&tree, mpd, 0));
}

#[test]
fn a_negative_position_passes_the_test_against_the_total() {
    let (tree, mpd) = manifest(Some("PT30S"));
    assert!(requested_position_is_valid(&tree, mpd, -1));
    let (tree, mpd) = manifest(None);
    assert!(requested_position_is_valid(&tree, mpd, -1));
}

#[test]
fn a_node_that_is_not_in_the_tree_has_no_total_duration() {
    let (tree, _) = manifest(Some("PT30S"));
    assert!(!requested_position_is_valid(&tree, 99, 0));
}

#[test]
fn a_position_on_a_boundary_belongs_to_the_period_that_ends_there() {
    let (mut tree, mpd) = manifest(Some("PT30S"));
    let first = period(&mut tree, mpd, None, Some("PT10S"));
    let second = period(&mut tree, mpd, None, Some("PT20S"));
    assert_eq!(find_period(&tree, mpd, 9_999_000), Ok(first));
    assert_eq!(find_period(&tree, mpd, 10 * SECOND), Ok(first));
    assert_eq!(find_period(&tree, mpd, 10 * SECOND + 1), Ok(second));
    assert_eq!(find_period(&tree, mpd, 30 * SECOND), Ok(second));
}

#[test]
fn behind_every_boundary_the_last_period_is_found() {
    let (mut tree, mpd) = manifest(None);
    period(&mut tree, mpd, None, Some("PT10S"));
    let second = period(&mut tree, mpd, None, Some("PT20S"));
    assert_eq!(find_period(&tree, mpd, 1000 * SECOND), Ok(second));
}

#[test]
fn a_manifest_without_a_period_gives_an_error() {
    let (mut tree, mpd) = manifest(Some("PT30S"));
    tree.add_element(mpd, "BaseURL");
    tree.add_text(mpd);
    assert_eq!(find_period(&tree, mpd, 0), Err(ResolveError::NoPeriodFound));
}

#[test]
fn periods_of_another_parent_do_not_count() {
    let (mut tree, mpd) = manifest(None);
    let other = tree.add_element(mpd, "Other");
    period(&mut tree, other, None, Some("PT10S"));
    assert_eq!(find_period(&tree, mpd, 0), Err(ResolveError::NoPeriodFound));
    let text = tree.add_text(mpd);
    tree.set_attribute(text, "duration", "PT10S");
    assert_eq!(find_period(&tree, mpd, 0), Err(ResolveError::NoPeriodFound));
}

#[test]
fn boundaries_run_on_from_period_to_period() {
    let (mut tree, mpd) = manifest(None);
    let first = period(&mut tree, mpd, None, Some("PT10S"));
    let second = period(&mut tree, mpd, None, None);
    let third = period(&mut tree, mpd, None, Some("PT20S"));
    let fourth = period(&mut tree, mpd, None, Some("PT0.5S"));
    assert_eq!(find_period(&tree, mpd, 0), Ok(first));
    assert_eq!(find_period(&tree, mpd, 10 * SECOND), Ok(first));
    assert_eq!(find_period(&tree, mpd, 14 * SECOND), Ok(third));
    assert_eq!(find_period(&tree, mpd, 30 * SECOND), Ok(third));
    assert_eq!(find_period(&tree, mpd, 30 * SECOND + 1), Ok(fourth));
    assert_eq!(find_period(&tree, mpd, 31 * SECOND), Ok(fourth));
    assert!(second > first && second < third);
}

#[test]
fn an_explicit_start_is_the_boundary_of_its_period() {
    let (mut tree, mpd) = manifest(None);
    let first = period(&mut tree, mpd, Some("PT0S"), Some("PT10S"));
    let second = period(&mut tree, mpd, Some("PT10S"), Some("PT20S"));
    let third = period(&mut tree, mpd, None, Some("PT5S"));
    assert_eq!(find_period(&tree, mpd, 0), Ok(first));
    assert_eq!(find_period(&tree, mpd, 1), Ok(second));
    assert_eq!(find_period(&tree, mpd, 10 * SECOND), Ok(second));
    assert_eq!(find_period(&tree, mpd, 14 * SECOND), Ok(third));
    assert_eq!(find_period(&tree, mpd, 16 * SECOND), Ok(third));
}

#[test]
fn the_first_start_attribute_of_a_period_counts() {
    let (mut tree, mpd) = manifest(None);
    let first = period(&mut tree, mpd, Some("PT5S"), None);
    tree.set_attribute(first, "start", "PT50S");
    let second = period(&mut tree, mpd, None, None);
    assert_eq!(find_period(&tree, mpd, 5 * SECOND), Ok(first));
    assert_eq!(find_period(&tree, mpd, 6 * SECOND), Ok(second));
}

#[test]
fn a_negative_position_finds_the_first_period() {
    let (mut tree, mpd) = manifest(None);
    let first = period(&mut tree, mpd, None, None);
    period(&mut tree, mpd, None, Some("PT20S"));
    assert_eq!(find_period(&tree, mpd, -5), Ok(first));
}

#[test]
fn boundaries_too_large_are_held_at_the_largest_value() {
    let (mut tree, mpd) = manifest(None);
    let first = period(&mut tree, mpd, None, Some("P500000Y"));
    let second = period(&mut tree, mpd, None, Some("P500000Y"));
    let third = period(&mut tree, mpd, None, Some("PT1S"));
    assert_eq!(find_period(&tree, mpd, i64::MAX), Ok(first));
    tree.set_attribute(first, "start", "PT1S");
    assert_eq!(find_period(&tree, mpd, i64::MAX), Ok(second));
    tree.set_attribute(second, "start", "PT2S");
    assert_eq!(find_period(&tree, mpd, i64::MAX), Ok(third));
}
