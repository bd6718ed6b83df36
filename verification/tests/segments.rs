use dash_resolver::segment::{fill_template, get_media_from_adaptation_set, segment_number_of};
use dash_resolver::error::ResolveError;
use dash_resolver::tree::ManifestTree;

const ONE: u64 = 1_000_000;

fn chars(text: &str) -> Vec<char> {
    text.chars().collect()
}

fn filled(template: &str, id: &str, bandwidth: u32, number: u64) -> String {
    fill_template(&chars(template), &chars(id), bandwidth, number).into_iter().collect()
}

struct Fixture {
    tree: ManifestTree,
    set: usize,
    template: usize,
}

fn adaptation_set(media: Option<&str>, timing: &[(&str, &str)]) -> Fixture {
    let mut tree = ManifestTree::new();
    let mpd = tree.add_element(0, "MPD");
    let period = tree.add_element(mpd, "Period");
    let set = tree.add_element(period, "AdaptationSet");
    let template = tree.add_element(set, "SegmentTemplate");
    if let Some(text) = media {
        tree.set_attribute(template, "media", text);
    }
    for (name, value) in timing {
        tree.set_attribute(template, name, value);
    }
    Fixture { tree, set, template }
}

fn representation(tree: &mut ManifestTree, set: usize, bandwidth: Option<&str>, id: Option<&str>) -> usize {
    let node = tree.add_element(set, "Representation");
    if let Some(text) = bandwidth {
        tree.set_attribute(node, "bandwidth", text);
    }
    if let Some(text) = id {
        tree.set_attribute(node, "id", text);
    }
    node
}

#[test]
fn the_segment_number_counts_whole_segments_from_the_start_number() {
    assert_eq!(segment_number_of(10 * ONE, ONE, 4 * ONE, 1), Ok(3));
    assert_eq!(segment_number_of(4 * ONE, ONE, 4 * ONE, 1), Ok(2));
    assert_eq!(segment_number_of(4 * ONE - 1, ONE, 4 * ONE, 1), Ok(1));
    assert_eq!(segment_number_of(0, ONE, 4 * ONE, 0), Ok(0));
}

#[test]
fn the_timescale_divides_the_duration() {
    assert_eq!(segment_number_of(10 * ONE, 90_000 * ONE, 180_000 * ONE, 0), Ok(5));
    assert_eq!(segment_number_of(10 * ONE, 2 * ONE, 4 * ONE, 1), Ok(6));
    assert_eq!(segment_number_of(10 * ONE, ONE / 2, 4 * ONE, 1), Ok(2));
    assert_eq!(segment_number_of(10 * ONE, 0, 4 * ONE, 7), Ok(7));
}

#[test]
fn a_duration_of_zero_gives_no_segment_number() {
    assert_eq!(segment_number_of(10 * ONE, ONE, 0, 1), Err(ResolveError::SegmentIndexOutOfRange));
    assert_eq!(segment_number_of(0, ONE, 0, 0), Err(ResolveError::SegmentIndexOutOfRange));
}

#[test]
fn a_segment_number_too_large_gives_an_error() {
    assert_eq!(segment_number_of(u64::MAX, u64::MAX, 1, 0), Err(ResolveError::SegmentIndexOutOfRange));
    assert_eq!(segment_number_of(u64::MAX, ONE, 1, 0), Ok(u64::MAX));
    assert_eq!(segment_number_of(u64::MAX, ONE, 1, 1), Err(ResolveError::SegmentIndexOutOfRange));
    assert_eq!(segment_number_of(u64::MAX - 1, ONE, 1, 1), Ok(u64::MAX));
}

#[test]
fn every_occurrence_of_a_placeholder_is_replaced() {
    assert_eq!(filled("a-$Number$-b-$Number$.m4s", "v1", 500_000, 7), "a-7-b-7.m4s");
    assert_eq!(filled("$Number$$Number$", "v1", 500_000, 12), "1212");
}

#[test]
fn the_three_placeholders_are_filled_in() {
    assert_eq!(
        filled("$RepresentationID$/$Bandwidth$/seg-$Number$.m4s", "v1", 500_000, 3),
        "v1/500000/seg-3.m4s"
    );
    assert_eq!(filled("plain.m4s", "v1", 500_000, 3), "plain.m4s");
    assert_eq!(filled("", "v1", 500_000, 3), "");
    assert_eq!(filled("$Number", "v1", 500_000, 3), "$Number");
    assert_eq!(filled("$$Number$$", "v1", 0, 0), "$0$");
    assert_eq!(filled("$Time$", "v1", 0, 0), "$Time$");
}

#[test]
fn placeholders_are_filled_in_one_after_the_other() {
    assert_eq!(filled("$RepresentationID$", "$Number$", 1, 9), "9");
    assert_eq!(filled("$RepresentationID$", "$Bandwidth$", 1, 9), "1");
    assert_eq!(filled("$Bandwidth$", "$Bandwidth$", u32::MAX, u64::MAX), "4294967295");
    assert_eq!(filled("$Number$", "x", 1, u64::MAX), "18446744073709551615");
}

#[test]
fn a_segment_url_is_resolved() {
    let mut s = adaptation_set(
        Some("seg-$RepresentationID$-$Number$.m4s"),
        &[("duration", "4"), ("timescale", "1"), ("startNumber", "1")],
    );
    representation(&mut s.tree, s.set, Some("250000"), Some("v0"));
    representation(&mut s.tree, s.set, Some("500000"), Some("v1"));
    assert_eq!(
        get_media_from_adaptation_set(&s.tree, s.set, 500_000, 10_000_000),
        Ok("seg-v1-3.m4s".to_string())
    );
    assert_eq!(
        get_media_from_adaptation_set(&s.tree, s.set, 250_000, 0),
        Ok("seg-v0-1.m4s".to_string())
    );
}

#[test]
fn start_number_and_timescale_have_defaults() {
    let mut s = adaptation_set(Some("$Number$"), &[("duration", "4")]);
    representation(&mut s.tree, s.set, Some("1"), Some("a"));
    assert_eq!(get_media_from_adaptation_set(&s.tree, s.set, 1, 10_000_000), Ok("2".to_string()));
}

#[test]
fn timing_attributes_may_have_fractions() {
    let mut s = adaptation_set(Some("$Number$"), &[("duration", "2.5"), ("timescale", "1.0")]);
    representation(&mut s.tree, s.set, Some("1"), Some("a"));
    assert_eq!(get_media_from_adaptation_set(&s.tree, s.set, 1, 10_000_000), Ok("4".to_string()));
    assert_eq!(get_media_from_adaptation_set(&s.tree, s.set, 1, 9_999_999), Ok("3".to_string()));
}

#[test]
fn a_set_without_template_gives_an_error() {
    let mut tree = ManifestTree::new();
    let set = tree.add_element(0, "AdaptationSet");
    representation(&mut tree, set, Some("1"), Some("a"));
    assert_eq!(
        get_media_from_adaptation_set(&tree, set, 1, 0),
        Err(ResolveError::NoSegmentTemplate)
    );
    assert_eq!(
        get_media_from_adaptation_set(&tree, 99, 1, 0),
        Err(ResolveError::NoSegmentTemplate)
    );
}

#[test]
fn a_template_without_duration_gives_an_error() {
    let mut s = adaptation_set(Some("$Number$"), &[("timescale", "1")]);
    representation(&mut s.tree, s.set, Some("1"), Some("a"));
    assert_eq!(
        get_media_from_adaptation_set(&s.tree, s.set, 1, 0),
        Err(ResolveError::NoSegmentDuration)
    );
}

#[test]
fn a_template_without_media_gives_an_error() {
    let mut s = adaptation_set(None, &[("duration", "4")]);
    representation(&mut s.tree, s.set, Some("1"), Some("a"));
    assert_eq!(
        get_media_from_adaptation_set(&s.tree, s.set, 1, 0),
        Err(ResolveError::NoSegmentTemplate)
    );
}

#[test]
fn a_bandwidth_that_no_representation_has_gives_an_error() {
    let mut s = adaptation_set(Some("$Number$"), &[("duration", "4")]);
    assert_eq!(
        get_media_from_adaptation_set(&s.tree, s.set, 500_000, 0),
        Err(ResolveError::NoRepresentation)
    );
    representation(&mut s.tree, s.set, Some("500001"), Some("a"));
    representation(&mut s.tree, s.set, Some("499999"), Some("b"));
    assert_eq!(
        get_media_from_adaptation_set(&s.tree, s.set, 500_000, 0),
        Err(ResolveError::NoRepresentation)
    );
}

#[test]
fn a_representation_without_id_gives_an_error() {
    let mut s = adaptation_set(Some("$Number$"), &[("duration", "4")]);
    representation(&mut s.tree, s.set, Some("500000"), None);
    representation(&mut s.tree, s.set, Some("500000"), Some("late"));
    assert_eq!(
        get_media_from_adaptation_set(&s.tree, s.set, 500_000, 0),
        Err(ResolveError::NoRepresentation)
    );
}

#[test]
fn a_representation_without_bandwidth_has_bandwidth_zero() {
    let mut s = adaptation_set(Some("$RepresentationID$"), &[("duration", "4")]);
    representation(&mut s.tree, s.set, None, Some("none"));
    assert_eq!(get_media_from_adaptation_set(&s.tree, s.set, 0, 0), Ok("none".to_string()));
}

#[test]
fn attributes_that_are_no_numbers_give_an_error() {
    for (name, value) in [
        ("startNumber", "one"),
        ("startNumber", ""),
        ("startNumber", "-1"),
        ("startNumber", "1.5"),
        ("startNumber", "4294967296"),
        ("timescale", "fast"),
        ("timescale", "1e3"),
        ("timescale", "1."),
        ("timescale", ".5"),
        ("timescale", " 1"),
        ("duration", ""),
        ("duration", "4s"),
        ("duration", "-4"),
        ("duration", "18446744073709.551616"),
    ] {
        let mut s = adaptation_set(Some("$Number$"), &[("duration", "4")]);
        let fresh = s.tree.add_element(s.set, "SegmentTemplate");
        assert!(fresh > s.template);
        let mut t = adaptation_set(Some("$Number$"), &[(name, value), ("duration", "4")]);
        representation(&mut s.tree, s.set, Some("1"), Some("a"));
        representation(&mut t.tree, t.set, Some("1"), Some("a"));
        assert_eq!(get_media_from_adaptation_set(&s.tree, s.set, 1, 0), Ok("0".to_string()));
        assert_eq!(
            get_media_from_adaptation_set(&t.tree, t.set, 1, 0),
            Err(ResolveError::AttributeParseFailure),
            "{name}={value}"
        );
    }
}

#[test]
fn the_largest_numbers_that_fit_are_read() {
    let mut s = adaptation_set(
        Some("$Number$"),
        &[("startNumber", "4294967295"), ("timescale", "18446744073709.551615"), ("duration", "1")],
    );
    representation(&mut s.tree, s.set, Some("4294967295"), Some("a"));
    assert_eq!(
        get_media_from_adaptation_set(&s.tree, s.set, u32::MAX, 0),
        Ok("4294967295".to_string())
    );
    assert_eq!(
        get_media_from_adaptation_set(&s.tree, s.set, u32::MAX, 1_000_000),
        Ok((18_446_744_073_709u64 + 4_294_967_295).to_string())
    );
}

#[test]
fn a_bandwidth_that_is_no_number_ends_the_search() {
    let mut s = adaptation_set(Some("$Number$"), &[("duration", "4")]);
    representation(&mut s.tree, s.set, Some("1"), Some("a"));
    representation(&mut s.tree, s.set, Some("fast"), Some("b"));
    representation(&mut s.tree, s.set, Some("3"), Some("c"));
    assert_eq!(get_media_from_adaptation_set(&s.tree, s.set, 1, 0), Ok("0".to_string()));
    assert_eq!(
        get_media_from_adaptation_set(&s.tree, s.set, 3, 0),
        Err(ResolveError::AttributeParseFailure)
    );
}

#[test]
fn the_first_failing_step_decides_the_error() {
    let mut s = adaptation_set(None, &[("startNumber", "x")]);
    assert_eq!(
        get_media_from_adaptation_set(&s.tree, s.set, 1, 0),
        Err(ResolveError::AttributeParseFailure)
    );
    let t = adaptation_set(None, &[]);
    assert_eq!(
        get_media_from_adaptation_set(&t.tree, t.set, 1, 0),
        Err(ResolveError::NoSegmentDuration)
    );
    s = adaptation_set(None, &[("duration", "0")]);
    assert_eq!(
        get_media_from_adaptation_set(&s.tree, s.set, 1, 0),
        Err(ResolveError::SegmentIndexOutOfRange)
    );
    s = adaptation_set(None, &[("duration", "1")]);
    assert_eq!(
        get_media_from_adaptation_set(&s.tree, s.set, 1, 0),
        Err(ResolveError::NoRepresentation)
    );
}
