use dash_resolver::dash::{dash_media_url_from_position, resolve_media_url};
use dash_resolver::error::ResolveError;
use dash_resolver::tree::{Attribute, ManifestTree, Node};
use dash_resolver::xml::parse_manifest;

const SECOND: i64 = 1_000_000;

const TWO_PERIODS: &str = r#"<?xml version="1.0" encoding="UTF-8"?>
<MPD xmlns="urn:mpeg:dash:schema:mpd:2011" mediaPresentationDuration="PT30S">
  <Period duration="PT10S">
    <AdaptationSet mimeType="audio/mp4">
      <SegmentTemplate media="audio-$RepresentationID$-$Number$.m4s" duration="2"/>
      <Representation bandwidth="64000" id="a1"/>
    </AdaptationSet>
  </Period>
  <!-- the second period -->
  <Period start="PT10S" duration="PT20S">
    <AdaptationSet mimeType="video/mp4">
      <SegmentTemplate media="seg-$RepresentationID$-$Number$.m4s" duration="4" timescale="1" startNumber="1"/>
      <Representation bandwidth="500000" id="v1"/>
    </AdaptationSet>
  </Period>
</MPD>"#;

fn chars(text: &str) -> Vec<char> {
    text.chars().collect()
}

#[test]
fn a_manifest_of_two_periods_is_resolved() {
    assert_eq!(
        dash_media_url_from_position(TWO_PERIODS, 14 * SECOND, "video/mp4", "main", 500_000),
        Ok("seg-v1-4.m4s".to_string())
    );
    assert_eq!(
        dash_media_url_from_position(TWO_PERIODS, 29_999_999, "video/mp4", "main", 500_000),
        Ok("seg-v1-8.m4s".to_string())
    );
    assert_eq!(
        dash_media_url_from_position(TWO_PERIODS, 5 * SECOND, "audio/mp4", "main", 64_000),
        Ok("audio-a1-2.m4s".to_string())
    );
}

#[test]
fn a_later_failure_does_not_try_another_period() {
    assert_eq!(
        dash_media_url_from_position(TWO_PERIODS, 5 * SECOND, "video/mp4", "main", 500_000),
        Err(ResolveError::NoAdaptationSet)
    );
    assert_eq!(
        dash_media_url_from_position(TWO_PERIODS, 14 * SECOND, "audio/mp4", "main", 64_000),
        Err(ResolveError::NoAdaptationSet)
    );
    assert_eq!(
        dash_media_url_from_position(TWO_PERIODS, 14 * SECOND, "video/mp4", "alternate", 500_000),
        Err(ResolveError::NoAdaptationSet)
    );
    assert_eq!(
        dash_media_url_from_position(TWO_PERIODS, 14 * SECOND, "video/mp4", "main", 500_001),
        Err(ResolveError::NoRepresentation)
    );
}

#[test]
fn a_position_out_of_range_is_invalid() {
    for position in [-1, i64::MIN, 30 * SECOND, 30 * SECOND + 1, i64::MAX] {
        assert_eq!(
            dash_media_url_from_position(TWO_PERIODS, position, "video/mp4", "main", 500_000),
            Err(ResolveError::InvalidPosition)
        );
    }
}

#[test]
fn a_position_out_of_range_is_invalid_whatever_else_is_wrong() {
    let text = r#"<MPD mediaPresentationDuration="PT30S"/>"#;
    assert_eq!(
        dash_media_url_from_position(text, 30 * SECOND, "video/mp4", "main", 1),
        Err(ResolveError::InvalidPosition)
    );
    assert_eq!(
        dash_media_url_from_position(text, -1, "video/mp4", "main", 1),
        Err(ResolveError::InvalidPosition)
    );
    assert_eq!(
        dash_media_url_from_position(text, 0, "video/mp4", "main", 1),
        Err(ResolveError::NoPeriodFound)
    );
    assert_eq!(
        dash_media_url_from_position("<MPD><Period/></MPD>", 0, "video/mp4", "main", 1),
        Err(ResolveError::InvalidPosition)
    );
    assert_eq!(
        dash_media_url_from_position(
            r#"<MPD mediaPresentationDuration="soon"><Period/></MPD>"#,
            0,
            "video/mp4",
            "main",
            1
        ),
        Err(ResolveError::InvalidPosition)
    );
}

#[test]
fn text_that_is_no_xml_is_a_malformed_document() {
    for text in ["", "not xml", "<MPD>", "<MPD></Period>", "<a/><b/>"] {
        assert_eq!(
            dash_media_url_from_position(text, 0, "video/mp4", "main", 1),
            Err(ResolveError::MalformedDocument)
        );
        assert_eq!(parse_manifest(text), Err(ResolveError::MalformedDocument));
    }
}

#[test]
fn every_step_has_its_error() {
    let resolve = |body: &str| {
        let text = format!(r#"<MPD mediaPresentationDuration="PT30S">{body}</MPD>"#);
        dash_media_url_from_position(&text, 10 * SECOND, "video/mp4", "main", 5)
    };
    assert_eq!(resolve(""), Err(ResolveError::NoPeriodFound));
    assert_eq!(resolve("<Period/>"), Err(ResolveError::NoAdaptationSet));
    let set = |inner: &str| format!(r#"<Period><AdaptationSet mimeType="video/mp4">{inner}</AdaptationSet></Period>"#);
    assert_eq!(resolve(&set("")), Err(ResolveError::NoSegmentTemplate));
    assert_eq!(resolve(&set(r#"<SegmentTemplate media="m"/>"#)), Err(ResolveError::NoSegmentDuration));
    assert_eq!(
        resolve(&set(r#"<SegmentTemplate media="m" duration="four"/>"#)),
        Err(ResolveError::AttributeParseFailure)
    );
    assert_eq!(
        resolve(&set(r#"<SegmentTemplate media="m" duration="0"/>"#)),
        Err(ResolveError::SegmentIndexOutOfRange)
    );
    assert_eq!(
        resolve(&set(r#"<SegmentTemplate media="m" duration="4"/>"#)),
        Err(ResolveError::NoRepresentation)
    );
    assert_eq!(
        resolve(&set(r#"<SegmentTemplate duration="4"/><Representation bandwidth="5" id="r"/>"#)),
        Err(ResolveError::NoSegmentTemplate)
    );
    assert_eq!(
        resolve(&set(r#"<SegmentTemplate media="$Number$" duration="4"/><Representation bandwidth="5" id="r"/>"#)),
        Ok("2".to_string())
    );
}

#[test]
fn the_parser_hands_out_every_node_in_document_order() {
    let tree = parse_manifest(r#"<a x="1" y="two">text<b/><!-- c --><n:d xmlns:n="urn:n" n:z="3"/></a>"#)
        .expect("well-formed");
    let plain = |parent| Node { parent, element: false, name: vec![], attributes: vec![] };
    let attribute = |name: &str, value: &str| Attribute { name: chars(name), value: chars(value) };
    assert_eq!(
        tree.nodes,
        vec![
            plain(None),
            Node {
                parent: Some(0),
                element: true,
                name: chars("a"),
                attributes: vec![attribute("x", "1"), attribute("y", "two")],
            },
            plain(Some(1)),
            Node { parent: Some(1), element: true, name: chars("b"), attributes: vec![] },
            plain(Some(1)),
            Node {
                parent: Some(1),
                element: true,
                name: chars("d"),
                attributes: vec![attribute("z", "3")],
            },
        ]
    );
}

#[test]
fn a_parsed_manifest_is_the_tree_that_the_builder_makes() {
    let parsed = parse_manifest(r#"<MPD mediaPresentationDuration="PT30S"><Period duration="PT10S"/>tail</MPD>"#)
        .expect("well-formed");
    let mut built = ManifestTree::new();
    let mpd = built.add_element(0, "MPD");
    built.set_attribute(mpd, "mediaPresentationDuration", "PT30S");
    let period = built.add_element(mpd, "Period");
    built.set_attribute(period, "duration", "PT10S");
    built.add_text(mpd);
    assert_eq!(parsed, built);
    assert_eq!(parsed.len(), 4);
    assert_eq!(parsed.root_element(), Some(1));
}

#[test]
fn a_tree_is_resolved_as_its_text_is() {
    let tree = parse_manifest(TWO_PERIODS).expect("well-formed");
    for position in [-1, 0, 5 * SECOND, 10 * SECOND, 14 * SECOND, 30 * SECOND] {
        for (mime, bandwidth) in [("video/mp4", 500_000), ("audio/mp4", 64_000), ("text/vtt", 1)] {
            assert_eq!(
                resolve_media_url(&tree, position, mime, "main", bandwidth),
                dash_media_url_from_position(TWO_PERIODS, position, mime, "main", bandwidth)
            );
        }
    }
}

#[test]
fn a_tree_without_root_element_has_no_valid_position() {
    let mut tree = ManifestTree::new();
    assert_eq!(resolve_media_url(&tree, 0, "video/mp4", "main", 1), Err(ResolveError::InvalidPosition));
    tree.add_text(0);
    assert_eq!(tree.root_element(), None);
    assert_eq!(resolve_media_url(&tree, 0, "video/mp4", "main", 1), Err(ResolveError::InvalidPosition));
    let empty = ManifestTree { nodes: vec![] };
    assert_eq!(resolve_media_url(&empty, 0, "video/mp4", "main", 1), Err(ResolveError::InvalidPosition));
}

#[test]
fn the_first_top_element_is_the_root_element() {
    let tree = parse_manifest("<!-- note --><MPD/><!-- end -->").expect("well-formed");
    assert_eq!(tree.root_element(), Some(2));
}

#[test]
fn every_failure_has_its_own_diagnostic() {
    let all = [
        ResolveError::MalformedDocument,
        ResolveError::NoPeriodFound,
        ResolveError::InvalidPosition,
        ResolveError::NoAdaptationSet,
        ResolveError::NoSegmentTemplate,
        ResolveError::NoSegmentDuration,
        ResolveError::NoRepresentation,
        ResolveError::AttributeParseFailure,
        ResolveError::SegmentIndexOutOfRange,
    ];
    for (i, a) in all.iter().enumerate() {
        assert!(!a.message().is_empty());
        for b in &all[i + 1..] {
            assert_ne!(a.message(), b.message());
        }
    }
    assert_eq!(ResolveError::InvalidPosition.message(), "the requested position is out of range");
}
