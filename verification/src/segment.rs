//! The segment of an adaptation set for a bandwidth and a position: the
//! number of the segment, the representation, and the URL that the
//! template gives for both.
//!
//! Positions are whole millionths of a second; a `timescale` and a
//! `duration` are whole millionths too.

use vstd::prelude::*;
use crate::error::ResolveError;
use crate::number::{
    decimal_chars,
    decimal_micros,
    decimal_text,
    parse_decimal,
    parse_u32,
    unsigned_32,
};
use crate::text::{
    chars_of,
    lacks,
    lemma_both_occurrences_replaced,
    lemma_replaced_without_occurrence,
    never_occurs,
    occurs_at,
    replace_all,
    replaced,
    string_of,
};
use crate::tree::{as_ints, attribute_of, child_elements, first_child, ManifestTree, NodeView};

verus! {

/// The number of the first segment: the `startNumber` of the template,
/// zero where it has none.
pub open spec fn start_number_of(tree: Seq<NodeView>, template: int) -> Result<nat, ResolveError> {
    match attribute_of(tree, template, "startNumber"@) {
        Some(text) => match unsigned_32(text) {
            Some(n) => Ok(n as nat),
            None => Err(ResolveError::AttributeParseFailure),
        },
        None => Ok(0),
    }
}

/// The `timescale` of the template in millionths, one where it has none.
pub open spec fn timescale_of(tree: Seq<NodeView>, template: int) -> Result<nat, ResolveError> {
    match attribute_of(tree, template, "timescale"@) {
        Some(text) => match decimal_micros(text) {
            Some(n) => Ok(n as nat),
            None => Err(ResolveError::AttributeParseFailure),
        },
        None => Ok(1_000_000),
    }
}

/// The `duration` of the template in millionths of a unit of its
/// timescale. The template must have one.
pub open spec fn segment_duration_of(tree: Seq<NodeView>, template: int) -> Result<
    nat,
    ResolveError,
> {
    match attribute_of(tree, template, "duration"@) {
        Some(text) => match decimal_micros(text) {
            Some(n) => Ok(n as nat),
            None => Err(ResolveError::AttributeParseFailure),
        },
        None => Err(ResolveError::NoSegmentDuration),
    }
}

/// The number of the segment that holds `position`: the whole number of
/// segments that fit before it, plus the number of the first. A segment
/// lasts `duration / timescale` seconds; `position` is in millionths of a
/// second, `timescale` and `duration` are in millionths.
pub open spec fn segment_number(position: nat, timescale: nat, duration: nat, start: nat) -> nat
    recommends
        duration > 0,
{
    ((position * timescale) / (duration * 1_000_000)) as nat + start
}

/// The segment number that the timing of a template gives for `position`.
pub open spec fn segment_number_for(position: nat, timescale: nat, duration: nat, start: nat) -> Result<
    u64,
    ResolveError,
> {
    if duration == 0 || segment_number(position, timescale, duration, start) > u64::MAX {
        Err(ResolveError::SegmentIndexOutOfRange)
    } else {
        Ok(segment_number(position, timescale, duration, start) as u64)
    }
}

/// The number of the segment of `template` that holds `position`. The
/// attributes are read in the order `startNumber`, `timescale`, `duration`,
/// and the first that fails decides the error.
pub open spec fn segment_index(tree: Seq<NodeView>, template: int, position: nat) -> Result<
    u64,
    ResolveError,
> {
    match start_number_of(tree, template) {
        Err(e) => Err(e),
        Ok(start) => match timescale_of(tree, template) {
            Err(e) => Err(e),
            Ok(timescale) => match segment_duration_of(tree, template) {
                Err(e) => Err(e),
                Ok(duration) => segment_number_for(position, timescale, duration, start),
            },
        },
    }
}

/// The segment number for a position, from the timing of a template.
pub fn segment_number_of(position: u64, timescale: u64, duration: u64, start: u32) -> (number:
    Result<u64, ResolveError>)
    ensures
        number == segment_number_for(
            position as nat,
            timescale as nat,
            duration as nat,
            start as nat,
        ),
{
    if duration == 0 {
        return Err(ResolveError::SegmentIndexOutOfRange);
    }
    assert(position * timescale <= 0xffff_ffff_ffff_ffff * 0xffff_ffff_ffff_ffff)
        by (nonlinear_arith)
        requires
            position <= 0xffff_ffff_ffff_ffff,
            timescale <= 0xffff_ffff_ffff_ffff,
    ;
    let ticks: u128 = position as u128 * (timescale as u128);
    let per_segment: u128 = duration as u128 * 1_000_000;
    let whole: u128 = ticks / per_segment;
    if whole > u64::MAX as u128 {
        return Err(ResolveError::SegmentIndexOutOfRange);
    }
    let number: u128 = whole + start as u128;
    if number > u64::MAX as u128 {
        return Err(ResolveError::SegmentIndexOutOfRange);
    }
    Ok(number as u64)
}

/// Finds the number of the segment of `template` that holds `position`.
fn find_segment_index(tree: &ManifestTree, template: usize, position: u64) -> (index: Result<
    u64,
    ResolveError,
>)
    ensures
        index == segment_index(tree@, template as int, position as nat),
{
    let start_name = chars_of("startNumber");
    let timescale_name = chars_of("timescale");
    let duration_name = chars_of("duration");
    let start: u32 = match tree.attribute(template, &start_name) {
        Some(text) => match parse_u32(text) {
            Some(n) => n,
            None => {
                return Err(ResolveError::AttributeParseFailure);
            },
        },
        None => 0,
    };
    let timescale: u64 = match tree.attribute(template, &timescale_name) {
        Some(text) => match parse_decimal(text) {
            Some(n) => n,
            None => {
                return Err(ResolveError::AttributeParseFailure);
            },
        },
        None => 1_000_000,
    };
    let duration: u64 = match tree.attribute(template, &duration_name) {
        Some(text) => match parse_decimal(text) {
            Some(n) => n,
            None => {
                return Err(ResolveError::AttributeParseFailure);
            },
        },
        None => {
            return Err(ResolveError::NoSegmentDuration);
        },
    };
    segment_number_of(position, timescale, duration, start)
}

/// The segment found holds the position: counted from the first segment,
/// it begins at or before the position and the one behind it begins after
/// the position. Stated without division: with `n` the segment number less
/// the number of the first segment, `n` segments fit before the position
/// and `n + 1` do not.
pub proof fn lemma_segment_holds_position(position: nat, timescale: nat, duration: nat, start: nat)
    requires
        duration > 0,
    ensures
        ({
            let n = segment_number(position, timescale, duration, start) - start;
            &&& n >= 0
            &&& n * (duration * 1_000_000) <= position * timescale
            &&& position * timescale < (n + 1) * (duration * 1_000_000)
        }),
{
    let ticks = (position * timescale) as int;
    let per_segment = (duration * 1_000_000) as int;
    assert(ticks >= 0) by (nonlinear_arith)
        requires
            ticks == position * timescale,
    ;
    vstd::arithmetic::div_mod::lemma_fundamental_div_mod(ticks, per_segment);
    vstd::arithmetic::div_mod::lemma_mod_bound(ticks, per_segment);
    vstd::arithmetic::div_mod::lemma_div_pos_is_pos(ticks, per_segment);
    let n = ticks / per_segment;
    assert(n * per_segment == per_segment * n) by (nonlinear_arith);
    assert((n + 1) * per_segment == per_segment * n + per_segment) by (nonlinear_arith);
}

/// The bandwidth of a representation; zero where it names none.
pub open spec fn bandwidth_of(tree: Seq<NodeView>, representation: int) -> Result<
    u32,
    ResolveError,
> {
    match attribute_of(tree, representation, "bandwidth"@) {
        Some(text) => match unsigned_32(text) {
            Some(n) => Ok(n),
            None => Err(ResolveError::AttributeParseFailure),
        },
        None => Ok(0u32),
    }
}

/// The `id` of the first of `representations[from..]` that has this
/// bandwidth. A bandwidth on the way that is no number ends the search.
pub open spec fn representation_id_from(
    tree: Seq<NodeView>,
    representations: Seq<int>,
    bandwidth: u32,
    from: int,
) -> Result<Seq<char>, ResolveError>
    decreases representations.len() - from,
{
    if from < 0 || from >= representations.len() {
        Err(ResolveError::NoRepresentation)
    } else {
        match bandwidth_of(tree, representations[from]) {
            Err(e) => Err(e),
            Ok(found) => if found == bandwidth {
                match attribute_of(tree, representations[from], "id"@) {
                    Some(id) => Ok(id),
                    None => Err(ResolveError::NoRepresentation),
                }
            } else {
                representation_id_from(tree, representations, bandwidth, from + 1)
            },
        }
    }
}

/// The `id` of the first `Representation` child of `set`, in document
/// order, that has this bandwidth.
pub open spec fn representation_id(tree: Seq<NodeView>, set: int, bandwidth: u32) -> Result<
    Seq<char>,
    ResolveError,
> {
    representation_id_from(tree, child_elements(tree, set, "Representation"@), bandwidth, 0)
}

/// Finds the `id` of the first `Representation` child of `set` whose
/// bandwidth is exactly `bandwidth`.
fn get_representation_id_from_bandwidth(tree: &ManifestTree, set: usize, bandwidth: u32) -> (id:
    Result<&Vec<char>, ResolveError>)
    ensures
        match id {
            Ok(text) => representation_id(tree@, set as int, bandwidth) == Ok::<
                Seq<char>,
                ResolveError,
            >(text@),
            Err(e) => representation_id(tree@, set as int, bandwidth) == Err::<
                Seq<char>,
                ResolveError,
            >(e),
        },
{
    let representation_name = chars_of("Representation");
    let bandwidth_name = chars_of("bandwidth");
    let id_name = chars_of("id");
    let representations = tree.child_elements(set, &representation_name);
    let ghost all = child_elements(tree@, set as int, "Representation"@);
    assert(all.len() == representations.len()) by {
        assert(as_ints(representations@).len() == representations@.len());
    }
    let mut k: usize = 0;
    while k < representations.len()
        invariant
            k <= representations.len(),
            all == child_elements(tree@, set as int, "Representation"@),
            all == as_ints(representations@),
            all.len() == representations.len(),
            bandwidth_name@ == "bandwidth"@,
            id_name@ == "id"@,
            representation_id_from(tree@, all, bandwidth, 0) == representation_id_from(
                tree@,
                all,
                bandwidth,
                k as int,
            ),
        decreases representations.len() - k,
    {
        let representation: usize = representations[k];
        assert(all[k as int] == representation);
        let found: u32 = match tree.attribute(representation, &bandwidth_name) {
            Some(text) => match parse_u32(text) {
                Some(n) => n,
                None => {
                    return Err(ResolveError::AttributeParseFailure);
                },
            },
            None => 0,
        };
        if found == bandwidth {
            return match tree.attribute(representation, &id_name) {
                Some(id) => Ok(id),
                None => Err(ResolveError::NoRepresentation),
            };
        }
        k += 1;
    }
    Err(ResolveError::NoRepresentation)
}

/// A URL template with its three placeholders filled in, in this order:
/// every `$RepresentationID$` by the id, then every `$Bandwidth$` by the
/// bandwidth in decimal, then every `$Number$` by the segment number in
/// decimal.
pub open spec fn filled_template(template: Seq<char>, id: Seq<char>, bandwidth: u32, number: u64) -> Seq<
    char,
> {
    replaced(
        replaced(
            replaced(template, "$RepresentationID$"@, id),
            "$Bandwidth$"@,
            decimal_text(bandwidth as nat),
        ),
        "$Number$"@,
        decimal_text(number as nat),
    )
}

/// Fills in the three placeholders of a URL template.
pub fn fill_template(template: &Vec<char>, id: &Vec<char>, bandwidth: u32, number: u64) -> (url:
    Vec<char>)
    ensures
        url@ == filled_template(template@, id@, bandwidth, number),
{
    let id_token = chars_of("$RepresentationID$");
    let bandwidth_token = chars_of("$Bandwidth$");
    let number_token = chars_of("$Number$");
    let with_id = replace_all(template, &id_token, id);
    let with_bandwidth = replace_all(&with_id, &bandwidth_token, &decimal_chars(bandwidth as u64));
    replace_all(&with_bandwidth, &number_token, &decimal_chars(number))
}

/// A text without the character `$` holds no placeholder.
pub proof fn lemma_no_dollar_no_placeholder(text: Seq<char>)
    requires
        lacks(text, '$'),
    ensures
        never_occurs(text, "$RepresentationID$"@),
        never_occurs(text, "$Bandwidth$"@),
        never_occurs(text, "$Number$"@),
{
    reveal_strlit("$RepresentationID$");
    reveal_strlit("$Bandwidth$");
    reveal_strlit("$Number$");
    assert forall|at: int| !occurs_at(text, at, "$RepresentationID$"@) by {
        if occurs_at(text, at, "$RepresentationID$"@) {
            assert(text.subrange(at, at + 18)[0] == '$');
        }
    }
    assert forall|at: int| !occurs_at(text, at, "$Bandwidth$"@) by {
        if occurs_at(text, at, "$Bandwidth$"@) {
            assert(text.subrange(at, at + 11)[0] == '$');
        }
    }
    assert forall|at: int| !occurs_at(text, at, "$Number$"@) by {
        if occurs_at(text, at, "$Number$"@) {
            assert(text.subrange(at, at + 8)[0] == '$');
        }
    }
}

/// A template without the character `$` is the URL of every segment.
pub proof fn lemma_template_without_placeholder(
    template: Seq<char>,
    id: Seq<char>,
    bandwidth: u32,
    number: u64,
)
    requires
        lacks(template, '$'),
    ensures
        filled_template(template, id, bandwidth, number) == template,
{
    lemma_no_dollar_no_placeholder(template);
    lemma_replaced_without_occurrence(template, "$RepresentationID$"@, id);
    lemma_replaced_without_occurrence(template, "$Bandwidth$"@, decimal_text(bandwidth as nat));
    lemma_replaced_without_occurrence(template, "$Number$"@, decimal_text(number as nat));
}

/// In a template that holds `$Number$` twice, no other placeholder, and no
/// other `$`, both occurrences are replaced by the segment number, and the
/// rest of the template stays as it is.
pub proof fn lemma_number_filled_in_twice(
    before: Seq<char>,
    between: Seq<char>,
    behind: Seq<char>,
    id: Seq<char>,
    bandwidth: u32,
    number: u64,
)
    requires
        lacks(before, '$'),
        lacks(between, '$'),
        lacks(behind, '$'),
        never_occurs(
            before + "$Number$"@ + between + "$Number$"@ + behind,
            "$RepresentationID$"@,
        ),
        never_occurs(before + "$Number$"@ + between + "$Number$"@ + behind, "$Bandwidth$"@),
    ensures
        filled_template(
            before + "$Number$"@ + between + "$Number$"@ + behind,
            id,
            bandwidth,
            number,
        ) == before + decimal_text(number as nat) + between + decimal_text(number as nat) + behind,
{
    let template = before + "$Number$"@ + between + "$Number$"@ + behind;
    reveal_strlit("$Number$");
    lemma_replaced_without_occurrence(template, "$RepresentationID$"@, id);
    lemma_replaced_without_occurrence(template, "$Bandwidth$"@, decimal_text(bandwidth as nat));
    lemma_both_occurrences_replaced(
        before,
        between,
        behind,
        "$Number$"@,
        decimal_text(number as nat),
    );
}

/// The URL of the segment of an adaptation set for a bandwidth and a
/// position. The steps, and the error of each: the
/// `SegmentTemplate` child (`NoSegmentTemplate`), the segment number (see
/// `segment_index`), the representation (see `representation_id`), and the
/// `media` attribute of the template (`NoSegmentTemplate`).
pub open spec fn media_url(tree: Seq<NodeView>, set: int, bandwidth: u32, position: nat) -> Result<
    Seq<char>,
    ResolveError,
> {
    match first_child(tree, set, "SegmentTemplate"@) {
        None => Err(ResolveError::NoSegmentTemplate),
        Some(template) => match segment_index(tree, template, position) {
            Err(e) => Err(e),
            Ok(number) => match representation_id(tree, set, bandwidth) {
                Err(e) => Err(e),
                Ok(id) => match attribute_of(tree, template, "media"@) {
                    None => Err(ResolveError::NoSegmentTemplate),
                    Some(media) => Ok(filled_template(media, id, bandwidth, number)),
                },
            },
        },
    }
}

/// Resolves the URL of the segment of the adaptation set `aset_node` for
/// the representation of exactly this bandwidth, at `position` millionths
/// of a second.
pub fn get_media_from_adaptation_set(
    tree: &ManifestTree,
    aset_node: usize,
    bandwidth: u32,
    position: u64,
) -> (url: Result<String, ResolveError>)
    ensures
        match url {
            Ok(text) => media_url(tree@, aset_node as int, bandwidth, position as nat) == Ok::<
                Seq<char>,
                ResolveError,
            >(text@),
            Err(e) => media_url(tree@, aset_node as int, bandwidth, position as nat) == Err::<
                Seq<char>,
                ResolveError,
            >(e),
        },
{
    let template_name = chars_of("SegmentTemplate");
    let media_name = chars_of("media");
    let template: usize = match tree.find_child(aset_node, &template_name) {
        Some(t) => t,
        None => {
            return Err(ResolveError::NoSegmentTemplate);
        },
    };
    let number: u64 = match find_segment_index(tree, template, position) {
        Ok(n) => n,
        Err(e) => {
            return Err(e);
        },
    };
    let id = match get_representation_id_from_bandwidth(tree, aset_node, bandwidth) {
        Ok(id) => id,
        Err(e) => {
            return Err(e);
        },
    };
    match tree.attribute(template, &media_name) {
        Some(media) => Ok(string_of(&fill_template(media, id, bandwidth, number))),
        None => Err(ResolveError::NoSegmentTemplate),
    }
}

} // verus!
