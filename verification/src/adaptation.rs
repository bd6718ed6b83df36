//! The adaptation set of a period for a media type and a role.

use vstd::prelude::*;
use crate::text::{chars_eq, chars_of};
use crate::tree::{
    as_ints,
    attribute_of,
    child_elements,
    first_child,
    is_child_element,
    lemma_child_elements_are_children,
    lemma_children_are_child_elements,
    ManifestTree,
    NodeView,
};

verus! {

/// The media type of an adaptation set: its `mimeType`, empty where it
/// has none.
pub open spec fn media_type_of(tree: Seq<NodeView>, set: int) -> Seq<char> {
    match attribute_of(tree, set, "mimeType"@) {
        Some(media_type) => media_type,
        None => Seq::empty(),
    }
}

/// The `value` of the first `Role` child of an adaptation set, if it has
/// such a child and the child such an attribute.
pub open spec fn role_value(tree: Seq<NodeView>, set: int) -> Option<Seq<char>> {
    match first_child(tree, set, "Role"@) {
        Some(role) => attribute_of(tree, role, "value"@),
        None => None,
    }
}

/// The role of an adaptation set: `main` where it names none.
pub open spec fn role_of(tree: Seq<NodeView>, set: int) -> Seq<char> {
    match role_value(tree, set) {
        Some(role) => role,
        None => "main"@,
    }
}

/// Whether an adaptation set has this media type and this role.
pub open spec fn is_adaptation_set_for(
    tree: Seq<NodeView>,
    set: int,
    media_type: Seq<char>,
    role: Seq<char>,
) -> bool {
    media_type_of(tree, set) == media_type && role_of(tree, set) == role
}

/// The first of `sets[from..]` that has this media type and this role.
pub open spec fn adaptation_set_from(
    tree: Seq<NodeView>,
    sets: Seq<int>,
    media_type: Seq<char>,
    role: Seq<char>,
    from: int,
) -> Option<int>
    decreases sets.len() - from,
{
    if from < 0 || from >= sets.len() {
        None
    } else if is_adaptation_set_for(tree, sets[from], media_type, role) {
        Some(sets[from])
    } else {
        adaptation_set_from(tree, sets, media_type, role, from + 1)
    }
}

/// The first `AdaptationSet` child of `period`, in document order, that has
/// this media type and this role.
pub open spec fn adaptation_set_of(
    tree: Seq<NodeView>,
    period: int,
    media_type: Seq<char>,
    role: Seq<char>,
) -> Option<int> {
    adaptation_set_from(tree, child_elements(tree, period, "AdaptationSet"@), media_type, role, 0)
}

/// The `value` of the first `Role` child of an adaptation set.
fn find_role_value(tree: &ManifestTree, set: usize) -> (role: Option<&Vec<char>>)
    ensures
        match role {
            Some(r) => role_value(tree@, set as int) == Some(r@),
            None => role_value(tree@, set as int) is None,
        },
{
    let role_name = chars_of("Role");
    let value_name = chars_of("value");
    match tree.find_child(set, &role_name) {
        Some(role) => tree.attribute(role, &value_name),
        None => None,
    }
}

/// Finds the first `AdaptationSet` child of `period_node`, in document
/// order, whose `mimeType` is `mime_type` (a missing one counts as empty)
/// and whose role is `role` (a missing one counts as `main`).
pub fn find_adaptation_set(tree: &ManifestTree, period_node: usize, mime_type: &str, role: &str) -> (set:
    Option<usize>)
    ensures
        match set {
            Some(s) => adaptation_set_of(tree@, period_node as int, mime_type@, role@) == Some(
                s as int,
            ),
            None => adaptation_set_of(tree@, period_node as int, mime_type@, role@) is None,
        },
{
    let set_name = chars_of("AdaptationSet");
    let mime_name = chars_of("mimeType");
    let main_role = chars_of("main");
    let wanted_type = chars_of(mime_type);
    let wanted_role = chars_of(role);
    let sets = tree.child_elements(period_node, &set_name);
    let ghost all = child_elements(tree@, period_node as int, "AdaptationSet"@);
    assert(all.len() == sets.len()) by {
        assert(as_ints(sets@).len() == sets@.len());
    }
    let mut k: usize = 0;
    while k < sets.len()
        invariant
            k <= sets.len(),
            all == child_elements(tree@, period_node as int, "AdaptationSet"@),
            all == as_ints(sets@),
            all.len() == sets.len(),
            wanted_type@ == mime_type@,
            wanted_role@ == role@,
            mime_name@ == "mimeType"@,
            main_role@ == "main"@,
            adaptation_set_from(tree@, all, mime_type@, role@, 0) == adaptation_set_from(
                tree@,
                all,
                mime_type@,
                role@,
                k as int,
            ),
        decreases sets.len() - k,
    {
        let set: usize = sets[k];
        assert(all[k as int] == set);
        let type_matches = match tree.attribute(set, &mime_name) {
            Some(found) => chars_eq(found, &wanted_type),
            None => {
                assert(wanted_type@.len() == 0 <==> wanted_type@ =~= Seq::<char>::empty());
                wanted_type.len() == 0
            },
        };
        let role_matches = match find_role_value(tree, set) {
            Some(found) => chars_eq(found, &wanted_role),
            None => chars_eq(&main_role, &wanted_role),
        };
        if role_matches && type_matches {
            return Some(set);
        }
        k += 1;
    }
    None
}

/// Of the adaptation set found from place `from` on: it is one of the
/// sets at or behind `from`, it has the media type and the role, and no
/// set between has both. Where none is found, no set from `from` on has
/// both.
pub proof fn lemma_adaptation_set_from(
    tree: Seq<NodeView>,
    sets: Seq<int>,
    media_type: Seq<char>,
    role: Seq<char>,
    from: int,
)
    requires
        0 <= from,
    ensures
        match adaptation_set_from(tree, sets, media_type, role, from) {
            Some(set) => exists|k: int|
                {
                    &&& from <= k < sets.len()
                    &&& #[trigger] sets[k] == set
                    &&& is_adaptation_set_for(tree, set, media_type, role)
                    &&& forall|j: int|
                        from <= j < k ==> !is_adaptation_set_for(
                            tree,
                            #[trigger] sets[j],
                            media_type,
                            role,
                        )
                },
            None => forall|j: int|
                from <= j < sets.len() ==> !is_adaptation_set_for(
                    tree,
                    #[trigger] sets[j],
                    media_type,
                    role,
                ),
        },
    decreases sets.len() - from,
{
    if from < sets.len() {
        if is_adaptation_set_for(tree, sets[from], media_type, role) {
            assert(sets[from] == sets[from]);
        } else {
            lemma_adaptation_set_from(tree, sets, media_type, role, from + 1);
            match adaptation_set_from(tree, sets, media_type, role, from + 1) {
                Some(set) => {
                    let k = choose|k: int|
                        {
                            &&& from + 1 <= k < sets.len()
                            &&& #[trigger] sets[k] == set
                            &&& is_adaptation_set_for(tree, set, media_type, role)
                            &&& forall|j: int|
                                from + 1 <= j < k ==> !is_adaptation_set_for(
                                    tree,
                                    #[trigger] sets[j],
                                    media_type,
                                    role,
                                )
                        };
                    assert(sets[k] == set);
                },
                None => {},
            }
        }
    }
}

/// The adaptation set found is an `AdaptationSet` child of the period with
/// the media type and the role asked for. None is found exactly when no
/// `AdaptationSet` child of the period has both: a set of another media
/// type, or of another role, is never found.
pub proof fn lemma_adaptation_set_found(
    tree: Seq<NodeView>,
    period: int,
    media_type: Seq<char>,
    role: Seq<char>,
)
    ensures
        match adaptation_set_of(tree, period, media_type, role) {
            Some(set) => is_child_element(tree, period, "AdaptationSet"@, set)
                && is_adaptation_set_for(tree, set, media_type, role),
            None => forall|set: int|
                #[trigger] is_child_element(tree, period, "AdaptationSet"@, set)
                    ==> !is_adaptation_set_for(tree, set, media_type, role),
        },
{
    let sets = child_elements(tree, period, "AdaptationSet"@);
    lemma_adaptation_set_from(tree, sets, media_type, role, 0);
    lemma_child_elements_are_children(tree, period, "AdaptationSet"@, tree.len() as int);
    if adaptation_set_of(tree, period, media_type, role) is None {
        assert forall|set: int| #[trigger]
            is_child_element(tree, period, "AdaptationSet"@, set) implies !is_adaptation_set_for(
            tree,
            set,
            media_type,
            role,
        ) by {
            lemma_children_are_child_elements(tree, period, "AdaptationSet"@, tree.len() as int, set);
            let k = choose|k: int| 0 <= k < sets.len() && sets[k] == set;
            assert(sets[k] == set);
        }
    }
}

/// An adaptation set without a `Role` child has the role `main`: asked for
/// its own media type and the role `main`, it is a match.
pub proof fn lemma_role_defaults_to_main(tree: Seq<NodeView>, set: int)
    requires
        first_child(tree, set, "Role"@) is None,
    ensures
        role_of(tree, set) == "main"@,
        is_adaptation_set_for(tree, set, media_type_of(tree, set), "main"@),
{
}

} // verus!
