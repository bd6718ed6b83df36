//! Reading a manifest from XML text, with the `roxmltree` parser.

use vstd::prelude::*;
use crate::error::ResolveError;
use crate::tree::{nodes_view, Attribute, ManifestTree, Node, NodeView};

verus! {

/// The error of the XML parser. Nothing is known of it but that it is one.
#[verifier::external_type_specification]
#[verifier::external_body]
pub struct ExXmlError(roxmltree::Error);

/// The nodes that the XML parser finds in `text`, in document order, or
/// `None` where it rejects the text. Node 0 is the document; each node
/// carries the index of its parent, whether it is an element, its local tag
/// name and its attributes by local name and value.
pub uninterp spec fn xml_nodes(text: Seq<char>) -> Option<Seq<NodeView>>;

/// Calls `roxmltree::Document::parse` and hands out every node of the
/// document it returns, in the order of `Document::descendants`, which is
/// the order of the node ids from 0 on. Of the result this says only that
/// it is the one that the parser gives for this text: `xml_nodes` is the
/// name of that result.
#[verifier::external_body]
fn parse_xml(text: &str) -> (parsed: Result<Vec<Node>, roxmltree::Error>)
    ensures
        match parsed {
            Ok(nodes) => xml_nodes(text@) == Some(nodes_view(nodes@)),
            Err(_) => xml_nodes(text@) is None,
        },
{
    let document = roxmltree::Document::parse(text)?;
    Ok(document
        .descendants()
        .map(|node| Node {
            parent: node.parent().map(|p| p.id().get_usize()),
            element: node.is_element(),
            name: node.tag_name().name().chars().collect(),
            attributes: node
                .attributes()
                .map(|a| Attribute { name: a.name().chars().collect(), value: a.value().chars().collect() })
                .collect(),
        })
        .collect())
}

/// Reads a manifest from XML text. Text that is not well-formed XML gives
/// `MalformedDocument`.
pub fn parse_manifest(text: &str) -> (tree: Result<ManifestTree, ResolveError>)
    ensures
        match tree {
            Ok(t) => xml_nodes(text@) == Some(t@),
            Err(e) => e == ResolveError::MalformedDocument && xml_nodes(text@) is None,
        },
{
    match parse_xml(text) {
        Ok(nodes) => Ok(ManifestTree { nodes }),
        Err(_) => Err(ResolveError::MalformedDocument),
    }
}

} // verus!
