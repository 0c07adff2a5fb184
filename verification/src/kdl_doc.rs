//! The parts of a KDL document that the library reads.
use vstd::prelude::*;

verus! {

/// An entry of a node: its property name (none for an argument) and its
/// value where that is a string.
pub struct KdlEntryModel {
    pub name: Option<String>,
    pub text: Option<String>,
}

/// A node: its name, its entries in order and its children block.
pub struct KdlNodeModel {
    pub name: String,
    pub entries: Vec<KdlEntryModel>,
    pub children: Option<Vec<KdlNodeModel>>,
}

#[verifier::external_type_specification]
#[verifier::external_body]
pub struct ExKdlNode(kdl::KdlNode);

/// The nodes that the KDL parser reads from `text`, or `None` where it
/// rejects the text.
pub uninterp spec fn kdl_document(text: Seq<char>) -> Option<Seq<KdlNodeModel>>;

pub open spec fn opt_nodes_view(r: Option<Vec<KdlNodeModel>>) -> Option<Seq<KdlNodeModel>> {
    match r {
        Some(v) => Some(v@),
        None => None,
    }
}

/// Parses a KDL document with `str::parse::<kdl::KdlDocument>`. The result
/// is named by `kdl_document`; nothing more is claimed about it.
#[verifier::external_body]
pub(crate) fn parse_kdl(text: &str) -> (r: Option<Vec<KdlNodeModel>>)
    ensures
        opt_nodes_view(r) == kdl_document(text@),
{
    text.parse::<kdl::KdlDocument>().ok().map(|d| d.nodes().iter().map(node_model).collect())
}

/// Carries a parsed `kdl::KdlNode` over into `KdlNodeModel`, field by field.
#[verifier::external_body]
fn node_model(n: &kdl::KdlNode) -> KdlNodeModel {
    KdlNodeModel {
        name: n.name().value().to_owned(),
        entries: n.entries().iter().map(|e| KdlEntryModel {
            name: e.name().map(|i| i.value().to_owned()),
            text: e.value().as_string().map(|s| s.to_owned()),
        }).collect(),
        children: n.children().map(|c| c.nodes().iter().map(node_model).collect()),
    }
}

} // verus!
