//! What the rasterizer is told about the scene: the scale region of the
//! root element, and the placeholder image.

use vstd::prelude::*;
use vstd::string::StringExecFns;

verus! {

/// The scaling attributes of the root element, as the document gives them.
#[derive(Clone, Debug)]
pub struct RootAttributes {
    /// The scale region (`viewBox`).
    pub view_box: Option<String>,
    /// The literal width.
    pub width: Option<String>,
    /// The literal height.
    pub height: Option<String>,
}

/// The scale region that stands for a literal width and height: the origin
/// and the two lengths, separated by spaces.
pub open spec fn region_of(width: Seq<char>, height: Seq<char>) -> Seq<char> {
    seq!['0', ' ', '0', ' '] + width + seq![' '] + height
}

/// The scale region with which the scene is drawn: the document's own, or,
/// where it has none but gives both a width and a height, the region of
/// that size.
pub open spec fn scale_region(root: RootAttributes) -> Option<Seq<char>> {
    match root.view_box {
        Some(v) => Some(v@),
        None => match (root.width, root.height) {
            (Some(w), Some(h)) => Some(region_of(w@, h@)),
            _ => None,
        },
    }
}

/// Prepares the root element for a scene that fills the viewport: the scale
/// region is kept or made from the literal size, and the literal width and
/// height are taken away.
pub fn normalize_root(root: RootAttributes) -> (out: RootAttributes)
    ensures
        out.width is None,
        out.height is None,
        match scale_region(root) {
            Some(region) => out.view_box matches Some(v) && v@ == region,
            None => out.view_box is None,
        },
{
    let view_box = match root.view_box {
        Some(v) => Some(v),
        None => match (root.width, root.height) {
            (Some(w), Some(h)) => {
                proof {
                    reveal_strlit("0 0 ");
                    reveal_strlit(" ");
                }
                let mut region = String::from_str("0 0 ");
                assert(region@ =~= seq!['0', ' ', '0', ' ']);
                region.append(w.as_str());
                region.append(" ");
                assert(" "@ =~= seq![' ']);
                region.append(h.as_str());
                Some(region)
            },
            _ => None,
        },
    };
    RootAttributes { view_box, width: None, height: None }
}

/// The markup of the placeholder image: a red cross on a square of 256
/// units.
pub open spec fn placeholder_markup() -> Seq<char> {
    "<svg xmlns=\"http://www.w3.org/2000/svg\" viewBox=\"0 0 256 256\"><g><line stroke-width=\"2\" stroke=\"#ff0000\" y2=\"256\" x2=\"0\" y1=\"0\" x1=\"256\" fill=\"none\"/><line stroke-width=\"2\" y2=\"256\" x2=\"256\" y1=\"0\" x1=\"0\" stroke=\"#ff0000\" fill=\"none\"/></g></svg>"@
}

/// The placeholder image that stands in for a document that could not be
/// rendered.
pub fn fallback_svg() -> (markup: &'static str)
    ensures
        markup@ == placeholder_markup(),
{
    "<svg xmlns=\"http://www.w3.org/2000/svg\" viewBox=\"0 0 256 256\"><g><line stroke-width=\"2\" stroke=\"#ff0000\" y2=\"256\" x2=\"0\" y1=\"0\" x1=\"256\" fill=\"none\"/><line stroke-width=\"2\" y2=\"256\" x2=\"256\" y1=\"0\" x1=\"0\" stroke=\"#ff0000\" fill=\"none\"/></g></svg>"
}

} // verus!
