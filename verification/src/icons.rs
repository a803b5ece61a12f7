//! The pixel-art icons that Datalith ships, and where each one lives among the assets.

use vstd::prelude::*;

verus! {

/// An icon of Datalith's own; the icon set resolves it by its asset path.
#[derive(Clone, Copy, Debug, PartialEq, Eq, Structural)]
pub enum DatalithIcon {
    Note,
    Todo,
    Graph,
    Image,
    File,
    Pen,
    Funnel,
    ArrowUpAz,
    ArrowDownAz,
    Settings,
}

/// The asset path of `icon`.
pub open spec fn icon_path(icon: DatalithIcon) -> Seq<char> {
    match icon {
        DatalithIcon::Note => "icons/note.svg"@,
        DatalithIcon::Todo => "icons/todo.svg"@,
        DatalithIcon::Graph => "icons/graph.svg"@,
        DatalithIcon::Image => "icons/image.svg"@,
        DatalithIcon::File => "icons/file.svg"@,
        DatalithIcon::Pen => "icons/pen.svg"@,
        DatalithIcon::Funnel => "icons/funnel.svg"@,
        DatalithIcon::ArrowUpAz => "icons/arrow-up-a-z.svg"@,
        DatalithIcon::ArrowDownAz => "icons/arrow-down-a-z.svg"@,
        DatalithIcon::Settings => "icons/gear.svg"@,
    }
}

impl DatalithIcon {
    /// The asset path under which the icon's SVG is registered.
    pub fn asset(self) -> (r: &'static str)
        ensures
            r@ == icon_path(self),
    {
        match self {
            DatalithIcon::Note => "icons/note.svg",
            DatalithIcon::Todo => "icons/todo.svg",
            DatalithIcon::Graph => "icons/graph.svg",
            DatalithIcon::Image => "icons/image.svg",
            DatalithIcon::File => "icons/file.svg",
            DatalithIcon::Pen => "icons/pen.svg",
            DatalithIcon::Funnel => "icons/funnel.svg",
            DatalithIcon::ArrowUpAz => "icons/arrow-up-a-z.svg",
            DatalithIcon::ArrowDownAz => "icons/arrow-down-a-z.svg",
            DatalithIcon::Settings => "icons/gear.svg",
        }
    }
}

} // verus!
