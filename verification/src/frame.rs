//! The frame: which panels are drawn, and where on the screen each one goes.
//!
//! The screen is cut into a left and a right half; the left half is cut into
//! three boxes, one above the other. A frame is built afresh from the size of
//! the screen each time it is drawn.

use crate::layout::{split, split_spec, Constraint, Direction, Region};
use crate::tiling::{covered, even_halves, law_split_tiles_region, tiles};
use vstd::prelude::*;

verus! {

/// A box of static text. It has no identity and no state: it says what to draw.
#[derive(Clone, Debug)]
pub struct Panel {
    /// The text shown in the panel's top border.
    pub title: String,
    /// Whether a border is drawn around the panel.
    pub bordered: bool,
    /// The text shown inside the panel.
    pub body: String,
}

/// What a panel says, with its texts as sequences of characters.
pub struct PanelView {
    pub title: Seq<char>,
    pub bordered: bool,
    pub body: Seq<char>,
}

impl View for Panel {
    type V = PanelView;

    open spec fn view(&self) -> PanelView {
        PanelView { title: self.title@, bordered: self.bordered, body: self.body@ }
    }
}

/// A panel together with the region it is drawn into.
#[derive(Clone, Debug)]
pub struct Placement {
    pub panel: Panel,
    pub region: Region,
}

/// A placement, with the panel's texts as sequences of characters.
pub struct PlacementView {
    pub panel: PanelView,
    pub region: Region,
}

impl View for Placement {
    type V = PlacementView;

    open spec fn view(&self) -> PlacementView {
        PlacementView { panel: self.panel@, region: self.region }
    }
}

impl Panel {
    /// A panel with a border all around it.
    pub fn bordered(title: &str, body: &str) -> (panel: Panel)
        ensures
            panel@ == (PanelView { title: title@, bordered: true, body: body@ }),
    {
        Panel { title: title.to_owned(), bordered: true, body: body.to_owned() }
    }
}

/// The three constraints of the left column: 33%, 33% and 34%.
pub open spec fn column_thirds() -> Seq<Constraint> {
    seq![Constraint::Percentage(33), Constraint::Percentage(33), Constraint::Percentage(34)]
}

/// The regions of the four panels on `screen`, in the order in which they are
/// drawn: the three boxes of the left half from top to bottom, then the right
/// half.
pub open spec fn panel_regions(screen: Region) -> Seq<Region> {
    let halves = split_spec(screen, Direction::Horizontal, even_halves());
    let boxes = split_spec(halves[0], Direction::Vertical, column_thirds());
    seq![boxes[0], boxes[1], boxes[2], halves[1]]
}

/// What the four panels say, in the order in which they are drawn.
pub open spec fn panel_texts() -> Seq<PanelView> {
    seq![
        PanelView { title: "Box 1"@, bordered: true, body: "Top left box"@ },
        PanelView { title: "Box 2"@, bordered: true, body: "Middle left box"@ },
        PanelView { title: "Box 3"@, bordered: true, body: "Bottom left box"@ },
        PanelView {
            title: "Right Box"@,
            bordered: true,
            body: "Press 'q' to quit.\nThis is the right box."@,
        },
    ]
}

/// The frame for `screen`: each of the four panels in its region.
pub open spec fn frame_spec(screen: Region) -> Seq<PlacementView> {
    Seq::new(
        4,
        |i: int| PlacementView { panel: panel_texts()[i], region: panel_regions(screen)[i] },
    )
}

/// The placements in `frame` are those that `views` describes, in the same
/// order.
pub open spec fn depicts(frame: Seq<Placement>, views: Seq<PlacementView>) -> bool {
    &&& frame.len() == views.len()
    &&& forall|i: int| 0 <= i < frame.len() ==> (#[trigger] frame[i])@ == views[i]
}

/// Builds the frame for a screen: the four panels, each with the region it is
/// drawn into.
pub fn compose(screen: Region) -> (frame: Vec<Placement>)
    requires
        screen.in_bounds(),
    ensures
        depicts(frame@, frame_spec(screen)),
{
    let halves = split(
        screen,
        Direction::Horizontal,
        &[Constraint::Percentage(50), Constraint::Percentage(50)],
    );
    let boxes = split(
        halves[0],
        Direction::Vertical,
        &[Constraint::Percentage(33), Constraint::Percentage(33), Constraint::Percentage(34)],
    );
    let mut frame: Vec<Placement> = Vec::new();
    frame.push(Placement { panel: Panel::bordered("Box 1", "Top left box"), region: boxes[0] });
    frame.push(Placement { panel: Panel::bordered("Box 2", "Middle left box"), region: boxes[1] });
    frame.push(Placement { panel: Panel::bordered("Box 3", "Bottom left box"), region: boxes[2] });
    frame.push(
        Placement {
            panel: Panel::bordered("Right Box", "Press 'q' to quit.\nThis is the right box."),
            region: halves[1],
        },
    );
    frame
}

/// The four panels of a frame tile the screen: every cell of the screen lies in
/// exactly one panel, and no panel reaches outside the screen.
pub proof fn law_frame_tiles_screen(screen: Region)
    requires
        screen.in_bounds(),
    ensures
        tiles(screen, panel_regions(screen)),
{
    let halves = split_spec(screen, Direction::Horizontal, even_halves());
    let boxes = split_spec(halves[0], Direction::Vertical, column_thirds());
    let panels = panel_regions(screen);
    law_split_tiles_region(screen, Direction::Horizontal, even_halves());
    law_split_tiles_region(halves[0], Direction::Vertical, column_thirds());
    assert forall|col: int, row: int| screen.contains(col, row) implies covered(
        panels,
        col,
        row,
    ) by {
        assert(covered(halves, col, row));
        if halves[0].contains(col, row) {
            assert(covered(boxes, col, row));
            let k = choose|k: int| 0 <= k < boxes.len() && boxes[k].contains(col, row);
            assert(panels[k].contains(col, row));
        } else {
            assert(panels[3].contains(col, row));
        }
    }
    assert forall|col: int, row: int| covered(panels, col, row) implies screen.contains(
        col,
        row,
    ) by {
        let k = choose|k: int| 0 <= k < panels.len() && panels[k].contains(col, row);
        if k < 3 {
            assert(boxes[k].contains(col, row));
            assert(covered(boxes, col, row));
            assert(halves[0].contains(col, row));
        } else {
            assert(halves[1].contains(col, row));
        }
        assert(covered(halves, col, row));
    }
    assert forall|j: int, k: int, col: int, row: int| 0 <= j < k < panels.len() implies !(
    #[trigger] panels[j].contains(col, row) && #[trigger] panels[k].contains(col, row)) by {
        if panels[j].contains(col, row) && panels[k].contains(col, row) {
            assert(boxes[j].contains(col, row));
            assert(covered(boxes, col, row));
            assert(halves[0].contains(col, row));
            if k < 3 {
                assert(boxes[k].contains(col, row));
            } else {
                assert(halves[1].contains(col, row));
            }
        }
    }
}

} // verus!
