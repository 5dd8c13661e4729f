//! Screen geometry of the front end, computed by `ratatui`'s layout solver.
use vstd::prelude::*;
use ratatui::layout::{Constraint, Direction, Flex, Layout, Rect};

verus! {

/// A rectangle of terminal cells.
#[derive(Debug, Clone, Copy, PartialEq, Eq)]
pub struct Area {
    pub x: u16,
    pub y: u16,
    pub width: u16,
    pub height: u16,
}

impl View for Area {
    type V = (u16, u16, u16, u16);

    open spec fn view(&self) -> (u16, u16, u16, u16) {
        (self.x, self.y, self.width, self.height)
    }
}

/// What `ratatui` gives for a vertical layout of one row band of the given
/// height, centred in the area (`x`, `y`, `width`, `height`).
pub uninterp spec fn ratatui_centered_band(height: u16, area: (u16, u16, u16, u16)) -> (u16, u16, u16, u16);

/// Lays out one `Constraint::Length(height)` band vertically with
/// `Flex::Center` in the area, through `ratatui::layout::Layout::areas`.
/// Claimed of it: the result is the named `ratatui_centered_band`; a
/// vertical layout keeps the area's column and width.
#[verifier::external_body]
fn centered_band(height: u16, area: Area) -> (band: Area)
    ensures
        band@ == ratatui_centered_band(height, area@),
        band.x == area.x && band.width == area.width,
{
    let [band] = Layout::default()
        .direction(Direction::Vertical)
        .constraints([Constraint::Length(height)])
        .flex(Flex::Center)
        .areas(Rect { x: area.x, y: area.y, width: area.width, height: area.height });
    Area { x: band.x, y: band.y, width: band.width, height: band.height }
}

/// The band of the given height, centred vertically in the area, where the
/// net greeks are shown.
pub fn net_greeks(height: u16, area: Area) -> (band: Area)
    ensures
        band@ == ratatui_centered_band(height, area@),
        band.x == area.x,
        band.width == area.width,
{
    centered_band(height, area)
}

} // verus!
