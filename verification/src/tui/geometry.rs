//! Where things stand on the screen.

use ratatui::layout::{Constraint, Direction, Layout, Rect};
use vstd::prelude::*;

verus! {

/// A rectangle of the screen, in cells.
#[derive(Clone, Copy, Debug, PartialEq, Eq, Structural)]
pub struct Area {
    pub x: u16,
    pub y: u16,
    pub width: u16,
    pub height: u16,
}

/// The direction in which an area is split.
#[derive(Clone, Copy, Debug, PartialEq, Eq, Structural)]
pub enum Axis {
    Horizontal,
    Vertical,
}

/// The size that a part of an area should have.
#[derive(Clone, Copy, Debug, PartialEq, Eq, Structural)]
pub enum Size {
    /// So many cells.
    Length(u16),
    /// So many cells at least.
    Min(u16),
    /// A share of the area.
    Percentage(u16),
}

impl Area {
    /// The area ends where cells can still be counted.
    pub open spec fn wf(self) -> bool {
        self.x + self.width <= u16::MAX && self.y + self.height <= u16::MAX
    }

    /// The area lies inside another one.
    pub open spec fn inside(self, outer: Area) -> bool {
        &&& outer.x <= self.x
        &&& outer.y <= self.y
        &&& self.x + self.width <= outer.x + outer.width
        &&& self.y + self.height <= outer.y + outer.height
    }

    /// The area spans another one across the axis.
    pub open spec fn spans(self, outer: Area, axis: Axis) -> bool {
        match axis {
            Axis::Horizontal => self.y == outer.y && self.height == outer.height,
            Axis::Vertical => self.x == outer.x && self.width == outer.width,
        }
    }
}

/// The parts are such as `Layout::split` of the `ratatui` crate makes of an area,
/// along an axis, for a list of sizes.
pub uninterp spec fn is_split(
    area: Area,
    axis: Axis,
    sizes: Seq<Size>,
    parts: Seq<Area>,
) -> bool;

/// `Layout::split` of the `ratatui` crate: one part for each size. The parts lie
/// inside the area and span it across the axis. How large each of them becomes is
/// not said here: a solver works in doubles over hash maps that each process
/// seeds, and weighs the sizes against each other where they do not fit.
#[verifier::external_body]
fn split(area: Area, axis: Axis, sizes: &Vec<Size>) -> (r: Vec<Area>)
    requires
        area.wf(),
    ensures
        is_split(area, axis, sizes@, r@),
        r@.len() == sizes@.len(),
        forall|i: int|
            0 <= i < r@.len() ==> (#[trigger] r@[i]).inside(area) && r@[i].spans(area, axis),
{
    let direction = match axis {
        Axis::Horizontal => Direction::Horizontal,
        Axis::Vertical => Direction::Vertical,
    };
    let constraints = sizes.iter().map(|s| match s {
        Size::Length(n) => Constraint::Length(*n),
        Size::Min(n) => Constraint::Min(*n),
        Size::Percentage(n) => Constraint::Percentage(*n),
    });
    let rect = Rect { x: area.x, y: area.y, width: area.width, height: area.height };
    let parts = Layout::default().direction(direction).constraints(constraints).split(rect);
    parts.iter().map(|r| Area { x: r.x, y: r.y, width: r.width, height: r.height }).collect()
}

/// The area is split in two.
pub open spec fn in_two(area: Area, axis: Axis, sizes: (Size, Size), parts: (Area, Area)) -> bool {
    &&& is_split(area, axis, seq![sizes.0, sizes.1], seq![parts.0, parts.1])
    &&& parts.0.inside(area) && parts.0.spans(area, axis)
    &&& parts.1.inside(area) && parts.1.spans(area, axis)
}

/// The area is split in three.
pub open spec fn in_three(
    area: Area,
    axis: Axis,
    sizes: (Size, Size, Size),
    parts: (Area, Area, Area),
) -> bool {
    &&& is_split(area, axis, seq![sizes.0, sizes.1, sizes.2], seq![parts.0, parts.1, parts.2])
    &&& parts.0.inside(area) && parts.0.spans(area, axis)
    &&& parts.1.inside(area) && parts.1.spans(area, axis)
    &&& parts.2.inside(area) && parts.2.spans(area, axis)
}

/// Splits an area in two.
fn split2(area: Area, axis: Axis, a: Size, b: Size) -> (r: (Area, Area))
    requires
        area.wf(),
    ensures
        in_two(area, axis, (a, b), r),
{
    let mut sizes: Vec<Size> = Vec::new();
    sizes.push(a);
    sizes.push(b);
    let parts = split(area, axis, &sizes);
    proof {
        assert(sizes@ =~= seq![a, b]);
        assert(parts@ =~= seq![parts@[0], parts@[1]]);
    }
    (parts[0], parts[1])
}

/// Splits an area in three.
fn split3(area: Area, axis: Axis, a: Size, b: Size, c: Size) -> (r: (Area, Area, Area))
    requires
        area.wf(),
    ensures
        in_three(area, axis, (a, b, c), r),
{
    let mut sizes: Vec<Size> = Vec::new();
    sizes.push(a);
    sizes.push(b);
    sizes.push(c);
    let parts = split(area, axis, &sizes);
    proof {
        assert(sizes@ =~= seq![a, b, c]);
        assert(parts@ =~= seq![parts@[0], parts@[1], parts@[2]]);
    }
    (parts[0], parts[1], parts[2])
}

/// The parts of the screen.
#[derive(Clone, Copy, Debug)]
pub struct ScreenAreas {
    pub header: Area,
    pub body: Area,
    pub help: Area,
}

/// Title at the top, content in the middle, help at the bottom.
pub fn screen_areas(screen: Area) -> (r: ScreenAreas)
    requires
        screen.wf(),
    ensures
        in_three(
            screen,
            Axis::Vertical,
            (Size::Length(3), Size::Min(0), Size::Length(2)),
            (r.header, r.body, r.help),
        ),
{
    let (header, body, help) = split3(
        screen,
        Axis::Vertical,
        Size::Length(3),
        Size::Min(0),
        Size::Length(2),
    );
    ScreenAreas { header, body, help }
}

/// The parts of the title bar.
#[derive(Clone, Copy, Debug)]
pub struct HeaderAreas {
    pub title: Area,
    pub phase: Area,
    pub rule: Area,
}

/// The sizes of two equal halves.
pub open spec fn halves() -> (Size, Size) {
    (Size::Percentage(50), Size::Percentage(50))
}

/// The sizes of two lines.
pub open spec fn two_lines() -> (Size, Size) {
    (Size::Length(1), Size::Length(1))
}

/// The title and the phase share the line above the rule.
pub open spec fn in_header(area: Area, top: Area, r: HeaderAreas) -> bool {
    &&& in_two(area, Axis::Vertical, two_lines(), (top, r.rule))
    &&& in_two(top, Axis::Horizontal, halves(), (r.title, r.phase))
}

/// The title at the left, the phase at the right, and a rule below them.
pub fn header_areas(area: Area) -> (r: HeaderAreas)
    requires
        area.wf(),
    ensures
        exists|top: Area| #[trigger] in_header(area, top, r),
        r.title.inside(area) && r.phase.inside(area) && r.rule.inside(area),
{
    let (top, rule) = split2(area, Axis::Vertical, Size::Length(1), Size::Length(1));
    let (title, phase) = split2(top, Axis::Horizontal, Size::Percentage(50), Size::Percentage(50));
    let r = HeaderAreas { title, phase, rule };
    proof {
        assert(in_header(area, top, r));
    }
    r
}

/// A rule, and the help below it.
pub fn help_areas(area: Area) -> (r: (Area, Area))
    requires
        area.wf(),
    ensures
        in_two(area, Axis::Vertical, two_lines(), r),
{
    split2(area, Axis::Vertical, Size::Length(1), Size::Length(1))
}

/// The boxes of the setup form.
#[derive(Clone, Copy, Debug)]
pub struct SetupAreas {
    pub pattern: Area,
    pub directory: Area,
    pub extensions: Area,
    pub flags: Area,
    pub engine: Area,
    pub depth: Area,
    pub limit: Area,
    pub run: Area,
}

/// The content of an area without a margin of two cells at the left and at the
/// right.
pub open spec fn is_content(area: Area, content: Area) -> bool {
    exists|left: Area, right: Area| #[trigger]
        in_three(
            area,
            Axis::Horizontal,
            (Size::Length(2), Size::Min(0), Size::Length(2)),
            (left, content, right),
        )
}

/// An area without a margin of two cells at the left and at the right.
fn without_margins(area: Area) -> (r: Area)
    requires
        area.wf(),
    ensures
        is_content(area, r),
        r.inside(area) && r.spans(area, Axis::Horizontal),
{
    let (_left, content, _right) = split3(
        area,
        Axis::Horizontal,
        Size::Length(2),
        Size::Min(0),
        Size::Length(2),
    );
    content
}

/// The heights of the rows of the setup form: the query, the directory, the file
/// types beside the options, the three pickers and the run button.
pub open spec fn setup_rows() -> Seq<Size> {
    seq![Size::Length(3), Size::Length(3), Size::Min(9), Size::Length(3), Size::Length(3)]
}

/// The boxes stand in the rows of the content, two of which are split.
pub open spec fn in_setup_rows(content: Area, middle: Area, pickers: Area, r: SetupAreas) -> bool {
    &&& is_split(
        content,
        Axis::Vertical,
        setup_rows(),
        seq![r.pattern, r.directory, middle, pickers, r.run],
    )
    &&& in_two(middle, Axis::Horizontal, halves(), (r.extensions, r.flags))
    &&& in_three(
        pickers,
        Axis::Horizontal,
        (Size::Percentage(33), Size::Percentage(33), Size::Percentage(34)),
        (r.engine, r.depth, r.limit),
    )
}

/// The boxes of the setup form, from the query to the run button.
pub fn setup_areas(area: Area) -> (r: SetupAreas)
    requires
        area.wf(),
    ensures
        exists|content: Area, middle: Area, pickers: Area|
            is_content(area, content) && #[trigger] in_setup_rows(content, middle, pickers, r),
        r.pattern.inside(area) && r.directory.inside(area) && r.extensions.inside(area),
        r.flags.inside(area) && r.engine.inside(area) && r.depth.inside(area),
        r.limit.inside(area) && r.run.inside(area),
{
    let content = without_margins(area);
    let mut sizes: Vec<Size> = Vec::new();
    sizes.push(Size::Length(3));
    sizes.push(Size::Length(3));
    sizes.push(Size::Min(9));
    sizes.push(Size::Length(3));
    sizes.push(Size::Length(3));
    let rows = split(content, Axis::Vertical, &sizes);
    let (extensions, flags) = split2(
        rows[2],
        Axis::Horizontal,
        Size::Percentage(50),
        Size::Percentage(50),
    );
    let (engine, depth, limit) = split3(
        rows[3],
        Axis::Horizontal,
        Size::Percentage(33),
        Size::Percentage(33),
        Size::Percentage(34),
    );
    let r = SetupAreas {
        pattern: rows[0],
        directory: rows[1],
        extensions,
        flags,
        engine,
        depth,
        limit,
        run: rows[4],
    };
    proof {
        assert(sizes@ =~= setup_rows());
        assert(rows@ =~= seq![r.pattern, r.directory, rows@[2], rows@[3], r.run]);
        assert(in_setup_rows(content, rows@[2], rows@[3], r));
    }
    r
}

/// The parts of the results screen.
#[derive(Clone, Copy, Debug)]
pub struct ResultsAreas {
    pub stats: Area,
    pub body: Area,
    pub list: Area,
    pub preview: Area,
}

/// The statistics, and below them the list at the left and the preview at the
/// right.
pub fn results_areas(area: Area) -> (r: ResultsAreas)
    requires
        area.wf(),
    ensures
        exists|content: Area| #[trigger]
            is_content(area, content) && in_two(
                content,
                Axis::Vertical,
                (Size::Length(4), Size::Min(0)),
                (r.stats, r.body),
            ),
        in_two(
            r.body,
            Axis::Horizontal,
            (Size::Percentage(55), Size::Percentage(45)),
            (r.list, r.preview),
        ),
        r.stats.inside(area) && r.body.inside(area),
{
    let content = without_margins(area);
    let (stats, body) = split2(content, Axis::Vertical, Size::Length(4), Size::Min(0));
    let (list, preview) = split2(
        body,
        Axis::Horizontal,
        Size::Percentage(55),
        Size::Percentage(45),
    );
    ResultsAreas { stats, body, list, preview }
}

/// The middle of an area: `percent` of it along the axis, the rest in equal parts
/// before and after it.
pub open spec fn is_middle(area: Area, axis: Axis, percent: u16, middle: Area) -> bool {
    let around = Size::Percentage(((100 - percent) / 2) as u16);
    exists|before: Area, after: Area| #[trigger]
        in_three(area, axis, (around, Size::Percentage(percent), around), (before, middle, after))
}

/// A centered rectangle taking up `percent_x` / `percent_y` of `area`.
pub fn centered_rect(percent_x: u16, percent_y: u16, area: Area) -> (r: Area)
    requires
        percent_x <= 100,
        percent_y <= 100,
        area.wf(),
    ensures
        exists|row: Area| #[trigger]
            is_middle(area, Axis::Vertical, percent_y, row) && is_middle(
                row,
                Axis::Horizontal,
                percent_x,
                r,
            ),
        r.inside(area),
{
    let around_y = Size::Percentage((100 - percent_y) / 2);
    let (_above, row, _below) = split3(
        area,
        Axis::Vertical,
        around_y,
        Size::Percentage(percent_y),
        around_y,
    );
    let around_x = Size::Percentage((100 - percent_x) / 2);
    let (_left, cell, _right) = split3(
        row,
        Axis::Horizontal,
        around_x,
        Size::Percentage(percent_x),
        around_x,
    );
    proof {
        assert(is_middle(area, Axis::Vertical, percent_y, row));
        assert(is_middle(row, Axis::Horizontal, percent_x, cell));
    }
    cell
}

/// What is left of `a` without `b`.
pub open spec fn less(a: int, b: int) -> int {
    if a > b {
        a - b
    } else {
        0
    }
}

/// The width of a toast: its text with room at both ends, as far as the screen
/// has it.
pub open spec fn toast_width(area: Area, text_len: nat) -> int {
    let wanted = text_len % 0x1_0000 + 4;
    if wanted < less(area.width as int, 4) {
        wanted as int
    } else {
        less(area.width as int, 4)
    }
}

fn monus(a: u16, b: u16) -> (r: u16)
    ensures
        r == less(a as int, b as int),
{
    if a > b {
        a - b
    } else {
        0
    }
}

/// Where a toast stands: at the bottom right of the screen. The length of its
/// text counts in bytes, as far as sixteen bits hold it.
pub fn toast_rect(area: Area, text_len: usize) -> (r: Area)
    requires
        area.wf(),
        text_len % 0x1_0000 + 4 <= u16::MAX,
    ensures
        r.width == toast_width(area, text_len as nat),
        r.height == 1,
        r.x == area.x + less(area.width as int, r.width + 2),
        r.y == area.y + less(area.height as int, 4),
        area.height > 0 ==> r.inside(area),
{
    let wanted: u16 = (text_len % 0x1_0000) as u16 + 4;
    let room = monus(area.width, 4);
    let width = if wanted < room {
        wanted
    } else {
        room
    };
    Area {
        x: area.x + monus(area.width, width + 2),
        y: area.y + monus(area.height, 4),
        width,
        height: 1,
    }
}

/// What lies inside an area that lies inside another one lies inside that one.
pub proof fn law_inside_is_transitive(a: Area, b: Area, c: Area)
    requires
        a.inside(b),
        b.inside(c),
    ensures
        a.inside(c),
{
}

} // verus!
