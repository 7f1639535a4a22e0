//! Splitting the screen into panels and placing the confirmation popup.
use ratatui::layout::{Constraint, Direction, Layout, Rect};
use vstd::prelude::*;

use crate::screen::popup_side_percent;

verus! {

/// A rectangle of terminal cells.
#[derive(Clone, Copy, Debug, PartialEq, Eq, Structural)]
pub struct Area {
    pub x: u16,
    pub y: u16,
    pub width: u16,
    pub height: u16,
}

/// The size asked of one part of a split.
#[derive(Clone, Copy, Debug, PartialEq, Eq, Structural)]
pub enum Size {
    /// Exactly this many cells.
    Length(u16),
    /// At least this many cells.
    Min(u16),
    /// This percentage of the split area.
    Percentage(u16),
}

/// An area as its origin and size.
pub open spec fn cells(a: Area) -> (u16, u16, u16, u16) {
    (a.x, a.y, a.width, a.height)
}

/// Every part is a percentage.
pub open spec fn all_percentages(sizes: Seq<Size>) -> bool {
    forall|i: int| 0 <= i < sizes.len() ==> (#[trigger] sizes[i]) is Percentage
}

/// The percentages of the parts (0 for a part that is no percentage).
pub open spec fn percentages(sizes: Seq<Size>) -> Seq<u16> {
    sizes.map_values(
        |s: Size|
            match s {
                Size::Percentage(p) => p,
                _ => 0u16,
            },
    )
}

/// The sum of `p`.
pub open spec fn percent_sum(p: Seq<u16>) -> int
    decreases p.len(),
{
    if p.len() == 0 {
        0
    } else {
        percent_sum(p.drop_last()) + p.last()
    }
}

/// `part` lies inside `area` along the split axis and spans all of it across.
pub open spec fn part_of(part: Area, area: Area, vertical: bool) -> bool {
    if vertical {
        &&& part.x == area.x
        &&& part.width == area.width
        &&& area.y <= part.y
        &&& part.y + part.height <= area.y + area.height
    } else {
        &&& part.y == area.y
        &&& part.height == area.height
        &&& area.x <= part.x
        &&& part.x + part.width <= area.x + area.width
    }
}

/// Where `a` starts along the split axis.
pub open spec fn axis_start(a: Area, vertical: bool) -> int {
    if vertical {
        a.y as int
    } else {
        a.x as int
    }
}

/// How long `a` is along the split axis.
pub open spec fn axis_len(a: Area, vertical: bool) -> int {
    if vertical {
        a.height as int
    } else {
        a.width as int
    }
}

/// The parts follow each other without gap from the start of `area`.
pub open spec fn contiguous(parts: Seq<Area>, area: Area, vertical: bool) -> bool {
    &&& parts.len() > 0 ==> axis_start(parts[0], vertical) == axis_start(area, vertical)
    &&& forall|i: int|
        0 <= i < parts.len() - 1 ==> axis_start(#[trigger] parts[i + 1], vertical) == axis_start(
            parts[i],
            vertical,
        ) + axis_len(parts[i], vertical)
}

/// The number of `Min` parts.
pub open spec fn min_count(sizes: Seq<Size>) -> nat
    decreases sizes.len(),
{
    if sizes.len() == 0 {
        0
    } else if sizes.last() is Min {
        min_count(sizes.drop_last()) + 1
    } else {
        min_count(sizes.drop_last())
    }
}

/// The sum of the `Length` parts.
pub open spec fn length_total(sizes: Seq<Size>) -> int
    decreases sizes.len(),
{
    if sizes.len() == 0 {
        0
    } else {
        length_total(sizes.drop_last()) + match sizes.last() {
            Size::Length(n) => n as int,
            _ => 0,
        }
    }
}

/// The sum of the `Length` parts and of the least sizes of the `Min` parts.
pub open spec fn least_total(sizes: Seq<Size>) -> int
    decreases sizes.len(),
{
    if sizes.len() == 0 {
        0
    } else {
        least_total(sizes.drop_last()) + match sizes.last() {
            Size::Length(n) => n as int,
            Size::Min(n) => n as int,
            Size::Percentage(_) => 0,
        }
    }
}

/// The parts are `Length`s and one `Min`, and they fit in `extent` cells
/// (which end before the last coordinate a `u16` holds).
pub open spec fn lengths_fit(sizes: Seq<Size>, start: int, extent: int) -> bool {
    &&& min_count(sizes) == 1
    &&& forall|i: int| 0 <= i < sizes.len() ==> !((#[trigger] sizes[i]) is Percentage)
    &&& least_total(sizes) <= extent
    &&& start + extent <= 65535
}

/// The length of a part when the parts fit: a `Length` its own, the `Min`
/// all that the `Length`s leave.
pub open spec fn fitted_len(part: Size, sizes: Seq<Size>, extent: int) -> int {
    match part {
        Size::Length(n) => n as int,
        Size::Min(_) => extent - length_total(sizes),
        Size::Percentage(_) => 0,
    }
}

/// `a / 100` rounded to the nearest whole number, halves up (`f64::round`
/// on a non-negative value).
pub open spec fn round_pct(a: int) -> int {
    (2 * a + 100) / 200
}

/// The cells that a split can use along its axis: the length of `a`, cut
/// where the coordinates end (ratatui's `Rect::right` and `Rect::bottom` saturate).
pub open spec fn usable_len(a: Area, vertical: bool) -> int {
    if axis_len(a, vertical) <= 65535 - axis_start(a, vertical) {
        axis_len(a, vertical)
    } else {
        65535 - axis_start(a, vertical)
    }
}

/// Where part `i` of a split into `percents` begins, counted from the area's
/// start: the share of the parts before it, rounded.
pub open spec fn percent_offset(percents: Seq<u16>, i: int, extent: int) -> int {
    round_pct(extent * percent_sum(percents.take(i)))
}

/// Calls ratatui's `Layout::split` with one constraint per entry of `sizes`.
/// Claimed of it: one area per constraint (the documentation of
/// `Layout::areas`); every area lies inside `area` along the split axis and
/// spans it across (the solver's required constraints keep every edge between
/// the area's edges, and the cross axis is copied from the area); and, when
/// all parts are percentages adding up to at most 100, part `i` begins at the
/// rounded share of the parts before it and ends at the rounded share of the
/// parts up to it: every percentage can then hold at once, each at its exact
/// size (the usable length times the percentage, a whole number at the
/// solver's scale of 100), the spacers between them stay empty and the rest
/// goes to the last spacer, so the solution does not depend on the solver's
/// pivot order; the edges are then divided by 100 and rounded. Further: the
/// parts always follow each other from the area's start (the first and the
/// inner spacers are held empty at strengths above every size constraint);
/// and when the parts are `Length`s and one `Min` that fit, each `Length` is
/// exact and the `Min` takes the rest (its fill strength beats the last
/// spacer's growth). Otherwise, with conflicting sizes, which of several
/// equally good splits comes back can depend on that order, and nothing more
/// is said of it.
#[verifier::external_body]
fn split_area(vertical: bool, sizes: &Vec<Size>, area: Area) -> (res: Vec<Area>)
    ensures
        res@.len() == sizes@.len(),
        forall|i: int| 0 <= i < res@.len() ==> part_of(#[trigger] res@[i], area, vertical),
        contiguous(res@, area, vertical),
        lengths_fit(sizes@, axis_start(area, vertical), axis_len(area, vertical)) ==> forall|i: int|
            0 <= i < res@.len() ==> axis_len(#[trigger] res@[i], vertical) == fitted_len(
                sizes@[i],
                sizes@,
                axis_len(area, vertical),
            ),
        all_percentages(sizes@) && percent_sum(percentages(sizes@)) <= 100 ==> forall|i: int|
            0 <= i < res@.len() ==> {
                &&& axis_start(#[trigger] res@[i], vertical) == axis_start(area, vertical)
                    + percent_offset(percentages(sizes@), i, usable_len(area, vertical))
                &&& axis_len(res@[i], vertical) == percent_offset(
                    percentages(sizes@),
                    i + 1,
                    usable_len(area, vertical),
                ) - percent_offset(percentages(sizes@), i, usable_len(area, vertical))
            },
{
    let direction = if vertical { Direction::Vertical } else { Direction::Horizontal };
    let constraints = sizes.iter().map(|s| match *s {
        Size::Length(n) => Constraint::Length(n),
        Size::Min(n) => Constraint::Min(n),
        Size::Percentage(p) => Constraint::Percentage(p),
    });
    let rect = Rect { x: area.x, y: area.y, width: area.width, height: area.height };
    let parts = Layout::default().direction(direction).constraints(constraints).split(rect);
    parts.iter().map(|r| Area { x: r.x, y: r.y, width: r.width, height: r.height }).collect()
}

/// The three percentages that centre a part of `percent` between two equal margins.
pub open spec fn centred_percents(percent: u16) -> Seq<u16> {
    seq![((100 - percent) / 2) as u16, percent, ((100 - percent) / 2) as u16]
}

/// The sizes `[margin%, percent%, margin%]` that centre a part of `percent`.
fn centred_sizes(percent: u16) -> (res: Vec<Size>)
    requires
        percent <= 100,
    ensures
        all_percentages(res@),
        percentages(res@) == centred_percents(percent),
        percent_sum(percentages(res@)) <= 100,
{
    let side = popup_side_percent(percent);
    let mut v: Vec<Size> = Vec::new();
    v.push(Size::Percentage(side));
    v.push(Size::Percentage(percent));
    v.push(Size::Percentage(side));
    assert(percentages(v@) =~= centred_percents(percent));
    let ghost p = percentages(v@);
    assert(p =~= seq![side, percent, side]);
    assert(p.drop_last().drop_last() =~= seq![side]);
    assert(p.drop_last().drop_last().drop_last() =~= Seq::<u16>::empty());
    assert(percent_sum(p.drop_last().drop_last().drop_last()) == 0);
    assert(percent_sum(p.drop_last().drop_last()) == side);
    assert(percent_sum(p.drop_last()) == side + percent);
    assert(percent_sum(p) == side + percent + side);
    v
}

/// The area of `percent_x` of the width and `percent_y` of the height in the
/// middle of `r`: the middle row of a top-to-bottom split into
/// `[m%, percent_y%, m%]` (`m` the side share), then the middle column of a
/// left-to-right split of that row. It lies inside `r`.
pub fn centered_rect(percent_x: u16, percent_y: u16, r: Area) -> (res: Area)
    requires
        percent_x <= 100,
        percent_y <= 100,
    ensures
        res.y == r.y + percent_offset(centred_percents(percent_y), 1, usable_len(r, true)),
        res.height == percent_offset(centred_percents(percent_y), 2, usable_len(r, true))
            - percent_offset(centred_percents(percent_y), 1, usable_len(r, true)),
        res.x == r.x + percent_offset(centred_percents(percent_x), 1, usable_len(r, false)),
        res.width == percent_offset(centred_percents(percent_x), 2, usable_len(r, false))
            - percent_offset(centred_percents(percent_x), 1, usable_len(r, false)),
        r.x <= res.x,
        res.x + res.width <= r.x + r.width,
        r.y <= res.y,
        res.y + res.height <= r.y + r.height,
{
    let vertical = centred_sizes(percent_y);
    let rows = split_area(true, &vertical, r);
    let middle = rows[1];
    assert(part_of(rows@[1], r, true));
    let horizontal = centred_sizes(percent_x);
    let cols = split_area(false, &horizontal, middle);
    assert(part_of(cols@[1], middle, false));
    assert(usable_len(middle, false) == usable_len(r, false));
    cols[1]
}

/// The sizes of the four panels, top to bottom: device header (3 rows),
/// package list (at least 5), log (`log_height`), help line (2).
pub open spec fn panel_sizes(log_height: u16) -> Seq<Size> {
    seq![Size::Length(3), Size::Min(5), Size::Length(log_height), Size::Length(2)]
}

/// The four panels of the screen, split top to bottom from `area` with the
/// sizes `panel_sizes(log_height)`: each spans the width of `area`, they
/// follow each other from its top, and when they fit (`area` holds at least
/// `10 + log_height` rows) they are the header (3 rows), the list (the rest),
/// the log (`log_height` rows) and the help line (2 rows). Where they do not
/// fit, ratatui's solver decides which of them give way.
pub fn screen_panels(log_height: u16, area: Area) -> (res: Vec<Area>)
    ensures
        res@.len() == 4,
        forall|i: int| 0 <= i < 4 ==> part_of(#[trigger] res@[i], area, true),
        res@[0].y == area.y,
        forall|i: int| 0 <= i < 3 ==> (#[trigger] res@[i + 1]).y == res@[i].y + res@[i].height,
        area.height >= 10 + log_height && area.y + area.height <= 65535 ==> {
            &&& cells(res@[0]) == (area.x, area.y, area.width, 3u16)
            &&& cells(res@[1]) == (area.x, (area.y + 3) as u16, area.width, (area.height - 5
                - log_height) as u16)
            &&& cells(res@[2]) == (area.x, (area.y + area.height - 2 - log_height) as u16, area.width, log_height)
            &&& cells(res@[3]) == (area.x, (area.y + area.height - 2) as u16, area.width, 2u16)
        },
{
    let mut sizes: Vec<Size> = Vec::new();
    sizes.push(Size::Length(3));
    sizes.push(Size::Min(5));
    sizes.push(Size::Length(log_height));
    sizes.push(Size::Length(2));
    let ghost sz = sizes@;
    assert(sz =~= panel_sizes(log_height));
    proof {
        let s1 = sz.drop_last().drop_last().drop_last();
        let s2 = sz.drop_last().drop_last();
        let s3 = sz.drop_last();
        assert(s1.drop_last() =~= Seq::<Size>::empty());
        assert(min_count(s1.drop_last()) == 0);
        assert(length_total(s1.drop_last()) == 0);
        assert(least_total(s1.drop_last()) == 0);
        assert(s1.last() == Size::Length(3));
        assert(s2.last() == Size::Min(5));
        assert(s3.last() == Size::Length(log_height));
        assert(sz.last() == Size::Length(2));
        assert(min_count(s1) == 0);
        assert(min_count(s2) == 1);
        assert(min_count(s3) == 1);
        assert(min_count(sz) == 1);
        assert(length_total(s1) == 3);
        assert(length_total(s2) == 3);
        assert(length_total(s3) == 3 + log_height);
        assert(length_total(sz) == 5 + log_height);
        assert(least_total(s1) == 3);
        assert(least_total(s2) == 8);
        assert(least_total(s3) == 8 + log_height);
        assert(least_total(sz) == 10 + log_height);
    }
    let res = split_area(true, &sizes, area);
    proof {
        assert(contiguous(res@, area, true));
        assert(res@[1].y == res@[0].y + res@[0].height);
        assert(res@[2].y == res@[1].y + res@[1].height);
        assert(res@[3].y == res@[2].y + res@[2].height);
        assert(part_of(res@[0], area, true));
        assert(part_of(res@[1], area, true));
        assert(part_of(res@[2], area, true));
        assert(part_of(res@[3], area, true));
        if area.height >= 10 + log_height && area.y + area.height <= 65535 {
            assert(lengths_fit(sz, axis_start(area, true), axis_len(area, true)));
            assert(res@[0].height == 3);
            assert(res@[1].height == area.height - 5 - log_height);
            assert(res@[2].height == log_height);
            assert(res@[3].height == 2);
        }
    }
    res
}

} // verus!
