use vstd::prelude::*;

use crate::draw::{Align, DrawCtx, Point, Rect};
use crate::layout::{
    center_rects, first_side, fits_halves, is_left, left_edge, lemma_outward_order,
    lemma_overflow_scales_to_zero, lemma_pieces_disjoint, lemma_piece_shape, piece, right_edge,
    scale_to_fit, seq_sum, spec_scaled,
};

verus! {

/// Declares `anyhow::Error`, the error that a widget's drawing reports. It is
/// only passed on, never read.
#[verifier::external_type_specification]
#[verifier::external_body]
pub struct ExError(anyhow::Error);

/// Something that can be laid out and drawn into a box of the bar.
pub trait Widget {
    /// The box last given to `resize`.
    spec fn spec_area(&self) -> Rect;

    /// The width asked for at a given height.
    spec fn spec_desired_width(&self, height: u32) -> u32;

    fn name(&self) -> &str;

    fn area(&self) -> (r: Rect)
        ensures
            r == self.spec_area(),
    ;

    fn h_align(&self) -> Align;

    fn v_align(&self) -> Align;

    fn desired_height(&self) -> u32;

    /// Depends on `height` alone and changes nothing.
    fn desired_width(&self, height: u32) -> (r: u32)
        ensures
            r == self.spec_desired_width(height),
    ;

    /// Gives the widget its box; `area` reflects the latest call.
    fn resize(&mut self, rect: Rect)
        ensures
            final(self).spec_area() == rect,
    ;

    /// Draws the current state inside `ctx.rect`.
    fn draw(&mut self, ctx: &mut DrawCtx) -> Result<(), anyhow::Error>;
}

/// A widget with margins around its content.
pub trait PositionedWidget {
    spec fn spec_top_margin(&self) -> u32;

    spec fn spec_bottom_margin(&self) -> u32;

    spec fn spec_left_margin(&self) -> u32;

    spec fn spec_right_margin(&self) -> u32;

    fn top_margin(&self) -> (r: u32)
        ensures
            r == self.spec_top_margin(),
    ;

    fn bottom_margin(&self) -> (r: u32)
        ensures
            r == self.spec_bottom_margin(),
    ;

    fn left_margin(&self) -> (r: u32)
        ensures
            r == self.spec_left_margin(),
    ;

    fn right_margin(&self) -> (r: u32)
        ensures
            r == self.spec_right_margin(),
    ;

    /// Top plus bottom margin.
    fn v_margins(&self) -> (r: u32)
        requires
            self.spec_top_margin() + self.spec_bottom_margin() <= u32::MAX,
        ensures
            r == self.spec_top_margin() + self.spec_bottom_margin(),
    {
        self.top_margin() + self.bottom_margin()
    }

    /// Left plus right margin.
    fn h_margins(&self) -> (r: u32)
        requires
            self.spec_left_margin() + self.spec_right_margin() <= u32::MAX,
        ensures
            r == self.spec_left_margin() + self.spec_right_margin(),
    {
        self.left_margin() + self.right_margin()
    }
}

/// The widths that the widgets ask for at `height`, in order.
pub open spec fn desired_widths<W: Widget>(ws: Seq<W>, height: u32) -> Seq<u32> {
    Seq::new(ws.len(), |i: int| ws[i].spec_desired_width(height))
}

/// The boxes that `center_widgets` gives the widgets, in order.
pub open spec fn centered_layout<W: Widget>(ws: Seq<W>, area: Rect) -> Seq<Rect> {
    let widths = spec_scaled(
        desired_widths(ws, area.spec_height() as u32),
        area.spec_width(),
    );
    Seq::new(ws.len(), |i: int| piece(widths, area, i))
}

/// The widgets' widths, shrunk where needed, fit on both sides of the center.
pub open spec fn widgets_fit<W: Widget>(ws: Seq<W>, area: Rect) -> bool {
    fits_halves(
        spec_scaled(desired_widths(ws, area.spec_height() as u32), area.spec_width()),
        area,
    )
}

/// Lays the widgets out from the center of `area` outward: with an odd count
/// the first is centered, and the rest go alternately left and right of
/// what is already placed. When their desired widths add up to more than
/// the area's width, all are scaled by the same truncating ratio. Each
/// widget is resized exactly once.
pub fn center_widgets<W: Widget>(widgets: &mut Vec<W>, area: Rect)
    requires
        area.wf(),
        widgets_fit(old(widgets)@, area),
    ensures
        final(widgets)@.len() == old(widgets)@.len(),
        forall|i: int|
            0 <= i < final(widgets)@.len() ==> #[trigger] final(widgets)@[i].spec_area()
                == centered_layout(old(widgets)@, area)[i],
{
    let ghost ws0 = widgets@;
    let width_max = area.width();
    let height_max = area.height();
    let n = widgets.len();
    let mut widths: Vec<u32> = Vec::new();
    let mut i: usize = 0;
    while i < n
        invariant
            n == widgets@.len(),
            widgets@ == ws0,
            i <= n,
            widths@ =~= desired_widths(ws0, height_max).take(i as int),
        decreases n - i,
    {
        let w = widgets[i].desired_width(height_max);
        widths.push(w);
        i = i + 1;
    }
    assert(widths@ =~= desired_widths(ws0, height_max));
    scale_to_fit(&mut widths, width_max);
    let rects = center_rects(&widths, area);
    let ghost layout = centered_layout(ws0, area);
    assert(rects@ =~= layout);
    let mut j: usize = 0;
    while j < n
        invariant
            n == widgets@.len(),
            n == rects@.len(),
            rects@ == layout,
            j <= n,
            forall|k: int| 0 <= k < j ==> #[trigger] widgets@[k].spec_area() == layout[k],
        decreases n - j,
    {
        widgets[j].resize(rects[j]);
        j = j + 1;
    }
}

/// When the desired widths add up to no more than the area's width, every
/// widget gets its exact desired width and the area's full height, inside the
/// area; and no two widgets share a pixel, provided that with an odd count of
/// more than one the center widget's width is even.
pub proof fn lemma_fitting_widgets<W: Widget>(ws: Seq<W>, area: Rect)
    requires
        area.wf(),
        widgets_fit(ws, area),
        seq_sum(desired_widths(ws, area.spec_height() as u32)) <= area.spec_width(),
    ensures
        ({
            let d = desired_widths(ws, area.spec_height() as u32);
            let l = centered_layout(ws, area);
            &&& l.len() == ws.len()
            &&& forall|i: int|
                0 <= i < ws.len() ==> {
                    &&& (#[trigger] l[i]).spec_width() == d[i]
                    &&& l[i].spec_height() == area.spec_height()
                    &&& area.min.x <= l[i].min.x && l[i].max.x <= area.max.x
                    &&& l[i].min.y == area.min.y && l[i].max.y == area.max.y
                }
            &&& (ws.len() % 2 == 0 || ws.len() == 1 || d[0] % 2 == 0) ==> forall|i: int, j: int|
                0 <= i < ws.len() && 0 <= j < ws.len() && i != j ==> !(#[trigger] l[i]).overlaps(
                    #[trigger] l[j],
                )
        }),
{
    let d = desired_widths(ws, area.spec_height() as u32);
    let l = centered_layout(ws, area);
    assert(spec_scaled(d, area.spec_width()) == d);
    assert forall|i: int| 0 <= i < ws.len() implies {
        &&& (#[trigger] l[i]).spec_width() == d[i]
        &&& l[i].spec_height() == area.spec_height()
        &&& area.min.x <= l[i].min.x && l[i].max.x <= area.max.x
        &&& l[i].min.y == area.min.y && l[i].max.y == area.max.y
    } by {
        lemma_piece_shape(d, area, i);
    }
    if ws.len() % 2 == 0 || ws.len() == 1 || d[0] % 2 == 0 {
        assert forall|i: int, j: int|
            0 <= i < ws.len() && 0 <= j < ws.len() && i != j implies !(#[trigger] l[i]).overlaps(
            #[trigger] l[j],
        ) by {
            if i < j {
                lemma_pieces_disjoint(d, area, i, j);
            } else {
                lemma_pieces_disjoint(d, area, j, i);
            }
        }
    }
}

/// When the desired widths add up to more than the area's width, every
/// widget's width is its desired width times the truncating ratio
/// `width / total`. That ratio is zero, so the assigned widths add up to
/// zero, short of the area's width whenever it is positive, and the layout
/// always fits.
pub proof fn lemma_overflowing_widgets<W: Widget>(ws: Seq<W>, area: Rect)
    requires
        area.wf(),
        seq_sum(desired_widths(ws, area.spec_height() as u32)) > area.spec_width(),
    ensures
        ({
            let d = desired_widths(ws, area.spec_height() as u32);
            let ratio = area.spec_width() / seq_sum(d);
            let l = centered_layout(ws, area);
            &&& widgets_fit(ws, area)
            &&& ratio == 0
            &&& seq_sum(spec_scaled(d, area.spec_width())) == 0
            &&& forall|i: int|
                0 <= i < ws.len() ==> (#[trigger] l[i]).spec_width() == d[i] * ratio
        }),
{
    let d = desired_widths(ws, area.spec_height() as u32);
    let s = spec_scaled(d, area.spec_width());
    let l = centered_layout(ws, area);
    lemma_overflow_scales_to_zero(d, area);
    assert forall|i: int| 0 <= i < ws.len() implies (#[trigger] l[i]).spec_width() == d[i] * (
    area.spec_width() / seq_sum(d)) by {
        lemma_piece_shape(s, area, i);
        assert(s[i] == d[i] * (area.spec_width() / seq_sum(d)));
    }
}

/// The widgets grow outward from the center. With an odd count the first is
/// centered in the full area at its width and the area's height. The first
/// side widget (index 1 for an odd count, 0 for an even one) ends where the
/// left half ends, the next starts where the right half starts, and each
/// further widget lies flush against the one two places before it, on the
/// left for the one side and on the right for the other.
pub proof fn lemma_widgets_grow_outward<W: Widget>(ws: Seq<W>, area: Rect)
    requires
        area.wf(),
        widgets_fit(ws, area),
    ensures
        ({
            let s = spec_scaled(
                desired_widths(ws, area.spec_height() as u32),
                area.spec_width(),
            );
            let l = centered_layout(ws, area);
            let n = ws.len() as int;
            let f = first_side(n);
            &&& n % 2 == 1 ==> l[0] == area.spec_place_at(
                Point { x: s[0], y: area.spec_height() as u32 },
                Align::Center,
                Align::Center,
            )
            &&& f < n ==> l[f].max.x == left_edge(s, area)
            &&& f + 1 < n ==> l[f + 1].min.x == right_edge(s, area)
            &&& forall|i: int|
                f <= i && i + 2 < n ==> if is_left(n, i) {
                    (#[trigger] l[i + 2]).max.x == l[i].min.x
                } else {
                    l[i + 2].min.x == l[i].max.x
                }
        }),
{
    let s = spec_scaled(desired_widths(ws, area.spec_height() as u32), area.spec_width());
    lemma_outward_order(s, area);
    assert(s.len() == ws.len());
}

} // verus!
