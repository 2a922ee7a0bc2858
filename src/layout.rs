use vstd::prelude::*;

use crate::draw::geometry::{Align, Point, Rect};

verus! {

/// The sum of a sequence of widths.
pub open spec fn seq_sum(ws: Seq<u32>) -> int
    decreases ws.len(),
{
    if ws.len() == 0 {
        0
    } else {
        seq_sum(ws.drop_last()) + ws.last()
    }
}

/// The widths after the uniform shrink: when they do not fit in `width`,
/// each is multiplied by the truncating ratio `width / total`.
pub open spec fn spec_scaled(ws: Seq<u32>, width: int) -> Seq<u32> {
    let total = seq_sum(ws);
    if total > width {
        ws.map_values(|w: u32| (w * (width / total)) as u32)
    } else {
        ws
    }
}

/// Index of the first piece that goes to a side: with an odd count the
/// piece at 0 takes the center.
pub open spec fn first_side(n: int) -> int {
    if n % 2 == 1 {
        1
    } else {
        0
    }
}

/// Side pieces alternate left, right, left, ... starting with the left.
pub open spec fn is_left(n: int, i: int) -> bool {
    (i - first_side(n)) % 2 == 0
}

/// Width of the center piece, zero when there is none.
pub open spec fn center_width(ws: Seq<u32>) -> int {
    if ws.len() % 2 == 1 {
        ws[0] as int
    } else {
        0
    }
}

/// Where the left pieces start growing leftward from.
pub open spec fn left_edge(ws: Seq<u32>, area: Rect) -> int {
    area.min.x + area.spec_width() / 2 - center_width(ws) / 2
}

/// Where the right pieces start growing rightward from.
pub open spec fn right_edge(ws: Seq<u32>, area: Rect) -> int {
    area.min.x + area.spec_width() / 2 + center_width(ws) / 2
}

/// Total width of the side pieces before index `i` that lie on the given side.
pub open spec fn side_sum(ws: Seq<u32>, i: int, left: bool) -> int
    decreases i,
{
    if i <= first_side(ws.len() as int) {
        0
    } else {
        side_sum(ws, i - 1, left) + if is_left(ws.len() as int, i - 1) == left {
            ws[i - 1] as int
        } else {
            0
        }
    }
}

/// The full-height slice of `area` between columns `lo` and `hi`.
pub open spec fn column_span(area: Rect, lo: int, hi: int) -> Rect {
    Rect {
        min: Point { x: lo as u32, y: area.min.y },
        max: Point { x: hi as u32, y: area.max.y },
    }
}

/// The box that piece `i` of widths `ws` gets in `area`.
pub open spec fn piece(ws: Seq<u32>, area: Rect, i: int) -> Rect {
    if ws.len() % 2 == 1 && i == 0 {
        area.spec_place_at(
            Point { x: ws[0], y: area.spec_height() as u32 },
            Align::Center,
            Align::Center,
        )
    } else if is_left(ws.len() as int, i) {
        let hi = left_edge(ws, area) - side_sum(ws, i, true);
        column_span(area, hi - ws[i], hi)
    } else {
        let lo = right_edge(ws, area) + side_sum(ws, i, false);
        column_span(area, lo, lo + ws[i])
    }
}

/// Room left of the center line (less half the center piece).
pub open spec fn left_room(ws: Seq<u32>, area: Rect) -> int {
    area.spec_width() / 2 - center_width(ws) / 2
}

/// Room right of the center line (less half the center piece).
pub open spec fn right_room(ws: Seq<u32>, area: Rect) -> int {
    area.spec_width() - area.spec_width() / 2 - center_width(ws) / 2
}

/// The center piece fits in the area and the pieces of each side fit in
/// that side's half.
pub open spec fn fits_halves(ws: Seq<u32>, area: Rect) -> bool {
    &&& center_width(ws) <= area.spec_width()
    &&& side_sum(ws, ws.len() as int, true) <= left_room(ws, area)
    &&& side_sum(ws, ws.len() as int, false) <= right_room(ws, area)
}

/// Adding one more index never shrinks a side's total.
pub proof fn lemma_side_sum_mono(ws: Seq<u32>, i: int, j: int, left: bool)
    requires
        i <= j,
    ensures
        side_sum(ws, i, left) <= side_sum(ws, j, left),
    decreases j - i,
{
    if i < j {
        lemma_side_sum_mono(ws, i, j - 1, left);
    }
}

/// Computes the box of each piece, the center one first (when the count is
/// odd), then alternately left and right of it, growing outward.
pub fn center_rects(widths: &Vec<u32>, area: Rect) -> (r: Vec<Rect>)
    requires
        area.wf(),
        fits_halves(widths@, area),
    ensures
        r@.len() == widths@.len(),
        forall|i: int| 0 <= i < r@.len() ==> r@[i] == piece(widths@, area, i),
{
    let ghost ws = widths@;
    let n = widths.len();
    let width = area.width();
    let height = area.height();
    let half = width / 2;
    let mut out: Vec<Rect> = Vec::new();
    let mut left = Rect::new(area.min, area.min.plus(Point::new(half, height)));
    let mut right = Rect::new(area.min.plus(Point::new(half, 0)), area.max);
    let mut i: usize = 0;
    if n % 2 == 1 {
        let rect = area.place_at(Point::new(widths[0], height), Align::Center, Align::Center);
        out.push(rect);
        left.max.x = left.max.x - rect.width() / 2;
        right.min.x = right.min.x + rect.width() / 2;
        i = 1;
    }
    proof {
        lemma_side_sum_mono(ws, i as int, n as int, true);
        lemma_side_sum_mono(ws, i as int, n as int, false);
    }
    while i < n
        invariant
            n == ws.len(),
            widths@ == ws,
            area.wf(),
            fits_halves(ws, area),
            height == area.spec_height(),
            first_side(n as int) <= i <= n,
            out@.len() == i,
            forall|j: int| 0 <= j < i ==> out@[j] == piece(ws, area, j),
            left.min == area.min,
            left.max.y == area.max.y,
            left.max.x == left_edge(ws, area) - side_sum(ws, i as int, true),
            right.max == area.max,
            right.min.y == area.min.y,
            right.min.x == right_edge(ws, area) + side_sum(ws, i as int, false),
        decreases n - i,
    {
        proof {
            lemma_side_sum_mono(ws, i + 1, n as int, true);
            lemma_side_sum_mono(ws, i + 1, n as int, false);
        }
        let w = widths[i];
        let rect;
        if (i - (n % 2)) % 2 == 0 {
            rect = left.place_at(Point::new(w, height), Align::End, Align::Center);
            left.max.x = left.max.x - rect.width();
        } else {
            rect = right.place_at(Point::new(w, height), Align::Start, Align::Center);
            right.min.x = right.min.x + rect.width();
        }
        out.push(rect);
        i = i + 1;
    }
    out
}


/// Shrinks the widths uniformly when their sum exceeds `width`: each is
/// multiplied by the truncating ratio `width / sum`.
pub fn scale_to_fit(widths: &mut Vec<u32>, width: u32)
    ensures
        final(widths)@ == spec_scaled(old(widths)@, width as int),
{
    let ghost ws = widths@;
    let n = widths.len();
    let mut total: u128 = 0;
    let mut i: usize = 0;
    while i < n
        invariant
            n == ws.len(),
            widths@ == ws,
            i <= n,
            total == seq_sum(ws.take(i as int)),
            total <= i * 0xffff_ffff,
        decreases n - i,
    {
        assert(ws.take(i + 1).drop_last() =~= ws.take(i as int));
        assert((i + 1) * 0xffff_ffff == i * 0xffff_ffff + 0xffff_ffff) by (nonlinear_arith);
        total = total + widths[i] as u128;
        i = i + 1;
    }
    assert(ws.take(n as int) =~= ws);
    if total > width as u128 {
        let ratio: u32 = (width as u128 / total) as u32;
        assert(ratio == 0) by (nonlinear_arith)
            requires
                ratio == width as int / total as int,
                0 <= width < total,
        ;
        let mut j: usize = 0;
        while j < n
            invariant
                n == ws.len(),
                widths@.len() == n,
                ratio == width as int / seq_sum(ws),
                ratio == 0,
                j <= n,
                forall|k: int| 0 <= k < j ==> widths@[k] == (ws[k] * ratio) as u32,
                forall|k: int| j <= k < n ==> widths@[k] == ws[k],
            decreases n - j,
        {
            widths[j] = widths[j] * ratio;
            j = j + 1;
        }
        assert(widths@ =~= spec_scaled(ws, width as int));
    }
}


/// Two indices apart on one side, the running total grows by the width of
/// the piece between.
pub proof fn lemma_side_sum_step(ws: Seq<u32>, i: int)
    requires
        first_side(ws.len() as int) <= i,
    ensures
        side_sum(ws, i + 1, is_left(ws.len() as int, i)) == side_sum(
            ws,
            i,
            is_left(ws.len() as int, i),
        ) + ws[i],
        side_sum(ws, i + 1, !is_left(ws.len() as int, i)) == side_sum(
            ws,
            i,
            !is_left(ws.len() as int, i),
        ),
        side_sum(ws, i + 2, is_left(ws.len() as int, i)) == side_sum(
            ws,
            i,
            is_left(ws.len() as int, i),
        ) + ws[i],
{
    let n = ws.len() as int;
    assert(is_left(n, i + 1) != is_left(n, i));
    assert(side_sum(ws, i + 1, is_left(n, i)) == side_sum(ws, i, is_left(n, i)) + ws[i]);
}

/// Each piece has its own width, the area's height, and lies in the area.
pub proof fn lemma_piece_shape(ws: Seq<u32>, area: Rect, i: int)
    requires
        area.wf(),
        fits_halves(ws, area),
        0 <= i < ws.len(),
    ensures
        piece(ws, area, i).wf(),
        piece(ws, area, i).spec_width() == ws[i],
        piece(ws, area, i).spec_height() == area.spec_height(),
        area.min.x <= piece(ws, area, i).min.x,
        piece(ws, area, i).max.x <= area.max.x,
        piece(ws, area, i).min.y == area.min.y,
        piece(ws, area, i).max.y == area.max.y,
        !(ws.len() % 2 == 1 && i == 0) && is_left(ws.len() as int, i) ==> piece(ws, area, i).max.x
            == left_edge(ws, area) - side_sum(ws, i, true),
        !(ws.len() % 2 == 1 && i == 0) && !is_left(ws.len() as int, i) ==> piece(
            ws,
            area,
            i,
        ).min.x == right_edge(ws, area) + side_sum(ws, i, false),
        !(ws.len() % 2 == 1 && i == 0) ==> side_sum(ws, i, true) >= 0 && side_sum(ws, i, false)
            >= 0,
{
    let n = ws.len() as int;
    if !(n % 2 == 1 && i == 0) {
        let f = first_side(n);
        lemma_side_sum_step(ws, i);
        lemma_side_sum_mono(ws, i + 1, n, is_left(n, i));
        lemma_side_sum_mono(ws, f, i, true);
        lemma_side_sum_mono(ws, f, i, false);
        assert(side_sum(ws, f, true) == 0 && side_sum(ws, f, false) == 0);
    }
}

/// With an even count, or an even center width, or a lone piece, no two
/// pieces share a pixel.
pub proof fn lemma_pieces_disjoint(ws: Seq<u32>, area: Rect, i: int, j: int)
    requires
        area.wf(),
        fits_halves(ws, area),
        ws.len() % 2 == 0 || ws.len() == 1 || ws[0] % 2 == 0,
        0 <= i < j < ws.len(),
    ensures
        !piece(ws, area, i).overlaps(piece(ws, area, j)),
{
    let n = ws.len() as int;
    lemma_piece_shape(ws, area, i);
    lemma_piece_shape(ws, area, j);
    let f = first_side(n);
    let w = area.spec_width();
    lemma_side_sum_step(ws, j);
    lemma_side_sum_mono(ws, f, j, true);
    lemma_side_sum_mono(ws, f, j, false);
    assert(side_sum(ws, f, true) == 0 && side_sum(ws, f, false) == 0);
    if n % 2 == 1 && i == 0 {
        assert((w - ws[0]) / 2 == w / 2 - ws[0] / 2);
        if is_left(n, j) {
            assert(piece(ws, area, j).max.x <= left_edge(ws, area));
            assert(left_edge(ws, area) == piece(ws, area, i).min.x);
        } else {
            assert(piece(ws, area, j).min.x >= right_edge(ws, area));
            assert(right_edge(ws, area) == piece(ws, area, i).max.x);
        }
    } else {
        lemma_side_sum_step(ws, i);
        lemma_side_sum_mono(ws, f, i, true);
        lemma_side_sum_mono(ws, f, i, false);
        lemma_side_sum_mono(ws, i + 1, j, is_left(n, i));
    }
}

/// The outward order: with an odd count the first piece is centered in the
/// area; the side pieces start at the center line (less half the center
/// piece) and each lies flush against the one two places before it, leftward
/// on the left and rightward on the right.
pub proof fn lemma_outward_order(ws: Seq<u32>, area: Rect)
    requires
        area.wf(),
        fits_halves(ws, area),
    ensures
        ws.len() % 2 == 1 ==> piece(ws, area, 0) == area.spec_place_at(
            Point { x: ws[0], y: area.spec_height() as u32 },
            Align::Center,
            Align::Center,
        ),
        first_side(ws.len() as int) < ws.len() ==> piece(
            ws,
            area,
            first_side(ws.len() as int),
        ).max.x == left_edge(ws, area),
        first_side(ws.len() as int) + 1 < ws.len() ==> piece(
            ws,
            area,
            first_side(ws.len() as int) + 1,
        ).min.x == right_edge(ws, area),
        forall|i: int|
            #![trigger piece(ws, area, i + 2)]
            first_side(ws.len() as int) <= i && i + 2 < ws.len() ==> {
                if is_left(ws.len() as int, i) {
                    piece(ws, area, i + 2).max.x == piece(ws, area, i).min.x
                } else {
                    piece(ws, area, i + 2).min.x == piece(ws, area, i).max.x
                }
            },
{
    let n = ws.len() as int;
    let f = first_side(n);
    if f + 1 < n {
        lemma_side_sum_step(ws, f);
    }
    assert forall|i: int|
        #![trigger piece(ws, area, i + 2)]
        f <= i && i + 2 < n implies {
            if is_left(n, i) {
                piece(ws, area, i + 2).max.x == piece(ws, area, i).min.x
            } else {
                piece(ws, area, i + 2).min.x == piece(ws, area, i).max.x
            }
        } by {
        lemma_side_sum_step(ws, i);
        lemma_piece_shape(ws, area, i);
        lemma_piece_shape(ws, area, i + 2);
        assert(is_left(n, i + 2) == is_left(n, i));
    }
}


/// Widths that are all zero add up to zero on each side and overall.
pub proof fn lemma_zero_widths(ws: Seq<u32>, i: int)
    requires
        forall|k: int| 0 <= k < ws.len() ==> ws[k] == 0,
        i <= ws.len(),
    ensures
        side_sum(ws, i, true) == 0,
        side_sum(ws, i, false) == 0,
    decreases i,
{
    if i > first_side(ws.len() as int) {
        lemma_zero_widths(ws, i - 1);
    }
}

/// The sum of a sequence of zeros is zero.
pub proof fn lemma_seq_sum_zero(ws: Seq<u32>)
    requires
        forall|k: int| 0 <= k < ws.len() ==> ws[k] == 0,
    ensures
        seq_sum(ws) == 0,
    decreases ws.len(),
{
    if ws.len() > 0 {
        lemma_seq_sum_zero(ws.drop_last());
    }
}

/// When the widths overflow `width`, the truncating ratio is zero: every
/// scaled width is zero, their sum falls short of any positive width, and
/// they fit on both sides of any area of that width.
pub proof fn lemma_overflow_scales_to_zero(ws: Seq<u32>, area: Rect)
    requires
        area.wf(),
        seq_sum(ws) > area.spec_width(),
    ensures
        area.spec_width() / seq_sum(ws) == 0,
        spec_scaled(ws, area.spec_width()).len() == ws.len(),
        forall|i: int|
            0 <= i < ws.len() ==> #[trigger] spec_scaled(ws, area.spec_width())[i] == ws[i] * (
            area.spec_width() / seq_sum(ws)),
        seq_sum(spec_scaled(ws, area.spec_width())) == 0,
        fits_halves(spec_scaled(ws, area.spec_width()), area),
{
    let w = area.spec_width();
    let t = seq_sum(ws);
    assert(w / t == 0) by (nonlinear_arith)
        requires
            0 <= w < t,
    ;
    let s = spec_scaled(ws, w);
    assert forall|k: int| 0 <= k < s.len() implies s[k] == 0 by {
        assert(ws[k] * 0 == 0);
    }
    lemma_seq_sum_zero(s);
    lemma_zero_widths(s, s.len() as int);
}

/// Tells whether `center_rects` can lay out `widths` in `area`: the center
/// piece fits in the area and each side's pieces fit in that side's half.
pub fn fits_in_halves(widths: &Vec<u32>, area: Rect) -> (r: bool)
    requires
        area.wf(),
    ensures
        r == fits_halves(widths@, area),
{
    let ghost ws = widths@;
    let n = widths.len();
    let width = area.width();
    let center: u32 = if n % 2 == 1 {
        widths[0]
    } else {
        0
    };
    if center > width {
        return false;
    }
    let mut i: usize = if n % 2 == 1 {
        1
    } else {
        0
    };
    let mut left: u128 = 0;
    let mut right: u128 = 0;
    while i < n
        invariant
            n == ws.len(),
            widths@ == ws,
            first_side(n as int) <= i <= n,
            left == side_sum(ws, i as int, true),
            right == side_sum(ws, i as int, false),
            left + right <= i * 0xffff_ffff,
        decreases n - i,
    {
        assert((i + 1) * 0xffff_ffff == i * 0xffff_ffff + 0xffff_ffff) by (nonlinear_arith);
        if (i - n % 2) % 2 == 0 {
            left = left + widths[i] as u128;
        } else {
            right = right + widths[i] as u128;
        }
        i = i + 1;
    }
    left <= (width / 2 - center / 2) as u128 && right <= (width - width / 2 - center / 2) as u128
}

} // verus!
