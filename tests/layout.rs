use statusbar::draw::{DrawCtx, Point, Rect};
use statusbar::layout::{center_rects, fits_in_halves, scale_to_fit};
use statusbar::widget::{center_widgets, Widget};

struct Fixed {
    width: u32,
    area: Rect,
    resized: u32,
}

impl Widget for Fixed {
    fn spec_area(&self) -> Rect {
        self.area
    }
    fn spec_desired_width(&self, _height: u32) -> u32 {
        self.width
    }
    fn name(&self) -> &str {
        "fixed"
    }
    fn area(&self) -> Rect {
        self.area
    }
    fn h_align(&self) -> statusbar::draw::Align {
        statusbar::draw::Align::Center
    }
    fn v_align(&self) -> statusbar::draw::Align {
        statusbar::draw::Align::Center
    }
    fn desired_height(&self) -> u32 {
        20
    }
    fn desired_width(&self, _height: u32) -> u32 {
        self.width
    }
    fn resize(&mut self, rect: Rect) {
        self.area = rect;
        self.resized += 1;
    }
    fn draw(&mut self, _ctx: &mut DrawCtx) -> Result<(), anyhow::Error> {
        Ok(())
    }
}

fn rect(x0: u32, y0: u32, x1: u32, y1: u32) -> Rect {
    Rect::new(Point::new(x0, y0), Point::new(x1, y1))
}

fn widgets(widths: &[u32]) -> Vec<Fixed> {
    widths
        .iter()
        .map(|&width| Fixed { width, area: rect(0, 0, 0, 0), resized: 0 })
        .collect()
}

fn areas(ws: &[Fixed]) -> Vec<Rect> {
    ws.iter().map(|w| w.area).collect()
}

fn overlaps(a: &Rect, b: &Rect) -> bool {
    a.min.x < b.max.x && b.min.x < a.max.x && a.min.y < b.max.y && b.min.y < a.max.y
}

#[test]
fn three_widgets_end_to_end() {
    let mut ws = widgets(&[50, 80, 50]);
    center_widgets(&mut ws, rect(0, 0, 300, 20));
    assert_eq!(areas(&ws), vec![rect(125, 0, 175, 20), rect(45, 0, 125, 20), rect(175, 0, 225, 20)]);
    assert!(ws.iter().all(|w| w.resized == 1));
}

#[test]
fn five_widgets_alternate_outward() {
    let mut ws = widgets(&[20, 10, 30, 40, 5]);
    center_widgets(&mut ws, rect(100, 7, 300, 27));
    assert_eq!(
        areas(&ws),
        vec![
            rect(190, 7, 210, 27),
            rect(180, 7, 190, 27),
            rect(210, 7, 240, 27),
            rect(140, 7, 180, 27),
            rect(240, 7, 245, 27),
        ]
    );
}

#[test]
fn even_count_meets_at_midpoint() {
    let mut ws = widgets(&[10, 20, 30, 25]);
    center_widgets(&mut ws, rect(0, 0, 101, 10));
    assert_eq!(
        areas(&ws),
        vec![rect(40, 0, 50, 10), rect(50, 0, 70, 10), rect(10, 0, 40, 10), rect(70, 0, 95, 10)]
    );
}

#[test]
fn fitting_widgets_keep_width_and_do_not_overlap() {
    let mut ws = widgets(&[12, 30, 30, 25, 25, 8, 8]);
    center_widgets(&mut ws, rect(0, 0, 200, 16));
    let got = areas(&ws);
    for (w, r) in ws.iter().zip(got.iter()) {
        assert_eq!(r.width(), w.width);
        assert_eq!(r.height(), 16);
    }
    for i in 0..got.len() {
        for j in 0..got.len() {
            if i != j {
                assert!(!overlaps(&got[i], &got[j]));
            }
        }
    }
}

#[test]
fn overflowing_widgets_scale_by_truncated_ratio() {
    let mut ws = widgets(&[200, 150, 100]);
    center_widgets(&mut ws, rect(0, 0, 300, 20));
    let got = areas(&ws);
    // 300 / 450 truncates to zero
    assert!(got.iter().all(|r| r.width() == 0 && r.height() == 20));
    let total: u32 = got.iter().map(|r| r.width()).sum();
    assert!(total < 300);
}

#[test]
fn no_widgets_is_a_no_op() {
    let mut ws = widgets(&[]);
    center_widgets(&mut ws, rect(0, 0, 300, 20));
    assert!(ws.is_empty());
}

#[test]
fn single_widget_is_centered() {
    let mut ws = widgets(&[31]);
    center_widgets(&mut ws, rect(0, 0, 100, 20));
    assert_eq!(areas(&ws), vec![rect(34, 0, 65, 20)]);
}

#[test]
fn zero_width_area() {
    let mut ws = widgets(&[3, 4]);
    center_widgets(&mut ws, rect(5, 0, 5, 20));
    assert_eq!(areas(&ws), vec![rect(5, 0, 5, 20), rect(5, 0, 5, 20)]);
}

#[test]
fn scale_to_fit_cases() {
    let mut fits = vec![10, 20, 30];
    scale_to_fit(&mut fits, 60);
    assert_eq!(fits, vec![10, 20, 30]);
    let mut over = vec![10, 20, 31];
    scale_to_fit(&mut over, 60);
    assert_eq!(over, vec![0, 0, 0]);
    let mut big = vec![u32::MAX, u32::MAX];
    scale_to_fit(&mut big, u32::MAX);
    assert_eq!(big, vec![0, 0]);
}

#[test]
fn center_rects_even_and_odd() {
    assert_eq!(center_rects(&vec![4, 6], rect(0, 0, 20, 2)), vec![rect(6, 0, 10, 2), rect(10, 0, 16, 2)]);
    assert_eq!(center_rects(&vec![], rect(0, 0, 20, 2)), vec![]);
}

#[test]
fn fits_in_halves_checks_each_side() {
    let area = rect(0, 0, 300, 20);
    assert!(fits_in_halves(&vec![50, 80, 50], area));
    // 200 does not fit in the 125 columns left of the center piece
    assert!(!fits_in_halves(&vec![50, 200, 10], area));
    assert!(!fits_in_halves(&vec![301], area));
    assert!(fits_in_halves(&vec![150, 150], area));
    assert!(!fits_in_halves(&vec![151, 100], area));
    assert!(fits_in_halves(&vec![], area));
}
