use statusbar::widget::PositionedWidget;

struct Padded {
    top: u32,
    bottom: u32,
    left: u32,
    right: u32,
}

impl PositionedWidget for Padded {
    fn spec_top_margin(&self) -> u32 {
        self.top
    }
    fn spec_bottom_margin(&self) -> u32 {
        self.bottom
    }
    fn spec_left_margin(&self) -> u32 {
        self.left
    }
    fn spec_right_margin(&self) -> u32 {
        self.right
    }
    fn top_margin(&self) -> u32 {
        self.top
    }
    fn bottom_margin(&self) -> u32 {
        self.bottom
    }
    fn left_margin(&self) -> u32 {
        self.left
    }
    fn right_margin(&self) -> u32 {
        self.right
    }
}

#[test]
fn margins_add_up_per_axis() {
    let p = Padded { top: 3, bottom: 5, left: 7, right: 11 };
    assert_eq!(p.v_margins(), 8);
    assert_eq!(p.h_margins(), 18);
}
