use dice_roller::cup::DiceCup;
use dice_roller::face::Pips;
use dice_roller::render::Renderer;

#[test]
fn test_as_array_exact_glyphs() {
    let three = Pips::Three.as_array();
    assert_eq!(
        three,
        [
            "┌─────────┐",
            "│ ●       │",
            "│    ●    │",
            "│       ● │",
            "└─────────┘",
        ]
    );
    let one = Pips::One.as_array();
    assert_eq!(one[2], "│    ●    │");
    let six = Pips::Six.as_array();
    assert_eq!(six[1], "│ ●     ● │");
    assert_eq!(six[2], "│ ●     ● │");
    assert_eq!(six[3], "│ ●     ● │");
}

#[test]
fn test_as_array_fixed_width() {
    let faces = [Pips::One, Pips::Two, Pips::Three, Pips::Four, Pips::Five, Pips::Six];
    for f in faces {
        let glyph = f.as_array();
        assert_eq!(glyph.len(), 5);
        for line in glyph {
            assert_eq!(line.chars().count(), 11);
        }
    }
}

#[test]
fn test_render_empty_cup_five_blank_lines() {
    let cup = DiceCup::new();
    let rows = cup.render();
    assert_eq!(rows.len(), 5);
    for row in &rows {
        assert_eq!(row, "");
    }
}

#[test]
fn test_render_two_default_dice() {
    let mut cup = DiceCup::new();
    cup.fill_cup(2);
    let rows = cup.render();
    assert_eq!(rows.len(), 5);
    assert_eq!(rows[0], "  ┌─────────┐  ┌─────────┐");
    assert_eq!(rows[1], "  │         │  │         │");
    assert_eq!(rows[2], "  │    ●    │  │    ●    │");
    assert_eq!(rows[3], "  │         │  │         │");
    assert_eq!(rows[4], "  └─────────┘  └─────────┘");
}

#[test]
fn test_renderer_cursor_bookkeeping() {
    let mut r = Renderer::new();
    assert_eq!(r.lines_drawn, 0);
    let up1 = r.prepare_frame(5);
    assert_eq!(up1, 0);
    let up2 = r.prepare_frame(5);
    assert_eq!(up2, 5);
    r.end_frame();
    let up3 = r.prepare_frame(5);
    assert_eq!(up3, 0);
}
