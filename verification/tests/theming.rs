use snek::themes::{
    food_color_index, food_glyph_index, BoardBuiltin, BoardTheme, SnakeBuiltin, SnakeTheme,
};

#[test]
fn glyph_index_uses_the_low_bits_modulo() {
    assert_eq!(food_glyph_index(0, 9), 0);
    assert_eq!(food_glyph_index(7, 9), 7);
    assert_eq!(food_glyph_index(0xFFFF, 9), 0xFFFF % 9);
    // bits above the sixteenth are masked off
    assert_eq!(food_glyph_index(0x30005, 9), 5);
    assert_eq!(food_glyph_index(22, 9), 4);
}

#[test]
fn color_index_uses_the_high_bits_modulo() {
    assert_eq!(food_color_index(0xFFFF, 6), 0);
    assert_eq!(food_color_index(0x30005, 6), 3);
    assert_eq!(food_color_index(0x70000, 6), 1);
}

#[test]
fn rounded_board_theme_matches_its_table() {
    let t = BoardTheme::from_builtin(BoardBuiltin::Rounded);
    let b = t.border.expect("rounded boards have a border");
    assert_eq!(b.horizontal, "─");
    assert_eq!(b.vertical, "│");
    assert_eq!(b.top_left, "╭");
    assert_eq!(b.top_right, "╮");
    assert_eq!(b.bottom_left, "╰");
    assert_eq!(b.bottom_right, "╯");
    assert_eq!(t.empty, "  ");
}

#[test]
fn classic_board_theme_has_no_border() {
    let t = BoardTheme::from_builtin(BoardBuiltin::Classic);
    assert!(t.border.is_none());
    assert_eq!(t.empty, "` ");
}

#[test]
fn basic_snake_theme_is_uniform() {
    let t = SnakeTheme::from_builtin(SnakeBuiltin::Basic);
    for s in [
        &t.head_up,
        &t.head_down,
        &t.head_left,
        &t.head_right,
        &t.tail_up,
        &t.tail_down,
        &t.tail_left,
        &t.tail_right,
        &t.body_vertical,
        &t.body_horizontal,
        &t.body_up_right,
        &t.body_down_right,
        &t.body_up_left,
        &t.body_down_left,
    ] {
        assert_eq!(s, "[]");
    }
}

#[test]
fn braille_snake_theme_distinguishes_orientations() {
    let t = SnakeTheme::from_builtin(SnakeBuiltin::Braille);
    assert_eq!(t.head_up, "⢰⡆");
    assert_eq!(t.body_vertical, "⢸⡇");
    assert_eq!(t.body_horizontal, "⠶⠶");
    assert_eq!(t.tail_right, "⠖⠂");
}
