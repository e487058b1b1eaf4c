//! Built-in display themes: the glyphs a board, a border and a snake are
//! drawn with, and the arithmetic that picks a food glyph and color
//! variant from a food identifier.
//!
//! Theme data is cosmetic: the simulation never reads it. The food
//! variant selection is the one piece of logic here — the identifier's
//! low bits pick a glyph and its high bits pick a color, each by modulo,
//! so every food item keeps a stable look for its whole life.

use vstd::prelude::*;

verus! {

/// The built-in food glyph sets.
#[derive(Clone, Copy, Debug, PartialEq, Eq, Structural)]
pub enum FoodBuiltin {
    Emoji,
    Ascii,
    Star,
    Armenian,
    Greek,
    Retro,
    Braille,
    Math,
    Chess,
}

/// The built-in board themes.
#[derive(Clone, Copy, Debug, PartialEq, Eq, Structural)]
pub enum BoardBuiltin {
    Double,
    Rounded,
    Ascii,
    Classic,
    Empty,
    Retro,
}

/// The built-in snake themes.
#[derive(Clone, Copy, Debug, PartialEq, Eq, Structural)]
pub enum SnakeBuiltin {
    Braille,
    Line,
    Retro,
    Basic,
}

/// The glyphs a border is drawn with.
pub struct BorderTheme {
    pub horizontal: String,
    pub vertical: String,
    pub top_left: String,
    pub top_right: String,
    pub bottom_left: String,
    pub bottom_right: String,
}

/// The board's empty-cell glyph and its border, if it has one.
pub struct BoardTheme {
    pub border: Option<BorderTheme>,
    pub empty: String,
}

/// The glyphs each snake shape is drawn with.
pub struct SnakeTheme {
    pub head_up: String,
    pub head_down: String,
    pub head_left: String,
    pub head_right: String,
    pub tail_up: String,
    pub tail_down: String,
    pub tail_left: String,
    pub tail_right: String,
    pub body_vertical: String,
    pub body_horizontal: String,
    pub body_up_right: String,
    pub body_down_right: String,
    pub body_up_left: String,
    pub body_down_left: String,
}

/// The index into a food theme's glyph list for identifier `id`: the
/// identifier's low sixteen bits, modulo the list length.
pub fn food_glyph_index(id: usize, glyph_count: usize) -> (r: usize)
    requires
        glyph_count > 0,
    ensures
        r == (id & 0xFFFF) % glyph_count,
        r < glyph_count,
{
    (id & 0xFFFF) % glyph_count
}

/// The index into a food theme's color list for identifier `id`: the
/// identifier's bits above the sixteenth, modulo the list length.
pub fn food_color_index(id: usize, color_count: usize) -> (r: usize)
    requires
        color_count > 0,
    ensures
        r == (id >> 16) % color_count,
        r < color_count,
{
    (id >> 16) % color_count
}

impl BoardTheme {
    /// The board theme each built-in name stands for.
    pub fn from_builtin(builtin: BoardBuiltin) -> (r: BoardTheme)
        ensures
            (match builtin {
                BoardBuiltin::Double => r.border matches Some(b) && b.horizontal@ == "═"@
                    && b.vertical@ == "║"@ && b.top_left@ == "╔"@ && b.top_right@ == "╗"@
                    && b.bottom_left@ == "╚"@ && b.bottom_right@ == "╝"@ && r.empty@ == "  "@,
                BoardBuiltin::Rounded => r.border matches Some(b) && b.horizontal@ == "─"@
                    && b.vertical@ == "│"@ && b.top_left@ == "╭"@ && b.top_right@ == "╮"@
                    && b.bottom_left@ == "╰"@ && b.bottom_right@ == "╯"@ && r.empty@ == "  "@,
                BoardBuiltin::Ascii => r.border matches Some(b) && b.horizontal@ == "-"@
                    && b.vertical@ == "|"@ && b.top_left@ == "*"@ && b.top_right@ == "*"@
                    && b.bottom_left@ == "*"@ && b.bottom_right@ == "*"@ && r.empty@ == "  "@,
                BoardBuiltin::Classic => r.border is None && r.empty@ == "` "@,
                BoardBuiltin::Empty => r.border is None && r.empty@ == "  "@,
                BoardBuiltin::Retro => r.border is None && r.empty@ == "░░"@,
            }),
    {
        match builtin {
            BoardBuiltin::Double => BoardTheme {
                border: Some(
                    BorderTheme {
                        horizontal: "═".to_owned(),
                        vertical: "║".to_owned(),
                        top_left: "╔".to_owned(),
                        top_right: "╗".to_owned(),
                        bottom_left: "╚".to_owned(),
                        bottom_right: "╝".to_owned(),
                    },
                ),
                empty: "  ".to_owned(),
            },
            BoardBuiltin::Rounded => BoardTheme {
                border: Some(
                    BorderTheme {
                        horizontal: "─".to_owned(),
                        vertical: "│".to_owned(),
                        top_left: "╭".to_owned(),
                        top_right: "╮".to_owned(),
                        bottom_left: "╰".to_owned(),
                        bottom_right: "╯".to_owned(),
                    },
                ),
                empty: "  ".to_owned(),
            },
            BoardBuiltin::Ascii => BoardTheme {
                border: Some(
                    BorderTheme {
                        horizontal: "-".to_owned(),
                        vertical: "|".to_owned(),
                        top_left: "*".to_owned(),
                        top_right: "*".to_owned(),
                        bottom_left: "*".to_owned(),
                        bottom_right: "*".to_owned(),
                    },
                ),
                empty: "  ".to_owned(),
            },
            BoardBuiltin::Classic => BoardTheme { border: None, empty: "` ".to_owned() },
            BoardBuiltin::Empty => BoardTheme { border: None, empty: "  ".to_owned() },
            BoardBuiltin::Retro => BoardTheme { border: None, empty: "░░".to_owned() },
        }
    }
}

impl SnakeTheme {
    /// The snake theme each built-in name stands for.
    pub fn from_builtin(builtin: SnakeBuiltin) -> (r: SnakeTheme)
        ensures
            (match builtin {
                SnakeBuiltin::Braille => r.head_up@ == "⢰⡆"@ && r.head_down@ == "⠸⠇"@
                    && r.head_left@ == "⠰⠶"@ && r.head_right@ == "⠶⠆"@ && r.tail_up@ == "⢰⡀"@
                    && r.tail_down@ == "⠈⠇"@ && r.tail_left@ == "⠠⠴"@ && r.tail_right@ == "⠖⠂"@
                    && r.body_vertical@ == "⢸⡇"@ && r.body_horizontal@ == "⠶⠶"@
                    && r.body_up_right@ == "⢶⡆"@ && r.body_down_right@ == "⠾⠇"@
                    && r.body_up_left@ == "⢰⡶"@ && r.body_down_left@ == "⠸⠷"@,
                SnakeBuiltin::Line => r.head_up@ == "╻ "@ && r.head_down@ == "╹ "@
                    && r.head_left@ == " ━"@ && r.head_right@ == "━ "@ && r.tail_up@ == "╻ "@
                    && r.tail_down@ == "╹ "@ && r.tail_left@ == " ━"@ && r.tail_right@ == "━ "@
                    && r.body_vertical@ == "┃ "@ && r.body_horizontal@ == "━━"@
                    && r.body_up_right@ == "┓ "@ && r.body_down_right@ == "┛ "@
                    && r.body_up_left@ == "┏━"@ && r.body_down_left@ == "┗━"@,
                SnakeBuiltin::Basic => r.head_up@ == "[]"@ && r.head_down@ == "[]"@
                    && r.head_left@ == "[]"@ && r.head_right@ == "[]"@ && r.tail_up@ == "[]"@
                    && r.tail_down@ == "[]"@ && r.tail_left@ == "[]"@ && r.tail_right@ == "[]"@
                    && r.body_vertical@ == "[]"@ && r.body_horizontal@ == "[]"@
                    && r.body_up_right@ == "[]"@ && r.body_down_right@ == "[]"@
                    && r.body_up_left@ == "[]"@ && r.body_down_left@ == "[]"@,
                SnakeBuiltin::Retro => r.head_up@ == "██"@ && r.head_down@ == "██"@
                    && r.head_left@ == "██"@ && r.head_right@ == "██"@ && r.tail_up@ == "██"@
                    && r.tail_down@ == "██"@ && r.tail_left@ == "██"@ && r.tail_right@ == "██"@
                    && r.body_vertical@ == "██"@ && r.body_horizontal@ == "██"@
                    && r.body_up_right@ == "██"@ && r.body_down_right@ == "██"@
                    && r.body_up_left@ == "██"@ && r.body_down_left@ == "██"@,
            }),
    {
        match builtin {
            SnakeBuiltin::Braille => SnakeTheme {
                head_up: "⢰⡆".to_owned(),
                head_down: "⠸⠇".to_owned(),
                head_left: "⠰⠶".to_owned(),
                head_right: "⠶⠆".to_owned(),
                tail_up: "⢰⡀".to_owned(),
                tail_down: "⠈⠇".to_owned(),
                tail_left: "⠠⠴".to_owned(),
                tail_right: "⠖⠂".to_owned(),
                body_vertical: "⢸⡇".to_owned(),
                body_horizontal: "⠶⠶".to_owned(),
                body_up_right: "⢶⡆".to_owned(),
                body_down_right: "⠾⠇".to_owned(),
                body_up_left: "⢰⡶".to_owned(),
                body_down_left: "⠸⠷".to_owned(),
            },
            SnakeBuiltin::Line => SnakeTheme {
                head_up: "╻ ".to_owned(),
                head_down: "╹ ".to_owned(),
                head_left: " ━".to_owned(),
                head_right: "━ ".to_owned(),
                tail_up: "╻ ".to_owned(),
                tail_down: "╹ ".to_owned(),
                tail_left: " ━".to_owned(),
                tail_right: "━ ".to_owned(),
                body_vertical: "┃ ".to_owned(),
                body_horizontal: "━━".to_owned(),
                body_up_right: "┓ ".to_owned(),
                body_down_right: "┛ ".to_owned(),
                body_up_left: "┏━".to_owned(),
                body_down_left: "┗━".to_owned(),
            },
            SnakeBuiltin::Basic => SnakeTheme {
                head_up: "[]".to_owned(),
                head_down: "[]".to_owned(),
                head_left: "[]".to_owned(),
                head_right: "[]".to_owned(),
                tail_up: "[]".to_owned(),
                tail_down: "[]".to_owned(),
                tail_left: "[]".to_owned(),
                tail_right: "[]".to_owned(),
                body_vertical: "[]".to_owned(),
                body_horizontal: "[]".to_owned(),
                body_up_right: "[]".to_owned(),
                body_down_right: "[]".to_owned(),
                body_up_left: "[]".to_owned(),
                body_down_left: "[]".to_owned(),
            },
            SnakeBuiltin::Retro => SnakeTheme {
                head_up: "██".to_owned(),
                head_down: "██".to_owned(),
                head_left: "██".to_owned(),
                head_right: "██".to_owned(),
                tail_up: "██".to_owned(),
                tail_down: "██".to_owned(),
                tail_left: "██".to_owned(),
                tail_right: "██".to_owned(),
                body_vertical: "██".to_owned(),
                body_horizontal: "██".to_owned(),
                body_up_right: "██".to_owned(),
                body_down_right: "██".to_owned(),
                body_up_left: "██".to_owned(),
                body_down_left: "██".to_owned(),
            },
        }
    }
}

} // verus!
