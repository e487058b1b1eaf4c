//! The tile deriver: turns the snake's linear body and the food list into
//! a grid of directional shape codes for the renderer.
//!
//! Every interior body element looks at its two neighbors; the pair of
//! adjacency directions selects a straight or corner shape. The head's
//! shape follows the current movement direction alone, the tail's the
//! direction from its predecessor. Food cells carry the item's identifier
//! so the renderer can pick a glyph and color variant.

use crate::game::{
    cell_occupied, food_at, spec_compare, wf, Coords, Dir, GameState, GameView,
};
use vstd::prelude::*;

verus! {

/// The shape code a board cell is rendered with.
#[derive(Clone, Copy, Debug, PartialEq, Eq, Structural)]
pub enum FieldCell {
    Empty,
    /// Stores the identifier of the food item on the cell.
    Food(usize),
    HeadUp,
    HeadDown,
    HeadLeft,
    HeadRight,
    TailUp,
    TailDown,
    TailLeft,
    TailRight,
    BodyVertical,
    BodyHorizontal,
    BodyUpRight,
    BodyDownRight,
    BodyUpLeft,
    BodyDownLeft,
}

/// The head shape looking in direction `dir`.
pub open spec fn head_shape(dir: Dir) -> FieldCell {
    match dir {
        Dir::Up => FieldCell::HeadUp,
        Dir::Down => FieldCell::HeadDown,
        Dir::Left => FieldCell::HeadLeft,
        Dir::Right => FieldCell::HeadRight,
    }
}

/// The tail shape looking in direction `dir`.
pub open spec fn tail_shape(dir: Dir) -> FieldCell {
    match dir {
        Dir::Up => FieldCell::TailUp,
        Dir::Down => FieldCell::TailDown,
        Dir::Left => FieldCell::TailLeft,
        Dir::Right => FieldCell::TailRight,
    }
}

/// The body shape of a cell whose neighbors lie toward `d1` and `d2`:
/// opposite pairs give a straight piece, perpendicular pairs the matching
/// corner, in either order.
pub open spec fn body_shape(d1: Dir, d2: Dir) -> FieldCell {
    match (d1, d2) {
        (Dir::Down, Dir::Up) | (Dir::Up, Dir::Down) => FieldCell::BodyVertical,
        (Dir::Right, Dir::Left) | (Dir::Left, Dir::Right) => FieldCell::BodyHorizontal,
        (Dir::Up, Dir::Left) | (Dir::Left, Dir::Up) => FieldCell::BodyUpLeft,
        (Dir::Down, Dir::Left) | (Dir::Left, Dir::Down) => FieldCell::BodyDownLeft,
        (Dir::Up, Dir::Right) | (Dir::Right, Dir::Up) => FieldCell::BodyUpRight,
        (Dir::Down, Dir::Right) | (Dir::Right, Dir::Down) => FieldCell::BodyDownRight,
        _ => FieldCell::BodyHorizontal,
    }
}

impl FieldCell {
    /// Head that looks to `dir`.
    pub fn head_from(dir: Dir) -> (r: FieldCell)
        ensures
            r == head_shape(dir),
    {
        match dir {
            Dir::Up => FieldCell::HeadUp,
            Dir::Down => FieldCell::HeadDown,
            Dir::Left => FieldCell::HeadLeft,
            Dir::Right => FieldCell::HeadRight,
        }
    }

    /// Tail that looks to `dir`.
    pub fn tail_from(dir: Dir) -> (r: FieldCell)
        ensures
            r == tail_shape(dir),
    {
        match dir {
            Dir::Up => FieldCell::TailUp,
            Dir::Down => FieldCell::TailDown,
            Dir::Left => FieldCell::TailLeft,
            Dir::Right => FieldCell::TailRight,
        }
    }

    /// Body which has another body part to `dir1` and `dir2` from itself.
    pub fn body_from(dir1: Dir, dir2: Dir) -> (r: FieldCell)
        ensures
            r == body_shape(dir1, dir2),
    {
        match (dir1, dir2) {
            (Dir::Down, Dir::Up) | (Dir::Up, Dir::Down) => FieldCell::BodyVertical,
            (Dir::Right, Dir::Left) | (Dir::Left, Dir::Right) => FieldCell::BodyHorizontal,
            (Dir::Up, Dir::Left) | (Dir::Left, Dir::Up) => FieldCell::BodyUpLeft,
            (Dir::Down, Dir::Left) | (Dir::Left, Dir::Down) => FieldCell::BodyDownLeft,
            (Dir::Up, Dir::Right) | (Dir::Right, Dir::Up) => FieldCell::BodyUpRight,
            (Dir::Down, Dir::Right) | (Dir::Right, Dir::Down) => FieldCell::BodyDownRight,
            _ => FieldCell::BodyHorizontal,
        }
    }
}

/// The derived screen: a two-dimensional `ndarray` buffer of shape
/// codes. The array type's own declaration is out of the verifier's
/// reach (its trait bounds cannot be restated here), so the buffer sits
/// behind this opaque struct and is spoken of only through `grid_dims`
/// and `grid_cells` and the wrappers below.
#[verifier::external_body]
pub struct Screen {
    cells: ndarray::Array2<FieldCell>,
}

/// The shape of the screen buffer, as `(rows, cols)`.
pub uninterp spec fn grid_dims(g: Screen) -> (int, int);

/// A grid content map holding `elem` on every cell of a `rows` by `cols`
/// board.
pub open spec fn const_grid(rows: usize, cols: usize, elem: FieldCell) -> Map<(int, int), FieldCell> {
    Map::<(int, int), FieldCell>::new(
        |p: (int, int)| 0 <= p.0 < rows && 0 <= p.1 < cols,
        |p: (int, int)| elem,
    )
}

/// What the screen buffer holds: the shape code of each `(row, col)` cell.
pub uninterp spec fn grid_cells(g: Screen) -> Map<(int, int), FieldCell>;

/// Relies on `ndarray::ArrayBase::from_elem`: builds a fresh `rows` by
/// `cols` array with every element the given one. The element count must
/// not overflow `isize`, which `from_elem` would refuse with a panic.
#[verifier::external_body]
fn grid_from_elem(rows: usize, cols: usize, elem: FieldCell) -> (g: Screen)
    requires
        rows * cols <= isize::MAX,
    ensures
        grid_dims(g).0 == rows as int,
        grid_dims(g).1 == cols as int,
        grid_cells(g) == const_grid(rows, cols, elem),
{
    Screen { cells: ndarray::Array2::from_elem([rows, cols], elem) }
}

/// Relies on `ndarray`'s `IndexMut` impl for `ArrayBase`: writes the
/// element at `[row, col]`, in bounds by the precondition.
#[verifier::external_body]
fn grid_set(g: &mut Screen, row: usize, col: usize, v: FieldCell)
    requires
        0 <= row < grid_dims(*old(g)).0,
        0 <= col < grid_dims(*old(g)).1,
    ensures
        grid_dims(*final(g)) == grid_dims(*old(g)),
        grid_cells(*final(g)) == grid_cells(*old(g)).insert((row as int, col as int), v),
{
    g.cells[[row, col]] = v;
}

/// Relies on `ndarray`'s `Index` impl for `ArrayBase`: reads the element
/// at `[row, col]`, in bounds by the precondition.
#[verifier::external_body]
fn grid_get(g: &Screen, row: usize, col: usize) -> (r: FieldCell)
    requires
        0 <= row < grid_dims(*g).0,
        0 <= col < grid_dims(*g).1,
        grid_cells(*g).dom().contains((row as int, col as int)),
    ensures
        r == grid_cells(*g)[(row as int, col as int)],
{
    g.cells[[row, col]]
}

/// The shape the `i`-th snake element is drawn with: the head follows the
/// movement direction, the tail the direction from its predecessor, and
/// every interior element the directions toward both neighbors.
pub open spec fn snake_shape_at(v: GameView, i: int) -> FieldCell
    recommends
        0 <= i < v.snake.len(),
{
    let w = v.conf.width;
    let h = v.conf.height;
    if i == 0 {
        head_shape(v.dir)
    } else if i == v.snake.len() - 1 {
        tail_shape(spec_compare(v.snake[i], v.snake[i - 1], w, h))
    } else {
        body_shape(
            spec_compare(v.snake[i], v.snake[i - 1], w, h),
            spec_compare(v.snake[i], v.snake[i + 1], w, h),
        )
    }
}

/// What the derived screen holds, cell by cell: the settled state has
/// food and snake on disjoint cells, every food cell carries the item's
/// identifier, every snake cell its shape, and every other cell is empty.
pub open spec fn derived_grid_ok(v: GameView, cells: Map<(int, int), FieldCell>) -> bool {
    let w = v.conf.width;
    let h = v.conf.height;
    &&& forall|p: (int, int)| cells.dom().contains(p) <==> (0 <= p.0 < h && 0 <= p.1 < w)
    &&& forall|i: int|
        0 <= i < v.food.len() ==> cells[((#[trigger] v.food[i]).pos.y as int, v.food[i].pos.x as int)]
            == FieldCell::Food(v.food[i].id)
    &&& forall|i: int|
        0 <= i < v.snake.len() && !food_at(v.food, #[trigger] v.snake[i]) ==> cells[(
            v.snake[i].y as int,
            v.snake[i].x as int,
        )] == snake_shape_at(v, i)
    &&& forall|p: (int, int)|
        #![trigger cells[p]]
        0 <= p.0 < h && 0 <= p.1 < w && !cell_occupied(
            v.snake,
            v.food,
            Coords { x: p.1 as usize, y: p.0 as usize },
        ) ==> cells[p] == FieldCell::Empty
}

/// Reads one cell of a derived screen.
pub fn cell_at(g: &Screen, row: usize, col: usize) -> (r: FieldCell)
    requires
        0 <= row < grid_dims(*g).0,
        0 <= col < grid_dims(*g).1,
        grid_cells(*g).dom().contains((row as int, col as int)),
    ensures
        r == grid_cells(*g)[(row as int, col as int)],
{
    grid_get(g, row, col)
}

/// Derives the screen grid for the current state: a `height` by `width`
/// array of shape codes as `derived_grid_ok` describes. Handles a snake
/// of length one (head and tail coincide) and length two (no interior
/// elements). The cell count must fit `isize`, as the buffer's allocation
/// demands.
#[verifier::loop_isolation(false)]
pub fn derive_field(game: &GameState) -> (g: Screen)
    requires
        wf(game@),
        game@.conf.width * game@.conf.height <= isize::MAX,
    ensures
        grid_dims(g) == (game@.conf.height as int, game@.conf.width as int),
        derived_grid_ok(game@, grid_cells(g)),
{
    let ghost v = game@;
    let w = game.width();
    let h = game.height();
    let snake = game.snake_iter();
    let food = game.food();
    proof {
        assert((h as int) * (w as int) == (w as int) * (h as int)) by (nonlinear_arith);
    }
    let mut g = grid_from_elem(h, w, FieldCell::Empty);

    let head = snake[0];
    grid_set(&mut g, head.y, head.x, FieldCell::head_from(game.snake_dir()));
    proof {
        lemma_snake_positions_distinct(v);
    }

    let mut i: usize = 1;
    while i < snake.len()
        invariant
            1 <= i <= v.snake.len(),
            snake@ == v.snake,
            grid_dims(g) == (h as int, w as int),
            forall|p: (int, int)|
                grid_cells(g).dom().contains(p) <==> (0 <= p.0 < h && 0 <= p.1 < w),
            forall|j: int|
                0 <= j < i ==> grid_cells(g)[(
                    (#[trigger] v.snake[j]).y as int,
                    v.snake[j].x as int,
                )] == snake_shape_at(v, j),
            forall|p: (int, int)|
                #![trigger grid_cells(g)[p]]
                0 <= p.0 < h && 0 <= p.1 < w && !snake_prefix_holds(v, i as int, p) ==> grid_cells(
                    g,
                )[p] == FieldCell::Empty,
        decreases v.snake.len() - i,
    {
        let prev = snake[i - 1];
        let curr = snake[i];
        if i + 1 < snake.len() {
            let next = snake[i + 1];
            let d1 = curr.compare(&prev, w, h);
            let d2 = curr.compare(&next, w, h);
            grid_set(&mut g, curr.y, curr.x, FieldCell::body_from(d1, d2));
        } else {
            let d = curr.compare(&prev, w, h);
            grid_set(&mut g, curr.y, curr.x, FieldCell::tail_from(d));
        }
        proof {
            lemma_write_keeps_other_snake_cells(v, i as int);
        }
        i += 1;
    }

    let mut f: usize = 0;
    while f < food.len()
        invariant
            f <= v.food.len(),
            food@ == v.food,
            grid_dims(g) == (h as int, w as int),
            forall|p: (int, int)|
                grid_cells(g).dom().contains(p) <==> (0 <= p.0 < h && 0 <= p.1 < w),
            forall|j: int|
                0 <= j < v.snake.len() ==> grid_cells(g)[(
                    (#[trigger] v.snake[j]).y as int,
                    v.snake[j].x as int,
                )] == snake_shape_at(v, j),
            forall|k: int|
                0 <= k < f ==> grid_cells(g)[(
                    (#[trigger] v.food[k]).pos.y as int,
                    v.food[k].pos.x as int,
                )] == FieldCell::Food(v.food[k].id),
            forall|p: (int, int)|
                #![trigger grid_cells(g)[p]]
                0 <= p.0 < h && 0 <= p.1 < w && !snake_prefix_holds(v, v.snake.len() as int, p)
                    && !food_prefix_holds(v, f as int, p) ==> grid_cells(g)[p] == FieldCell::Empty,
        decreases v.food.len() - f,
    {
        let item = food[f];
        grid_set(&mut g, item.pos.y, item.pos.x, FieldCell::Food(item.id));
        proof {
            lemma_food_write_keeps_snake_cells(v, f as int);
        }
        f += 1;
    }

    proof {
        assert forall|p: (int, int)|
            #![trigger grid_cells(g)[p]]
            0 <= p.0 < v.conf.height && 0 <= p.1 < v.conf.width && !cell_occupied(
                v.snake,
                v.food,
                Coords { x: p.1 as usize, y: p.0 as usize },
            ) implies grid_cells(g)[p] == FieldCell::Empty by {
            let c = Coords { x: p.1 as usize, y: p.0 as usize };
            assert(!snake_prefix_holds(v, v.snake.len() as int, p)) by {
                if snake_prefix_holds(v, v.snake.len() as int, p) {
                    let j = choose|j: int|
                        0 <= j < v.snake.len() && ((#[trigger] v.snake[j]).y as int,
                        v.snake[j].x as int) == p;
                    assert(v.snake[j] == c);
                    assert(v.snake.contains(c));
                }
            }
            assert(!food_prefix_holds(v, v.food.len() as int, p)) by {
                if food_prefix_holds(v, v.food.len() as int, p) {
                    let k = choose|k: int|
                        0 <= k < v.food.len() && ((#[trigger] v.food[k]).pos.y as int,
                        v.food[k].pos.x as int) == p;
                    assert(v.food[k].pos == c);
                }
            }
        }
    }
    g
}

/// Whether one of the first `n` snake elements sits on grid position `p`.
pub open spec fn snake_prefix_holds(v: GameView, n: int, p: (int, int)) -> bool {
    exists|j: int|
        0 <= j < n && j < v.snake.len() && ((#[trigger] v.snake[j]).y as int, v.snake[j].x as int)
            == p
}

/// Whether one of the first `n` food items sits on grid position `p`.
pub open spec fn food_prefix_holds(v: GameView, n: int, p: (int, int)) -> bool {
    exists|k: int|
        0 <= k < n && k < v.food.len() && ((#[trigger] v.food[k]).pos.y as int,
        v.food[k].pos.x as int) == p
}

/// In a well-formed state, distinct snake elements occupy distinct grid
/// positions.
proof fn lemma_snake_positions_distinct(v: GameView)
    requires
        wf(v),
    ensures
        forall|i: int, j: int|
            0 <= i < v.snake.len() && 0 <= j < v.snake.len() && i != j ==> ((
            #[trigger] v.snake[i]).y as int, v.snake[i].x as int) != ((#[trigger] v.snake[j]).y as int,
            v.snake[j].x as int),
{
    assert forall|i: int, j: int|
        0 <= i < v.snake.len() && 0 <= j < v.snake.len() && i != j implies ((
    #[trigger] v.snake[i]).y as int, v.snake[i].x as int) != ((#[trigger] v.snake[j]).y as int,
    v.snake[j].x as int) by {
        if i < j {
            assert(v.snake[i] != v.snake[j]);
        } else {
            assert(v.snake[j] != v.snake[i]);
        }
    }
}

/// Writing the `i`-th snake cell does not move any other snake cell.
proof fn lemma_write_keeps_other_snake_cells(v: GameView, i: int)
    requires
        wf(v),
        0 <= i < v.snake.len(),
    ensures
        forall|j: int|
            0 <= j < v.snake.len() && j != i ==> ((#[trigger] v.snake[j]).y as int,
            v.snake[j].x as int) != (v.snake[i].y as int, v.snake[i].x as int),
{
    lemma_snake_positions_distinct(v);
}

/// Food never sits on the snake in a well-formed state, so a food write
/// touches no snake cell; distinct food items sit on distinct cells.
proof fn lemma_food_write_keeps_snake_cells(v: GameView, k: int)
    requires
        wf(v),
        0 <= k < v.food.len(),
    ensures
        forall|j: int|
            0 <= j < v.snake.len() ==> ((#[trigger] v.snake[j]).y as int, v.snake[j].x as int) != (
            v.food[k].pos.y as int, v.food[k].pos.x as int),
        forall|k2: int|
            0 <= k2 < v.food.len() && k2 != k ==> ((#[trigger] v.food[k2]).pos.y as int,
            v.food[k2].pos.x as int) != (v.food[k].pos.y as int, v.food[k].pos.x as int),
{
    assert forall|j: int| 0 <= j < v.snake.len() implies ((#[trigger] v.snake[j]).y as int,
    v.snake[j].x as int) != (v.food[k].pos.y as int, v.food[k].pos.x as int) by {
        assert(v.snake.contains(v.snake[j]));
        assert(!v.snake.contains(v.food[k].pos));
    }
    assert forall|k2: int|
        0 <= k2 < v.food.len() && k2 != k implies ((#[trigger] v.food[k2]).pos.y as int,
    v.food[k2].pos.x as int) != (v.food[k].pos.y as int, v.food[k].pos.x as int) by {
        if k2 < k {
            assert(v.food[k2].pos != v.food[k].pos);
        } else {
            assert(v.food[k].pos != v.food[k2].pos);
        }
    }
}

} // verus!
