use vstd::arithmetic::div_mod::{
    lemma_add_mod_noop_right, lemma_mod_multiples_basic, lemma_small_mod,
};
use vstd::pervasive::unreached;
use vstd::prelude::*;

verus! {

/// A movement direction on the grid. One property of the encoding matters
/// to the rules: each direction has an axis (horizontal for `Left`/`Right`,
/// vertical for `Up`/`Down`), and a turn is legal exactly when it crosses
/// axes.
#[derive(Clone, Copy, Debug, PartialEq, Eq, Structural)]
pub enum Dir {
    Left,
    Right,
    Up,
    Down,
}

/// True for `Up` and `Down`, false for `Left` and `Right`.
pub open spec fn vertical_axis(d: Dir) -> bool {
    match d {
        Dir::Left | Dir::Right => false,
        Dir::Up | Dir::Down => true,
    }
}

/// The direction pointing the opposite way.
pub open spec fn opposite(d: Dir) -> Dir {
    match d {
        Dir::Left => Dir::Right,
        Dir::Right => Dir::Left,
        Dir::Up => Dir::Down,
        Dir::Down => Dir::Up,
    }
}

/// Two directions are perpendicular when their axes differ.
pub open spec fn spec_is_perpendicular(a: Dir, b: Dir) -> bool {
    vertical_axis(a) != vertical_axis(b)
}

impl Dir {
    /// True iff `self` and `other` lie on different axes: the only kind of
    /// turn the snake may legally execute.
    pub fn is_perpendicular(self, other: Dir) -> (r: bool)
        ensures
            r == spec_is_perpendicular(self, other),
    {
        let a = match self {
            Dir::Left | Dir::Right => false,
            Dir::Up | Dir::Down => true,
        };
        let b = match other {
            Dir::Left | Dir::Right => false,
            Dir::Up | Dir::Down => true,
        };
        a != b
    }
}

/// No direction is perpendicular to itself or to its opposite, and every
/// axis-crossing pair is perpendicular.
pub proof fn lemma_perpendicular_truth_table(a: Dir, b: Dir)
    ensures
        !spec_is_perpendicular(a, a),
        !spec_is_perpendicular(a, opposite(a)),
        vertical_axis(a) != vertical_axis(b) ==> spec_is_perpendicular(a, b),
{
}

/// A perpendicular turn is never a no-op and never a reversal.
pub proof fn lemma_perpendicular_excludes_reversal(d: Dir, current: Dir)
    requires
        spec_is_perpendicular(d, current),
    ensures
        d != current,
        d != opposite(current),
{
}

/// A cell of the board, with `0 <= x < width` and `0 <= y < height` for any
/// coordinate the simulation holds.
#[derive(Clone, Copy, Debug, PartialEq, Eq, Structural)]
pub struct Coords {
    pub x: usize,
    pub y: usize,
}

/// Whether `c` lies on a `w` by `h` board.
pub open spec fn in_bounds(c: Coords, w: usize, h: usize) -> bool {
    c.x < w && c.y < h
}

/// One step from `c` in direction `dir`, wrapping modulo the board size on
/// the moved axis.
pub open spec fn spec_move_wrapping(c: Coords, dir: Dir, w: usize, h: usize) -> Coords
    recommends
        w > 0,
        h > 0,
{
    match dir {
        Dir::Up => Coords { x: c.x, y: (((c.y + h - 1) % (h as int)) as usize) },
        Dir::Down => Coords { x: c.x, y: (((c.y + 1) % (h as int)) as usize) },
        Dir::Left => Coords { x: (((c.x + w - 1) % (w as int)) as usize), y: c.y },
        Dir::Right => Coords { x: (((c.x + 1) % (w as int)) as usize), y: c.y },
    }
}

/// One step from `c` in direction `dir`, or `None` exactly when the step
/// would leave the `w` by `h` board.
pub open spec fn spec_move_bumping(c: Coords, dir: Dir, w: usize, h: usize) -> Option<Coords>
    recommends
        w > 0,
        h > 0,
{
    match dir {
        Dir::Up => if c.y > 0 {
            Some(Coords { x: c.x, y: (c.y - 1) as usize })
        } else {
            None
        },
        Dir::Down => if c.y < h - 1 {
            Some(Coords { x: c.x, y: (c.y + 1) as usize })
        } else {
            None
        },
        Dir::Left => if c.x > 0 {
            Some(Coords { x: (c.x - 1) as usize, y: c.y })
        } else {
            None
        },
        Dir::Right => if c.x < w - 1 {
            Some(Coords { x: (c.x + 1) as usize, y: c.y })
        } else {
            None
        },
    }
}

/// The direction returned by `Coords::compare`: for `b` adjacent to `a`
/// (including wrap-adjacency at the edges), the direction pointing from `b`
/// toward `a`. The horizontal wrap cases are examined before the plain
/// horizontal comparison, then the vertical wrap cases, then the plain
/// vertical comparison.
pub open spec fn spec_compare(a: Coords, b: Coords, w: usize, h: usize) -> Dir
    recommends
        w > 0,
        h > 0,
        a != b,
{
    if a.x == 0 && b.x == w - 1 {
        Dir::Right
    } else if a.x == w - 1 && b.x == 0 {
        Dir::Left
    } else if a.x > b.x {
        Dir::Right
    } else if a.x < b.x {
        Dir::Left
    } else if a.y == 0 && b.y == h - 1 {
        Dir::Down
    } else if a.y == h - 1 && b.y == 0 {
        Dir::Up
    } else if a.y > b.y {
        Dir::Down
    } else {
        Dir::Up
    }
}

impl Coords {
    /// Moves the point one cell in `dir`, wrapping on a `w` by `h` board.
    /// Total: every in-bounds coordinate has an in-bounds successor.
    pub fn move_wrapping(self, dir: Dir, w: usize, h: usize) -> (r: Coords)
        requires
            w > 0,
            h > 0,
            in_bounds(self, w, h),
        ensures
            r == spec_move_wrapping(self, dir, w, h),
            in_bounds(r, w, h),
    {
        match dir {
            Dir::Up => if self.y == 0 {
                proof { lemma_small_mod((h - 1) as nat, h as nat); }
                Coords { x: self.x, y: h - 1 }
            } else {
                proof {
                    vstd::arithmetic::div_mod::lemma_mod_add_multiples_vanish(self.y - 1, h as int);
                    lemma_small_mod((self.y - 1) as nat, h as nat);
                }
                Coords { x: self.x, y: self.y - 1 }
            },
            Dir::Down => if self.y == h - 1 {
                proof { lemma_mod_multiples_basic(1, h as int); }
                Coords { x: self.x, y: 0 }
            } else {
                proof { lemma_small_mod((self.y + 1) as nat, h as nat); }
                Coords { x: self.x, y: self.y + 1 }
            },
            Dir::Left => if self.x == 0 {
                proof { lemma_small_mod((w - 1) as nat, w as nat); }
                Coords { x: w - 1, y: self.y }
            } else {
                proof {
                    vstd::arithmetic::div_mod::lemma_mod_add_multiples_vanish(self.x - 1, w as int);
                    lemma_small_mod((self.x - 1) as nat, w as nat);
                }
                Coords { x: self.x - 1, y: self.y }
            },
            Dir::Right => if self.x == w - 1 {
                proof { lemma_mod_multiples_basic(1, w as int); }
                Coords { x: 0, y: self.y }
            } else {
                proof { lemma_small_mod((self.x + 1) as nat, w as nat); }
                Coords { x: self.x + 1, y: self.y }
            },
        }
    }

    /// Moves the point one cell in `dir`, returning `None` exactly when the
    /// result would leave the `w` by `h` board: a wall collision.
    pub fn move_bumping(self, dir: Dir, w: usize, h: usize) -> (r: Option<Coords>)
        requires
            w > 0,
            h > 0,
            in_bounds(self, w, h),
        ensures
            r == spec_move_bumping(self, dir, w, h),
            r is None <==> match dir {
                Dir::Up => self.y == 0,
                Dir::Down => self.y == h - 1,
                Dir::Left => self.x == 0,
                Dir::Right => self.x == w - 1,
            },
            r is Some ==> in_bounds(r->0, w, h),
    {
        match dir {
            Dir::Up => if self.y > 0 {
                Some(Coords { x: self.x, y: self.y - 1 })
            } else {
                None
            },
            Dir::Down => if self.y < h - 1 {
                Some(Coords { x: self.x, y: self.y + 1 })
            } else {
                None
            },
            Dir::Left => if self.x > 0 {
                Some(Coords { x: self.x - 1, y: self.y })
            } else {
                None
            },
            Dir::Right => if self.x < w - 1 {
                Some(Coords { x: self.x + 1, y: self.y })
            } else {
                None
            },
        }
    }

    /// Relates two adjacent cells on a `w` by `h` board, wrapping around the
    /// edges: returns the direction pointing from `other` toward `self`.
    /// Calling this on two equal coordinates is a contract violation.
    pub fn compare(&self, other: &Coords, w: usize, h: usize) -> (r: Dir)
        requires
            w > 0,
            h > 0,
            in_bounds(*self, w, h),
            in_bounds(*other, w, h),
            *self != *other,
        ensures
            r == spec_compare(*self, *other, w, h),
    {
        if self.x == 0 && other.x == w - 1 {
            Dir::Right
        } else if self.x == w - 1 && other.x == 0 {
            Dir::Left
        } else if self.x > other.x {
            Dir::Right
        } else if self.x < other.x {
            Dir::Left
        } else if self.y == 0 && other.y == h - 1 {
            Dir::Down
        } else if self.y == h - 1 && other.y == 0 {
            Dir::Up
        } else if self.y > other.y {
            Dir::Down
        } else if self.y < other.y {
            Dir::Up
        } else {
            // the two coordinates would have to be equal
            unreached()
        }
    }
}

/// Iterates `spec_move_wrapping` `n` times in the same direction.
pub open spec fn spec_move_wrapping_n(c: Coords, dir: Dir, w: usize, h: usize, n: nat) -> Coords
    decreases n,
{
    if n == 0 {
        c
    } else {
        spec_move_wrapping(spec_move_wrapping_n(c, dir, w, h, (n - 1) as nat), dir, w, h)
    }
}

/// After `n` wrapping steps in one direction, the moved coordinate equals
/// the start plus `n` times the per-step offset, modulo the axis length.
proof fn lemma_move_wrapping_n_closed_form(c: Coords, dir: Dir, w: usize, h: usize, n: nat)
    requires
        w > 0,
        h > 0,
        in_bounds(c, w, h),
    ensures
        in_bounds(spec_move_wrapping_n(c, dir, w, h, n), w, h),
        vertical_axis(dir) ==> spec_move_wrapping_n(c, dir, w, h, n).x == c.x,
        !vertical_axis(dir) ==> spec_move_wrapping_n(c, dir, w, h, n).y == c.y,
        spec_move_wrapping_n(c, dir, w, h, n) == (match dir {
            Dir::Up => Coords { x: c.x, y: (((c.y + n * ((h - 1) as int)) % (h as int)) as usize) },
            Dir::Down => Coords { x: c.x, y: (((c.y + n) % (h as int)) as usize) },
            Dir::Left => Coords { x: (((c.x + n * ((w - 1) as int)) % (w as int)) as usize), y: c.y },
            Dir::Right => Coords { x: (((c.x + n) % (w as int)) as usize), y: c.y },
        }),
    decreases n,
{
    let m: int = if vertical_axis(dir) { h as int } else { w as int };
    let k: int = match dir {
        Dir::Up => h - 1,
        Dir::Down => 1,
        Dir::Left => w - 1,
        Dir::Right => 1,
    };
    let start: int = if vertical_axis(dir) { c.y as int } else { c.x as int };
    if n == 0 {
        lemma_small_mod(start as nat, m as nat);
        assert(spec_move_wrapping_n(c, dir, w, h, n) == c);
        assert(n * k == 0) by (nonlinear_arith)
            requires
                n == 0,
        ;
        assert((start + n * k) % m == start);
    } else {
        lemma_move_wrapping_n_closed_form(c, dir, w, h, (n - 1) as nat);
        let prev = spec_move_wrapping_n(c, dir, w, h, (n - 1) as nat);
        let prev_pos: int = if vertical_axis(dir) { prev.y as int } else { prev.x as int };
        let x0: int = start + (n - 1) * k;
        vstd::arithmetic::div_mod::lemma_mod_pos_bound(x0, m);
        assert(prev_pos == x0 % m);
        // one more step adds k modulo m
        assert((k + prev_pos) % m == (k + x0) % m) by {
            lemma_add_mod_noop_right(k, x0, m);
        };
        assert(k + (start + (n - 1) * k) == start + n * k) by (nonlinear_arith)
            requires
                n >= 1,
        ;
        vstd::arithmetic::div_mod::lemma_mod_pos_bound(start + n * k, m);
        assert(prev_pos + k == k + prev_pos);
    }
}

/// Round trip: wrapping movement applied `w` times (or `h` times, for a
/// vertical direction) returns to the starting coordinate.
pub proof fn lemma_move_wrapping_round_trip(c: Coords, dir: Dir, w: usize, h: usize)
    requires
        w > 0,
        h > 0,
        in_bounds(c, w, h),
    ensures
        vertical_axis(dir) ==> spec_move_wrapping_n(c, dir, w, h, h as nat) == c,
        !vertical_axis(dir) ==> spec_move_wrapping_n(c, dir, w, h, w as nat) == c,
{
    let m: int = if vertical_axis(dir) { h as int } else { w as int };
    let k: int = match dir {
        Dir::Up => h - 1,
        Dir::Down => 1,
        Dir::Left => w - 1,
        Dir::Right => 1,
    };
    let start: int = if vertical_axis(dir) { c.y as int } else { c.x as int };
    lemma_move_wrapping_n_closed_form(c, dir, w, h, m as nat);
    assert(m * k == k * m) by (nonlinear_arith);
    assert((start + m * k) % m == start % m) by {
        vstd::arithmetic::div_mod::lemma_mod_multiples_vanish(k, start, m);
        assert(k * m + start == start + m * k) by (nonlinear_arith);
    };
    lemma_small_mod(start as nat, m as nat);
}

/// A food item: a cell plus an opaque identifier. The identifier only
/// selects a glyph and color variant for display; the simulation never
/// interprets it.
#[derive(Clone, Copy, Debug, PartialEq, Eq, Structural)]
pub struct Food {
    pub pos: Coords,
    pub id: usize,
}

/// Immutable game parameters. The constructing collaborator validates them
/// before a game is built; the simulation assumes `conf_wf` and does not
/// re-validate.
#[derive(Clone, Copy, Debug, PartialEq, Eq, Structural)]
pub struct GameConf {
    pub food_to_speed_up: u32,
    pub food_n: u32,
    pub initial_speed: u32,
    pub height: usize,
    pub width: usize,
    pub initial_length: usize,
    pub seed: u64,
    pub solid_walls: bool,
}

/// The configuration invariants the simulation relies on. The bound on the
/// cell count keeps every cell index, and the score (which the snake's
/// length mirrors), representable in the machine types that hold them.
pub open spec fn conf_wf(conf: GameConf) -> bool {
    &&& conf.width > 0
    &&& conf.height > 0
    &&& conf.initial_speed > 0
    &&& conf.initial_length > 0
    &&& conf.initial_length <= conf.width
    &&& conf.width * conf.height <= u32::MAX
}

/// Terminal or running state of a game. `Dead` and `Win` are terminal:
/// no further step is meaningful once either is reached.
#[derive(Clone, Copy, Debug, PartialEq, Eq, Structural)]
pub enum GameStatus {
    Win,
    Dead,
    Ongoing,
}

/// The mathematical state of a game: everything `make_step` reads or
/// writes, except the random generator, whose draws are not modelled.
#[verifier::ext_equal]
pub struct GameView {
    pub conf: GameConf,
    pub snake: Seq<Coords>,
    pub dir: Dir,
    pub food: Seq<Food>,
    pub status: GameStatus,
    pub score: u32,
    pub speed: u32,
}

/// Whether some food item occupies cell `c`.
pub open spec fn food_at(food: Seq<Food>, c: Coords) -> bool {
    exists|i: int| 0 <= i < food.len() && food[i].pos == c
}

/// Whether cell `c` is occupied by the snake's body or by a food item.
pub open spec fn cell_occupied(snake: Seq<Coords>, food: Seq<Food>, c: Coords) -> bool {
    snake.contains(c) || food_at(food, c)
}

/// Whether the board still has a cell that neither the snake nor any food
/// occupies.
pub open spec fn has_free_cell(snake: Seq<Coords>, food: Seq<Food>, w: usize, h: usize) -> bool {
    exists|c: Coords| in_bounds(c, w, h) && !cell_occupied(snake, food, c)
}

/// The structural invariants of the board contents: the snake is nonempty,
/// every cell it or the food occupies is on the board, no cell is occupied
/// twice.
pub open spec fn cells_wf(v: GameView) -> bool {
    &&& conf_wf(v.conf)
    &&& v.snake.len() >= 1
    &&& forall|i: int|
        0 <= i < v.snake.len() ==> in_bounds(#[trigger] v.snake[i], v.conf.width, v.conf.height)
    &&& forall|i: int, j: int| 0 <= i < j < v.snake.len() ==> v.snake[i] != v.snake[j]
    &&& forall|i: int|
        0 <= i < v.food.len() ==> in_bounds(
            (#[trigger] v.food[i]).pos,
            v.conf.width,
            v.conf.height,
        )
    &&& forall|i: int, j: int| 0 <= i < j < v.food.len() ==> v.food[i].pos != v.food[j].pos
    &&& forall|i: int| 0 <= i < v.food.len() ==> !v.snake.contains((#[trigger] v.food[i]).pos)
}

/// The speed a game with configuration `conf` runs at after `score` food
/// items: the initial speed plus one per threshold of food eaten, saturated
/// so that an initial speed near the maximum is tolerated. With a zero
/// threshold the speed never changes.
pub open spec fn spec_speed(conf: GameConf, score: u32) -> u32 {
    if conf.food_to_speed_up == 0 {
        conf.initial_speed
    } else {
        conf.initial_speed.saturating_add(score / conf.food_to_speed_up)
    }
}

/// Full well-formedness of a game state. The speed is determined by score
/// and configuration; while the game has not been lost, the snake's length
/// exceeds its initial length by exactly the score (it grows by one per
/// food item and never shrinks). A `Dead` state is exempt from the length
/// tie because the losing step had already removed the tail cell.
pub open spec fn wf(v: GameView) -> bool {
    &&& cells_wf(v)
    &&& v.speed == spec_speed(v.conf, v.score)
    &&& v.status != GameStatus::Dead ==> v.snake.len() == v.conf.initial_length + v.score
}

/// A running game: configuration, snake (head first), movement direction,
/// active food, status, score, speed, and the seeded generator.
/// Mutated exclusively by `make_step`.
pub struct GameState {
    conf: GameConf,
    snake: std::collections::VecDeque<Coords>,
    snake_dir: Dir,
    food: Vec<Food>,
    status: GameStatus,
    score: u32,
    speed: u32,
    rng: rand::rngs::StdRng,
}

impl View for GameState {
    type V = GameView;

    closed spec fn view(&self) -> GameView {
        GameView {
            conf: self.conf,
            snake: self.snake@,
            dir: self.snake_dir,
            food: self.food@,
            status: self.status,
            score: self.score,
            speed: self.speed,
        }
    }
}

impl GameState {
    /// Board width in cells.
    pub fn width(&self) -> (r: usize)
        ensures
            r == self@.conf.width,
    {
        self.conf.width
    }

    /// Board height in cells.
    pub fn height(&self) -> (r: usize)
        ensures
            r == self@.conf.height,
    {
        self.conf.height
    }

    /// Food items eaten so far.
    pub fn score(&self) -> (r: u32)
        ensures
            r == self@.score,
    {
        self.score
    }

    /// The direction the snake is currently moving in.
    pub fn snake_dir(&self) -> (r: Dir)
        ensures
            r == self@.dir,
    {
        self.snake_dir
    }

    /// Whether the game is still running, lost, or won.
    pub fn status(&self) -> (r: GameStatus)
        ensures
            r == self@.status,
    {
        self.status
    }

    /// The snake's body cells, head first, tail last.
    pub fn snake_iter(&self) -> (r: Vec<Coords>)
        ensures
            r@ == self@.snake,
    {
        let mut out: Vec<Coords> = Vec::new();
        let mut i: usize = 0;
        while i < self.snake.len()
            invariant
                i <= self.snake@.len(),
                out@ == self.snake@.take(i as int),
            decreases self.snake@.len() - i,
        {
            out.push(self.snake[i]);
            proof {
                assert(self.snake@.take(i + 1) == self.snake@.take(i as int).push(self.snake@[i as int]));
            }
            i += 1;
        }
        proof {
            assert(self.snake@.take(self.snake@.len() as int) == self.snake@);
        }
        out
    }

    /// The active food items.
    pub fn food(&self) -> (r: &[Food])
        ensures
            r@ == self@.food,
    {
        self.food.as_slice()
    }

    /// Nanoseconds a frame should last: the simulation advances `speed`
    /// times per second, so each tick is a `speed`-th of a second.
    pub fn expected_frametime(&self) -> (r: u64)
        requires
            wf(self@),
        ensures
            r == 1_000_000_000u64 / (self@.speed as u64),
    {
        1_000_000_000u64 / (self.speed as u64)
    }

    /// Finds a place for a new food item: an unoccupied cell chosen
    /// uniformly among the free cells by a draw from the owned generator,
    /// with an independently drawn identifier. Returns `None` exactly when
    /// the board is full. Only the generator's state changes.
    pub fn find_new_food_place(&mut self) -> (r: Option<Food>)
        requires
            cells_wf(old(self)@),
        ensures
            final(self)@ == old(self)@,
            r is Some <==> has_free_cell(
                old(self)@.snake,
                old(self)@.food,
                old(self)@.conf.width,
                old(self)@.conf.height,
            ),
            r is Some ==> in_bounds(r->0.pos, old(self)@.conf.width, old(self)@.conf.height)
                && !cell_occupied(old(self)@.snake, old(self)@.food, r->0.pos),
    {
        let w = self.conf.width;
        let h = self.conf.height;
        let snake_cells = self.snake_iter();
        proof {
            assert forall|i: int| 0 <= i < snake_cells@.len() implies in_bounds(
                #[trigger] snake_cells@[i],
                w,
                h,
            ) by {
                assert(in_bounds(self@.snake[i], w, h));
            }
            assert forall|i: int| 0 <= i < self.food@.len() implies in_bounds(
                (#[trigger] self.food@[i]).pos,
                w,
                h,
            ) by {
                assert(in_bounds(self@.food[i].pos, w, h));
            }
        }
        let g = crate::sampler::occupancy_grid(&snake_cells, &self.food, w, h);
        let free = crate::sampler::count_free_cells(&g);
        if free == 0 {
            proof {
                crate::sampler::lemma_count_free_zero(g@, g@.len() as int);
                assert forall|c: Coords| in_bounds(c, w, h) implies cell_occupied(
                    self@.snake,
                    self@.food,
                    c,
                ) by {
                    crate::sampler::lemma_cell_index_in_range(c, w, h);
                    let idx = crate::sampler::index_of_cell(c, w);
                    assert(g@[idx] == cell_occupied(
                        snake_cells@,
                        self.food@,
                        crate::sampler::cell_of_index(idx, w),
                    ));
                    assert(g@[idx]);
                    assert(cell_occupied(snake_cells@, self.food@, c));
                }
            }
            return None;
        }
        let k = crate::rng::rng_below(&mut self.rng, free);
        let pos = crate::sampler::nth_free_cell(&g, w, h, k);
        let id = crate::rng::rng_any_id(&mut self.rng);
        proof {
            crate::sampler::lemma_cell_index_in_range(pos, w, h);
        }
        Some(Food { pos, id })
    }
}

/// The snake a fresh game starts with: a horizontal chain of
/// `initial_length` cells on the board's middle row, head first at the
/// right end, ready to move right.
pub open spec fn initial_snake(conf: GameConf) -> Seq<Coords>
    recommends
        conf_wf(conf),
{
    let y = conf.height / 2;
    let head_x = (conf.width - 1) / 2 + conf.initial_length / 2;
    Seq::new(conf.initial_length as nat, |i: int| Coords { x: (head_x - i) as usize, y })
}

/// `(n-1)/2 + n/2 == n-1` for positive `n`: the two integer halves of `n`
/// differ from `n` by exactly one.
proof fn lemma_halves(n: int)
    requires
        n >= 1,
    ensures
        (n - 1) / 2 + n / 2 == n - 1,
{
    vstd::arithmetic::div_mod::lemma_fundamental_div_mod(n, 2);
    vstd::arithmetic::div_mod::lemma_mod_pos_bound(n, 2);
    if n % 2 == 0 {
        vstd::arithmetic::div_mod::lemma_fundamental_div_mod_converse(n - 1, 2, n / 2 - 1, 1);
    } else {
        vstd::arithmetic::div_mod::lemma_fundamental_div_mod_converse(n - 1, 2, n / 2, 0);
    }
}

/// The initial snake spans columns that all fit on the board: its head
/// column is below the width and its tail column is not negative.
proof fn lemma_initial_span(conf: GameConf)
    requires
        conf_wf(conf),
    ensures
        (conf.width - 1) / 2 + conf.initial_length / 2 < conf.width,
        (conf.width - 1) / 2 + conf.initial_length / 2 + 1 >= conf.initial_length,
        conf.height / 2 < conf.height,
{
    let w = conf.width as int;
    let l = conf.initial_length as int;
    lemma_halves(w);
    lemma_halves(l);
    vstd::arithmetic::div_mod::lemma_div_is_ordered(l, w, 2);
    vstd::arithmetic::div_mod::lemma_div_is_ordered(l - 1, w - 1, 2);
    vstd::arithmetic::div_mod::lemma_div_decreases(conf.height as int, 2);
}

impl GameState {
    /// Builds a game from a validated configuration: the snake laid out
    /// horizontally on the middle row heading right, score zero, speed the
    /// initial speed, and `food_n` food items placed on free cells. When
    /// the board fills up before all items are placed, the game is won
    /// immediately.
    pub fn new(conf: GameConf) -> (r: GameState)
        requires
            conf_wf(conf),
        ensures
            r@.conf == conf,
            r@.dir == Dir::Right,
            r@.score == 0,
            r@.speed == conf.initial_speed,
            r@.snake == initial_snake(conf),
            wf(r@),
            r@.status == GameStatus::Ongoing || r@.status == GameStatus::Win,
            r@.status == GameStatus::Ongoing ==> r@.food.len() == conf.food_n,
            r@.status == GameStatus::Win ==> r@.food.len() < conf.food_n && !has_free_cell(
                r@.snake,
                r@.food,
                conf.width,
                conf.height,
            ),
    {
        proof {
            lemma_initial_span(conf);
        }
        let y = conf.height / 2;
        let head_x = (conf.width - 1) / 2 + conf.initial_length / 2;

        let mut snake: std::collections::VecDeque<Coords> = std::collections::VecDeque::new();
        let mut i: usize = 0;
        #[verifier::loop_isolation(false)]
        while i < conf.initial_length
            invariant
                i <= conf.initial_length,
                snake@.len() == i,
                forall|j: int|
                    0 <= j < i ==> #[trigger] snake@[j] == (Coords { x: (head_x - j) as usize, y }),
            decreases conf.initial_length - i,
        {
            snake.push_back(Coords { x: head_x - i, y });
            i += 1;
        }
        proof {
            assert(snake@ =~= initial_snake(conf));
        }

        let mut game = GameState {
            snake,
            snake_dir: Dir::Right,
            food: Vec::new(),
            status: GameStatus::Ongoing,
            score: 0,
            speed: conf.initial_speed,
            rng: crate::rng::rng_from_seed(conf.seed),
            conf,
        };

        let mut placed: u32 = 0;
        #[verifier::loop_isolation(false)]
        while placed < conf.food_n
            invariant
                placed <= conf.food_n,
                game@.conf == conf,
                game@.snake == initial_snake(conf),
                game@.dir == Dir::Right,
                game@.score == 0,
                game@.speed == conf.initial_speed,
                game@.status == GameStatus::Ongoing,
                game@.food.len() == placed,
                cells_wf(game@),
            decreases conf.food_n - placed,
        {
            match game.find_new_food_place() {
                Some(new_food) => {
                    game.food.push(new_food);
                    placed += 1;
                },
                None => {
                    game.status = GameStatus::Win;
                    return game;
                },
            }
        }
        game
    }
}

/// The cell the snake's head would move into this tick, or `None` when a
/// solid wall blocks the move.
pub open spec fn step_candidate(pre: GameView, dir: Dir) -> Option<Coords>
    recommends
        pre.snake.len() >= 1,
{
    if pre.conf.solid_walls {
        spec_move_bumping(pre.snake[0], dir, pre.conf.width, pre.conf.height)
    } else {
        Some(spec_move_wrapping(pre.snake[0], dir, pre.conf.width, pre.conf.height))
    }
}

/// The direction a tick runs in: the pending turn if there is one, else
/// the direction already current.
pub open spec fn applied_dir(pre: GameView, turn: Option<Dir>) -> Dir {
    match turn {
        Some(d) => d,
        None => pre.dir,
    }
}

/// The index of the food item at cell `c`.
pub open spec fn food_index_of(food: Seq<Food>, c: Coords) -> int {
    choose|i: int| 0 <= i < food.len() && (#[trigger] food[i]).pos == c
}

/// How one simulation tick relates the state before to the state after.
///
/// A pending turn replaces the direction first. The head's target cell is
/// then computed under the wall policy: a blocked move is death with no
/// other change. Otherwise the tail cell is vacated before the collision
/// test, so moving into it is legal; hitting any other body cell is death.
/// On a plain move the snake advances with unchanged length. On a food hit
/// the snake grows by one, the item is replaced by a fresh one on some
/// still-free cell — or the game is won when no cell is free — the score
/// rises by one and the speed follows the speed formula.
pub open spec fn step_rel(pre: GameView, post: GameView, turn: Option<Dir>) -> bool {
    let dir = applied_dir(pre, turn);
    let w = pre.conf.width;
    let h = pre.conf.height;
    match step_candidate(pre, dir) {
        None => post == GameView { dir, status: GameStatus::Dead, ..pre },
        Some(c) => {
            let body = pre.snake.drop_last();
            if body.contains(c) {
                post == GameView { dir, snake: body, status: GameStatus::Dead, ..pre }
            } else if food_at(pre.food, c) {
                let grown = seq![c] + pre.snake;
                let remaining = pre.food.remove(food_index_of(pre.food, c));
                &&& post.conf == pre.conf
                &&& post.dir == dir
                &&& post.snake == grown
                &&& post.score == pre.score + 1
                &&& post.speed == spec_speed(pre.conf, post.score)
                &&& if has_free_cell(grown, remaining, w, h) {
                    &&& post.status == GameStatus::Ongoing
                    &&& post.food.len() == remaining.len() + 1
                    &&& post.food.drop_last() == remaining
                    &&& in_bounds(post.food.last().pos, w, h)
                    &&& !cell_occupied(grown, remaining, post.food.last().pos)
                } else {
                    &&& post.status == GameStatus::Win
                    &&& post.food == remaining
                }
            } else {
                post == GameView { dir, snake: seq![c] + pre.snake.drop_last(), ..pre }
            }
        },
    }
}

/// True when the deque holds `c`.
fn deque_contains(dq: &std::collections::VecDeque<Coords>, c: Coords) -> (r: bool)
    ensures
        r == dq@.contains(c),
{
    let mut i: usize = 0;
    while i < dq.len()
        invariant
            i <= dq@.len(),
            forall|j: int| 0 <= j < i ==> dq@[j] != c,
        decreases dq@.len() - i,
    {
        if dq[i] == c {
            return true;
        }
        i += 1;
    }
    false
}

/// The index of the first food item on cell `c`, if any.
fn food_index(food: &Vec<Food>, c: Coords) -> (r: Option<usize>)
    ensures
        match r {
            Some(i) => i < food@.len() && food@[i as int].pos == c,
            None => !food_at(food@, c),
        },
{
    let mut i: usize = 0;
    while i < food.len()
        invariant
            i <= food@.len(),
            forall|j: int| 0 <= j < i ==> (#[trigger] food@[j]).pos != c,
        decreases food@.len() - i,
    {
        if food[i].pos == c {
            return Some(i);
        }
        i += 1;
    }
    None
}

impl GameState {
    /// Advances the simulation by one tick, applying the already-validated
    /// pending turn first. Callable only while the game is ongoing; the
    /// whole transition is `step_rel`.
    pub fn make_step(&mut self, turn: Option<Dir>)
        requires
            wf(old(self)@),
            old(self)@.status == GameStatus::Ongoing,
        ensures
            step_rel(old(self)@, final(self)@, turn),
            wf(final(self)@),
    {
        let ghost pre = self@;
        if let Some(d) = turn {
            self.snake_dir = d;
        }
        let ghost dir = self.snake_dir;
        let w = self.conf.width;
        let h = self.conf.height;
        let head = self.snake[0];

        let cand = if self.conf.solid_walls {
            head.move_bumping(self.snake_dir, w, h)
        } else {
            Some(head.move_wrapping(self.snake_dir, w, h))
        };
        let c = match cand {
            None => {
                self.status = GameStatus::Dead;
                proof {
                    assert(self@ =~= GameView { dir, status: GameStatus::Dead, ..pre });
                }
                return;
            },
            Some(c) => c,
        };

        // vacate the tail cell before the collision test, remembering it
        // in case the snake grows this tick
        let old_tail = match self.snake.pop_back() {
            Some(t) => t,
            None => unreached(),
        };

        if deque_contains(&self.snake, c) {
            self.status = GameStatus::Dead;
            proof {
                assert(pre.snake.drop_last() =~= pre.snake.subrange(0, pre.snake.len() - 1));
                assert(self@ =~= GameView {
                    dir,
                    snake: pre.snake.drop_last(),
                    status: GameStatus::Dead,
                    ..pre
                });
            }
            return;
        }

        self.snake.push_front(c);
        proof {
            assert(pre.snake.drop_last() =~= pre.snake.subrange(0, pre.snake.len() - 1));
            assert(self@.snake =~= seq![c] + pre.snake.drop_last());
        }

        if let Some(i) = food_index(&self.food, c) {
            proof {
                lemma_food_index_unique(pre, c, i as int);
            }
            self.food.remove(i);
            self.snake.push_back(old_tail);
            proof {
                assert(self@.snake =~= seq![c] + pre.snake);
                lemma_grown_snake_wf(pre, c);
                crate::sampler::lemma_distinct_cells_bounded(self@.snake, w, h);
                lemma_removed_food_wf(pre, c, i as int);
            }
            let placed = self.find_new_food_place();
            let ghost mid = self@;
            match placed {
                Some(nf) => self.food.push(nf),
                None => self.status = GameStatus::Win,
            }
            self.score = self.score + 1;
            if self.conf.food_to_speed_up != 0 {
                self.speed = self.conf.initial_speed.saturating_add(
                    self.score / self.conf.food_to_speed_up,
                );
            }
            proof {
                if placed is Some {
                    assert(self@.food.drop_last() =~= mid.food);
                }
            }
        } else {
            proof {
                assert(self@ =~= GameView {
                    dir,
                    snake: seq![c] + pre.snake.drop_last(),
                    ..pre
                });
            }
        }
    }
}

/// Tail-vacancy exemption: when the head's target is the very cell the
/// tail is about to vacate, and no food sits there, the step is an
/// ordinary move and the game stays ongoing.
pub proof fn lemma_tail_cell_is_safe(pre: GameView, post: GameView, turn: Option<Dir>)
    requires
        wf(pre),
        pre.status == GameStatus::Ongoing,
        step_rel(pre, post, turn),
        step_candidate(pre, applied_dir(pre, turn)) == Some(pre.snake.last()),
        !food_at(pre.food, pre.snake.last()),
    ensures
        post.status == GameStatus::Ongoing,
        post.snake == seq![pre.snake.last()] + pre.snake.drop_last(),
        post.food == pre.food,
        post.score == pre.score,
{
    let c = pre.snake.last();
    assert(!pre.snake.drop_last().contains(c)) by {
        if pre.snake.drop_last().contains(c) {
            let i = choose|i: int|
                0 <= i < pre.snake.drop_last().len() && pre.snake.drop_last()[i] == c;
            assert(pre.snake[i] == c);
            assert(pre.snake[pre.snake.len() - 1] == c);
        }
    }
}

/// Moving the head into any body cell other than the vacated tail cell is
/// fatal: the status becomes `Dead` and, beside the already-removed tail,
/// nothing else changes — food, score and speed keep their pre-step values.
pub proof fn lemma_body_collision_is_fatal(
    pre: GameView,
    post: GameView,
    turn: Option<Dir>,
    c: Coords,
)
    requires
        wf(pre),
        pre.status == GameStatus::Ongoing,
        step_rel(pre, post, turn),
        step_candidate(pre, applied_dir(pre, turn)) == Some(c),
        pre.snake.drop_last().contains(c),
    ensures
        post.status == GameStatus::Dead,
        post.snake == pre.snake.drop_last(),
        post.food == pre.food,
        post.score == pre.score,
        post.speed == pre.speed,
{
}

/// Hitting a solid wall is fatal and mutates nothing but the direction and
/// the status.
pub proof fn lemma_wall_collision_is_fatal(pre: GameView, post: GameView, turn: Option<Dir>)
    requires
        wf(pre),
        pre.status == GameStatus::Ongoing,
        step_rel(pre, post, turn),
        step_candidate(pre, applied_dir(pre, turn)) is None,
    ensures
        post.status == GameStatus::Dead,
        post.snake == pre.snake,
        post.food == pre.food,
        post.score == pre.score,
        post.speed == pre.speed,
{
}

/// With exactly one free cell on the board, any cell the placement
/// contract admits is that one cell.
pub proof fn lemma_single_free_cell(
    snake: Seq<Coords>,
    food: Seq<Food>,
    w: usize,
    h: usize,
    only: Coords,
    placed: Coords,
)
    requires
        in_bounds(only, w, h),
        !cell_occupied(snake, food, only),
        forall|c: Coords| in_bounds(c, w, h) && !cell_occupied(snake, food, c) ==> c == only,
        in_bounds(placed, w, h),
        !cell_occupied(snake, food, placed),
    ensures
        placed == only,
{
}

/// The speed formula: in a well-formed state whose score is `n` whole
/// speed-up thresholds, the speed is the initial speed plus `n`,
/// saturating at the largest representable value.
pub proof fn lemma_speed_after_thresholds(v: GameView, n: u32)
    requires
        wf(v),
        v.conf.food_to_speed_up > 0,
        v.score == n * v.conf.food_to_speed_up,
    ensures
        v.speed == v.conf.initial_speed.saturating_add(n),
{
    let t = v.conf.food_to_speed_up as int;
    vstd::arithmetic::div_mod::lemma_div_by_multiple(n as int, t);
    assert(n * t == (n as int) * t) by (nonlinear_arith);
    assert(v.score / v.conf.food_to_speed_up == ((n as int) * t) / t);
}

/// Score and speed never decrease across a step.
pub proof fn lemma_score_and_speed_monotone(pre: GameView, post: GameView, turn: Option<Dir>)
    requires
        wf(pre),
        pre.status == GameStatus::Ongoing,
        step_rel(pre, post, turn),
    ensures
        post.score >= pre.score,
        post.speed >= pre.speed,
{
    let dir = applied_dir(pre, turn);
    match step_candidate(pre, dir) {
        None => {},
        Some(c) => {
            if !pre.snake.drop_last().contains(c) && food_at(pre.food, c) {
                let t = pre.conf.food_to_speed_up;
                if t != 0 {
                    vstd::arithmetic::div_mod::lemma_div_is_ordered(
                        pre.score as int,
                        post.score as int,
                        t as int,
                    );
                }
            }
        },
    }
}

/// With pairwise distinct food positions, the item found on a cell is the
/// item the `choose` in `food_index_of` picks.
proof fn lemma_food_index_unique(pre: GameView, c: Coords, i: int)
    requires
        cells_wf(pre),
        0 <= i < pre.food.len(),
        pre.food[i].pos == c,
    ensures
        food_index_of(pre.food, c) == i,
        food_at(pre.food, c),
{
    assert(food_at(pre.food, c));
    let j = food_index_of(pre.food, c);
    assert(0 <= j < pre.food.len() && pre.food[j].pos == c);
    if i != j {
        if i < j {
            assert(pre.food[i].pos != pre.food[j].pos);
        } else {
            assert(pre.food[j].pos != pre.food[i].pos);
        }
    }
}

/// After a food hit the grown snake is still a chain of distinct in-bounds
/// cells: the head's target was on no body cell, and, being a food cell,
/// not on the tail either.
proof fn lemma_grown_snake_wf(pre: GameView, c: Coords)
    requires
        cells_wf(pre),
        in_bounds(c, pre.conf.width, pre.conf.height),
        !pre.snake.drop_last().contains(c),
        food_at(pre.food, c),
    ensures
        forall|i: int|
            0 <= i < (seq![c] + pre.snake).len() ==> in_bounds(
                #[trigger] (seq![c] + pre.snake)[i],
                pre.conf.width,
                pre.conf.height,
            ),
        forall|i: int, j: int|
            0 <= i < j < (seq![c] + pre.snake).len() ==> (seq![c] + pre.snake)[i] != (seq![c]
                + pre.snake)[j],
{
    let grown = seq![c] + pre.snake;
    assert(!pre.snake.contains(c)) by {
        let fi = choose|i: int| 0 <= i < pre.food.len() && (#[trigger] pre.food[i]).pos == c;
        assert(!pre.snake.contains(pre.food[fi].pos));
    }
    assert forall|i: int, j: int| 0 <= i < j < grown.len() implies grown[i] != grown[j] by {
        if i == 0 {
            assert(grown[j] == pre.snake[j - 1]);
            assert(pre.snake.contains(pre.snake[j - 1]));
        }
    }
}

/// Removing the eaten item keeps the food list well formed, and its
/// remaining cells are disjoint from the grown snake.
proof fn lemma_removed_food_wf(pre: GameView, c: Coords, i: int)
    requires
        cells_wf(pre),
        0 <= i < pre.food.len(),
        pre.food[i].pos == c,
    ensures
        forall|j: int|
            0 <= j < pre.food.remove(i).len() ==> in_bounds(
                (#[trigger] pre.food.remove(i)[j]).pos,
                pre.conf.width,
                pre.conf.height,
            ),
        forall|j: int, k: int|
            0 <= j < k < pre.food.remove(i).len() ==> pre.food.remove(i)[j].pos != pre.food.remove(
                i,
            )[k].pos,
        forall|j: int|
            0 <= j < pre.food.remove(i).len() ==> !(seq![c] + pre.snake).contains(
                (#[trigger] pre.food.remove(i)[j]).pos,
            ),
{
    let rem = pre.food.remove(i);
    assert forall|j: int| 0 <= j < rem.len() implies !(seq![c] + pre.snake).contains(
        (#[trigger] rem[j]).pos,
    ) by {
        let orig = if j < i {
            j
        } else {
            j + 1
        };
        assert(rem[j] == pre.food[orig]);
        assert(!pre.snake.contains(pre.food[orig].pos));
        // the removed cell is not among the remaining ones
        if orig < i {
            assert(pre.food[orig].pos != pre.food[i].pos);
        } else {
            assert(pre.food[i].pos != pre.food[orig].pos);
        }
        assert forall|k: int| 0 <= k < (seq![c] + pre.snake).len() implies (seq![c]
            + pre.snake)[k] != rem[j].pos by {
            if k > 0 {
                assert(pre.snake.contains(pre.snake[k - 1]));
            }
        }
    }
}

} // verus!
