pub mod snake;

use vstd::prelude::*;

use vstd::arithmetic::div_mod::lemma_mod_add_multiples_vanish;
use vstd::arithmetic::div_mod::lemma_mod_bound;
use vstd::arithmetic::div_mod::lemma_mod_self_0;
use vstd::arithmetic::div_mod::lemma_small_mod;

use crate::util::{Direction, Point};
use self::snake::{Snake, Tile};
use std::collections::VecDeque;

verus! {

/// Width of the standard board, in cells.
pub const BOARD_W: i8 = 24;

/// Height of the standard board, in cells.
pub const BOARD_H: i8 = 16;

/// Largest board dimension accepted, chosen so that the wrap arithmetic
/// (coordinate plus dimension) always fits in a coordinate.
pub const COORD_LIMIT: i8 = 63;

/// Board dimensions the library accepts: positive and small enough for the
/// wrap arithmetic.
pub open spec fn valid_bounds(b: Point) -> bool {
    0 < b.x <= COORD_LIMIT && 0 < b.y <= COORD_LIMIT
}

/// Whether a cell lies on a board of dimensions `b`.
pub open spec fn in_bounds(p: Point, b: Point) -> bool {
    0 <= p.x < b.x && 0 <= p.y < b.y
}

/// One unwrapped unit step along the horizontal axis.
pub open spec fn step_x(x: int, d: Direction) -> int {
    match d {
        Direction::Left => x - 1,
        Direction::Right => x + 1,
        _ => x,
    }
}

/// One unwrapped unit step along the vertical axis.
pub open spec fn step_y(y: int, d: Direction) -> int {
    match d {
        Direction::Up => y - 1,
        Direction::Down => y + 1,
        _ => y,
    }
}

/// Toroidal normalization of one coordinate: add the dimension, then take the
/// remainder.
pub open spec fn wrap_coord(v: int, m: int) -> int {
    (v + m) % m
}

/// One full movement step: translate one unit, then wrap onto the board.
pub open spec fn wrapped_step(p: Point, d: Direction, b: Point) -> Point {
    Point {
        x: wrap_coord(step_x(p.x as int, d), b.x as int) as i8,
        y: wrap_coord(step_y(p.y as int, d), b.y as int) as i8,
    }
}

/// A wrapped coordinate lies in `[0, m)`.
pub proof fn lemma_wrap_coord_bound(v: int, m: int)
    requires
        0 < m,
    ensures
        0 <= wrap_coord(v, m) < m,
{
    lemma_mod_bound(v + m, m);
}

/// What the wrap computes on the one step of underflow or overflow that
/// `move_towards` can produce.
proof fn lemma_wrap_coord_cases(v: int, m: int)
    requires
        0 < m,
        -m <= v <= m,
    ensures
        v == m ==> wrap_coord(v, m) == 0,
        0 <= v < m ==> wrap_coord(v, m) == v,
        v < 0 ==> wrap_coord(v, m) == v + m,
{
    if v == m {
        lemma_mod_add_multiples_vanish(m, m);
        lemma_mod_self_0(m);
    } else if 0 <= v {
        lemma_mod_add_multiples_vanish(v, m);
        lemma_small_mod(v as nat, m as nat);
    } else {
        lemma_small_mod((v + m) as nat, m as nat);
    }
}

/// After a unit move and a wrap, every cell lands on the board.
pub proof fn lemma_wrap_in_bounds(p: Point, d: Direction, b: Point)
    requires
        valid_bounds(b),
    ensures
        in_bounds(wrapped_step(p, d, b), b),
{
    lemma_wrap_coord_bound(step_x(p.x as int, d), b.x as int);
    lemma_wrap_coord_bound(step_y(p.y as int, d), b.y as int);
}

/// The cell reached from `p` after `n` wrapped unit steps in direction `d`.
pub open spec fn advance(p: Point, d: Direction, b: Point, n: nat) -> Point
    decreases n,
{
    if n == 0 {
        p
    } else {
        wrapped_step(advance(p, d, b, (n - 1) as nat), d, b)
    }
}

/// The board's center cell, where a fresh creature is anchored.
pub open spec fn board_center(b: Point) -> Point {
    Point { x: (b.x as int / 2) as i8, y: (b.y as int / 2) as i8 }
}

/// Whether some cell of board `b` is not covered by `body`.
pub open spec fn has_free_cell(body: Seq<Point>, b: Point) -> bool {
    exists|p: Point| in_bounds(p, b) && !body.contains(p)
}

/// Relies on rand's `thread_rng` and `Rng::gen_range`: a uniformly
/// distributed value in `[0, max)`; `gen_range` panics only on an empty
/// range, which the precondition rules out.
#[verifier::external_body]
fn rand_below(max: i8) -> (r: i8)
    requires
        0 < max,
    ensures
        0 <= r < max,
{
    rand::Rng::gen_range(&mut rand::thread_rng(), 0..max)
}

impl Point {
    /// A cell with each axis independently uniform over `[0, bound)`.
    pub fn random(max: Point) -> (r: Point)
        requires
            0 < max.x,
            0 < max.y,
        ensures
            in_bounds(r, max),
    {
        Point { x: rand_below(max.x), y: rand_below(max.y) }
    }

    /// Translate this cell by exactly one unit along the given direction,
    /// without wrapping.
    pub fn move_towards(&mut self, direction: Direction)
        requires
            i8::MIN < old(self).x < i8::MAX,
            i8::MIN < old(self).y < i8::MAX,
        ensures
            final(self).x as int == step_x(old(self).x as int, direction),
            final(self).y as int == step_y(old(self).y as int, direction),
    {
        match direction {
            Direction::Up => self.y -= 1,
            Direction::Down => self.y += 1,
            Direction::Left => self.x -= 1,
            Direction::Right => self.x += 1,
        }
    }

    /// Normalize this cell onto a board of dimensions `max`. Handles a single
    /// step of underflow or overflow from `move_towards`, not arbitrary
    /// magnitudes.
    pub fn wrap(&mut self, max: Point)
        requires
            valid_bounds(max),
            -max.x <= old(self).x <= max.x,
            -max.y <= old(self).y <= max.y,
        ensures
            final(self).x as int == wrap_coord(old(self).x as int, max.x as int),
            final(self).y as int == wrap_coord(old(self).y as int, max.y as int),
            in_bounds(*final(self), max),
    {
        proof {
            lemma_wrap_coord_cases(old(self).x as int, max.x as int);
            lemma_wrap_coord_cases(old(self).y as int, max.y as int);
        }
        if self.x >= max.x {
            self.x -= max.x;
        } else if self.x < 0 {
            self.x += max.x;
        }
        if self.y >= max.y {
            self.y -= max.y;
        } else if self.y < 0 {
            self.y += max.y;
        }
    }
}

/// How many cells a fresh creature has.
pub const START_LEN: usize = 3;

/// How many pending inputs the queue holds before further ones are dropped.
pub const INPUT_QUEUE_CAP: usize = 8;

/// Whether play continues or has ended in a self-collision, recording where
/// the creature ran into itself.
#[derive(Clone, Copy, Debug, PartialEq, Eq, Structural)]
pub enum GameState {
    Playing,
    Dead { collision: Point },
}

/// The mathematical state of a simulation: the body head first, the heading,
/// the food cell, the terminal state, the pending inputs oldest first, and
/// the board dimensions.
#[verifier::ext_equal]
pub ghost struct GameView {
    pub body: Seq<Point>,
    pub heading: Direction,
    pub food: Point,
    pub state: GameState,
    pub queue: Seq<Direction>,
    pub bounds: Point,
}

/// A well-formed simulation state: a valid board, a non-empty body on the
/// board, and food on the board.
pub open spec fn wf_view(g: GameView) -> bool {
    &&& valid_bounds(g.bounds)
    &&& g.body.len() >= 1
    &&& forall|i: int| 0 <= i < g.body.len() ==> in_bounds(#[trigger] g.body[i], g.bounds)
    &&& in_bounds(g.food, g.bounds)
}

/// A freshly constructed game on board `b`: playing, heading right, a
/// three-segment body anchored at the board's center, an empty input queue,
/// and food off the body whenever the board has a free cell.
pub open spec fn is_fresh_game(g: GameView, b: Point) -> bool {
    &&& g.bounds == b
    &&& g.state == GameState::Playing
    &&& g.queue == Seq::<Direction>::empty()
    &&& g.heading == Direction::Right
    &&& g.body.len() == START_LEN as int
    &&& forall|i: int|
        0 <= i < g.body.len() ==> g.body[i] == advance(
            board_center(b),
            Direction::Right,
            b,
            (g.body.len() - 1 - i) as nat,
        )
    &&& in_bounds(g.food, b)
    &&& (has_free_cell(g.body, b) ==> !g.body.contains(g.food))
}

/// What the input queue holds after an input arrives: the input is appended,
/// unless the queue is already full and the input is dropped.
pub open spec fn queued(q: Seq<Direction>, d: Direction) -> Seq<Direction> {
    if q.len() < INPUT_QUEUE_CAP as int {
        q.push(d)
    } else {
        q
    }
}

/// The direction actually adopted by a tick: the oldest queued direction,
/// unless nothing is queued or it would exactly reverse the heading.
pub open spec fn consumed_heading(g: GameView) -> Direction {
    if g.queue.len() > 0 && g.queue[0] != g.heading.opposite_spec() {
        g.queue[0]
    } else {
        g.heading
    }
}

/// The head cell after a tick's movement: one wrapped step from the current
/// head along the adopted heading.
pub open spec fn tick_new_head(g: GameView) -> Point {
    wrapped_step(g.body[0], consumed_heading(g), g.bounds)
}

/// Whether a tick's movement lands on the food.
pub open spec fn tick_eats(g: GameView) -> bool {
    tick_new_head(g) == g.food
}

/// The body after a tick: the new head in front; the tail stays on a tick
/// that eats and is dropped otherwise.
pub open spec fn tick_body(g: GameView) -> Seq<Point> {
    let grown = seq![tick_new_head(g)] + g.body;
    if tick_eats(g) {
        grown
    } else {
        grown.drop_last()
    }
}

/// Whether a body's head coincides with one of its later segments.
pub open spec fn hits_self(body: Seq<Point>) -> bool {
    exists|i: int| 1 <= i < body.len() && #[trigger] body[i] == body[0]
}

/// What may hold of the food cell after a tick: untouched unless the tick
/// eats; then off the (grown) body whenever the board still has a free cell,
/// and untouched when it does not.
pub open spec fn tick_food_ok(pre: GameView, food: Point) -> bool {
    if !tick_eats(pre) {
        food == pre.food
    } else if has_free_cell(tick_body(pre), pre.bounds) {
        in_bounds(food, pre.bounds) && !tick_body(pre).contains(food)
    } else {
        food == pre.food
    }
}

/// How one tick relates the states before and after it. A dead game is left
/// untouched. Otherwise at most one input is consumed, the body moves one
/// wrapped step (growing when it eats), and the game dies exactly when the
/// new head lands on a later segment of the moved body. The fresh food cell
/// is the only nondeterministic part: it is constrained, not computed.
pub open spec fn tick_transition(pre: GameView, post: GameView) -> bool {
    if pre.state is Dead {
        post == pre
    } else {
        &&& post.bounds == pre.bounds
        &&& post.heading == consumed_heading(pre)
        &&& post.queue == (if pre.queue.len() > 0 {
            pre.queue.drop_first()
        } else {
            pre.queue
        })
        &&& post.body == tick_body(pre)
        &&& tick_food_ok(pre, post.food)
        &&& post.state == (if hits_self(tick_body(pre)) {
            GameState::Dead { collision: tick_new_head(pre) }
        } else {
            GameState::Playing
        })
    }
}

/// A queued direction that exactly reverses the heading is discarded: the
/// heading is unchanged by that tick.
pub proof fn lemma_no_reversal(pre: GameView, post: GameView)
    requires
        tick_transition(pre, post),
        pre.state is Playing,
        pre.queue.len() > 0,
        pre.queue[0] == pre.heading.opposite_spec(),
    ensures
        post.heading == pre.heading,
{
}

/// Immediately after a tick replaces the food, the food is not on the body.
pub proof fn lemma_food_placement(pre: GameView, post: GameView)
    requires
        tick_transition(pre, post),
        pre.state is Playing,
        tick_eats(pre),
        has_free_cell(tick_body(pre), pre.bounds),
    ensures
        !post.body.contains(post.food),
{
}

/// Self-collision is detected by a tick exactly when the new head coincides
/// with a segment of the moved body other than the head itself, and the
/// recorded collision cell is that head.
pub proof fn lemma_collision_correct(pre: GameView, post: GameView)
    requires
        wf_view(pre),
        tick_transition(pre, post),
        pre.state is Playing,
    ensures
        (post.state is Dead) <==> (exists|i: int|
            1 <= i < post.body.len() && #[trigger] post.body[i] == tick_new_head(pre)),
        post.state is Dead ==> post.state == (GameState::Dead { collision: tick_new_head(pre) }),
{
    assert(post.body[0] == tick_new_head(pre));
}

/// One tick never shrinks the body, and a tick taken from a playing state
/// whose movement lands on the food grows it by exactly one.
pub proof fn lemma_length_step(pre: GameView, post: GameView)
    requires
        tick_transition(pre, post),
    ensures
        post.body.len() >= pre.body.len(),
        pre.state is Playing && tick_eats(pre) ==> post.body.len() == pre.body.len() + 1,
        pre.state is Playing && !tick_eats(pre) ==> post.body.len() == pre.body.len(),
{
}

/// Over any run of ticks, the body length never decreases, and each tick
/// taken from a playing state that lands on the food grows it by exactly one.
pub proof fn lemma_length_monotonic(states: Seq<GameView>)
    requires
        forall|k: int|
            0 <= k < states.len() - 1 ==> tick_transition(#[trigger] states[k], states[k + 1]),
    ensures
        forall|k: int, l: int|
            0 <= k <= l < states.len() ==> states[k].body.len() <= states[l].body.len(),
        forall|k: int|
            0 <= k < states.len() - 1 && states[k].state is Playing && tick_eats(states[k])
                ==> states[k + 1].body.len() == states[k].body.len() + 1,
{
    assert forall|k: int, l: int|
        0 <= k <= l < states.len() implies states[k].body.len() <= states[l].body.len() by {
        lemma_length_monotonic_range(states, k, l);
    }
}

/// Body length never decreases between any two states of a run of ticks.
proof fn lemma_length_monotonic_range(states: Seq<GameView>, k: int, l: int)
    requires
        forall|j: int|
            0 <= j < states.len() - 1 ==> tick_transition(#[trigger] states[j], states[j + 1]),
        0 <= k <= l < states.len(),
    ensures
        states[k].body.len() <= states[l].body.len(),
    decreases l - k,
{
    if k < l {
        lemma_length_monotonic_range(states, k, l - 1);
        lemma_length_step(states[l - 1], states[l]);
    }
}

/// The simulation: the creature, the food cell, the terminal state, the
/// pending inputs, and the board dimensions.
pub struct Game {
    snake: Snake,
    food: Point,
    state: GameState,
    input_queue: VecDeque<Direction>,
    bounds: Point,
}

impl View for Game {
    type V = GameView;

    closed spec fn view(&self) -> GameView {
        GameView {
            body: self.snake.body(),
            heading: self.snake.heading(),
            food: self.food,
            state: self.state,
            queue: self.input_queue@,
            bounds: self.bounds,
        }
    }
}

impl Game {
    /// A well-formed simulation.
    pub open spec fn wf(self) -> bool {
        wf_view(self@)
    }

    /// A fresh game on the standard board.
    pub fn new() -> (g: Game)
        ensures
            g.wf(),
            is_fresh_game(g@, (Point { x: BOARD_W, y: BOARD_H })),
    {
        Game::new_with_bounds(Point { x: BOARD_W, y: BOARD_H })
    }

    /// A fresh game on a board of the given dimensions.
    pub fn new_with_bounds(bounds: Point) -> (g: Game)
        requires
            valid_bounds(bounds),
        ensures
            g.wf(),
            is_fresh_game(g@, bounds),
    {
        let snake = Snake::new(Direction::Right, START_LEN, bounds);
        let food = match snake.random_unoccupied_point(bounds) {
            Some(p) => p,
            // The body covers the whole board; keep the food on the board.
            None => Point { x: (bounds.x as u8 / 2) as i8, y: (bounds.y as u8 / 2) as i8 },
        };
        Game {
            snake,
            food,
            state: GameState::Playing,
            input_queue: VecDeque::new(),
            bounds,
        }
    }

    /// Assemble a playing game from explicit parts.
    pub fn from_parts(snake: Snake, food: Point, bounds: Point) -> (g: Game)
        requires
            valid_bounds(bounds),
            snake.wf(bounds),
            in_bounds(food, bounds),
        ensures
            g.wf(),
            g@ == (GameView {
                body: snake.body(),
                heading: snake.heading(),
                food: food,
                state: GameState::Playing,
                queue: Seq::<Direction>::empty(),
                bounds: bounds,
            }),
    {
        Game {
            snake,
            food,
            state: GameState::Playing,
            input_queue: VecDeque::new(),
            bounds,
        }
    }

    /// Append a direction to the pending inputs; validation against the
    /// current heading happens only when the input is consumed by a tick.
    pub fn queue_input(&mut self, direction: Direction)
        requires
            old(self).wf(),
        ensures
            final(self).wf(),
            final(self)@ == (GameView { queue: queued(old(self)@.queue, direction), ..old(self)@ }),
    {
        if self.input_queue.len() < INPUT_QUEUE_CAP {
            self.input_queue.push_back(direction);
        }
        proof {
            assert(self@ =~= (GameView {
                queue: queued(old(self)@.queue, direction),
                ..old(self)@
            }));
        }
    }

    /// The confirm signal: replace a dead game with a fresh one; while
    /// playing, the signal is ignored.
    pub fn restart(&mut self)
        requires
            old(self).wf(),
        ensures
            final(self).wf(),
            old(self)@.state is Dead ==> is_fresh_game(final(self)@, old(self)@.bounds),
            old(self)@.state is Playing ==> final(self)@ == old(self)@,
    {
        match self.state {
            GameState::Dead { .. } => {
                *self = Game::new_with_bounds(self.bounds);
            },
            GameState::Playing => {},
        }
    }

    /// Advance the simulation by one discrete tick.
    pub fn run_tick(&mut self)
        requires
            old(self).wf(),
        ensures
            final(self).wf(),
            tick_transition(old(self)@, final(self)@),
    {
        let ghost pre = old(self)@;

        if let GameState::Dead { .. } = self.state {
            return;
        }

        // Consume at most one queued input, discarding an exact reversal.
        if let Some(direction) = self.input_queue.pop_front() {
            if direction != self.snake.direction.opposite() {
                self.snake.direction = direction;
            }
        }
        proof {
            assert(self@.heading == consumed_heading(pre));
        }

        // Move the head one wrapped step and graft it onto the body.
        let mut head = self.snake.segments[0];
        head.move_towards(self.snake.direction);
        head.wrap(self.bounds);
        proof {
            lemma_wrap_coord_bound(
                step_x(pre.body[0].x as int, consumed_heading(pre)),
                pre.bounds.x as int,
            );
            lemma_wrap_coord_bound(
                step_y(pre.body[0].y as int, consumed_heading(pre)),
                pre.bounds.y as int,
            );
            assert(head == tick_new_head(pre));
        }
        self.snake.segments.push_front(head);

        // Resolve food before the collision check, so that a body freshly
        // grown by eating is the one checked for self-overlap.
        if head == self.food {
            // Eat: the tail stays in place, and the food is replaced.
            if let Some(p) = self.snake.random_unoccupied_point(self.bounds) {
                self.food = p;
            }
        } else {
            // No food: the tail disappears, a pure translation.
            self.snake.segments.pop_back();
        }
        proof {
            assert(self@.body == tick_body(pre));
            assert(tick_food_ok(pre, self@.food));
            assert forall|j: int| 0 <= j < self@.body.len() implies in_bounds(
                #[trigger] self@.body[j],
                self@.bounds,
            ) by {
                let grown = seq![tick_new_head(pre)] + pre.body;
                assert(self@.body[j] == grown[j]);
                if j > 0 {
                    assert(grown[j] == pre.body[j - 1]);
                }
            }
        }

        // Self-collision: scan the moved body, excluding the head itself.
        let mut i: usize = 1;
        while i < self.snake.segments.len()
            invariant
                old(self).wf(),
                pre == old(self)@,
                pre.state is Playing,
                1 <= i <= self@.body.len(),
                self.wf(),
                self@.bounds == pre.bounds,
                self@.heading == consumed_heading(pre),
                self@.queue == (if pre.queue.len() > 0 {
                    pre.queue.drop_first()
                } else {
                    pre.queue
                }),
                self@.body == tick_body(pre),
                tick_food_ok(pre, self@.food),
                self@.state == GameState::Playing,
                head == tick_new_head(pre),
                forall|j: int| 1 <= j < i ==> self@.body[j] != head,
            decreases self@.body.len() - i,
        {
            if self.snake.segments[i] == head {
                self.state = GameState::Dead { collision: self.snake.segments[i] };
                proof {
                    assert(hits_self(tick_body(pre)));
                }
                return;
            }
            i += 1;
        }
        proof {
            assert(!hits_self(tick_body(pre)));
        }
    }

    /// The cell occupied by the head.
    pub fn head(&self) -> (p: Point)
        requires
            self.wf(),
        ensures
            p == self@.body[0],
    {
        self.snake.segments[0]
    }

    /// The body cell at the given distance from the head.
    pub fn body_cell(&self, i: usize) -> (p: Point)
        requires
            i < self@.body.len(),
        ensures
            p == self@.body[i as int],
    {
        self.snake.segments[i]
    }

    /// The current direction of travel.
    pub fn heading(&self) -> (d: Direction)
        ensures
            d == self@.heading,
    {
        self.snake.direction
    }

    /// The current food cell.
    pub fn food(&self) -> (p: Point)
        ensures
            p == self@.food,
    {
        self.food
    }

    /// Whether play continues, and where the collision happened if not.
    pub fn state(&self) -> (s: GameState)
        ensures
            s == self@.state,
    {
        self.state
    }

    /// The score: the current body length.
    pub fn score(&self) -> (n: usize)
        ensures
            n == self@.body.len(),
    {
        self.snake.len()
    }

    /// The board dimensions.
    pub fn board_bounds(&self) -> (b: Point)
        ensures
            b == self@.bounds,
    {
        self.bounds
    }

    /// The tiles to draw this frame, in drawing order: the head, the rest of
    /// the body, the food, and, once dead, the collision marker.
    pub fn render_tiles(&self) -> (r: Vec<(Point, Tile)>)
        requires
            self.wf(),
        ensures
            r@.len() == self@.body.len() + 1 + (if self@.state is Dead {
                1int
            } else {
                0int
            }),
            r@[0] == (self@.body[0], Tile::Head),
            forall|i: int| 1 <= i < self@.body.len() ==> #[trigger] r@[i] == (self@.body[i], Tile::Snek),
            r@[self@.body.len() as int] == (self@.food, Tile::Food),
            self@.state matches GameState::Dead { collision } ==> r@[self@.body.len() as int + 1] == (
                collision,
                Tile::Bonk,
            ),
    {
        let mut r: Vec<(Point, Tile)> = Vec::new();
        r.push((self.snake.segments[0], Tile::Head));
        let mut i: usize = 1;
        while i < self.snake.segments.len()
            invariant
                self.wf(),
                1 <= i <= self@.body.len(),
                r@.len() == i,
                r@[0] == (self@.body[0], Tile::Head),
                forall|j: int|
                    1 <= j < i ==> #[trigger] r@[j] == (self@.body[j], Tile::Snek),
            decreases self@.body.len() - i,
        {
            r.push((self.snake.segments[i], Tile::Snek));
            i += 1;
        }
        r.push((self.food, Tile::Food));
        if let GameState::Dead { collision } = self.state {
            r.push((collision, Tile::Bonk));
        }
        r
    }
}

} // verus!

