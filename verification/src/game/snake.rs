use vstd::prelude::*;

use super::{advance, board_center, has_free_cell, in_bounds, valid_bounds, wrapped_step};
use crate::util::{Direction, Point};
use std::collections::VecDeque;

verus! {

/// How many random draws to attempt before falling back to a scan of the
/// board for a free cell.
pub const SAMPLE_TRIES: usize = 128;

/// A colored tile the renderer knows how to draw.
#[derive(Clone, Copy, Debug, PartialEq, Eq, Structural)]
pub enum Tile {
    Snek,
    Head,
    Food,
    Bonk,
}

/// The creature: an ordered body, head first, and its current heading.
pub struct Snake {
    pub direction: Direction,
    pub segments: VecDeque<Point>,
}

impl Snake {
    /// The body cells, head first.
    pub open spec fn body(self) -> Seq<Point> {
        self.segments@
    }

    /// The current direction of travel.
    pub open spec fn heading(self) -> Direction {
        self.direction
    }

    /// Well-formed on board `bounds`: at least one segment, all on the board.
    pub open spec fn wf(self, bounds: Point) -> bool {
        &&& self.body().len() >= 1
        &&& forall|i: int|
            0 <= i < self.body().len() ==> in_bounds(#[trigger] self.body()[i], bounds)
    }

    /// The body size; one point of score per cell grown.
    pub fn len(&self) -> (n: usize)
        ensures
            n == self.body().len(),
    {
        self.segments.len()
    }

    /// Build a body of exactly `length` cells in a straight line ending at
    /// the board's center, the head `length - 1` wrapped steps ahead of it.
    pub fn new(direction: Direction, length: usize, bounds: Point) -> (s: Snake)
        requires
            valid_bounds(bounds),
            1 <= length,
        ensures
            s.wf(bounds),
            s.heading() == direction,
            s.body().len() == length,
            forall|i: int|
                0 <= i < length ==> s.body()[i] == advance(
                    board_center(bounds),
                    direction,
                    bounds,
                    (length - 1 - i) as nat,
                ),
    {
        let ghost center = board_center(bounds);
        let mut segments: VecDeque<Point> = VecDeque::new();
        let mut head = Point { x: (bounds.x as u8 / 2) as i8, y: (bounds.y as u8 / 2) as i8 };
        assert(head == center);
        let mut k: usize = 0;
        while k < length
            invariant
                valid_bounds(bounds),
                k <= length,
                segments@.len() == k,
                head == advance(center, direction, bounds, k as nat),
                in_bounds(head, bounds),
                forall|i: int|
                    0 <= i < k ==> segments@[i] == advance(
                        center,
                        direction,
                        bounds,
                        (k - 1 - i) as nat,
                    ),
                forall|i: int| 0 <= i < k ==> in_bounds(#[trigger] segments@[i], bounds),
            decreases length - k,
        {
            segments.push_front(head);
            head.move_towards(direction);
            head.wrap(bounds);
            proof {
                assert(head == wrapped_step(
                    advance(center, direction, bounds, k as nat),
                    direction,
                    bounds,
                ));
                assert(head == advance(center, direction, bounds, (k + 1) as nat));
            }
            k += 1;
        }
        Snake { direction, segments }
    }

    /// Build a snake from an explicit body, head first.
    pub fn from_segments(direction: Direction, cells: Vec<Point>, bounds: Point) -> (s: Snake)
        requires
            valid_bounds(bounds),
            cells@.len() >= 1,
            forall|i: int| 0 <= i < cells@.len() ==> in_bounds(#[trigger] cells@[i], bounds),
        ensures
            s.wf(bounds),
            s.heading() == direction,
            s.body() == cells@,
    {
        let mut segments: VecDeque<Point> = VecDeque::new();
        let mut i: usize = 0;
        while i < cells.len()
            invariant
                i <= cells@.len(),
                segments@ == cells@.subrange(0, i as int),
            decreases cells@.len() - i,
        {
            segments.push_back(cells[i]);
            i += 1;
        }
        proof {
            assert(segments@ =~= cells@);
        }
        Snake { direction, segments }
    }

    /// A cell not covered by the body, drawn by rejection sampling and, when
    /// the draws keep landing on the body, by scanning the board; `None`
    /// exactly when the body covers every cell.
    pub fn random_unoccupied_point(&self, bounds: Point) -> (r: Option<Point>)
        requires
            valid_bounds(bounds),
        ensures
            match r {
                Some(p) => in_bounds(p, bounds) && !self.body().contains(p),
                None => !has_free_cell(self.body(), bounds),
            },
    {
        let mut tries: usize = 0;
        while tries < SAMPLE_TRIES
            invariant
                valid_bounds(bounds),
            decreases SAMPLE_TRIES - tries,
        {
            let food = Point::random(bounds);
            if !self.occupies(food) {
                return Some(food);
            }
            tries += 1;
        }
        // Every draw landed on the body: look for a free cell directly.
        let mut y: i8 = 0;
        while y < bounds.y
            invariant
                valid_bounds(bounds),
                0 <= y <= bounds.y,
                forall|p: Point|
                    #[trigger] in_bounds(p, bounds) && p.y < y ==> self.body().contains(p),
            decreases bounds.y - y,
        {
            let mut x: i8 = 0;
            while x < bounds.x
                invariant
                    valid_bounds(bounds),
                    0 <= y < bounds.y,
                    0 <= x <= bounds.x,
                    forall|p: Point|
                        #[trigger] in_bounds(p, bounds) && p.y < y ==> self.body().contains(p),
                    forall|p: Point|
                        #[trigger] in_bounds(p, bounds) && p.y == y && p.x < x
                            ==> self.body().contains(p),
                decreases bounds.x - x,
            {
                let cell = Point { x, y };
                if !self.occupies(cell) {
                    return Some(cell);
                }
                x += 1;
            }
            y += 1;
        }
        None
    }

    /// Whether any body segment occupies `p`.
    pub fn occupies(&self, p: Point) -> (b: bool)
        ensures
            b == self.body().contains(p),
    {
        let mut i: usize = 0;
        while i < self.segments.len()
            invariant
                i <= self.body().len(),
                forall|j: int| 0 <= j < i ==> self.body()[j] != p,
            decreases self.body().len() - i,
        {
            if self.segments[i] == p {
                return true;
            }
            i += 1;
        }
        false
    }
}

} // verus!
