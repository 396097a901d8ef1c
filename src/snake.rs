use vstd::prelude::*;
use crate::location::{
    adjacent, lemma_location_representable, lemma_step_adjacent, representable, step, Cell, Direction, Location, LocationType,
};

verus! {

/// The abstract state of a snake.
pub struct SnakeState {
    /// The occupied cells, head first.
    pub body: Seq<Cell>,
    /// The direction of the next move.
    pub heading: Direction,
    /// Food was found this round: the next update grows the snake.
    pub found: bool,
    pub score: nat,
    pub dead: bool,
}

/// The cells still occupied after a move: all of `body` when the snake
/// grows, otherwise all but the tail, which the move vacates.
pub open spec fn occupied_after(body: Seq<Cell>, ate: bool) -> Seq<Cell> {
    if ate {
        body
    } else {
        body.drop_last()
    }
}

/// A head moving onto `c` runs into the snake's own body.
pub open spec fn hits_body(body: Seq<Cell>, c: Cell, ate: bool) -> bool {
    occupied_after(body, ate).contains(c)
}

/// The body after the head moves onto `next`.
pub open spec fn moved(body: Seq<Cell>, next: Cell, ate: bool) -> Seq<Cell> {
    seq![next] + occupied_after(body, ate)
}

/// A well-formed body: not empty, no cell twice, each segment next to the
/// one before it.
pub open spec fn body_ok(body: Seq<Cell>) -> bool {
    &&& body.len() >= 1
    &&& body.no_duplicates()
    &&& forall|i: int| 0 <= i < body.len() - 1 ==> #[trigger] adjacent(body[i], body[i + 1])
    &&& forall|i: int| 0 <= i < body.len() ==> representable(#[trigger] body[i])
}

impl SnakeState {
    /// The body is well formed and one point was scored for each segment
    /// grown beyond the first.
    pub open spec fn inv(self) -> bool {
        &&& body_ok(self.body)
        &&& self.score + 1 == self.body.len()
    }

    pub open spec fn head(self) -> Cell {
        self.body[0]
    }

    /// The cell the head moves onto next.
    pub open spec fn next_cell(self) -> Cell {
        step(self.head(), self.heading)
    }

    /// The state after the head moves onto `next`, growing by one segment
    /// and scoring a point when `ate`.
    pub open spec fn committed(self, next: Cell, ate: bool) -> SnakeState {
        SnakeState {
            body: moved(self.body, next, ate),
            score: if ate { self.score + 1 } else { self.score },
            ..self
        }
    }

    /// One step of the snake on its own: a dead snake stays where it is; a
    /// snake that would leave the coordinate range or run into the part of
    /// its body still occupied after the move dies where it is; otherwise
    /// it moves, growing when food was found. The found mark is cleared.
    pub open spec fn updated(self) -> SnakeState {
        if self.dead {
            SnakeState { found: false, ..self }
        } else if !representable(self.next_cell()) || hits_body(
            self.body,
            self.next_cell(),
            self.found,
        ) {
            SnakeState { found: false, dead: true, ..self }
        } else {
            SnakeState { found: false, ..self.committed(self.next_cell(), self.found) }
        }
    }
}

/// A snake on the board: its body, heading, score and fate.
pub struct Snake {
    direction: Direction,
    found: bool,
    body: Vec<Location>,
    dead: bool,
    score: usize,
}

/// The cells of a sequence of locations.
pub open spec fn cells(v: Seq<Location>) -> Seq<Cell> {
    v.map_values(|l: Location| l@)
}

impl View for Snake {
    type V = SnakeState;

    closed spec fn view(&self) -> SnakeState {
        SnakeState {
            body: cells(self.body@),
            heading: self.direction,
            found: self.found,
            score: self.score as nat,
            dead: self.dead,
        }
    }
}

impl Snake {
    /// The stored segments, head first.
    pub closed spec fn locations(&self) -> Seq<Location> {
        self.body@
    }

    /// The snake's invariant holds, and every stored segment is of kind
    /// `SNAKE`.
    pub open spec fn wf(&self) -> bool {
        &&& self@.inv()
        &&& cells(self.locations()) == self@.body
        &&& forall|i: int|
            0 <= i < self.locations().len() ==> (#[trigger] self.locations()[i]).kind()
                == LocationType::SNAKE
    }

    /// A live snake of one segment at row 5, column 2, heading right.
    pub fn new() -> (r: Snake)
        ensures
            r.wf(),
            r@ == (SnakeState {
                body: seq![(5int, 2int)],
                heading: Direction::RIGHT,
                found: false,
                score: 0,
                dead: false,
            }),
            r.locations().len() == 1,
            r.locations()[0].kind() == LocationType::SNAKE,
    {
        let mut snake = Snake {
            direction: Direction::RIGHT,
            body: Vec::new(),
            dead: false,
            found: false,
            score: 0,
        };
        snake.body.push(Location::new(5, 2, LocationType::SNAKE));
        assert(snake@.body =~= seq![(5int, 2int)]);
        snake
    }

    pub fn heading(&self) -> (r: Direction)
        ensures
            r == self@.heading,
    {
        self.direction
    }

    pub fn score(&self) -> (r: usize)
        ensures
            r == self@.score,
    {
        self.score
    }

    pub fn is_dead(&self) -> (r: bool)
        ensures
            r == self@.dead,
    {
        self.dead
    }

    /// The number of segments.
    pub fn len(&self) -> (r: usize)
        ensures
            r == self@.body.len(),
    {
        self.body.len()
    }

    /// The segments, head first.
    pub fn body(&self) -> (r: &Vec<Location>)
        ensures
            r@ == self.locations(),
            cells(r@) == self@.body,
    {
        &self.body
    }

    pub fn head(&self) -> (r: Location)
        requires
            self.wf(),
        ensures
            r@ == self@.head(),
    {
        Location::from(&self.body[0])
    }

    /// Replaces the heading; any heading is taken, a reversal included.
    pub fn set_heading(&mut self, dir: Direction)
        ensures
            final(self)@ == (SnakeState { heading: dir, ..old(self)@ }),
            final(self).locations() == old(self).locations(),
    {
        self.direction = dir;
    }

    /// Marks that food was found this round, so that the next update grows
    /// the snake.
    pub fn feed(&mut self)
        ensures
            final(self)@ == (SnakeState { found: true, ..old(self)@ }),
            final(self).locations() == old(self).locations(),
    {
        self.found = true;
    }

    /// Marks the snake dead, where it is.
    pub fn die(&mut self)
        ensures
            final(self)@ == (SnakeState { dead: true, ..old(self)@ }),
            final(self).locations() == old(self).locations(),
    {
        self.dead = true;
    }

    /// The location the head moves onto next, or `None` where that step
    /// would leave the coordinate range (below row or column zero).
    pub fn advance(&self) -> (r: Option<Location>)
        requires
            self.wf(),
        ensures
            r is None <==> !representable(self@.next_cell()),
            r matches Some(l) ==> l@ == self@.next_cell(),
    {
        let head = &self.body[0];
        if head.can_advance(&self.direction) {
            Some(head.advance(&self.direction))
        } else {
            None
        }
    }

    /// Whether some segment lies on the cell of `location`.
    pub fn contains(&self, location: &Location) -> (r: bool)
        ensures
            r == self@.body.contains(location@),
    {
        let mut i: usize = 0;
        while i < self.body.len()
            invariant
                i <= self.body@.len(),
                forall|j: int| 0 <= j < i ==> self@.body[j] != location@,
            decreases self.body@.len() - i,
        {
            if self.body[i].same_cell(location) {
                assert(self@.body[i as int] == location@);
                return true;
            }
            i += 1;
        }
        false
    }

    /// Whether a head moving onto `location` runs into the segments that
    /// are still occupied after the move (the tail is vacated unless the
    /// snake grows).
    pub fn collides(&self, location: &Location, did_eat: bool) -> (r: bool)
        requires
            self.wf(),
        ensures
            r == hits_body(self@.body, location@, did_eat),
    {
        let n = self.body.len();
        let limit: usize = if did_eat { n } else { n - 1 };
        let ghost occ = occupied_after(self@.body, did_eat);
        assert(occ.len() == limit);
        let mut i: usize = 0;
        while i < limit
            invariant
                i <= limit,
                limit == occ.len(),
                occ.len() <= self@.body.len(),
                n == self.body@.len(),
                occ == occupied_after(self@.body, did_eat),
                forall|j: int| 0 <= j < i ==> occ[j] != location@,
            decreases limit - i,
        {
            if self.body[i].same_cell(location) {
                assert(occ[i as int] == location@);
                return true;
            }
            i += 1;
        }
        false
    }

    /// Moves the head onto `next`: the new body is `next` followed by the
    /// old one, less its tail unless `did_eat`; eating scores a point.
    pub fn commit(&mut self, next: Location, did_eat: bool)
        requires
            old(self).wf(),
            adjacent(next@, old(self)@.head()),
            !hits_body(old(self)@.body, next@, did_eat),
        ensures
            final(self).wf(),
            final(self)@ == old(self)@.committed(next@, did_eat),
    {
        let ghost old_body = self@.body;
        let ghost occ = occupied_after(old_body, did_eat);
        let n = self.body.len();
        let keep: usize = if did_eat { n } else { n - 1 };
        let mut body: Vec<Location> = Vec::new();
        let head = Location::new(next.x(), next.y(), LocationType::SNAKE);
        body.push(head);
        let mut i: usize = 0;
        while i < keep
            invariant
                i <= keep,
                keep == occ.len(),
                n == self.body@.len(),
                old_body == self@.body,
                occ == occupied_after(old_body, did_eat),
                occ.len() <= old_body.len(),
                body@.len() == i + 1,
                body@[0]@ == next@,
                self.wf(),
                forall|j: int| 0 <= j < i ==> (#[trigger] body@[j + 1])@ == occ[j],
                forall|j: int| 0 <= j <= i ==> (#[trigger] body@[j]).kind() == LocationType::SNAKE,
            decreases keep - i,
        {
            proof {
                assert(self.locations()[i as int].kind() == LocationType::SNAKE);
            }
            body.push(Location::from(&self.body[i]));
            i += 1;
        }
        let ghost nb = moved(old_body, next@, did_eat);
        assert(cells(body@) =~= nb) by {
            assert forall|j: int| 0 <= j < nb.len() implies cells(body@)[j] == nb[j] by {
                if j > 0 {
                    assert(body@[(j - 1) + 1]@ == occ[j - 1]);
                }
            }
        }
        proof {
            assert forall|j: int| 0 <= j < nb.len() - 1 implies #[trigger] adjacent(
                nb[j],
                nb[j + 1],
            ) by {
                if j > 0 {
                    assert(nb[j] == old_body[j - 1]);
                    assert(nb[j + 1] == old_body[j]);
                    assert(adjacent(old_body[j - 1], old_body[(j - 1) + 1]));
                } else {
                    assert(nb[1] == old_body[0]);
                }
            }
            assert forall|a: int, b: int| 0 <= a < b < nb.len() implies nb[a] != nb[b] by {
                if a == 0 {
                    assert(occ.contains(nb[b]));
                } else {
                    assert(nb[a] == old_body[a - 1]);
                    assert(nb[b] == old_body[b - 1]);
                }
            }
            assert forall|j: int| 0 <= j < nb.len() implies representable(#[trigger] nb[j]) by {
                lemma_location_representable(next);
                if j > 0 {
                    assert(nb[j] == old_body[j - 1]);
                }
            }
        }
        self.body = body;
        if did_eat {
            self.score = self.score + 1;
        }
    }

    /// One step of the snake on its own (see `SnakeState::updated`).
    pub fn update(&mut self)
        requires
            old(self).wf(),
        ensures
            final(self).wf(),
            final(self)@ == old(self)@.updated(),
            ({
                let s = old(self)@;
                let next = s.next_cell();
                let n = s.body.len();
                let t = final(self)@;
                &&& !s.dead && representable(next) && !hits_body(s.body, next, s.found) ==> {
                    &&& !t.dead
                    &&& t.body[0] == next
                    &&& s.found ==> t.body.len() == n + 1 && t.score == s.score + 1
                        && t.body.subrange(1, n as int + 1) == s.body
                    &&& !s.found ==> t.body.len() == n && t.score == s.score
                        && t.body.subrange(1, n as int) == s.body.drop_last()
                }
                &&& !s.dead && (!representable(next) || hits_body(s.body, next, s.found))
                    ==> t.dead && t.body == s.body
                &&& !t.found
            }),
    {
        if !self.dead {
            match self.advance() {
                None => {
                    self.dead = true;
                },
                Some(next) => {
                    let found = self.found;
                    if self.collides(&next, found) {
                        self.dead = true;
                    } else {
                        proof {
                            lemma_step_adjacent(self@.head(), self@.heading);
                        }
                        self.commit(next, found);
                    }
                },
            }
        }
        self.found = false;
    }
}

} // verus!
