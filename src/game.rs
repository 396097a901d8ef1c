use vstd::prelude::*;
use crate::location::{lemma_step_adjacent, Cell, Direction, Location, LocationType};
use crate::snake::{cells, hits_body, Snake, SnakeState};

verus! {

/// The abstract state of a game.
pub struct GameState {
    pub height: nat,
    pub width: nat,
    /// The cells that hold food.
    pub food: Set<Cell>,
    /// Where food goes next, in order: each time food is eaten the front
    /// of the queue is taken and food placed there if the cell is free.
    pub queue: Seq<Cell>,
    pub snake: SnakeState,
}

/// What a cell of the board shows: the head, another segment, food, or
/// nothing.
pub open spec fn kind_at(s: GameState, c: Cell) -> LocationType {
    if c == s.snake.head() {
        LocationType::HEAD
    } else if s.snake.body.contains(c) {
        LocationType::SNAKE
    } else if s.food.contains(c) {
        LocationType::FOOD
    } else {
        LocationType::EMPTY
    }
}

/// Row `x` of the board as drawn.
pub open spec fn render_row(s: GameState, x: int) -> Seq<LocationType> {
    Seq::new(s.width, |y: int| kind_at(s, (x, y)))
}

/// The board as drawn, row by row.
pub open spec fn render(s: GameState) -> Seq<Seq<LocationType>> {
    Seq::new(s.height, |x: int| render_row(s, x))
}

/// The rows of a snapshot.
pub open spec fn rows_of(v: Seq<Vec<LocationType>>) -> Seq<Seq<LocationType>> {
    v.map_values(|row: Vec<LocationType>| row@)
}

impl GameState {
    /// The cell lies on the board: `0 <= x < height` and `0 <= y < width`.
    pub open spec fn in_grid(self, c: Cell) -> bool {
        0 <= c.0 < self.height && 0 <= c.1 < self.width
    }

    /// Food can be placed on `c`: it lies on the board and holds neither
    /// the snake nor food.
    pub open spec fn placeable(self, c: Cell) -> bool {
        self.in_grid(c) && !self.snake.body.contains(c) && !self.food.contains(c)
    }

    /// The front of the food queue taken, and food placed there if the
    /// cell is free.
    pub open spec fn refilled(self) -> GameState {
        if self.queue.len() == 0 {
            self
        } else {
            let c = self.queue[0];
            let t = GameState { queue: self.queue.drop_first(), ..self };
            if self.placeable(c) {
                GameState { food: self.food.insert(c), ..t }
            } else {
                t
            }
        }
    }

    /// The game is over.
    pub open spec fn over(self) -> bool {
        self.snake.dead
    }

    /// The head's move this tick runs into a wall or into the snake itself.
    pub open spec fn dies(self) -> bool {
        let next = self.snake.next_cell();
        !self.in_grid(next) || hits_body(self.snake.body, next, self.food.contains(next))
    }

    /// One tick: a finished game stays as it is. Otherwise the head moves
    /// one step along the heading; where that cell is off the board, or on
    /// a segment still occupied after the move, the game ends and nothing
    /// moves. Else the snake moves onto it, and eats the food there if any:
    /// it keeps its tail, scores a point, the food is gone, and new food is
    /// placed from the queue.
    pub open spec fn ticked(self) -> GameState {
        let next = self.snake.next_cell();
        let ate = self.food.contains(next);
        if self.over() {
            self
        } else if self.dies() {
            GameState { snake: SnakeState { dead: true, ..self.snake }, ..self }
        } else {
            let t = GameState {
                snake: self.snake.committed(next, ate),
                food: self.food.remove(next),
                ..self
            };
            if ate {
                t.refilled()
            } else {
                t
            }
        }
    }

    /// The invariant of a game: a well-formed snake, food on the board and
    /// off the snake, and, while the game runs, the whole snake on the board.
    pub open spec fn inv(self) -> bool {
        &&& self.snake.inv()
        &&& self.food.finite()
        &&& forall|c: Cell| #[trigger]
            self.food.contains(c) ==> self.in_grid(c) && !self.snake.body.contains(c)
        &&& !self.over() ==> forall|i: int|
            0 <= i < self.snake.body.len() ==> self.in_grid(#[trigger] self.snake.body[i])
    }
}

/// A game: the board's dimensions, the food on it and the snake.
pub struct Game {
    height: usize,
    width: usize,
    food_locations: Vec<Location>,
    food_queue: Vec<Location>,
    snake: Snake,
}

impl View for Game {
    type V = GameState;

    closed spec fn view(&self) -> GameState {
        GameState {
            height: self.height as nat,
            width: self.width as nat,
            food: cells(self.food_locations@).to_set(),
            queue: cells(self.food_queue@),
            snake: self.snake@,
        }
    }
}

/// Removing one entry of a list of distinct cells removes that cell from
/// the set they form, and keeps them distinct.
proof fn lemma_cells_remove(v: Seq<Location>, i: int)
    requires
        cells(v).no_duplicates(),
        0 <= i < v.len(),
    ensures
        cells(v.remove(i)).no_duplicates(),
        cells(v.remove(i)).to_set() == cells(v).to_set().remove(cells(v)[i]),
{
    let s = cells(v);
    let t = cells(v.remove(i));
    assert(t =~= s.remove(i));
    assert forall|a: int, b: int| 0 <= a < b < t.len() implies t[a] != t[b] by {
        let a2 = if a < i { a } else { a + 1 };
        let b2 = if b < i { b } else { b + 1 };
        assert(t[a] == s[a2] && t[b] == s[b2]);
    }
    assert forall|c: Cell| #[trigger] t.to_set().contains(c) <==> s.to_set().remove(s[i]).contains(c) by {
        if t.contains(c) {
            let j = choose|j: int| 0 <= j < t.len() && t[j] == c;
            let j2 = if j < i { j } else { j + 1 };
            assert(s[j2] == c);
        }
        if s.contains(c) && c != s[i] {
            let j = choose|j: int| 0 <= j < s.len() && s[j] == c;
            if j < i {
                assert(t[j] == c);
            } else {
                assert(t[j - 1] == c);
            }
        }
    }
    assert(t.to_set() =~= s.to_set().remove(s[i]));
}

/// Appending a new cell to a list of distinct cells adds it to the set they
/// form, and keeps them distinct.
proof fn lemma_cells_push(v: Seq<Location>, l: Location)
    requires
        cells(v).no_duplicates(),
        !cells(v).contains(l@),
    ensures
        cells(v.push(l)).no_duplicates(),
        cells(v.push(l)).to_set() == cells(v).to_set().insert(l@),
{
    let s = cells(v);
    let t = cells(v.push(l));
    assert(t =~= s.push(l@));
    assert forall|c: Cell| #[trigger] t.to_set().contains(c) <==> s.to_set().insert(l@).contains(c) by {
        if t.contains(c) {
            let j = choose|j: int| 0 <= j < t.len() && t[j] == c;
            if j < s.len() {
                assert(s[j] == c);
            }
        }
        if s.contains(c) {
            let j = choose|j: int| 0 <= j < s.len() && s[j] == c;
            assert(t[j] == c);
        }
        if c == l@ {
            assert(t[s.len() as int] == c);
        }
    }
    assert(t.to_set() =~= s.to_set().insert(l@));
}

impl Game {
    /// The stored food locations, in the order they are kept.
    pub closed spec fn food_list(&self) -> Seq<Location> {
        self.food_locations@
    }

    /// The snake as stored.
    pub closed spec fn snake_of(&self) -> Snake {
        self.snake
    }

    /// The food cells in the order they are kept.
    pub open spec fn food_cells(&self) -> Seq<Cell> {
        cells(self.food_list())
    }

    /// The game's invariant holds, the snake is well formed, no food cell
    /// is listed twice, and every stored food location is of kind `FOOD`.
    pub open spec fn wf(&self) -> bool {
        &&& self@.inv()
        &&& self.snake_of().wf()
        &&& self.snake_of()@ == self@.snake
        &&& self.food_cells().no_duplicates()
        &&& self.food_cells().to_set() == self@.food
        &&& forall|i: int|
            0 <= i < self.food_list().len() ==> (#[trigger] self.food_list()[i]).kind()
                == LocationType::FOOD
    }

    /// A game on a board of `height` rows and `width` columns, with a
    /// snake of one segment at row 5, column 2 heading right, and food at
    /// row 3, column 3. Food that would lie off the board is left out; a
    /// snake that would start off the board starts dead.
    pub fn create(height: usize, width: usize) -> (r: Game)
        ensures
            r.wf(),
            r@.height == height,
            r@.width == width,
            r@.snake == (SnakeState {
                body: seq![(5int, 2int)],
                heading: Direction::RIGHT,
                found: false,
                score: 0,
                dead: !r@.in_grid((5, 2)),
            }),
            r@.food == (if r@.in_grid((3, 3)) {
                set![(3int, 3int)]
            } else {
                Set::empty()
            }),
            r@.queue == Seq::<Cell>::empty(),
            r.snake_of().locations().len() == 1,
            r.snake_of().locations()[0].kind() == LocationType::SNAKE,
            r.food_list().len() == (if r@.in_grid((3, 3)) { 1int } else { 0int }),
            r@.in_grid((3, 3)) ==> r.food_list()[0]@ == (3int, 3int) && r.food_list()[0].kind()
                == LocationType::FOOD,
    {
        let snake: Snake = Snake::new();
        let mut game = Game {
            food_locations: Vec::new(),
            food_queue: Vec::new(),
            height: height,
            width: width,
            snake: snake,
        };
        assert(game@.food =~= Set::empty());
        assert(game@.queue =~= Seq::<Cell>::empty());
        if !(5 < height && 2 < width) {
            game.snake.die();
        }
        game.spawn(Location::new(3, 3, LocationType::FOOD));
        assert(Set::<Cell>::empty().insert((3, 3)) =~= set![(3int, 3int)]);
        game
    }

    pub fn height(&self) -> (r: usize)
        ensures
            r == self@.height,
    {
        self.height
    }

    pub fn width(&self) -> (r: usize)
        ensures
            r == self@.width,
    {
        self.width
    }

    pub fn snake(&self) -> (r: &Snake)
        ensures
            *r == self.snake_of(),
            r@ == self@.snake,
    {
        &self.snake
    }

    /// The food locations.
    pub fn food_locations(&self) -> (r: &Vec<Location>)
        ensures
            r@ == self.food_list(),
            cells(r@) == self.food_cells(),
            cells(r@).to_set() == self@.food,
    {
        &self.food_locations
    }

    /// The score so far.
    pub fn score(&self) -> (r: usize)
        ensures
            r == self@.snake.score,
    {
        self.snake.score()
    }

    /// Whether `location` lies on the board.
    pub fn in_bounds(&self, location: &Location) -> (r: bool)
        ensures
            r == self@.in_grid(location@),
    {
        location.x() < self.height && location.y() < self.width
    }

    /// Whether there is food on the cell of `location`.
    pub fn has_food(&self, location: &Location) -> (r: bool)
        requires
            self.wf(),
        ensures
            r == self@.food.contains(location@),
    {
        let mut i: usize = 0;
        while i < self.food_locations.len()
            invariant
                i <= self.food_locations@.len(),
                forall|j: int| 0 <= j < i ==> self.food_cells()[j] != location@,
            decreases self.food_locations@.len() - i,
        {
            if self.food_locations[i].same_cell(location) {
                assert(self.food_cells()[i as int] == location@);
                assert(self.food_cells().contains(location@));
                return true;
            }
            i += 1;
        }
        false
    }

    /// The heading for the next tick; a reversal is taken as any other.
    pub fn set_heading(&mut self, dir: Direction)
        requires
            old(self).wf(),
        ensures
            final(self).wf(),
            final(self)@ == (GameState {
                snake: SnakeState { heading: dir, ..old(self)@.snake },
                ..old(self)@
            }),
    {
        self.snake.set_heading(dir);
    }

    /// Places food (a location of kind `FOOD`) on the cell of `location` where that cell is on the
    /// board and holds neither the snake nor food; says whether it did.
    pub fn spawn(&mut self, location: Location) -> (r: bool)
        requires
            old(self).wf(),
        ensures
            final(self).wf(),
            r == old(self)@.placeable(location@),
            final(self)@ == (GameState {
                food: if r {
                    old(self)@.food.insert(location@)
                } else {
                    old(self)@.food
                },
                ..old(self)@
            }),
            r ==> final(self).food_list().len() == old(self).food_list().len() + 1
                && final(self).food_list().drop_last() == old(self).food_list()
                && final(self).food_list().last()@ == location@
                && final(self).food_list().last().kind() == LocationType::FOOD,
            !r ==> final(self).food_list() == old(self).food_list(),
    {
        if !self.in_bounds(&location) || self.snake.contains(&location) || self.has_food(&location) {
            return false;
        }
        let food = Location::new(location.x(), location.y(), LocationType::FOOD);
        proof {
            lemma_cells_push(self.food_locations@, food);
        }
        self.food_locations.push(food);
        assert(self.food_list().drop_last() =~= old(self).food_list());
        true
    }

    /// Queues `location` as a place for food once the food now on the board
    /// is eaten.
    pub fn queue_food(&mut self, location: Location)
        requires
            old(self).wf(),
        ensures
            final(self).wf(),
            final(self)@ == (GameState { queue: old(self)@.queue.push(location@), ..old(self)@ }),
    {
        self.food_queue.push(location);
        assert(self@.queue =~= old(self)@.queue.push(location@));
    }

    /// The queued food locations, front first.
    pub fn food_queue(&self) -> (r: &Vec<Location>)
        ensures
            cells(r@) == self@.queue,
    {
        &self.food_queue
    }

    /// Takes the front of the food queue, if any, and places food there
    /// where the cell is free (see `GameState::refilled`).
    fn refill(&mut self)
        requires
            old(self).wf(),
        ensures
            final(self).wf(),
            final(self)@ == old(self)@.refilled(),
    {
        if self.food_queue.len() > 0 {
            let ghost q = self@.queue;
            let c = self.food_queue.remove(0);
            assert(self@.queue =~= q.drop_first());
            self.spawn(c);
        }
    }

    /// Removes the food on the cell of `location`, if any; says whether
    /// there was food there.
    pub fn pick_if_present(&mut self, location: &Location) -> (r: bool)
        requires
            old(self).wf(),
        ensures
            final(self).wf(),
            r == old(self)@.food.contains(location@),
            final(self)@ == (GameState { food: old(self)@.food.remove(location@), ..old(self)@ }),
    {
        let mut i: usize = 0;
        while i < self.food_locations.len()
            invariant
                self.wf(),
                *self == *old(self),
                i <= self.food_locations@.len(),
                forall|j: int| 0 <= j < i ==> self.food_cells()[j] != location@,
            decreases self.food_locations@.len() - i,
        {
            if self.food_locations[i].same_cell(location) {
                proof {
                    lemma_cells_remove(self.food_locations@, i as int);
                    assert(self.food_cells().contains(location@));
                }
                self.food_locations.remove(i);
                return true;
            }
            i += 1;
        }
        assert(self@.food =~= self@.food.remove(location@));
        false
    }

    /// One tick of the game (see `GameState::ticked`): the snake moves one
    /// cell along its heading, eating the food there; a move off the board
    /// or into the snake's own body ends the game instead.
    pub fn tick(&mut self)
        requires
            old(self).wf(),
        ensures
            final(self).wf(),
            final(self)@ == old(self)@.ticked(),
            ({
                let s = old(self)@;
                let next = s.snake.next_cell();
                let ate = s.food.contains(next);
                &&& s.over() ==> final(self)@ == s
                &&& !s.over() ==> (final(self)@.over() <==> s.dies())
                &&& !s.over() && (next.0 == s.height || next.1 == s.width || next.0 == -1
                    || next.1 == -1) ==> final(self)@.over()
                &&& !s.over() && !ate && s.snake.body.drop_last().contains(next)
                    ==> final(self)@.over()
                &&& !s.over() && !ate && s.in_grid(next) && next == s.snake.body.last()
                    ==> !final(self)@.over()
                &&& !s.over() && !s.dies() && !ate ==> final(self)@.snake.body.len()
                    == s.snake.body.len() && final(self)@.snake.score == s.snake.score
                &&& !s.over() && !s.dies() && ate ==> final(self)@.snake.body.len()
                    == s.snake.body.len() + 1 && final(self)@.snake.score == s.snake.score + 1
                    && !final(self)@.food.contains(next)
            }),
    {
        if self.snake.is_dead() {
            return;
        }
        let ghost s = self@;
        match self.snake.advance() {
            None => {
                self.snake.die();
            },
            Some(next) => {
                if !self.in_bounds(&next) {
                    self.snake.die();
                    return;
                }
                let ate = self.pick_if_present(&next);
                if self.snake.collides(&next, ate) {
                    self.snake.die();
                    assert(self@.food =~= s.food);
                } else {
                    proof {
                        lemma_step_adjacent(s.snake.head(), s.snake.heading);
                    }
                    self.snake.commit(next, ate);
                    proof {
                        let b = self@.snake.body;
                        assert forall|i: int| 0 <= i < b.len() implies self@.in_grid(
                            #[trigger] b[i],
                        ) by {
                            if i > 0 {
                                assert(b[i] == s.snake.body[i - 1]);
                            }
                        }
                        assert forall|c: Cell| #[trigger]
                            self@.food.contains(c) implies !b.contains(c) by {
                            if b.contains(c) {
                                let j = choose|j: int| 0 <= j < b.len() && b[j] == c;
                                if j > 0 {
                                    assert(s.snake.body[j - 1] == c);
                                    assert(s.snake.body.contains(c));
                                }
                            }
                        }
                        assert(self@.snake.body[0] == next@);
                    }
                    if ate {
                        self.refill();
                    }
                }
            },
        }
    }

    /// What the cell at row `x`, column `y` shows.
    pub fn cell_kind(&self, x: usize, y: usize) -> (r: LocationType)
        requires
            self.wf(),
        ensures
            r == kind_at(self@, (x as int, y as int)),
    {
        let location = Location::new(x, y, LocationType::EMPTY);
        if self.snake.head().same_cell(&location) {
            LocationType::HEAD
        } else if self.snake.contains(&location) {
            LocationType::SNAKE
        } else if self.has_food(&location) {
            LocationType::FOOD
        } else {
            LocationType::EMPTY
        }
    }

    /// The board as drawn, row by row: `height` rows of `width` cells.
    /// The game is not changed, so two snapshots between ticks agree.
    pub fn snapshot(&self) -> (r: Vec<Vec<LocationType>>)
        requires
            self.wf(),
        ensures
            r@.len() == self@.height,
            forall|x: int| 0 <= x < self@.height ==> (#[trigger] r@[x])@ == render_row(self@, x),
            rows_of(r@) == render(self@),
    {
        let mut rows: Vec<Vec<LocationType>> = Vec::new();
        let mut x: usize = 0;
        while x < self.height
            invariant
                self.wf(),
                x <= self.height,
                rows@.len() == x,
                forall|i: int| 0 <= i < x ==> (#[trigger] rows@[i])@ == render_row(self@, i),
            decreases self.height - x,
        {
            let mut row: Vec<LocationType> = Vec::new();
            let mut y: usize = 0;
            while y < self.width
                invariant
                    self.wf(),
                    x < self.height,
                    y <= self.width,
                    row@.len() == y,
                    forall|j: int| 0 <= j < y ==> row@[j] == kind_at(self@, (x as int, j)),
                decreases self.width - y,
            {
                row.push(self.cell_kind(x, y));
                y += 1;
            }
            assert(row@ =~= render_row(self@, x as int));
            rows.push(row);
            x += 1;
        }
        assert(rows_of(rows@) =~= render(self@));
        rows
    }

    /// Whether the game is over.
    pub fn is_finished(&self) -> (r: bool)
        ensures
            r == self@.over(),
    {
        self.snake.is_dead()
    }
}

} // verus!
