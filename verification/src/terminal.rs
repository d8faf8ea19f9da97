//! What a character terminal has to draw for the game, as a list of
//! instructions. Writing them to a terminal is the host's part.

use crate::field::Cell;
use crate::random::occupies;
use vstd::prelude::*;

verus! {

/// What a cell of the terminal can show.
#[derive(Clone, Copy, Debug, PartialEq, Eq, Structural)]
pub enum Symbol {
    Food,
    Snake,
    Wall,
    Empty,
}

impl Symbol {
    /// The character that stands for this symbol.
    pub open spec fn glyph_of(self) -> char {
        match self {
            Symbol::Food => '@',
            Symbol::Snake => 'S',
            Symbol::Wall => '#',
            Symbol::Empty => ' ',
        }
    }

    /// The character that stands for this symbol.
    pub fn glyph(self) -> (c: char)
        ensures
            c == self.glyph_of(),
    {
        match self {
            Symbol::Food => '@',
            Symbol::Snake => 'S',
            Symbol::Wall => '#',
            Symbol::Empty => ' ',
        }
    }
}

/// One instruction: show `symbol` at column `x`, row `y`.
#[derive(Clone, Copy, Debug, PartialEq, Eq, Structural)]
pub struct Draw {
    pub symbol: Symbol,
    pub x: u16,
    pub y: u16,
}

/// The instruction that shows `symbol` on `cell`.
pub open spec fn draw_at(symbol: Symbol, cell: Cell) -> Draw {
    Draw { symbol, x: cell.0, y: cell.1 }
}

/// The top and bottom row of a box of `w` columns and `h` rows whose top left
/// corner is at `(x, y)`: column by column, and in each column top before
/// bottom.
pub open spec fn outline_rows(symbol: Symbol, x: int, y: int, w: int, h: int) -> Seq<Draw> {
    Seq::new(
        (2 * w) as nat,
        |k: int|
            Draw {
                symbol,
                x: (x + k / 2) as u16,
                y: (if k % 2 == 0 {
                    y
                } else {
                    y + h - 1
                }) as u16,
            },
    )
}

/// The two sides of that box between its top and bottom row: row by row, and
/// in each row left before right.
pub open spec fn outline_sides(symbol: Symbol, x: int, y: int, w: int, h: int) -> Seq<Draw> {
    Seq::new(
        (if h > 2 {
            2 * (h - 2)
        } else {
            0
        }) as nat,
        |k: int|
            Draw {
                symbol,
                x: (if k % 2 == 0 {
                    x
                } else {
                    x + w - 1
                }) as u16,
                y: (y + 1 + k / 2) as u16,
            },
    )
}

/// The outline of that box: its top and bottom row, then its sides.
pub open spec fn outline(symbol: Symbol, x: int, y: int, w: int, h: int) -> Seq<Draw> {
    outline_rows(symbol, x, y, w, h) + outline_sides(symbol, x, y, w, h)
}

/// Whether `d` lies on the edge of the box of `w` columns and `h` rows whose
/// top left corner is at `(x, y)`.
pub open spec fn on_edge(d: Draw, x: int, y: int, w: int, h: int) -> bool {
    &&& x <= d.x <= x + w - 1
    &&& y <= d.y <= y + h - 1
    &&& d.x == x || d.x == x + w - 1 || d.y == y || d.y == y + h - 1
}

/// The outline of a box shows its symbol on cells of the box's edge only.
pub proof fn lemma_outline_on_edge(symbol: Symbol, x: int, y: int, w: int, h: int)
    requires
        0 <= x,
        0 <= y,
        w >= 1,
        h >= 1,
        x + w - 1 <= u16::MAX,
        y + h - 1 <= u16::MAX,
    ensures
        forall|i: int|
            0 <= i < outline(symbol, x, y, w, h).len() ==> (#[trigger] outline(
                symbol,
                x,
                y,
                w,
                h,
            )[i]).symbol == symbol && on_edge(outline(symbol, x, y, w, h)[i], x, y, w, h),
{
    let rows = outline_rows(symbol, x, y, w, h);
    let sides = outline_sides(symbol, x, y, w, h);
    let all = outline(symbol, x, y, w, h);
    assert forall|i: int| 0 <= i < all.len() implies (#[trigger] all[i]).symbol == symbol
        && on_edge(all[i], x, y, w, h) by {
        if i < rows.len() {
            assert(all[i] == rows[i]);
        } else {
            assert(all[i] == sides[i - rows.len()]);
        }
    }
}

/// Row `y` of a field of `width` columns wiped: a blank on every column from 1
/// to `width`, left to right.
pub open spec fn wiped_row(width: int, y: int) -> Seq<Draw> {
    Seq::new(
        (if width > 0 {
            width
        } else {
            0
        }) as nat,
        |k: int| Draw { symbol: Symbol::Empty, x: (1 + k) as u16, y: y as u16 },
    )
}

/// The rows from 1 to `rows` of a field of `width` columns wiped, top row
/// first.
pub open spec fn wiped_rows(width: int, rows: int) -> Seq<Draw>
    decreases rows,
{
    if rows <= 0 {
        Seq::empty()
    } else {
        wiped_rows(width, rows - 1) + wiped_row(width, rows)
    }
}

/// Whether `d` blanks a cell of a field of `width` by `height` cells.
pub open spec fn blanks_inside(d: Draw, width: int, height: int) -> bool {
    d.symbol == Symbol::Empty && 1 <= d.x <= width && 1 <= d.y <= height
}

/// Wiping the rows of a field blanks every cell of the field and nothing else.
pub proof fn lemma_wiped_rows_cover(width: int, rows: int)
    requires
        0 <= width <= u16::MAX,
        0 <= rows <= u16::MAX,
    ensures
        forall|i: int|
            0 <= i < wiped_rows(width, rows).len() ==> blanks_inside(
                #[trigger] wiped_rows(width, rows)[i],
                width,
                rows,
            ),
        forall|x: u16, y: u16|
            1 <= x <= width && 1 <= y <= rows ==> wiped_rows(width, rows).contains(
                #[trigger] draw_at(Symbol::Empty, (x, y)),
            ),
    decreases rows,
{
    if rows > 0 {
        lemma_wiped_rows_cover(width, rows - 1);
        let above = wiped_rows(width, rows - 1);
        let row = wiped_row(width, rows);
        let all = wiped_rows(width, rows);
        assert(all == above + row);
        assert forall|i: int| 0 <= i < all.len() implies blanks_inside(
            #[trigger] all[i],
            width,
            rows,
        ) by {
            if i < above.len() {
                assert(all[i] == above[i]);
            } else {
                assert(all[i] == row[i - above.len()]);
            }
        }
        assert forall|x: u16, y: u16| 1 <= x <= width && 1 <= y <= rows implies all.contains(
            #[trigger] draw_at(Symbol::Empty, (x, y)),
        ) by {
            let d = draw_at(Symbol::Empty, (x, y));
            if y < rows {
                assert(above.contains(d));
                let k = choose|k: int| 0 <= k < above.len() && above[k] == d;
                assert(all[k] == d);
            } else {
                assert(row[x - 1] == d);
                assert(all[above.len() + x - 1] == d);
            }
        }
    }
}

/// The food items of `food` that are not among `seen`, each as an instruction
/// to show it, in the order of `food`.
pub open spec fn unseen_food(food: Seq<Cell>, seen: Seq<Cell>) -> Seq<Draw> {
    food.filter(|cell: Cell| !seen.contains(cell)).map_values(
        |cell: Cell| draw_at(Symbol::Food, cell),
    )
}

/// The snake, each of its cells as an instruction to show it, head first.
pub open spec fn snake_drawn(snake: Seq<Cell>) -> Seq<Draw> {
    snake.map_values(|cell: Cell| draw_at(Symbol::Snake, cell))
}

/// What one frame draws, given the snake and the food of this frame and what
/// the frame before left behind: the food items that are new, the snake, and a
/// blank on the cell where the tail was if the tail has moved on.
pub open spec fn frame(snake: Seq<Cell>, food: Seq<Cell>, before: Shown) -> Seq<Draw> {
    unseen_food(food, before.food) + snake_drawn(snake) + (if snake.last() != before.tail {
        seq![draw_at(Symbol::Empty, before.tail)]
    } else {
        Seq::empty()
    })
}

/// What the last frame left on the terminal, as far as the next one needs it.
pub struct Shown {
    /// The cell of the snake's tail.
    pub tail: Cell,
    /// The food items.
    pub food: Seq<Cell>,
}

/// Plans what to draw from frame to frame, so that each frame draws only what
/// has changed.
#[derive(Debug)]
pub struct TerminalUI {
    tail_cache: Cell,
    food_cache: Vec<Cell>,
}

impl View for TerminalUI {
    type V = Shown;

    closed spec fn view(&self) -> Shown {
        Shown { tail: self.tail_cache, food: self.food_cache@ }
    }
}

impl Default for TerminalUI {
    fn default() -> (ui: TerminalUI)
        ensures
            ui@ == (Shown { tail: (0u16, 0u16), food: Seq::empty() }),
    {
        TerminalUI::new()
    }
}

/// The instruction that shows `symbol` at `(x, y)`.
pub fn draw(symbol: Symbol, x: u16, y: u16) -> (d: Draw)
    ensures
        d == (Draw { symbol, x, y }),
{
    Draw { symbol, x, y }
}

impl TerminalUI {
    /// A planner for a terminal on which nothing is shown yet.
    pub fn new() -> (ui: TerminalUI)
        ensures
            ui@ == (Shown { tail: (0u16, 0u16), food: Seq::empty() }),
    {
        TerminalUI { tail_cache: (0, 0), food_cache: Vec::new() }
    }

    /// What to draw before the first frame: the wall around a field of
    /// `field_width` by `field_height` cells, then a blank on every cell of
    /// the field.
    pub fn init(&mut self, field_width: u16, field_height: u16) -> (plan: Vec<Draw>)
        requires
            field_width <= u16::MAX - 2,
            field_height <= u16::MAX - 2,
        ensures
            plan@ == outline(Symbol::Wall, 0, 0, field_width + 2, field_height + 2) + wiped_rows(
                field_width as int,
                field_height as int,
            ),
            // Every cell of the field is blanked.
            forall|x: u16, y: u16|
                1 <= x <= field_width && 1 <= y <= field_height ==> plan@.contains(
                    #[trigger] draw_at(Symbol::Empty, (x, y)),
                ),
            // The wall goes on the ring around the field, and no blank goes there.
            forall|i: int|
                0 <= i < plan@.len() ==> if (#[trigger] plan@[i]).symbol == Symbol::Wall {
                    on_edge(plan@[i], 0, 0, field_width + 2, field_height + 2)
                } else {
                    blanks_inside(plan@[i], field_width as int, field_height as int)
                },
            final(self)@ == old(self)@,
    {
        let mut plan: Vec<Draw> = self.draw_field(field_width, field_height);
        let mut blanks: Vec<Draw> = self.clear_field(field_width, field_height);
        let ghost wall = plan@;
        let ghost inside = blanks@;
        plan.append(&mut blanks);
        proof {
            lemma_outline_on_edge(Symbol::Wall, 0, 0, field_width + 2, field_height + 2);
            assert forall|x: u16, y: u16|
                1 <= x <= field_width && 1 <= y <= field_height implies plan@.contains(
                #[trigger] draw_at(Symbol::Empty, (x, y)),
            ) by {
                let d = draw_at(Symbol::Empty, (x, y));
                let k = choose|k: int| 0 <= k < inside.len() && inside[k] == d;
                assert(plan@[wall.len() + k] == d);
            }
            assert forall|i: int| 0 <= i < plan@.len() implies if (#[trigger] plan@[i]).symbol
                == Symbol::Wall {
                on_edge(plan@[i], 0, 0, field_width + 2, field_height + 2)
            } else {
                blanks_inside(plan@[i], field_width as int, field_height as int)
            } by {
                if i < wall.len() {
                    assert(plan@[i] == wall[i]);
                } else {
                    assert(plan@[i] == inside[i - wall.len()]);
                }
            }
        }
        plan
    }

    /// What to draw for one frame. The planner then remembers the tail and the
    /// food of this frame for the next one.
    pub fn render(&mut self, snake: &[Cell], food: &Vec<Cell>) -> (plan: Vec<Draw>)
        requires
            snake@.len() > 0,
        ensures
            plan@ == frame(snake@, food@, old(self)@),
            final(self)@ == (Shown { tail: snake@.last(), food: food@ }),
    {
        let ghost unseen = |cell: Cell| !self.food_cache@.contains(cell);
        let ghost show = |cell: Cell| draw_at(Symbol::Food, cell);
        let mut plan: Vec<Draw> = Vec::new();
        let mut kept: Vec<Cell> = Vec::new();
        let mut i: usize = 0;
        assert(food@.take(0).filter(unseen) =~= Seq::empty());
        while i < food.len()
            invariant
                i <= food@.len(),
                kept@ == food@.take(i as int),
                plan@ == food@.take(i as int).filter(unseen).map_values(show),
                unseen == |cell: Cell| !self.food_cache@.contains(cell),
                show == |cell: Cell| draw_at(Symbol::Food, cell),
            decreases food@.len() - i,
        {
            let pos: Cell = food[i];
            let ghost before = food@.take(i as int);
            let ghost after = food@.take(i + 1);
            assert(after.drop_last() =~= before);
            assert(after.last() == pos);
            reveal(Seq::filter);
            if !occupies(self.food_cache.as_slice(), pos) {
                plan.push(self.draw_food(&pos));
                assert(after.filter(unseen) =~= before.filter(unseen).push(pos));
            } else {
                assert(after.filter(unseen) =~= before.filter(unseen));
            }
            kept.push(pos);
            i += 1;
            assert(kept@ =~= after);
            assert(plan@ =~= after.filter(unseen).map_values(show));
        }
        assert(food@.take(food@.len() as int) =~= food@);
        let ghost fresh = plan@;
        let mut j: usize = 0;
        while j < snake.len()
            invariant
                j <= snake@.len(),
                plan@ == fresh + snake_drawn(snake@.take(j as int)),
            decreases snake@.len() - j,
        {
            plan.push(self.draw_snake(&snake[j]));
            j += 1;
            assert(plan@ =~= fresh + snake_drawn(snake@.take(j as int)));
        }
        assert(snake@.take(snake@.len() as int) =~= snake@);
        let tail: Cell = snake[snake.len() - 1];
        if tail.0 != self.tail_cache.0 || tail.1 != self.tail_cache.1 {
            plan.push(self.clear(self.tail_cache));
        }
        self.tail_cache = tail;
        self.food_cache = kept;
        assert(plan@ =~= frame(snake@, food@, old(self)@));
        plan
    }

    /// The wall around a field of `width` by `height` cells: a box whose top
    /// left corner is the terminal's.
    pub fn draw_field(&self, width: u16, height: u16) -> (plan: Vec<Draw>)
        requires
            width <= u16::MAX - 2,
            height <= u16::MAX - 2,
        ensures
            plan@ == outline(Symbol::Wall, 0, 0, width + 2, height + 2),
    {
        self.draw_box(Symbol::Wall, 0, 0, width + 2, height + 2)
    }

    /// The instruction that shows a piece of the snake on `pos`.
    pub fn draw_snake(&self, pos: &Cell) -> (d: Draw)
        ensures
            d == draw_at(Symbol::Snake, *pos),
    {
        draw(Symbol::Snake, pos.0, pos.1)
    }

    /// The instruction that shows a food item on `pos`.
    pub fn draw_food(&self, pos: &Cell) -> (d: Draw)
        ensures
            d == draw_at(Symbol::Food, *pos),
    {
        draw(Symbol::Food, pos.0, pos.1)
    }

    /// The instruction that blanks `pos`.
    pub fn clear(&self, pos: Cell) -> (d: Draw)
        ensures
            d == draw_at(Symbol::Empty, pos),
    {
        draw(Symbol::Empty, pos.0, pos.1)
    }

    /// The outline of a box of width `w` and height `h` with its top left
    /// corner at `(x, y)`. A box with columns has at least one row and lies
    /// within the coordinate range. A box without columns has at most two rows,
    /// so that it has no sides either, and nothing is drawn for it.
    pub fn draw_box(&self, symbol: Symbol, x: u16, y: u16, w: u16, h: u16) -> (plan: Vec<Draw>)
        requires
            w == 0 ==> h <= 2,
            w >= 1 ==> h >= 1 && x + w - 1 <= u16::MAX && y + h - 1 <= u16::MAX,
        ensures
            plan@ == outline(symbol, x as int, y as int, w as int, h as int),
            w == 0 ==> plan@.len() == 0,
    {
        let ghost rows = outline_rows(symbol, x as int, y as int, w as int, h as int);
        let ghost sides = outline_sides(symbol, x as int, y as int, w as int, h as int);
        let mut plan: Vec<Draw> = Vec::new();
        if w == 0 {
            assert(plan@ =~= rows + sides);
            return plan;
        }
        let bottom: u16 = y + (h - 1);
        let right: u16 = x + (w - 1);
        let mut i: u16 = 0;
        while i < w
            invariant
                i <= w,
                x + w - 1 <= u16::MAX,
                bottom == y + h - 1,
                rows == outline_rows(symbol, x as int, y as int, w as int, h as int),
                plan@ == rows.take(2 * i),
            decreases w - i,
        {
            plan.push(draw(symbol, x + i, y));
            plan.push(draw(symbol, x + i, bottom));
            assert(rows[2 * i] == (Draw { symbol, x: (x + i) as u16, y }));
            assert(rows[2 * i + 1] == (Draw { symbol, x: (x + i) as u16, y: bottom }));
            i += 1;
            assert(plan@ =~= rows.take(2 * i));
        }
        assert(plan@ =~= rows);
        if h > 1 {
            let mut j: u16 = 1;
            while j < h - 1
                invariant
                    1 <= j <= h - 1,
                    y + h - 1 <= u16::MAX,
                    right == x + w - 1,
                    sides == outline_sides(symbol, x as int, y as int, w as int, h as int),
                    plan@ == rows + sides.take(2 * (j - 1)),
                decreases h - j,
            {
                plan.push(draw(symbol, x, y + j));
                plan.push(draw(symbol, right, y + j));
                assert(sides[2 * (j - 1)] == (Draw { symbol, x, y: (y + j) as u16 }));
                assert(sides[2 * (j - 1) + 1] == (Draw { symbol, x: right, y: (y + j) as u16 }));
                j += 1;
                assert(plan@ =~= rows + sides.take(2 * (j - 1)));
            }
            assert(sides.take(2 * (j - 1)) =~= sides);
        } else {
            assert(plan@ =~= rows + sides);
        }
        plan
    }

    /// Blanks for the inside of a field of `width` by `height` cells: every
    /// cell from column 1 to `width` and from row 1 to `height`, row by row.
    pub fn clear_field(&self, width: u16, height: u16) -> (plan: Vec<Draw>)
        ensures
            plan@ == wiped_rows(width as int, height as int),
            // Every cell of the field is blanked.
            forall|x: u16, y: u16|
                1 <= x <= width && 1 <= y <= height ==> plan@.contains(
                    #[trigger] draw_at(Symbol::Empty, (x, y)),
                ),
            // Nothing outside the field is touched.
            forall|i: int|
                0 <= i < plan@.len() ==> blanks_inside(
                    #[trigger] plan@[i],
                    width as int,
                    height as int,
                ),
    {
        let mut plan: Vec<Draw> = Vec::new();
        let mut y: u32 = 1;
        while y <= height as u32
            invariant
                1 <= y <= height + 1,
                plan@ == wiped_rows(width as int, y - 1),
            decreases height + 1 - y,
        {
            let ghost above = plan@;
            let ghost row = wiped_row(width as int, y as int);
            let mut x: u32 = 1;
            assert(plan@ =~= above + row.take(0));
            while x <= width as u32
                invariant
                    1 <= x <= width + 1,
                    1 <= y <= height,
                    row == wiped_row(width as int, y as int),
                    plan@ == above + row.take(x - 1),
                decreases width + 1 - x,
            {
                plan.push(self.clear((x as u16, y as u16)));
                assert(row[x - 1] == draw_at(Symbol::Empty, (x as u16, y as u16)));
                x += 1;
                assert(plan@ =~= above + row.take(x - 1));
            }
            assert(row.take(x - 1) =~= row);
            y += 1;
        }
        proof {
            lemma_wiped_rows_cover(width as int, height as int);
        }
        plan
    }
}

} // verus!
