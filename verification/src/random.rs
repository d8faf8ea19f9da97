//! Where the engine gets its random numbers, and how it places food with them.

use crate::field::{Bounds, Cell, Field};
use vstd::prelude::*;

verus! {

/// One draw from a random source: the range that was asked for and the number
/// that came back.
pub struct Sample {
    pub low: u16,
    pub high: u16,
    pub value: u16,
}

/// A supplier of random integers. The engine draws through this interface
/// alone, so a host can hand it the thread's generator and a test can hand it
/// a fixed sequence.
///
/// A source keeps a record of what it has handed out. Nothing is known of a
/// number before it is drawn; the record lets a contract say which draws a
/// function made and what it did with each.
pub trait RandomSource {
    /// Every draw made from this source so far, oldest first.
    spec fn samples(&self) -> Seq<Sample>;

    /// An integer between `low` and `high`, both included.
    fn next_in_range(&mut self, low: u16, high: u16) -> (drawn: u16)
        requires
            low <= high,
        ensures
            low <= drawn <= high,
            final(self).samples() == old(self).samples().push(Sample { low, high, value: drawn }),
    ;
}

/// Calls `rand::random_range` on the inclusive range from `low` to `high`,
/// which draws from the thread-local generator. The range must not be empty:
/// on an empty range that function panics. All that is claimed of the result
/// is that it lies in the range.
#[verifier::external_body]
fn thread_random_in_range(low: u16, high: u16) -> (drawn: u16)
    requires
        low <= high,
    ensures
        low <= drawn <= high,
{
    rand::random_range(low..=high)
}

/// The thread-local random number generator.
pub struct ThreadRandom {
    samples: Ghost<Seq<Sample>>,
}

impl ThreadRandom {
    /// A handle on the thread's generator from which nothing was drawn yet.
    pub fn new() -> (rng: ThreadRandom)
        ensures
            rng.samples() == Seq::<Sample>::empty(),
    {
        ThreadRandom { samples: Ghost(Seq::empty()) }
    }
}

impl RandomSource for ThreadRandom {
    closed spec fn samples(&self) -> Seq<Sample> {
        self.samples@
    }

    fn next_in_range(&mut self, low: u16, high: u16) -> (drawn: u16) {
        let drawn: u16 = thread_random_in_range(low, high);
        self.samples = Ghost(self.samples@.push(Sample { low, high, value: drawn }));
        drawn
    }
}

/// A value forced into the range from `low` to `high`.
pub open spec fn clamped(value: u16, low: u16, high: u16) -> u16 {
    if value < low {
        low
    } else if value > high {
        high
    } else {
        value
    }
}

/// What a scripted source holds: the values it replays and the place of the
/// next one among them.
pub struct Script {
    pub values: Seq<u16>,
    pub next: nat,
}

impl Script {
    /// The value that the next draw is made from; zero where the script is empty.
    pub open spec fn upcoming(self) -> u16 {
        if self.next < self.values.len() {
            self.values[self.next as int]
        } else {
            0
        }
    }

    /// The script after one draw. It starts over when it runs out.
    pub open spec fn stepped(self) -> Script {
        Script {
            values: self.values,
            next: if self.next + 1 < self.values.len() {
                self.next + 1
            } else {
                0
            },
        }
    }
}

/// A source that replays a fixed script, for reproducible games. Each draw
/// takes the next value of the script, clamped into the range asked for.
pub struct ScriptedSource {
    values: Vec<u16>,
    next: usize,
    samples: Ghost<Seq<Sample>>,
}

impl View for ScriptedSource {
    type V = Script;

    closed spec fn view(&self) -> Script {
        Script { values: self.values@, next: self.next as nat }
    }
}

impl ScriptedSource {
    /// A source that replays `values` from the start.
    pub fn new(values: Vec<u16>) -> (source: ScriptedSource)
        ensures
            source@ == (Script { values: values@, next: 0 }),
            source.samples() == Seq::<Sample>::empty(),
    {
        ScriptedSource { values, next: 0, samples: Ghost(Seq::empty()) }
    }

    /// The next draw, with what the source holds afterwards stated exactly.
    pub fn draw(&mut self, low: u16, high: u16) -> (drawn: u16)
        requires
            low <= high,
        ensures
            drawn == clamped(old(self)@.upcoming(), low, high),
            final(self)@ == old(self)@.stepped(),
            final(self).samples() == old(self).samples().push(Sample { low, high, value: drawn }),
    {
        let len: usize = self.values.len();
        let value: u16 = if self.next < len {
            self.values[self.next]
        } else {
            0
        };
        self.next = if self.next < len && self.next + 1 < len {
            self.next + 1
        } else {
            0
        };
        let drawn: u16 = if value < low {
            low
        } else if value > high {
            high
        } else {
            value
        };
        self.samples = Ghost(self.samples@.push(Sample { low, high, value: drawn }));
        drawn
    }
}

/// A source that draws by calling a function of the host, for a generator that
/// the library does not know. Whatever the function hands back is clamped into
/// the range asked for, so that a function that misses the range by its own
/// rounding still serves.
pub struct FnSource<F: Fn(u16, u16) -> u16> {
    draw: F,
    samples: Ghost<Seq<Sample>>,
}

impl<F: Fn(u16, u16) -> u16> FnSource<F> {
    /// The function may be called on every range that is not empty.
    #[verifier::type_invariant]
    pub open spec fn wf(&self) -> bool {
        forall|low: u16, high: u16| low <= high ==> call_requires(self.function(), (low, high))
    }

    /// The function that this source calls.
    pub closed spec fn function(&self) -> F {
        self.draw
    }

    /// A source that calls `draw` with the ends of the range, both included.
    pub fn new(draw: F) -> (source: FnSource<F>)
        requires
            forall|low: u16, high: u16| low <= high ==> call_requires(draw, (low, high)),
        ensures
            source.function() == draw,
            source.samples() == Seq::<Sample>::empty(),
    {
        FnSource { draw, samples: Ghost(Seq::empty()) }
    }
}

impl<F: Fn(u16, u16) -> u16> RandomSource for FnSource<F> {
    closed spec fn samples(&self) -> Seq<Sample> {
        self.samples@
    }

    fn next_in_range(&mut self, low: u16, high: u16) -> (drawn: u16)
        ensures
            final(self).function() == old(self).function(),
            exists|raw: u16| #[trigger]
                call_ensures(old(self).function(), (low, high), raw) && drawn == clamped(
                    raw,
                    low,
                    high,
                ),
    {
        proof {
            use_type_invariant(&*self);
        }
        assert(self.function() == self.draw);
        assert(call_requires(self.draw, (low, high)));
        let raw: u16 = (self.draw)(low, high);
        let drawn: u16 = if raw < low {
            low
        } else if raw > high {
            high
        } else {
            raw
        };
        self.samples = Ghost(self.samples@.push(Sample { low, high, value: drawn }));
        assert(call_ensures(old(self).function(), (low, high), raw));
        drawn
    }
}

impl RandomSource for ScriptedSource {
    closed spec fn samples(&self) -> Seq<Sample> {
        self.samples@
    }

    fn next_in_range(&mut self, low: u16, high: u16) -> (drawn: u16)
        ensures
            drawn == clamped(old(self)@.upcoming(), low, high),
            final(self)@ == old(self)@.stepped(),
    {
        self.draw(low, high)
    }
}

/// The two draws by which `cell` comes out of the rectangle: its column from
/// the columns, then its row from the rows.
pub open spec fn cell_samples(bounds: Bounds, cell: Cell) -> Seq<Sample> {
    seq![
        Sample { low: bounds.x_min as u16, high: bounds.x_max as u16, value: cell.0 },
        Sample { low: bounds.y_min as u16, high: bounds.y_max as u16, value: cell.1 },
    ]
}

/// The draws by which `cells` come out of the rectangle one after another.
pub open spec fn cells_samples(bounds: Bounds, cells: Seq<Cell>) -> Seq<Sample> {
    Seq::new(
        2 * cells.len(),
        |k: int|
            if k % 2 == 0 {
                Sample { low: bounds.x_min as u16, high: bounds.x_max as u16, value: cells[k / 2].0 }
            } else {
                Sample { low: bounds.y_min as u16, high: bounds.y_max as u16, value: cells[k / 2].1 }
            },
    )
}

/// The cells that a run of draws yields when each two in a row make a cell.
pub open spec fn sampled_cells(samples: Seq<Sample>) -> Seq<Cell> {
    Seq::new(samples.len() / 2, |i: int| (samples[2 * i].value, samples[2 * i + 1].value))
}

/// The cells drawn between two records of one source, of which `before` is the
/// earlier.
pub open spec fn cells_since(before: Seq<Sample>, after: Seq<Sample>) -> Seq<Cell> {
    sampled_cells(after.skip(before.len() as int))
}

/// The cell that rejection sampling settles on when it has drawn `tried`: the
/// last one, if that is not excluded.
pub open spec fn settled(tried: Seq<Cell>, exclude: Seq<Cell>) -> Option<Cell> {
    if tried.len() > 0 && !exclude.contains(tried.last()) {
        Some(tried.last())
    } else {
        None
    }
}

/// Whether `tried` is a full run of rejection sampling with at most `attempts`
/// draws: every cell but the last was excluded and drawing went on, and the
/// last was either free or the last that was allowed.
pub open spec fn sampling_done(tried: Seq<Cell>, exclude: Seq<Cell>, attempts: nat) -> bool {
    &&& tried.len() <= attempts
    &&& forall|i: int| 0 <= i < tried.len() - 1 ==> exclude.contains(#[trigger] tried[i])
    &&& settled(tried, exclude) is None ==> tried.len() == attempts
}

/// The cells read back from the draws for `cells` are `cells`.
pub proof fn lemma_sampled_cells(bounds: Bounds, cells: Seq<Cell>)
    ensures
        sampled_cells(cells_samples(bounds, cells)) == cells,
{
    assert(sampled_cells(cells_samples(bounds, cells)) =~= cells);
}

/// Drawing one more cell adds its two draws to the record.
pub proof fn lemma_cells_samples_push(bounds: Bounds, cells: Seq<Cell>, cell: Cell)
    ensures
        cells_samples(bounds, cells.push(cell)) == cells_samples(bounds, cells) + cell_samples(
            bounds,
            cell,
        ),
{
    assert(cells_samples(bounds, cells.push(cell)) =~= cells_samples(bounds, cells)
        + cell_samples(bounds, cell));
}

/// Drawing no cell leaves the record as it is, and drawing one adds its two
/// draws.
pub proof fn lemma_cells_samples_few(bounds: Bounds, before: Seq<Sample>, cell: Cell)
    ensures
        before + cells_samples(bounds, Seq::empty()) == before,
        cells_samples(bounds, seq![cell]) == cell_samples(bounds, cell),
{
    assert(before + cells_samples(bounds, Seq::empty()) =~= before);
    assert(cells_samples(bounds, seq![cell]) =~= cell_samples(bounds, cell));
}

/// A record that grew by the draws for `front` and then by those for `back` has
/// grown by the draws for both, and `back` is what was drawn last.
pub proof fn lemma_record_grows(
    bounds: Bounds,
    before: Seq<Sample>,
    front: Seq<Cell>,
    back: Seq<Cell>,
)
    ensures
        before + cells_samples(bounds, front) + cells_samples(bounds, back) == before
            + cells_samples(bounds, front + back),
        (front + back).skip(front.len() as int) == back,
{
    lemma_cells_samples_add(bounds, front, back);
    assert(before + cells_samples(bounds, front) + cells_samples(bounds, back) =~= before + (
    cells_samples(bounds, front) + cells_samples(bounds, back)));
    assert((front + back).skip(front.len() as int) =~= back);
}

/// Drawing one run of cells after another adds up their draws.
pub proof fn lemma_cells_samples_add(bounds: Bounds, front: Seq<Cell>, back: Seq<Cell>)
    ensures
        cells_samples(bounds, front + back) == cells_samples(bounds, front) + cells_samples(
            bounds,
            back,
        ),
{
    assert(cells_samples(bounds, front + back) =~= cells_samples(bounds, front) + cells_samples(
        bounds,
        back,
    ));
}

/// A record that grew by the draws for `cells` yields `cells` as what was drawn
/// since.
pub proof fn lemma_cells_since(before: Seq<Sample>, bounds: Bounds, cells: Seq<Cell>)
    ensures
        cells_since(before, before + cells_samples(bounds, cells)) == cells,
{
    assert((before + cells_samples(bounds, cells)).skip(before.len() as int) =~= cells_samples(
        bounds,
        cells,
    ));
    lemma_sampled_cells(bounds, cells);
}

/// Whether `cell` is among `cells`.
pub fn occupies(cells: &[Cell], cell: Cell) -> (found: bool)
    ensures
        found == cells@.contains(cell),
{
    let mut i: usize = 0;
    while i < cells.len()
        invariant
            forall|j: int| 0 <= j < i && j < cells@.len() ==> cells@[j] != cell,
        decreases cells@.len() - i,
    {
        if cells[i].0 == cell.0 && cells[i].1 == cell.1 {
            return true;
        }
        i += 1;
    }
    false
}

/// Draws a cell of the field: first its column, then its row.
pub fn random_position<R: RandomSource>(field: &Field, rng: &mut R) -> (cell: Cell)
    ensures
        field@.contains(cell),
        final(rng).samples() == old(rng).samples() + cell_samples(field@, cell),
{
    let x: u16 = rng.next_in_range(field.x_min(), field.x_max());
    let y: u16 = rng.next_in_range(field.y_min(), field.y_max());
    assert(rng.samples() =~= old(rng).samples() + cell_samples(field@, (x, y)));
    (x, y)
}

/// Draws cells of the field until one is not among `exclude`, and gives up after
/// `attempts` draws.
///
/// The cells drawn are on the source's record. Of these every one but the last
/// was excluded. The last comes back if it is not excluded; if it is, it was
/// the last attempt, and nothing comes back.
pub fn random_exclude<R: RandomSource>(
    field: &Field,
    rng: &mut R,
    exclude: &[Cell],
    attempts: u32,
) -> (spot: Option<Cell>)
    ensures
        final(rng).samples() == old(rng).samples() + cells_samples(
            field@,
            cells_since(old(rng).samples(), final(rng).samples()),
        ),
        field@.encloses(cells_since(old(rng).samples(), final(rng).samples())),
        sampling_done(
            cells_since(old(rng).samples(), final(rng).samples()),
            exclude@,
            attempts as nat,
        ),
        spot == settled(cells_since(old(rng).samples(), final(rng).samples()), exclude@),
        spot matches Some(cell) ==> field@.contains(cell) && !exclude@.contains(cell),
        // With nothing in the way the first draw is taken.
        attempts > 0 && (forall|cell: Cell|
            field@.contains(cell) ==> !#[trigger] exclude@.contains(cell)) ==> spot is Some,
{
    let ghost before = rng.samples();
    let ghost mut tried: Seq<Cell> = Seq::empty();
    let mut left: u32 = attempts;
    assert(rng.samples() =~= before + cells_samples(field@, tried));
    while left > 0
        invariant
            before == old(rng).samples(),
            rng.samples() == before + cells_samples(field@, tried),
            field@.encloses(tried),
            tried.len() + left == attempts,
            forall|i: int| 0 <= i < tried.len() ==> exclude@.contains(#[trigger] tried[i]),
        decreases left,
    {
        let candidate: Cell = random_position(field, rng);
        proof {
            lemma_cells_samples_push(field@, tried, candidate);
            assert(rng.samples() =~= before + cells_samples(field@, tried.push(candidate)));
            tried = tried.push(candidate);
        }
        if !occupies(exclude, candidate) {
            proof {
                lemma_cells_since(before, field@, tried);
            }
            return Some(candidate);
        }
        left -= 1;
    }
    proof {
        lemma_cells_since(before, field@, tried);
        if tried.len() > 0 {
            assert(exclude@.contains(tried[tried.len() - 1]));
            assert(field@.contains(tried[0]));
        }
    }
    None
}

} // verus!
