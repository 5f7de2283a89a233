use vstd::prelude::*;

use crate::grid::{
    next_generation, seed_pattern, valid_size, Grid, FIRST_PERIOD, PERIOD_BOUND, SECOND_PERIOD,
};

verus! {

/// The side of the default square board.
pub const DEFAULT_SIDE: u32 = 48;

/// The largest side a resize accepts.
pub const MAX_SIDE: u32 = 256;

/// An event delivered to the controller.
pub enum Msg {
    /// Start running; asks for a tick if none is outstanding.
    Start,
    /// The scheduler's tick arrived; `true` when a positive time elapsed since
    /// the previous frame.
    Tick(bool),
    /// Stop running; a tick already asked for still arrives, and is ignored.
    Stop,
    /// Reseed the board at its current size with random periods.
    Shuffle,
    /// Rebuild the default board with the fixed seed.
    Reset,
    /// Rebuild the board at the pending size with the fixed seed.
    Resize,
    /// Text typed for the pending width.
    SetX(String),
    /// Text typed for the pending height.
    SetY(String),
}

/// The state of one simulation: its board and what drives it.
pub struct Model {
    pub grid: Grid,
    /// Generations advanced since the board was last built.
    pub counter: u32,
    /// Whether ticks advance the board.
    pub running: bool,
    /// Whether a tick has been asked for and has not arrived yet.
    pub armed: bool,
    pub default_size: (u32, u32),
    /// Width and height staged for the next resize.
    pub pending_size: (u32, u32),
}

/// A size that a resize may build: both sides in `1..=MAX_SIDE`.
pub open spec fn side_ok(size: (u32, u32)) -> bool {
    1 <= size.0 <= MAX_SIDE && 1 <= size.1 <= MAX_SIDE
}

/// The size a resize builds: the pending size if usable, else the default size.
pub open spec fn resize_target(pending: (u32, u32), default_size: (u32, u32)) -> (u32, u32) {
    if side_ok(pending) {
        pending
    } else {
        default_size
    }
}

/// An ASCII decimal digit.
pub open spec fn is_digit(c: char) -> bool {
    '0' <= c && c <= '9'
}

/// The value of a string of decimal digits.
pub open spec fn digits_value(s: Seq<char>) -> int
    decreases s.len(),
{
    if s.len() == 0 {
        0
    } else {
        digits_value(s.drop_last()) * 10 + ((s.last() as int) - ('0' as int))
    }
}

/// A `u32` read from text: an optional `+` and then one or more decimal
/// digits whose value fits in `u32`; anything else reads as nothing.
pub open spec fn parsed_u32(s: Seq<char>) -> Option<u32> {
    let d = if s.len() > 0 && s[0] == '+' {
        s.drop_first()
    } else {
        s
    };
    if d.len() > 0 && (forall|i: int| 0 <= i < d.len() ==> is_digit(#[trigger] d[i]))
        && digits_value(d) <= u32::MAX {
        Some(digits_value(d) as u32)
    } else {
        None
    }
}

/// Relies on str::parse::<u32> (u32's FromStr): it accepts exactly an optional
/// `+` followed by one or more decimal digits whose value fits in `u32`.
#[verifier::external_body]
fn parse_u32(text: &str) -> (r: Option<u32>)
    ensures
        r == parsed_u32(text@),
{
    text.parse::<u32>().ok()
}

/// The counter after one more generation; it stops at `u32::MAX`.
pub open spec fn counted(c: u32) -> u32 {
    if c < u32::MAX {
        (c + 1) as u32
    } else {
        c
    }
}

/// `a` and `b` hold the same board.
pub open spec fn same_grid(a: Grid, b: Grid) -> bool {
    a.width == b.width && a.height == b.height && a.cells@ == b.cells@
}

/// Board, counter and sizes are unchanged from `pre` to `post`.
pub open spec fn kept(pre: Model, post: Model) -> bool {
    &&& same_grid(pre.grid, post.grid)
    &&& post.counter == pre.counter
    &&& post.default_size == pre.default_size
    &&& post.pending_size == pre.pending_size
}

/// `post` is `pre` rebuilt, stopped, at `size` with the fixed seed.
pub open spec fn rebuilt(pre: Model, post: Model, size: (u32, u32)) -> bool {
    &&& post.grid.width == size.0
    &&& post.grid.height == size.1
    &&& post.grid.cells@ == seed_pattern(
        (size.0 * size.1) as nat,
        FIRST_PERIOD as nat,
        SECOND_PERIOD as nat,
    )
    &&& post.counter == 0
    &&& !post.running
    &&& post.armed == pre.armed
    &&& post.default_size == pre.default_size
    &&& post.pending_size == size
}

/// What handling `msg` does: `pre` becomes `post`, and `request` says whether
/// one tick is asked for from the scheduler.
pub open spec fn handled(pre: Model, msg: Msg, post: Model, request: bool) -> bool {
    match msg {
        Msg::Start => {
            &&& kept(pre, post)
            &&& post.running
            &&& post.armed
            &&& request == !pre.armed
        },
        Msg::Tick(elapsed) => if pre.running {
            &&& request
            &&& post.running
            &&& post.armed
            &&& post.default_size == pre.default_size
            &&& post.pending_size == pre.pending_size
            &&& if elapsed {
                &&& post.grid.width == pre.grid.width
                &&& post.grid.height == pre.grid.height
                &&& post.grid.cells@ == next_generation(
                    pre.grid.cells@,
                    pre.grid.width as int,
                    pre.grid.height as int,
                )
                &&& post.counter == counted(pre.counter)
            } else {
                &&& same_grid(pre.grid, post.grid)
                &&& post.counter == pre.counter
            }
        } else {
            &&& kept(pre, post)
            &&& !request
            &&& !post.running
            &&& !post.armed
        },
        Msg::Stop => {
            &&& kept(pre, post)
            &&& !request
            &&& !post.running
            &&& post.armed == pre.armed
        },
        Msg::Shuffle => {
            &&& !request
            &&& post.grid.width == pre.grid.width
            &&& post.grid.height == pre.grid.height
            &&& exists|first: nat, second: nat|
                1 <= first < PERIOD_BOUND && 1 <= second < PERIOD_BOUND && post.grid.cells@
                    == #[trigger] seed_pattern(
                    (pre.grid.width * pre.grid.height) as nat,
                    first,
                    second,
                )
            &&& post.counter == 0
            &&& !post.running
            &&& post.armed == pre.armed
            &&& post.default_size == pre.default_size
            &&& post.pending_size == (pre.grid.width, pre.grid.height)
        },
        Msg::Reset => !request && rebuilt(pre, post, pre.default_size),
        Msg::Resize => !request && rebuilt(
            pre,
            post,
            resize_target(pre.pending_size, pre.default_size),
        ),
        Msg::SetX(text) => {
            &&& !request
            &&& same_grid(pre.grid, post.grid)
            &&& post.counter == pre.counter
            &&& post.running == pre.running
            &&& post.armed == pre.armed
            &&& post.default_size == pre.default_size
            &&& post.pending_size == match parsed_u32(text@) {
                Some(v) => (v, pre.pending_size.1),
                None => pre.pending_size,
            }
        },
        Msg::SetY(text) => {
            &&& !request
            &&& same_grid(pre.grid, post.grid)
            &&& post.counter == pre.counter
            &&& post.running == pre.running
            &&& post.armed == pre.armed
            &&& post.default_size == pre.default_size
            &&& post.pending_size == match parsed_u32(text@) {
                Some(v) => (pre.pending_size.0, v),
                None => pre.pending_size,
            }
        },
    }
}

impl Model {
    /// The board is well formed, a running model always has a tick on its way,
    /// and the default size can be built.
    pub open spec fn wf(&self) -> bool {
        &&& self.grid.wf()
        &&& self.running ==> self.armed
        &&& side_ok(self.default_size)
    }

    /// A stopped model on a `width` by `height` board, seeded with random
    /// periods if `random` and with the fixed ones otherwise; its default size
    /// is `DEFAULT_SIDE` square.
    pub fn new(width: u32, height: u32, random: bool) -> (r: Model)
        requires
            valid_size(width, height),
        ensures
            r.wf(),
            r.grid.width == width,
            r.grid.height == height,
            !random ==> r.grid.cells@ == seed_pattern(
                (width * height) as nat,
                FIRST_PERIOD as nat,
                SECOND_PERIOD as nat,
            ),
            random ==> exists|first: nat, second: nat|
                1 <= first < PERIOD_BOUND && 1 <= second < PERIOD_BOUND && r.grid.cells@
                    == #[trigger] seed_pattern((width * height) as nat, first, second),
            r.counter == 0,
            !r.running,
            !r.armed,
            r.default_size == (DEFAULT_SIDE, DEFAULT_SIDE),
            r.pending_size == (width, height),
    {
        let grid = if random {
            Grid::random(width, height)
        } else {
            Grid::fixed(width, height)
        };
        Model {
            grid,
            counter: 0,
            running: false,
            armed: false,
            default_size: (DEFAULT_SIDE, DEFAULT_SIDE),
            pending_size: (width, height),
        }
    }

    /// A stopped model whose default size is `width` by `height`, on a board
    /// of that size with the fixed seed.
    pub fn with_default_size(width: u32, height: u32) -> (r: Model)
        requires
            side_ok((width, height)),
        ensures
            r.wf(),
            r.grid.width == width,
            r.grid.height == height,
            r.grid.cells@ == seed_pattern(
                (width * height) as nat,
                FIRST_PERIOD as nat,
                SECOND_PERIOD as nat,
            ),
            r.counter == 0,
            !r.running,
            !r.armed,
            r.default_size == (width, height),
            r.pending_size == (width, height),
    {
        proof {
            assert(width * height <= MAX_SIDE * MAX_SIDE) by (nonlinear_arith)
                requires
                    width <= MAX_SIDE,
                    height <= MAX_SIDE,
            ;
        }
        Model {
            grid: Grid::fixed(width, height),
            counter: 0,
            running: false,
            armed: false,
            default_size: (width, height),
            pending_size: (width, height),
        }
    }

    /// Advances the board by one generation; nothing else changes.
    pub fn tick(&mut self)
        requires
            old(self).wf(),
        ensures
            final(self).wf(),
            final(self).grid.width == old(self).grid.width,
            final(self).grid.height == old(self).grid.height,
            final(self).grid.cells@ == next_generation(
                old(self).grid.cells@,
                old(self).grid.width as int,
                old(self).grid.height as int,
            ),
            final(self).counter == old(self).counter,
            final(self).running == old(self).running,
            final(self).armed == old(self).armed,
            final(self).default_size == old(self).default_size,
            final(self).pending_size == old(self).pending_size,
    {
        self.grid.advance();
    }

    /// Replaces the board with a stopped one of `size` and the fixed seed.
    fn rebuild(&mut self, size: (u32, u32))
        requires
            old(self).wf(),
            valid_size(size.0, size.1),
        ensures
            final(self).wf(),
            rebuilt(*old(self), *final(self), size),
    {
        self.grid = Grid::fixed(size.0, size.1);
        self.counter = 0;
        self.running = false;
        self.pending_size = size;
    }
}

/// The default model: a stopped `DEFAULT_SIDE` square board with the fixed seed.
pub fn init() -> (r: Model)
    ensures
        r.wf(),
        r.grid.width == DEFAULT_SIDE,
        r.grid.height == DEFAULT_SIDE,
        r.grid.cells@ == seed_pattern(
            (DEFAULT_SIDE * DEFAULT_SIDE) as nat,
            FIRST_PERIOD as nat,
            SECOND_PERIOD as nat,
        ),
        r.counter == 0,
        !r.running,
        !r.armed,
        r.default_size == (DEFAULT_SIDE, DEFAULT_SIDE),
        r.pending_size == (DEFAULT_SIDE, DEFAULT_SIDE),
{
    Model::with_default_size(DEFAULT_SIDE, DEFAULT_SIDE)
}

/// Handles one event. Returns whether one tick must be asked for from the
/// scheduler; at most one is ever outstanding.
pub fn update(msg: Msg, model: &mut Model) -> (request: bool)
    requires
        old(model).wf(),
    ensures
        final(model).wf(),
        handled(*old(model), msg, *final(model), request),
{
    match msg {
        Msg::Start => {
            if model.running {
                return false;
            }
            model.running = true;
            if model.armed {
                false
            } else {
                model.armed = true;
                true
            }
        },
        Msg::Tick(elapsed) => {
            model.armed = false;
            if !model.running {
                return false;
            }
            model.armed = true;
            if elapsed {
                model.tick();
                if model.counter < u32::MAX {
                    model.counter = model.counter + 1;
                }
            }
            true
        },
        Msg::Stop => {
            model.running = false;
            false
        },
        Msg::Shuffle => {
            let width = model.grid.width;
            let height = model.grid.height;
            model.grid = Grid::random(width, height);
            model.counter = 0;
            model.running = false;
            model.pending_size = (width, height);
            false
        },
        Msg::Reset => {
            let size = model.default_size;
            proof {
                assert(size.0 * size.1 <= MAX_SIDE * MAX_SIDE) by (nonlinear_arith)
                    requires
                        size.0 <= MAX_SIDE,
                        size.1 <= MAX_SIDE,
                ;
            }
            model.rebuild(size);
            false
        },
        Msg::Resize => {
            let pending = model.pending_size;
            let size = if 1 <= pending.0 && pending.0 <= MAX_SIDE && 1 <= pending.1 && pending.1
                <= MAX_SIDE {
                pending
            } else {
                model.default_size
            };
            proof {
                assert(size.0 * size.1 <= MAX_SIDE * MAX_SIDE) by (nonlinear_arith)
                    requires
                        size.0 <= MAX_SIDE,
                        size.1 <= MAX_SIDE,
                ;
            }
            model.rebuild(size);
            false
        },
        Msg::SetX(text) => {
            if let Some(v) = parse_u32(text.as_str()) {
                model.pending_size = (v, model.pending_size.1);
            }
            false
        },
        Msg::SetY(text) => {
            if let Some(v) = parse_u32(text.as_str()) {
                model.pending_size = (model.pending_size.0, v);
            }
            false
        },
    }
}

/// Starting twice in a row leaves exactly one tick outstanding: the second
/// start asks for none.
pub proof fn lemma_start_twice(
    m0: Model,
    m1: Model,
    m2: Model,
    first: bool,
    second: bool,
)
    requires
        m0.wf(),
        handled(m0, Msg::Start, m1, first),
        handled(m1, Msg::Start, m2, second),
    ensures
        m2.armed,
        m2.running,
        !second,
        first == !m0.armed,
{
}

/// A tick that arrives after a stop neither advances the board nor asks for
/// another tick, and leaves none outstanding.
pub proof fn lemma_stop_then_tick(
    m0: Model,
    m1: Model,
    m2: Model,
    first: bool,
    second: bool,
    elapsed: bool,
)
    requires
        m0.wf(),
        handled(m0, Msg::Stop, m1, first),
        handled(m1, Msg::Tick(elapsed), m2, second),
    ensures
        !second,
        !m2.armed,
        !m2.running,
        same_grid(m0.grid, m2.grid),
        m2.counter == m0.counter,
{
}

/// Setting the pending width and height to "0" and then resizing builds a
/// board of the default size.
pub proof fn lemma_zero_resize(
    m0: Model,
    m1: Model,
    m2: Model,
    m3: Model,
    x: String,
    y: String,
    r1: bool,
    r2: bool,
    r3: bool,
)
    requires
        m0.wf(),
        x@ == seq!['0'],
        y@ == seq!['0'],
        handled(m0, Msg::SetX(x), m1, r1),
        handled(m1, Msg::SetY(y), m2, r2),
        handled(m2, Msg::Resize, m3, r3),
    ensures
        m3.grid.width == m0.default_size.0,
        m3.grid.height == m0.default_size.1,
{
    let z = seq!['0'];
    assert(z.drop_last() =~= Seq::<char>::empty());
    assert(digits_value(Seq::<char>::empty()) == 0);
    assert(z.last() == '0');
    assert(digits_value(z) == 0);
    assert(parsed_u32(z) == Some(0u32));
}

/// A reset, from any state, zeroes the counter, stops, and restores the fixed
/// seed at the default size.
pub proof fn lemma_reset(m0: Model, m1: Model, request: bool)
    requires
        m0.wf(),
        handled(m0, Msg::Reset, m1, request),
    ensures
        m1.counter == 0,
        !m1.running,
        !request,
        m1.grid.width == m0.default_size.0,
        m1.grid.height == m0.default_size.1,
        m1.grid.cells@ == seed_pattern(
            (m0.default_size.0 * m0.default_size.1) as nat,
            2,
            7,
        ),
{
}

} // verus!
