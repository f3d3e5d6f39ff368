use crate::direction::Direction;
use crate::world::Game;
use vstd::arithmetic::div_mod::lemma_mod_pos_bound;
use vstd::prelude::*;

verus! {

/// The cell that a ray from `origin` reaches after `k` steps in direction
/// `dir`. The ray wraps around at the grid's extent, which is its width.
pub open spec fn ray_cell(world: &Game, origin: (usize, usize), dir: Direction, k: int) -> (
    int,
    int,
) {
    let extent = world.spec_width() as int;
    match dir {
        Direction::WPos => ((origin.0 + k) % extent, origin.1 as int),
        Direction::WNeg => ((origin.0 + extent - k) % extent, origin.1 as int),
        Direction::HPos => (origin.0 as int, (origin.1 + k) % extent),
        Direction::HNeg => (origin.0 as int, (origin.1 + extent - k) % extent),
    }
}

/// The number of steps that a ray takes: one less than the extent, and none
/// on a grid without columns.
pub open spec fn ray_steps(world: &Game) -> int {
    if world.spec_width() == 0 {
        0
    } else {
        world.spec_width() - 1
    }
}

/// Whether `cell` is a cell of the grid.
pub open spec fn cell_on_grid(world: &Game, cell: (int, int)) -> bool {
    world.on_grid(cell.0, cell.1)
}

/// Whether every step of the ray lands on a cell of the grid.
pub open spec fn ray_on_grid(world: &Game, origin: (usize, usize), dir: Direction) -> bool {
    forall|k: int|
        0 <= k < ray_steps(world) ==> cell_on_grid(world, #[trigger] ray_cell(world, origin, dir, k))
}

/// Whether the cell that the ray reaches after `k` steps is free.
pub open spec fn step_is_free(world: &Game, origin: (usize, usize), dir: Direction, k: int) -> bool {
    world.owner(ray_cell(world, origin, dir, k).0, ray_cell(world, origin, dir, k).1) is None
}

/// How many of the first `n` steps of the ray land on a free cell. A claimed
/// cell does not stop the ray: the steps behind it count as well.
pub open spec fn free_steps(world: &Game, origin: (usize, usize), dir: Direction, n: int) -> int
    decreases n,
{
    if n <= 0 {
        0
    } else {
        free_steps(world, origin, dir, n - 1) + if step_is_free(world, origin, dir, n - 1) {
            1int
        } else {
            0int
        }
    }
}

/// The length of the beam from `origin` in direction `dir`: the number of
/// free cells among all the steps of the ray.
pub open spec fn beam(world: &Game, origin: (usize, usize), dir: Direction) -> int {
    free_steps(world, origin, dir, ray_steps(world))
}

/// Whether `best` is the direction to take from `origin`: no direction has a
/// longer beam, and every direction that is tried before it has a shorter one.
pub open spec fn is_choice(world: &Game, origin: (usize, usize), best: Direction) -> bool {
    forall|dir: Direction|
        {
            &&& #[trigger] beam(world, origin, dir) <= beam(world, origin, best)
            &&& dir.rank() < best.rank() ==> beam(world, origin, dir) < beam(world, origin, best)
        }
}

/// Whether rays can be cast from `origin` in all four directions.
pub open spec fn rays_on_grid(world: &Game, origin: (usize, usize)) -> bool {
    forall|dir: Direction| #[trigger] ray_on_grid(world, origin, dir)
}

/// The coordinate that lies `offset` steps from `from` on an axis of length
/// `extent`, forwards or backwards, wrapping around.
fn wrap(from: usize, offset: usize, extent: usize, forwards: bool) -> (at: usize)
    requires
        offset < extent,
    ensures
        forwards ==> at == (from + offset) % (extent as int),
        !forwards ==> at == (from + extent - offset) % (extent as int),
        at < extent,
{
    let wide: u128 = if forwards {
        (from as u128 + offset as u128) % (extent as u128)
    } else {
        (from as u128 + extent as u128 - offset as u128) % (extent as u128)
    };
    wide as usize
}

/// The cell that the ray reaches after `k` steps.
fn cell_at(world: &Game, origin: (usize, usize), dir: Direction, k: usize) -> (cell: (usize, usize))
    requires
        k < ray_steps(world),
    ensures
        (cell.0 as int, cell.1 as int) == ray_cell(world, origin, dir, k as int),
{
    let extent = world.width();
    match dir {
        Direction::WPos => (wrap(origin.0, k, extent, true), origin.1),
        Direction::WNeg => (wrap(origin.0, k, extent, false), origin.1),
        Direction::HPos => (origin.0, wrap(origin.1, k, extent, true)),
        Direction::HNeg => (origin.0, wrap(origin.1, k, extent, false)),
    }
}

/// Casts a ray from `origin` in direction `dir` and counts the free cells on
/// it. The ray is not stopped by a claimed cell.
pub fn beam_length(world: &Game, origin: (usize, usize), dir: Direction) -> (len: usize)
    requires
        world.wf(),
        ray_on_grid(world, origin, dir),
    ensures
        len == beam(world, origin, dir),
{
    let extent = world.width();
    let steps: usize = if extent == 0 { 0 } else { extent - 1 };
    let mut len: usize = 0;
    let mut offset: usize = 0;
    while offset < steps
        invariant
            world.wf(),
            ray_on_grid(world, origin, dir),
            steps == ray_steps(world),
            offset <= steps,
            len <= offset,
            len == free_steps(world, origin, dir, offset as int),
        decreases steps - offset,
    {
        let cell = cell_at(world, origin, dir, offset);
        assert(cell_on_grid(world, ray_cell(world, origin, dir, offset as int)));
        if !world.is_claimed(cell.0, cell.1) {
            len += 1;
        }
        offset += 1;
    }
    len
}

/// Whether every step of the ray from `origin` in direction `dir` lands on a
/// cell of the grid.
pub fn ray_fits(world: &Game, origin: (usize, usize), dir: Direction) -> (fits: bool)
    requires
        world.wf(),
    ensures
        fits == ray_on_grid(world, origin, dir),
{
    let extent = world.width();
    let height = world.height();
    let steps: usize = if extent == 0 { 0 } else { extent - 1 };
    let mut offset: usize = 0;
    while offset < steps
        invariant
            steps == ray_steps(world),
            extent == world.spec_width(),
            height == world.spec_height(),
            offset <= steps,
            forall|k: int|
                0 <= k < offset ==> cell_on_grid(
                    world,
                    #[trigger] ray_cell(world, origin, dir, k),
                ),
        decreases steps - offset,
    {
        let cell = cell_at(world, origin, dir, offset);
        if cell.0 >= extent || cell.1 >= height {
            assert(!cell_on_grid(world, ray_cell(world, origin, dir, offset as int)));
            return false;
        }
        offset += 1;
    }
    true
}

/// Picks the direction with the longest beam from the client's position; of
/// several with the same length, the one that is tried first. Returns it with
/// the name of the move.
pub fn select_direction(world: &Game) -> (choice: (Direction, &'static str))
    requires
        world.wf(),
        rays_on_grid(world, world.position()),
    ensures
        is_choice(world, world.position(), choice.0),
        choice.1@ == choice.0.spec_command_name(),
{
    let origin = world.pos();
    let mut best = Direction::WPos;
    let mut longest: usize = 0;
    assert(ray_on_grid(world, origin, Direction::WPos));
    assert(ray_on_grid(world, origin, Direction::WNeg));
    assert(ray_on_grid(world, origin, Direction::HPos));
    assert(ray_on_grid(world, origin, Direction::HNeg));
    let reach = beam_length(world, origin, Direction::WPos);
    if reach > longest {
        best = Direction::WPos;
        longest = reach;
    }
    let reach = beam_length(world, origin, Direction::WNeg);
    if reach > longest {
        best = Direction::WNeg;
        longest = reach;
    }
    let reach = beam_length(world, origin, Direction::HPos);
    if reach > longest {
        best = Direction::HPos;
        longest = reach;
    }
    let reach = beam_length(world, origin, Direction::HNeg);
    if reach > longest {
        best = Direction::HNeg;
        longest = reach;
    }
    (best, best.command_name())
}

/// Whether rays can be cast from `origin` in all four directions.
pub fn rays_fit(world: &Game, origin: (usize, usize)) -> (fit: bool)
    requires
        world.wf(),
    ensures
        fit == rays_on_grid(world, origin),
{
    let fit = ray_fits(world, origin, Direction::WPos) && ray_fits(world, origin, Direction::WNeg)
        && ray_fits(world, origin, Direction::HPos) && ray_fits(world, origin, Direction::HNeg);
    proof {
        if fit {
            assert forall|dir: Direction| #[trigger] ray_on_grid(world, origin, dir) by {
                match dir {
                    Direction::WPos => {},
                    Direction::WNeg => {},
                    Direction::HPos => {},
                    Direction::HNeg => {},
                }
            }
        }
    }
    fit
}

/// Picks the direction as `select_direction` does, where rays can be cast
/// from the client's position, and nothing where one of them leaves the grid.
pub fn try_select_direction(world: &Game) -> (choice: Option<(Direction, &'static str)>)
    requires
        world.wf(),
    ensures
        choice is Some <==> rays_on_grid(world, world.position()),
        choice matches Some(c) ==> is_choice(world, world.position(), c.0) && c.1@
            == c.0.spec_command_name(),
{
    if rays_fit(world, world.pos()) {
        Some(select_direction(world))
    } else {
        None
    }
}

/// On a grid without a claimed cell every step of a ray is free.
proof fn lemma_free_steps_on_open_grid(
    world: &Game,
    origin: (usize, usize),
    dir: Direction,
    n: int,
)
    requires
        ray_on_grid(world, origin, dir),
        forall|x: int, y: int| world.on_grid(x, y) ==> #[trigger] world.owner(x, y) is None,
        0 <= n <= ray_steps(world),
    ensures
        free_steps(world, origin, dir, n) == n,
    decreases n,
{
    if n > 0 {
        lemma_free_steps_on_open_grid(world, origin, dir, n - 1);
        assert(cell_on_grid(world, ray_cell(world, origin, dir, n - 1)));
    }
}

/// On a grid without a claimed cell the beam has the full length of the ray,
/// one less than the extent, in every direction and from every origin from
/// which the ray can be cast.
pub proof fn lemma_open_grid_beam(world: &Game, origin: (usize, usize), dir: Direction)
    requires
        world.wf(),
        ray_on_grid(world, origin, dir),
        forall|x: int, y: int| world.on_grid(x, y) ==> #[trigger] world.owner(x, y) is None,
    ensures
        beam(world, origin, dir) == ray_steps(world),
        world.spec_width() >= 1 ==> beam(world, origin, dir) == world.spec_width() - 1,
{
    lemma_free_steps_on_open_grid(world, origin, dir, ray_steps(world));
}

/// No more than `n` of the first `n` steps are free.
proof fn lemma_free_steps_bounds(world: &Game, origin: (usize, usize), dir: Direction, n: int)
    requires
        0 <= n,
    ensures
        0 <= free_steps(world, origin, dir, n) <= n,
    decreases n,
{
    if n > 0 {
        lemma_free_steps_bounds(world, origin, dir, n - 1);
    }
}

/// A beam is never longer than its ray.
pub proof fn lemma_beam_bounds(world: &Game, origin: (usize, usize), dir: Direction)
    ensures
        0 <= beam(world, origin, dir) <= ray_steps(world),
{
    lemma_free_steps_bounds(world, origin, dir, ray_steps(world));
}

/// How many of the first `n` steps are free when the step `at` alone is
/// claimed: all of them, or all but that one.
proof fn lemma_free_steps_around_one_claim(
    world: &Game,
    origin: (usize, usize),
    dir: Direction,
    at: int,
    n: int,
)
    requires
        0 <= n <= ray_steps(world),
        0 <= at < ray_steps(world),
        forall|k: int|
            0 <= k < ray_steps(world) ==> (#[trigger] step_is_free(world, origin, dir, k) <==> k
                != at),
    ensures
        free_steps(world, origin, dir, n) == if at < n {
            n - 1
        } else {
            n
        },
    decreases n,
{
    if n > 0 {
        lemma_free_steps_around_one_claim(world, origin, dir, at, n - 1);
        assert(step_is_free(world, origin, dir, n - 1) <==> n - 1 != at);
    }
}

/// A claimed cell does not stop the ray: where one step of the ray lands on
/// a claimed cell and all the others on free cells, the beam is one shorter
/// than the ray, wherever on the ray the claimed cell lies.
pub proof fn lemma_beam_passes_claim(
    world: &Game,
    origin: (usize, usize),
    dir: Direction,
    at: int,
)
    requires
        0 <= at < ray_steps(world),
        forall|k: int|
            0 <= k < ray_steps(world) ==> (#[trigger] step_is_free(world, origin, dir, k) <==> k
                != at),
    ensures
        beam(world, origin, dir) == ray_steps(world) - 1,
{
    lemma_free_steps_around_one_claim(world, origin, dir, at, ray_steps(world));
}

/// The rule of `is_choice` leaves no freedom: two directions that both meet
/// it are the same.
pub proof fn lemma_choice_is_unique(
    world: &Game,
    origin: (usize, usize),
    first: Direction,
    second: Direction,
)
    requires
        is_choice(world, origin, first),
        is_choice(world, origin, second),
    ensures
        first == second,
{
    let a = beam(world, origin, first);
    let b = beam(world, origin, second);
    assert(a <= b && b <= a);
    if first.rank() < second.rank() {
        assert(a < b);
    }
    if second.rank() < first.rank() {
        assert(b < a);
    }
}

/// Of the directions whose beams are longest, the choice is the one that is
/// tried first: no direction with a beam as long as that of the choice
/// stands before it in the order.
pub proof fn lemma_tie_goes_to_earliest(
    world: &Game,
    origin: (usize, usize),
    best: Direction,
    other: Direction,
)
    requires
        is_choice(world, origin, best),
        beam(world, origin, other) == beam(world, origin, best),
    ensures
        best.rank() <= other.rank(),
{
}

/// Where all four beams have the same length, the choice is the direction
/// that is tried first of all.
pub proof fn lemma_full_tie_goes_to_first(world: &Game, origin: (usize, usize), best: Direction)
    requires
        is_choice(world, origin, best),
        forall|dir: Direction| #[trigger]
            beam(world, origin, dir) == beam(world, origin, Direction::WPos),
    ensures
        best == Direction::WPos,
{
    assert(beam(world, origin, best) == beam(world, origin, Direction::WPos));
}

/// On a grid with no more than one column no ray takes a step, so every beam
/// has length 0 and rays can be cast from anywhere.
pub proof fn lemma_narrow_grid(world: &Game, origin: (usize, usize), dir: Direction)
    requires
        world.spec_width() <= 1,
    ensures
        ray_on_grid(world, origin, dir),
        beam(world, origin, dir) == 0,
{
}

/// On a grid with no more than one column the choice is the direction that
/// is tried first of all.
pub proof fn lemma_choice_on_narrow_grid(world: &Game, origin: (usize, usize), best: Direction)
    requires
        world.spec_width() <= 1,
        is_choice(world, origin, best),
    ensures
        best == Direction::WPos,
{
    assert(beam(world, origin, best) == 0);
    assert(beam(world, origin, Direction::WPos) == 0);
}

/// On a grid that is as high as it is wide, or higher, rays can be cast in
/// all four directions from each of its cells.
pub proof fn lemma_rays_on_tall_grid(world: &Game, origin: (usize, usize))
    requires
        world.spec_width() <= world.spec_height(),
        world.on_grid(origin.0 as int, origin.1 as int),
    ensures
        rays_on_grid(world, origin),
{
    let extent = world.spec_width() as int;
    assert forall|dir: Direction| #[trigger] ray_on_grid(world, origin, dir) by {
        assert forall|k: int| 0 <= k < ray_steps(world) implies cell_on_grid(
            world,
            #[trigger] ray_cell(world, origin, dir, k),
        ) by {
            lemma_mod_pos_bound(origin.0 + k, extent);
            lemma_mod_pos_bound(origin.0 + extent - k, extent);
            lemma_mod_pos_bound(origin.1 + k, extent);
            lemma_mod_pos_bound(origin.1 + extent - k, extent);
        }
    }
}

} // verus!
