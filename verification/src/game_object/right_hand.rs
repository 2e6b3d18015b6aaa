//! Following the right hand: an object that does so alone among objects at
//! rest walks a fixed path, and on a closed loop it comes back to where it
//! started.

use vstd::prelude::*;

use crate::game_object::components::{Direction, Movable, Position};
use crate::game_object::movement::{blocks_entry, held_in_place, objects_after_move};
use crate::game_object::object_bundles::GridObject;
use crate::game_object::travel::{
    after_attempt, attempt_succeeds, gathered, lemma_gathered_at, lemma_gathered_len, moved_upto,
    mover_step, rank, scattered, shifted, stationary,
};
use crate::level::Dimensions;

verus! {

/// Whether the objects at rest leave moves alone: none of them can block
/// movement.
pub open spec fn is_calm(objects: Seq<GridObject>) -> bool {
    forall|j: int|
        0 <= j < objects.len() && (#[trigger] objects[j]).movable is None
            ==> objects[j].blocks_movement is None
}

/// The cells that a massive object at rest stands on.
pub open spec fn walls(objects: Seq<GridObject>) -> Set<(int, int)> {
    Set::new(
        |cell: (int, int)|
            exists|j: int|
                0 <= j < objects.len() && (#[trigger] objects[j]).movable is None
                    && objects[j].massive && objects[j].position.x == cell.0
                    && objects[j].position.y == cell.1,
    )
}

/// Whether the cell `(x, y)` is free: it is on the grid and no wall stands
/// on it.
pub open spec fn is_free(walls: Set<(int, int)>, dimensions: Dimensions, x: int, y: int) -> bool {
    dimensions.contains(x, y) && !walls.contains((x, y))
}

/// Whether the cell one step from `position` in `direction` is free.
pub open spec fn can_go(
    walls: Set<(int, int)>,
    dimensions: Dimensions,
    position: Position,
    direction: Direction,
) -> bool {
    is_free(
        walls,
        dimensions,
        position.x + direction.spec_to_delta().0,
        position.y + direction.spec_to_delta().1,
    )
}

/// Where an object that follows its right hand stands and faces after one
/// tick, among walls that stay where they are: it steps to its right if the
/// cell there is free, else ahead if the cell there is free, and else turns
/// left where it stands.
pub open spec fn follow(
    walls: Set<(int, int)>,
    dimensions: Dimensions,
    state: (Position, Direction),
) -> (Position, Direction) {
    let (position, direction) = state;
    let right = direction.spec_right_hand();
    if can_go(walls, dimensions, position, right) {
        (shifted(position, right.spec_to_delta()), right)
    } else if can_go(walls, dimensions, position, direction) {
        (shifted(position, direction.spec_to_delta()), direction)
    } else {
        (position, direction.spec_left_hand())
    }
}

/// Where the object stands and faces after `t` ticks.
pub open spec fn walk(
    walls: Set<(int, int)>,
    dimensions: Dimensions,
    state: (Position, Direction),
    t: nat,
) -> (Position, Direction)
    decreases t,
{
    if t == 0 {
        state
    } else {
        walk(walls, dimensions, follow(walls, dimensions, state), (t - 1) as nat)
    }
}

/// Whether `objects[m]` follows its right hand and is the only object that
/// moves by itself.
pub open spec fn walks_alone(objects: Seq<GridObject>, m: int) -> bool {
    &&& 0 <= m < objects.len()
    &&& objects[m].movable == Some(Movable::FollowRightHand)
    &&& objects[m].direction is Some
    &&& forall|j: int| 0 <= j < objects.len() && j != m ==> (#[trigger] objects[j]).movable is None
}

/// The objects with `objects[m]` standing and facing as `state` says.
pub open spec fn with_walker(
    objects: Seq<GridObject>,
    m: int,
    state: (Position, Direction),
) -> Seq<GridObject> {
    objects.update(m, GridObject { position: state.0, direction: Some(state.1), ..objects[m] })
}

/// The objects after `t` movement ticks.
pub open spec fn ticks(objects: Seq<GridObject>, dimensions: Dimensions, t: nat) -> Seq<
    GridObject,
>
    decreases t,
{
    if t == 0 {
        objects
    } else {
        ticks(moved_upto(objects, dimensions, objects.len() as int), dimensions, (t - 1) as nat)
    }
}

/// Every gathered object is what the movement rules read of a marked
/// object.
proof fn lemma_gathered_source(
    objects: Seq<GridObject>,
    mask: Seq<bool>,
    k: int,
    r: int,
) -> (j: int)
    requires
        0 <= r < gathered(objects, mask, k).len(),
    ensures
        0 <= j < k,
        mask[j],
        gathered(objects, mask, k)[r] == objects[j].collision(),
    decreases k,
{
    lemma_gathered_len(objects, mask, k);
    if k <= 0 {
        0
    } else if mask[k - 1] && r == gathered(objects, mask, k - 1).len() {
        k - 1
    } else {
        lemma_gathered_source(objects, mask, k - 1, r)
    }
}

/// Among calm objects at rest, a step without pushing succeeds exactly if
/// the cell it leads to is free, and it changes no other object.
pub proof fn lemma_calm_attempt(
    objects: Seq<GridObject>,
    dimensions: Dimensions,
    position: Position,
    direction: Direction,
)
    requires
        is_calm(objects),
    ensures
        attempt_succeeds(
            objects,
            stationary(objects),
            position,
            direction.spec_to_delta(),
            dimensions,
            false,
        ) == can_go(walls(objects), dimensions, position, direction),
        after_attempt(
            objects,
            stationary(objects),
            position,
            direction.spec_to_delta(),
            dimensions,
            false,
        ) == objects,
{
    let mask = stationary(objects);
    let n = objects.len() as int;
    let others = gathered(objects, mask, n);
    let delta = direction.spec_to_delta();
    let x = position.x + delta.0;
    let y = position.y + delta.1;
    assert forall|r: int| 0 <= r < others.len() implies (#[trigger] others[r]).blocks_movement
        is None by {
        let j = lemma_gathered_source(objects, mask, n, r);
    }
    assert(!held_in_place(others, position));
    if walls(objects).contains((x, y)) {
        let j = choose|j: int|
            0 <= j < objects.len() && (#[trigger] objects[j]).movable is None
                && objects[j].massive && objects[j].position.x == x && objects[j].position.y == y;
        lemma_gathered_at(objects, mask, j, n);
        let r = rank(mask, j) as int;
        assert(blocks_entry(others[r], position, delta, dimensions, others, false));
    } else {
        assert forall|r: int| 0 <= r < others.len() implies !blocks_entry(
            #[trigger] others[r],
            position,
            delta,
            dimensions,
            others,
            false,
        ) by {
            let j = lemma_gathered_source(objects, mask, n, r);
            if others[r].at(x, y) && others[r].massive {
                assert(walls(objects).contains((x, y)));
            }
        }
    }
    let moved = objects_after_move(others, position, delta, dimensions, false);
    assert(moved =~= others);
    assert(scattered(objects, mask, others) =~= objects) by {
        assert forall|i: int| 0 <= i < n implies scattered(objects, mask, others)[i]
            == objects[i] by {
            if mask[i] {
                lemma_gathered_at(objects, mask, i, n);
            }
        }
    }
}

/// Among calm objects at rest, the turn of an object that follows its right
/// hand leaves it standing and facing as [`follow`] says, and changes
/// nothing else.
pub proof fn lemma_calm_follow(objects: Seq<GridObject>, dimensions: Dimensions, m: int)
    requires
        is_calm(objects),
        0 <= m < objects.len(),
        objects[m].movable == Some(Movable::FollowRightHand),
        objects[m].direction is Some,
    ensures
        mover_step(objects, dimensions, m) == with_walker(
            objects,
            m,
            follow(walls(objects), dimensions, (objects[m].position, objects[m].direction->0)),
        ),
{
    let direction = objects[m].direction->0;
    lemma_calm_attempt(objects, dimensions, objects[m].position, direction.spec_right_hand());
    lemma_calm_attempt(objects, dimensions, objects[m].position, direction);
    assert(mover_step(objects, dimensions, m) =~= with_walker(
        objects,
        m,
        follow(walls(objects), dimensions, (objects[m].position, direction)),
    ));
}

/// Where one object walks alone, a movement tick is its turn and nothing
/// more.
pub proof fn lemma_lone_tick(objects: Seq<GridObject>, dimensions: Dimensions, m: int, k: int)
    requires
        walks_alone(objects, m),
        is_calm(objects),
        0 <= k <= objects.len(),
    ensures
        moved_upto(objects, dimensions, k) == if k <= m {
            objects
        } else {
            mover_step(objects, dimensions, m)
        },
    decreases k,
{
    if k > 0 {
        lemma_lone_tick(objects, dimensions, m, k - 1);
        if k - 1 > m {
            lemma_calm_follow(objects, dimensions, m);
            let so_far = mover_step(objects, dimensions, m);
            assert(so_far[k - 1] == objects[k - 1]);
        }
    }
}

/// Moving the walker changes neither the walls nor the calm, and the walker
/// still walks alone.
pub proof fn lemma_walker_moves(
    objects: Seq<GridObject>,
    m: int,
    state: (Position, Direction),
)
    requires
        walks_alone(objects, m),
        is_calm(objects),
    ensures
        walks_alone(with_walker(objects, m, state), m),
        is_calm(with_walker(objects, m, state)),
        walls(with_walker(objects, m, state)) == walls(objects),
        with_walker(objects, m, state).len() == objects.len(),
{
    let moved = with_walker(objects, m, state);
    assert forall|cell: (int, int)| walls(moved).contains(cell) == walls(objects).contains(
        cell,
    ) by {
        if walls(moved).contains(cell) {
            let j = choose|j: int|
                0 <= j < moved.len() && (#[trigger] moved[j]).movable is None && moved[j].massive
                    && moved[j].position.x == cell.0 && moved[j].position.y == cell.1;
            assert(objects[j] == moved[j]);
        }
        if walls(objects).contains(cell) {
            let j = choose|j: int|
                0 <= j < objects.len() && (#[trigger] objects[j]).movable is None
                    && objects[j].massive && objects[j].position.x == cell.0
                    && objects[j].position.y == cell.1;
            assert(moved[j] == objects[j]);
        }
    }
    assert(walls(moved) =~= walls(objects));
}

/// Placing the walker twice is placing it the second time.
pub proof fn lemma_walker_again(
    objects: Seq<GridObject>,
    m: int,
    first: (Position, Direction),
    second: (Position, Direction),
)
    requires
        0 <= m < objects.len(),
    ensures
        with_walker(with_walker(objects, m, first), m, second) == with_walker(objects, m, second),
{
    assert(with_walker(with_walker(objects, m, first), m, second) =~= with_walker(
        objects,
        m,
        second,
    ));
}

/// Where one object walks alone among calm objects at rest, a movement tick
/// moves it as [`follow`] says and changes nothing else.
pub proof fn lemma_one_tick(objects: Seq<GridObject>, dimensions: Dimensions, m: int)
    requires
        walks_alone(objects, m),
        is_calm(objects),
    ensures
        moved_upto(objects, dimensions, objects.len() as int) == with_walker(
            objects,
            m,
            follow(walls(objects), dimensions, (objects[m].position, objects[m].direction->0)),
        ),
{
    lemma_lone_tick(objects, dimensions, m, objects.len() as int);
    lemma_calm_follow(objects, dimensions, m);
}

/// Where one object walks alone among calm objects at rest, `t` movement
/// ticks move it as [`walk`] says and change nothing else.
pub proof fn lemma_ticks_walk(objects: Seq<GridObject>, dimensions: Dimensions, m: int, t: nat)
    requires
        walks_alone(objects, m),
        is_calm(objects),
    ensures
        ticks(objects, dimensions, t) == with_walker(
            objects,
            m,
            walk(
                walls(objects),
                dimensions,
                (objects[m].position, objects[m].direction->0),
                t,
            ),
        ),
    decreases t,
{
    let start = (objects[m].position, objects[m].direction->0);
    if t == 0 {
        assert(with_walker(objects, m, start) =~= objects);
    } else {
        let next = follow(walls(objects), dimensions, start);
        let after = with_walker(objects, m, next);
        lemma_one_tick(objects, dimensions, m);
        lemma_walker_moves(objects, m, next);
        assert(after[m].position == next.0 && after[m].direction == Some(next.1));
        lemma_ticks_walk(after, dimensions, m, (t - 1) as nat);
        let end = walk(walls(objects), dimensions, next, (t - 1) as nat);
        lemma_walker_again(objects, m, next, end);
        assert(ticks(objects, dimensions, t) == ticks(after, dimensions, (t - 1) as nat));
    }
}

/// Walking `a` ticks and then `b` ticks is walking `a + b` ticks.
pub proof fn lemma_walk_on(
    walls: Set<(int, int)>,
    dimensions: Dimensions,
    state: (Position, Direction),
    a: nat,
    b: nat,
)
    ensures
        walk(walls, dimensions, state, a + b) == walk(
            walls,
            dimensions,
            walk(walls, dimensions, state, a),
            b,
        ),
    decreases a,
{
    if a > 0 {
        lemma_walk_on(walls, dimensions, follow(walls, dimensions, state), (a - 1) as nat, b);
    }
}

/// Whether the right hand leads from `from` to `to`: `to` is the free cell
/// one step from `from` in the direction faced on arrival, and that
/// direction is the first of right, ahead and left, as seen from `from`, in
/// which the next cell is free.
pub open spec fn leads(
    walls: Set<(int, int)>,
    dimensions: Dimensions,
    from: (Position, Direction),
    to: (Position, Direction),
) -> bool {
    let (position, facing) = from;
    let (next, heading) = to;
    &&& can_go(walls, dimensions, position, heading)
    &&& next == shifted(position, heading.spec_to_delta())
    &&& {
        ||| heading == facing.spec_right_hand()
        ||| heading == facing && !can_go(walls, dimensions, position, facing.spec_right_hand())
        ||| heading == facing.spec_left_hand() && !can_go(
            walls,
            dimensions,
            position,
            facing.spec_right_hand(),
        ) && !can_go(walls, dimensions, position, facing)
    }
}

/// Whether `path` is a path that the right hand follows: every state of it
/// leads to the next.
pub open spec fn is_path(
    walls: Set<(int, int)>,
    dimensions: Dimensions,
    path: Seq<(Position, Direction)>,
) -> bool {
    forall|i: int|
        0 <= i < path.len() - 1 ==> leads(walls, dimensions, #[trigger] path[i], path[i + 1])
}

/// Whether `path` is a closed loop that the right hand follows: a path of
/// at least one step that ends in the state it starts in.
pub open spec fn is_closed_loop(
    walls: Set<(int, int)>,
    dimensions: Dimensions,
    path: Seq<(Position, Direction)>,
) -> bool {
    path.len() >= 2 && is_path(walls, dimensions, path) && path.last() == path[0]
}

/// The number of ticks that the walk along the first `k` steps of `path`
/// takes: two for a step to the left, which starts with a turn, and one for
/// every other step.
pub open spec fn ticks_along(path: Seq<(Position, Direction)>, k: nat) -> nat
    decreases k,
{
    if k == 0 {
        0
    } else {
        ticks_along(path, (k - 1) as nat) + if path[k as int].1 == path[k - 1].1.spec_left_hand() {
            2nat
        } else {
            1nat
        }
    }
}

/// The walk follows a path that the right hand follows: after the ticks
/// that the first `k` steps take, the walker is in the state that the path
/// gives for it.
pub proof fn lemma_walk_along(
    walls: Set<(int, int)>,
    dimensions: Dimensions,
    path: Seq<(Position, Direction)>,
    k: nat,
)
    requires
        is_path(walls, dimensions, path),
        k < path.len(),
    ensures
        walk(walls, dimensions, path[0], ticks_along(path, k)) == path[k as int],
        k <= ticks_along(path, k) <= 2 * k,
    decreases k,
{
    if k > 0 {
        let before = (k - 1) as nat;
        lemma_walk_along(walls, dimensions, path, before);
        let from = path[k - 1];
        let to = path[k as int];
        assert(leads(walls, dimensions, path[k - 1], path[k - 1 + 1]));
        let cost: nat = if to.1 == from.1.spec_left_hand() {
            2
        } else {
            1
        };
        lemma_walk_on(walls, dimensions, path[0], ticks_along(path, before), cost);
        let first = follow(walls, dimensions, from);
        assert(walk(walls, dimensions, first, 0) == first);
        if to.1 == from.1.spec_left_hand() {
            assert(first == (from.0, to.1));
            let second = follow(walls, dimensions, first);
            assert(to.1.spec_right_hand() == from.1);
            assert(second == to);
            assert(walk(walls, dimensions, second, 0) == second);
            assert(walk(walls, dimensions, first, 1) == second);
            assert(walk(walls, dimensions, from, 2) == to);
        } else {
            assert(first == to);
            assert(walk(walls, dimensions, from, 1) == to);
        }
    }
}

/// The loop closes: an object that follows its right hand, alone among calm
/// objects at rest, and that starts in the first state of a closed loop that
/// the right hand follows, is back in that state, with everything else as
/// it was, after as many ticks as the loop takes.
pub proof fn lemma_loop_closes(
    objects: Seq<GridObject>,
    dimensions: Dimensions,
    m: int,
    path: Seq<(Position, Direction)>,
) -> (t: nat)
    requires
        walks_alone(objects, m),
        is_calm(objects),
        is_closed_loop(walls(objects), dimensions, path),
        path[0] == (objects[m].position, objects[m].direction->0),
    ensures
        0 < t <= 2 * (path.len() - 1),
        ticks(objects, dimensions, t) == objects,
{
    let steps = (path.len() - 1) as nat;
    let t = ticks_along(path, steps);
    lemma_walk_along(walls(objects), dimensions, path, steps);
    lemma_ticks_walk(objects, dimensions, m, t);
    assert(with_walker(objects, m, path[0]) =~= objects);
    t
}

/// Whether `to` is one step from `from`.
pub open spec fn is_step(from: Position, to: Position) -> bool {
    ||| to.x == from.x && to.y == from.y - 1
    ||| to.x == from.x + 1 && to.y == from.y
    ||| to.x == from.x && to.y == from.y + 1
    ||| to.x == from.x - 1 && to.y == from.y
}

/// The direction of the step from `from` to `to`.
pub open spec fn heading(from: Position, to: Position) -> Direction {
    if to.x == from.x && to.y == from.y - 1 {
        Direction::Up
    } else if to.x == from.x + 1 && to.y == from.y {
        Direction::Right
    } else if to.x == from.x && to.y == from.y + 1 {
        Direction::Down
    } else {
        Direction::Left
    }
}

/// Whether `cells` is a ring of free cells, one cell wide: the cells in the
/// order of a walk round the ring, with the first two repeated at the end.
/// Every cell is free and one step from the one before; the walk never
/// turns back on the spot; and from no cell of the ring a step leads to a
/// free cell other than the cell before and the cell after.
pub open spec fn is_ring(
    walls: Set<(int, int)>,
    dimensions: Dimensions,
    cells: Seq<Position>,
) -> bool {
    &&& cells.len() >= 3
    &&& cells[cells.len() - 2] == cells[0]
    &&& cells[cells.len() - 1] == cells[1]
    &&& forall|i: int|
        0 <= i < cells.len() ==> is_free(
            walls,
            dimensions,
            (#[trigger] cells[i]).x as int,
            cells[i].y as int,
        )
    &&& forall|i: int| 0 <= i < cells.len() - 1 ==> is_step(#[trigger] cells[i], cells[i + 1])
    &&& forall|i: int| 1 <= i < cells.len() - 1 ==> cells[i - 1] != #[trigger] cells[i + 1]
    &&& forall|i: int, direction: Direction|
        1 <= i < cells.len() - 1 && #[trigger] can_go(walls, dimensions, cells[i], direction) ==> {
            ||| shifted(cells[i], direction.spec_to_delta()) == cells[i - 1]
            ||| shifted(cells[i], direction.spec_to_delta()) == cells[i + 1]
        }
}

/// The walk round a ring: for each cell from the second on, the cell and
/// the direction of the step that led to it.
pub open spec fn ring_path(cells: Seq<Position>) -> Seq<(Position, Direction)> {
    Seq::new(
        (cells.len() - 1) as nat,
        |k: int| (cells[k + 1], heading(cells[k], cells[k + 1])),
    )
}

/// In a ring of free cells the right hand leads from each cell to the next.
pub proof fn lemma_ring_leads(
    walls: Set<(int, int)>,
    dimensions: Dimensions,
    cells: Seq<Position>,
    k: int,
)
    requires
        is_ring(walls, dimensions, cells),
        0 <= k < cells.len() - 2,
    ensures
        leads(
            walls,
            dimensions,
            (cells[k + 1], heading(cells[k], cells[k + 1])),
            (cells[k + 2], heading(cells[k + 1], cells[k + 2])),
        ),
{
    let before = cells[k];
    let here = cells[k + 1];
    let after = cells[k + 2];
    let facing = heading(before, here);
    let onward = heading(here, after);
    assert(is_step(cells[k], cells[k + 1]));
    assert(is_step(cells[k + 1], cells[k + 1 + 1]));
    assert(cells[k + 1 - 1] != cells[k + 1 + 1]);
    assert(is_free(walls, dimensions, before.x as int, before.y as int));
    assert(is_free(walls, dimensions, here.x as int, here.y as int));
    assert(is_free(walls, dimensions, after.x as int, after.y as int));
    assert(after == shifted(here, onward.spec_to_delta()));
    assert(before == shifted(here, facing.spec_inverse().spec_to_delta()));
    assert(can_go(walls, dimensions, here, onward));
    assert(onward != facing.spec_inverse());
    let right = facing.spec_right_hand();
    if can_go(walls, dimensions, cells[k + 1], right) {
        assert(shifted(here, right.spec_to_delta()) != before);
        assert(shifted(here, right.spec_to_delta()) == after);
        assert(onward == right);
    }
    if can_go(walls, dimensions, cells[k + 1], facing) {
        assert(shifted(here, facing.spec_to_delta()) != before);
        assert(shifted(here, facing.spec_to_delta()) == after);
        assert(onward == facing);
    }
}

/// The walk round a ring of free cells is a closed loop that the right hand
/// follows.
pub proof fn lemma_ring_is_loop(
    walls: Set<(int, int)>,
    dimensions: Dimensions,
    cells: Seq<Position>,
)
    requires
        is_ring(walls, dimensions, cells),
    ensures
        is_closed_loop(walls, dimensions, ring_path(cells)),
{
    let path = ring_path(cells);
    assert forall|i: int| 0 <= i < path.len() - 1 implies leads(
        walls,
        dimensions,
        #[trigger] path[i],
        path[i + 1],
    ) by {
        lemma_ring_leads(walls, dimensions, cells, i);
    }
    assert(path.last() == path[0]);
}

/// The loop closes on a ring: an object that follows its right hand, alone
/// among calm objects at rest, on a ring of free cells one cell wide, facing
/// the way the ring goes, is back on its cell facing the same way, with
/// everything else as it was, after at most two ticks for each cell of the
/// ring.
pub proof fn lemma_ring_closes(
    objects: Seq<GridObject>,
    dimensions: Dimensions,
    m: int,
    cells: Seq<Position>,
) -> (t: nat)
    requires
        walks_alone(objects, m),
        is_calm(objects),
        is_ring(walls(objects), dimensions, cells),
        objects[m].position == cells[1],
        objects[m].direction == Some(heading(cells[0], cells[1])),
    ensures
        0 < t <= 2 * (cells.len() - 2),
        ticks(objects, dimensions, t) == objects,
{
    lemma_ring_is_loop(walls(objects), dimensions, cells);
    lemma_loop_closes(objects, dimensions, m, ring_path(cells))
}

} // verus!
