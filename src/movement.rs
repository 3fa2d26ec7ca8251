//! Movement on the toroidal map: shortest deltas, turning, and the command
//! sequences that reach a position.
use vstd::prelude::*;

use crate::commands::{Command, Direction};

verus! {

/// A position on the map, or a delta between two positions.
#[derive(Debug, Clone, Copy, PartialEq, Eq, Structural)]
pub struct Position {
    pub x: i32,
    pub y: i32,
}

/// `v` brought into `0..n`.
pub fn wrap_coord(v: i32, n: i32) -> (r: i32)
    requires
        n > 0,
    ensures
        r == v as int % n as int,
        0 <= r < n,
{
    if v >= 0 {
        ((v as u32) % (n as u32)) as i32
    } else {
        let a: u64 = (0 - (v as i64)) as u64;
        let m: u64 = a % (n as u64);
        let r: i32 = if m == 0 {
            0
        } else {
            (n as u64 - m) as i32
        };
        proof {
            vstd::arithmetic::div_mod::lemma_fundamental_div_mod(a as int, n as int);
            let q = a as int / n as int;
            if m == 0 {
                assert(v == (-q) * n + 0) by (nonlinear_arith)
                    requires
                        a == n * q + m,
                        m == 0,
                        v == -a,
                ;
                vstd::arithmetic::div_mod::lemma_fundamental_div_mod_converse(
                    v as int,
                    n as int,
                    -q,
                    0,
                );
            } else {
                assert(v == (-q - 1) * n + r) by (nonlinear_arith)
                    requires
                        a == n * q + m,
                        r == n - m,
                        v == -a,
                ;
                vstd::arithmetic::div_mod::lemma_fundamental_div_mod_converse(
                    v as int,
                    n as int,
                    -q - 1,
                    r as int,
                );
            }
        }
        r
    }
}

/// The shorter way from `c` to `t` along an axis of `n` cells: the plain
/// difference of the wrapped coordinates, less one whole span in the
/// direction of its sign when it is longer than half the span.
pub open spec fn axis_delta(c: int, t: int, n: int) -> int {
    let d = t % n - c % n;
    if d > n / 2 {
        d - n
    } else if d < -(n / 2) {
        d + n
    } else {
        d
    }
}

/// Along an axis of `n` cells, the planned delta leads from `c` to the
/// target `t`, is at most half the span long, and no delta that leads there
/// is shorter.
pub proof fn lemma_axis_delta_is_shortest(c: int, t: int, n: int)
    requires
        n > 0,
    ensures
        (c + axis_delta(c, t, n)) % n == t % n,
        abs(axis_delta(c, t, n)) <= n / 2,
        forall|e: int| (c + e) % n == t % n ==> abs(axis_delta(c, t, n)) <= #[trigger] abs(e),
{
    let cm = c % n;
    let tm = t % n;
    let q = c / n;
    let d = axis_delta(c, t, n);
    vstd::arithmetic::div_mod::lemma_fundamental_div_mod(c, n);
    vstd::arithmetic::div_mod::lemma_mod_twice(t, n);
    let k: int = if tm - cm > n / 2 {
        -1
    } else if tm - cm < -(n / 2) {
        1
    } else {
        0
    };
    assert(d == tm - cm + k * n);
    assert(c + d == n * (q + k) + tm) by (nonlinear_arith)
        requires
            c == n * q + cm,
            d == tm - cm + k * n,
    ;
    vstd::arithmetic::div_mod::lemma_mod_multiples_vanish(q + k, tm, n);
    assert forall|e: int| (c + e) % n == t % n implies abs(d) <= #[trigger] abs(e) by {
        vstd::arithmetic::div_mod::lemma_fundamental_div_mod(c + e, n);
        let a = (c + e) / n;
        assert(e - d == n * (a - q - k)) by (nonlinear_arith)
            requires
                c + e == n * a + (c + e) % n,
                (c + e) % n == tm,
                c + d == n * (q + k) + tm,
        ;
        let j = a - q - k;
        if j != 0 {
            assert(abs(n * j) >= n) by (nonlinear_arith)
                requires
                    n > 0,
                    j != 0,
            ;
        }
    }
}

fn axis_step(c: i32, t: i32, n: i32) -> (r: i32)
    requires
        n > 0,
    ensures
        r == axis_delta(c as int, t as int, n as int),
{
    let d = wrap_coord(t, n) - wrap_coord(c, n);
    if d > n / 2 {
        d - n
    } else if d < -(n / 2) {
        d + n
    } else {
        d
    }
}

/// The delta that leads from `current` to `target` on a torus of
/// `width` by `height` cells, each axis taken the shorter way round.
pub fn calculate_movement_delta(current: Position, target: Position, width: i32, height: i32) -> (r:
    Position)
    requires
        width > 0,
        height > 0,
    ensures
        r.x == axis_delta(current.x as int, target.x as int, width as int),
        r.y == axis_delta(current.y as int, target.y as int, height as int),
{
    Position { x: axis_step(current.x, target.x, width), y: axis_step(current.y, target.y, height) }
}

/// The place of `d` in the clockwise order Up, Right, Down, Left.
pub open spec fn dir_index(d: Direction) -> int {
    match d {
        Direction::Up => 0,
        Direction::Right => 1,
        Direction::Down => 2,
        Direction::Left => 3,
    }
}

/// The facing after a quarter turn clockwise.
pub open spec fn turned_right(d: Direction) -> Direction {
    match d {
        Direction::Up => Direction::Right,
        Direction::Right => Direction::Down,
        Direction::Down => Direction::Left,
        Direction::Left => Direction::Up,
    }
}

/// The facing after a quarter turn counter-clockwise.
pub open spec fn turned_left(d: Direction) -> Direction {
    match d {
        Direction::Up => Direction::Left,
        Direction::Right => Direction::Up,
        Direction::Down => Direction::Right,
        Direction::Left => Direction::Down,
    }
}

/// How many clockwise quarter turns lead from `from` to `to`.
pub open spec fn right_turns(from: Direction, to: Direction) -> nat {
    ((dir_index(to) - dir_index(from) + 4) % 4) as nat
}

/// The facing after `n` quarter turns clockwise from `d`.
pub open spec fn turned_right_times(d: Direction, n: nat) -> Direction
    decreases n,
{
    if n == 0 {
        d
    } else {
        turned_right(turned_right_times(d, (n - 1) as nat))
    }
}

/// Turning right as many times as `right_turns` says faces the wanted way,
/// and never takes more than three turns.
pub proof fn lemma_right_turns_face_target(from: Direction, to: Direction)
    ensures
        turned_right_times(from, right_turns(from, to)) == to,
        right_turns(from, to) <= 3,
{
    reveal_with_fuel(turned_right_times, 4);
}

/// `n` copies of `c`.
pub open spec fn repeated(c: Command, n: nat) -> Seq<Command> {
    Seq::new(n, |i: int| c)
}

/// The facing that a horizontal delta `dx` asks for.
pub open spec fn horizontal_facing(dx: int) -> Direction {
    if dx > 0 {
        Direction::Right
    } else {
        Direction::Left
    }
}

/// The facing that a vertical delta `dy` asks for.
pub open spec fn vertical_facing(dy: int) -> Direction {
    if dy > 0 {
        Direction::Down
    } else {
        Direction::Up
    }
}

pub open spec fn abs(v: int) -> nat {
    if v < 0 {
        (-v) as nat
    } else {
        v as nat
    }
}

/// The commands that travel a delta from `facing`: turn right until facing
/// the horizontal direction and advance `|dx|` cells, then the same for the
/// vertical direction; an axis with no distance is skipped.
pub open spec fn travel_commands(facing: Direction, dx: int, dy: int) -> Seq<Command> {
    let f1 = if dx != 0 {
        horizontal_facing(dx)
    } else {
        facing
    };
    let first = if dx != 0 {
        repeated(Command::Right, right_turns(facing, f1)) + repeated(Command::Forward, abs(dx))
    } else {
        Seq::empty()
    };
    let second = if dy != 0 {
        repeated(Command::Right, right_turns(f1, vertical_facing(dy))) + repeated(
            Command::Forward,
            abs(dy),
        )
    } else {
        Seq::empty()
    };
    first + second
}

fn index_of_direction(d: Direction) -> (r: u32)
    ensures
        r == dir_index(d),
{
    match d {
        Direction::Up => 0,
        Direction::Right => 1,
        Direction::Down => 2,
        Direction::Left => 3,
    }
}

/// How many clockwise quarter turns lead from `from` to `to` (at most 3).
pub fn turns_to_face(from: Direction, to: Direction) -> (r: u32)
    ensures
        r == right_turns(from, to),
        r < 4,
{
    (index_of_direction(to) + 4 - index_of_direction(from)) % 4
}

fn push_repeated(v: &mut Vec<Command>, c: Command, n: u32)
    requires
        c is Right || c is Forward,
    ensures
        final(v)@ == old(v)@ + repeated(c, n as nat),
{
    let ghost start = v@;
    let mut i: u32 = 0;
    while i < n
        invariant
            c is Right || c is Forward,
            i <= n,
            v@ == start + repeated(c, i as nat),
        decreases n - i,
    {
        let item = match c {
            Command::Right => Command::Right,
            _ => Command::Forward,
        };
        v.push(item);
        i = i + 1;
        assert(v@ =~= start + repeated(c, i as nat));
    }
}

fn abs_of(v: i32) -> (r: u32)
    ensures
        r == abs(v as int),
{
    if v < 0 {
        (0 - (v as i64)) as u32
    } else {
        v as u32
    }
}

/// The column step of a move along `f`.
pub open spec fn unit_dx(f: Direction) -> int {
    match f {
        Direction::Right => 1,
        Direction::Left => -1,
        _ => 0,
    }
}

/// The row step of a move along `f`; rows grow downwards.
pub open spec fn unit_dy(f: Direction) -> int {
    match f {
        Direction::Down => 1,
        Direction::Up => -1,
        _ => 0,
    }
}

/// The cell after one step from column `x`, row `y` along `f`, on a torus
/// of `w` by `h` cells.
pub open spec fn step_from(x: int, y: int, f: Direction, w: int, h: int) -> (int, int) {
    (((x % w) + unit_dx(f)) % w, ((y % h) + unit_dy(f)) % h)
}

/// The pose (column, row, facing) after the command `c` succeeded.
pub open spec fn after_command(x: int, y: int, f: Direction, c: Command, w: int, h: int) -> (
    int,
    int,
    Direction,
) {
    match c {
        Command::Right => (x, y, turned_right(f)),
        Command::Left => (x, y, turned_left(f)),
        Command::Forward => (step_from(x, y, f, w, h).0, step_from(x, y, f, w, h).1, f),
        _ => (x, y, f),
    }
}

/// The pose after each of `cmds` succeeded in turn.
pub open spec fn after_commands(x: int, y: int, f: Direction, cmds: Seq<Command>, w: int, h: int) -> (
    int,
    int,
    Direction,
)
    decreases cmds.len(),
{
    if cmds.len() == 0 {
        (x, y, f)
    } else {
        let p = after_commands(x, y, f, cmds.drop_last(), w, h);
        after_command(p.0, p.1, p.2, cmds.last(), w, h)
    }
}

proof fn lemma_after_concat(
    x: int,
    y: int,
    f: Direction,
    a: Seq<Command>,
    b: Seq<Command>,
    w: int,
    h: int,
)
    ensures
        ({
            let p = after_commands(x, y, f, a, w, h);
            after_commands(x, y, f, a + b, w, h) == after_commands(p.0, p.1, p.2, b, w, h)
        }),
    decreases b.len(),
{
    if b.len() == 0 {
        assert(a + b =~= a);
    } else {
        lemma_after_concat(x, y, f, a, b.drop_last(), w, h);
        assert((a + b).drop_last() =~= a + b.drop_last());
        assert((a + b).last() == b.last());
    }
}

proof fn lemma_after_turns(x: int, y: int, f: Direction, k: nat, w: int, h: int)
    ensures
        after_commands(x, y, f, repeated(Command::Right, k), w, h) == (x, y, turned_right_times(f, k)),
    decreases k,
{
    if k > 0 {
        lemma_after_turns(x, y, f, (k - 1) as nat, w, h);
        assert(repeated(Command::Right, k).drop_last() =~= repeated(Command::Right, (k - 1) as nat));
    }
}

proof fn lemma_shift_mod(a: int, b: int, u: int, m: int)
    requires
        m > 0,
        a % m == b % m,
    ensures
        (a + u) % m == (b + u) % m,
{
    vstd::arithmetic::div_mod::lemma_add_mod_noop(a, u, m);
    vstd::arithmetic::div_mod::lemma_add_mod_noop(b, u, m);
}

proof fn lemma_after_steps(x: int, y: int, f: Direction, k: nat, w: int, h: int)
    requires
        w > 0,
        h > 0,
    ensures
        ({
            let p = after_commands(x, y, f, repeated(Command::Forward, k), w, h);
            &&& p.2 == f
            &&& p.0 % w == (x + k * unit_dx(f)) % w
            &&& p.1 % h == (y + k * unit_dy(f)) % h
        }),
    decreases k,
{
    if k > 0 {
        lemma_after_steps(x, y, f, (k - 1) as nat, w, h);
        assert(repeated(Command::Forward, k).drop_last() =~= repeated(
            Command::Forward,
            (k - 1) as nat,
        ));
        let p = after_commands(x, y, f, repeated(Command::Forward, (k - 1) as nat), w, h);
        let ux = unit_dx(f);
        let uy = unit_dy(f);
        vstd::arithmetic::div_mod::lemma_mod_twice(p.0, w);
        vstd::arithmetic::div_mod::lemma_mod_twice(p.1, h);
        lemma_shift_mod(p.0 % w, p.0, ux, w);
        lemma_shift_mod(p.1 % h, p.1, uy, h);
        lemma_shift_mod(p.0, x + (k - 1) * ux, ux, w);
        lemma_shift_mod(p.1, y + (k - 1) * uy, uy, h);
        vstd::arithmetic::div_mod::lemma_mod_twice(p.0 + ux, w);
        vstd::arithmetic::div_mod::lemma_mod_twice(p.1 + uy, h);
        assert(x + (k - 1) * ux + ux == x + k * ux) by (nonlinear_arith);
        assert(y + (k - 1) * uy + uy == y + k * uy) by (nonlinear_arith);
    }
}

/// One axis of a travel: the turns towards `facing_to`, then `n` steps.
proof fn lemma_after_leg(x: int, y: int, f: Direction, to: Direction, n: nat, w: int, h: int)
    requires
        w > 0,
        h > 0,
    ensures
        ({
            let p = after_commands(
                x,
                y,
                f,
                repeated(Command::Right, right_turns(f, to)) + repeated(Command::Forward, n),
                w,
                h,
            );
            &&& p.2 == to
            &&& p.0 % w == (x + n * unit_dx(to)) % w
            &&& p.1 % h == (y + n * unit_dy(to)) % h
        }),
{
    lemma_after_concat(
        x,
        y,
        f,
        repeated(Command::Right, right_turns(f, to)),
        repeated(Command::Forward, n),
        w,
        h,
    );
    lemma_after_turns(x, y, f, right_turns(f, to), w, h);
    lemma_right_turns_face_target(f, to);
    lemma_after_steps(x, y, to, n, w, h);
}

/// Following the travel plan from any pose ends on the target cell: the
/// commands that `plan_travel` gives for the shortest delta, each applied
/// as `after_command` says, lead from (`x`, `y`) to (`tx`, `ty`), with
/// coordinates taken round the torus.
pub proof fn lemma_travel_reaches_target(
    x: int,
    y: int,
    f: Direction,
    tx: int,
    ty: int,
    w: int,
    h: int,
)
    requires
        w > 0,
        h > 0,
    ensures
        ({
            let p = after_commands(
                x,
                y,
                f,
                travel_commands(f, axis_delta(x, tx, w), axis_delta(y, ty, h)),
                w,
                h,
            );
            p.0 % w == tx % w && p.1 % h == ty % h
        }),
{
    let dx = axis_delta(x, tx, w);
    let dy = axis_delta(y, ty, h);
    lemma_axis_delta_is_shortest(x, tx, w);
    lemma_axis_delta_is_shortest(y, ty, h);
    let f1 = if dx != 0 {
        horizontal_facing(dx)
    } else {
        f
    };
    let first = if dx != 0 {
        repeated(Command::Right, right_turns(f, f1)) + repeated(Command::Forward, abs(dx))
    } else {
        Seq::empty()
    };
    let second = if dy != 0 {
        repeated(Command::Right, right_turns(f1, vertical_facing(dy))) + repeated(
            Command::Forward,
            abs(dy),
        )
    } else {
        Seq::empty()
    };
    lemma_after_concat(x, y, f, first, second, w, h);
    let mid = after_commands(x, y, f, first, w, h);
    if dx != 0 {
        lemma_after_leg(x, y, f, f1, abs(dx), w, h);
        let u = unit_dx(f1);
        let m = abs(dx);
        if dx > 0 {
            assert(u == 1 && m == dx);
            assert(m * u == dx) by (nonlinear_arith)
                requires
                    u == 1,
                    m == dx,
            ;
        } else {
            assert(u == -1 && m == -dx);
            assert(m * u == dx) by (nonlinear_arith)
                requires
                    u == -1,
                    m == -dx,
            ;
        }
        assert(abs(dx) * unit_dy(f1) == 0);
    }
    assert(mid.2 == f1);
    assert(mid.0 % w == (x + dx) % w);
    assert(mid.1 % h == y % h);
    lemma_shift_mod(mid.1, y, dy, h);
    if dy != 0 {
        lemma_after_leg(mid.0, mid.1, f1, vertical_facing(dy), abs(dy), w, h);
        let u = unit_dy(vertical_facing(dy));
        let m = abs(dy);
        if dy > 0 {
            assert(u == 1 && m == dy);
            assert(m * u == dy) by (nonlinear_arith)
                requires
                    u == 1,
                    m == dy,
            ;
        } else {
            assert(u == -1 && m == -dy);
            assert(m * u == dy) by (nonlinear_arith)
                requires
                    u == -1,
                    m == -dy,
            ;
        }
        assert(abs(dy) * unit_dx(vertical_facing(dy)) == 0);
    }
}

/// Appends the commands that travel the delta `delta` starting out facing
/// `facing` (see `travel_commands`).
pub fn push_travel(v: &mut Vec<Command>, facing: Direction, delta: Position)
    ensures
        final(v)@ == old(v)@ + travel_commands(facing, delta.x as int, delta.y as int),
{
    let ghost start = v@;
    let mut f = facing;
    if delta.x != 0 {
        let h = if delta.x > 0 {
            Direction::Right
        } else {
            Direction::Left
        };
        push_repeated(v, Command::Right, turns_to_face(f, h));
        push_repeated(v, Command::Forward, abs_of(delta.x));
        f = h;
    }
    if delta.y != 0 {
        let t = if delta.y > 0 {
            Direction::Down
        } else {
            Direction::Up
        };
        push_repeated(v, Command::Right, turns_to_face(f, t));
        push_repeated(v, Command::Forward, abs_of(delta.y));
    }
    assert(v@ =~= start + travel_commands(facing, delta.x as int, delta.y as int));
}

/// The commands that travel the delta `delta` starting out facing `facing`
/// (see `travel_commands`).
pub fn plan_travel(facing: Direction, delta: Position) -> (r: Vec<Command>)
    ensures
        r@ == travel_commands(facing, delta.x as int, delta.y as int),
{
    let mut v: Vec<Command> = Vec::new();
    push_travel(&mut v, facing, delta);
    assert(v@ =~= travel_commands(facing, delta.x as int, delta.y as int));
    v
}

} // verus!
