//! Where panes are, relative to one another.
use vstd::prelude::*;
use crate::commands::SplitDir;

verus! {

/// The place of a pane in its tab, in pixels.
#[derive(Clone, Copy, Debug, PartialEq, Eq, Structural)]
pub struct Bounds {
    pub x: i32,
    pub y: i32,
    pub w: i32,
    pub h: i32,
}

/// How far apart two centers are, across and down, in half pixels.
pub open spec fn offset(from: Bounds, to: Bounds) -> (int, int) {
    (2 * to.x + to.w - (2 * from.x + from.w), 2 * to.y + to.h - (2 * from.y + from.h))
}

/// The distance without its sign.
pub open spec fn magnitude(n: int) -> int {
    if n < 0 {
        -n
    } else {
        n
    }
}

/// How far the offset goes in a direction.
pub open spec fn forward(dir: SplitDir, d: (int, int)) -> int {
    match dir {
        SplitDir::Left => -d.0,
        SplitDir::Right => d.0,
        SplitDir::Up => -d.1,
        SplitDir::Down => d.1,
    }
}

/// How far the offset goes to either side of a direction.
pub open spec fn sideways(dir: SplitDir, d: (int, int)) -> int {
    match dir {
        SplitDir::Left | SplitDir::Right => magnitude(d.1),
        SplitDir::Up | SplitDir::Down => magnitude(d.0),
    }
}

/// How far away a pane in some direction is. Being off to the side counts
/// double, so that panes in line come before diagonal ones. None if its center
/// is not in that direction.
pub open spec fn distance(dir: SplitDir, from: Bounds, to: Bounds) -> Option<int> {
    let d = offset(from, to);
    if forward(dir, d) > 0 {
        Some(forward(dir, d) + 2 * sideways(dir, d))
    } else {
        None
    }
}

/// The distance of a pane whose place may be unknown.
pub open spec fn distance_to(dir: SplitDir, from: Bounds, to: Option<Bounds>) -> Option<int> {
    match to {
        Some(b) => distance(dir, from, b),
        None => None,
    }
}

fn measure(dir: SplitDir, from: Bounds, to: Bounds) -> (d: Option<i64>)
    ensures
        match d {
            Some(n) => distance(dir, from, to) == Some(n as int),
            None => distance(dir, from, to) is None,
        },
{
    let dx: i64 = 2 * (to.x as i64) + to.w as i64 - (2 * (from.x as i64) + from.w as i64);
    let dy: i64 = 2 * (to.y as i64) + to.h as i64 - (2 * (from.y as i64) + from.h as i64);
    let (ahead, side): (i64, i64) = match dir {
        SplitDir::Left => (-dx, dy),
        SplitDir::Right => (dx, dy),
        SplitDir::Up => (-dy, dx),
        SplitDir::Down => (dy, dx),
    };
    let side: i64 = if side < 0 {
        -side
    } else {
        side
    };
    if ahead > 0 {
        Some(ahead + 2 * side)
    } else {
        None
    }
}

/// The pane to move to from a pane at `from`: the nearest of the others in that
/// direction, and of those equally near the first. The places of panes that are
/// not shown, and of the pane itself, are None.
pub fn nearest_pane(dir: SplitDir, from: Bounds, others: &Vec<Option<Bounds>>) -> (found: Option<
    usize,
>)
    ensures
        match found {
            Some(i) => {
                &&& i < others@.len()
                &&& distance_to(dir, from, others@[i as int]) is Some
                &&& forall|k: int|
                    0 <= k < others@.len() && distance_to(
                        dir,
                        from,
                        #[trigger] others@[k],
                    ) is Some ==> {
                        let best = distance_to(dir, from, others@[i as int])->0;
                        let other = distance_to(dir, from, others@[k])->0;
                        best < other || (best == other && i <= k)
                    }
            },
            None => forall|k: int|
                0 <= k < others@.len() ==> distance_to(dir, from, #[trigger] others@[k]) is None,
        },
{
    let mut found: Option<(usize, i64)> = None;
    let mut k: usize = 0;
    while k < others.len()
        invariant
            k <= others@.len(),
            match found {
                Some((i, best)) => {
                    &&& i < k
                    &&& distance_to(dir, from, others@[i as int]) == Some(best as int)
                    &&& forall|j: int|
                        0 <= j < k && distance_to(dir, from, #[trigger] others@[j]) is Some ==> {
                            let other = distance_to(dir, from, others@[j])->0;
                            best < other || (best == other && i <= j)
                        }
                },
                None => forall|j: int|
                    0 <= j < k ==> distance_to(dir, from, #[trigger] others@[j]) is None,
            },
        decreases others@.len() - k,
    {
        if let Some(to) = others[k] {
            if let Some(d) = measure(dir, from, to) {
                let better = match found {
                    Some((_, best)) => d < best,
                    None => true,
                };
                if better {
                    found = Some((k, d));
                }
            }
        }
        k = k + 1;
    }
    match found {
        Some((i, _)) => Some(i),
        None => None,
    }
}

/// The direction opposite to another.
pub open spec fn opposite(dir: SplitDir) -> SplitDir {
    match dir {
        SplitDir::Left => SplitDir::Right,
        SplitDir::Right => SplitDir::Left,
        SplitDir::Up => SplitDir::Down,
        SplitDir::Down => SplitDir::Up,
    }
}

/// A pane in one direction is not in the opposite one, and from there the way
/// back is as long.
pub proof fn law_directions_are_opposite(dir: SplitDir, from: Bounds, to: Bounds)
    requires
        distance(dir, from, to) is Some,
    ensures
        distance(opposite(dir), from, to) is None,
        distance(opposite(dir), to, from) == distance(dir, from, to),
{
}

/// A pane lies in a direction just when its center does. Straight ahead its
/// distance is that of the centers, in half pixels, and being off to either side
/// adds twice as much as that.
pub proof fn law_distance(from: Bounds, to: Bounds)
    ensures
        ({
            let across = 2 * to.x + to.w - 2 * from.x - from.w;
            let down = 2 * to.y + to.h - 2 * from.y - from.h;
            let off = |n: int| if n < 0 { -n } else { n };
            &&& distance(SplitDir::Right, from, to) == if across > 0 {
                Some(across + 2 * off(down))
            } else {
                None
            }
            &&& distance(SplitDir::Left, from, to) == if across < 0 {
                Some(-across + 2 * off(down))
            } else {
                None
            }
            &&& distance(SplitDir::Down, from, to) == if down > 0 {
                Some(down + 2 * off(across))
            } else {
                None
            }
            &&& distance(SplitDir::Up, from, to) == if down < 0 {
                Some(-down + 2 * off(across))
            } else {
                None
            }
        }),
{
}

/// A pane that starts where this one ends, and is as wide or as high, is in that
/// direction and no other.
pub proof fn law_neighbor_is_found(from: Bounds, to: Bounds)
    requires
        from.w > 0,
        from.h > 0,
        to.w > 0,
        to.h > 0,
    ensures
        to.x == from.x + from.w && to.y == from.y && to.h == from.h ==> {
            &&& distance(SplitDir::Right, from, to) is Some
            &&& distance(SplitDir::Left, from, to) is None
            &&& distance(SplitDir::Up, from, to) is None
            &&& distance(SplitDir::Down, from, to) is None
        },
        to.y == from.y + from.h && to.x == from.x && to.w == from.w ==> {
            &&& distance(SplitDir::Down, from, to) is Some
            &&& distance(SplitDir::Up, from, to) is None
            &&& distance(SplitDir::Left, from, to) is None
            &&& distance(SplitDir::Right, from, to) is None
        },
{
}

} // verus!
