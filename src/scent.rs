//! The registry of scents: the positions and headings from which a robot
//! was lost.
use std::collections::HashSet;
use vstd::prelude::*;

use crate::mission_instructions::Orientation;
use crate::robots::RobotPosition;

verus! {

broadcast use vstd::std_specs::hash::group_hash_axioms;

/// `2^34`: the room that `y` and the heading take in a key.
pub const X_SCALE: i128 = 17179869184;

/// `2^31`: added to `y` to make it non-negative.
pub const Y_OFFSET: i128 = 2147483648;

/// The number of a heading, in `[0, 4)`.
pub open spec fn heading_index(o: Orientation) -> int {
    match o {
        Orientation::North => 0,
        Orientation::East => 1,
        Orientation::South => 2,
        Orientation::West => 3,
    }
}

/// A distinct integer for each position and heading.
pub open spec fn scent_key(p: RobotPosition) -> int {
    p.coordinates.x as int * X_SCALE + (p.coordinates.y as int + Y_OFFSET) * 4 + heading_index(
        p.orientation,
    )
}

/// Distinct positions have distinct keys.
pub proof fn lemma_scent_key_injective(p: RobotPosition, q: RobotPosition)
    requires
        scent_key(p) == scent_key(q),
    ensures
        p == q,
{
    let rp = (p.coordinates.y as int + Y_OFFSET) * 4 + heading_index(p.orientation);
    let rq = (q.coordinates.y as int + Y_OFFSET) * 4 + heading_index(q.orientation);
    let xp = p.coordinates.x as int;
    let xq = q.coordinates.x as int;
    assert(0 <= rp < X_SCALE && 0 <= rq < X_SCALE);
    assert(xp == xq) by (nonlinear_arith)
        requires
            xp * 17179869184 + rp == xq * 17179869184 + rq,
            0 <= rp < 17179869184,
            0 <= rq < 17179869184,
    ;
    assert(p.coordinates.y == q.coordinates.y);
    assert(heading_index(p.orientation) == heading_index(q.orientation));
}

fn key_of(p: &RobotPosition) -> (r: i128)
    ensures
        r == scent_key(*p),
{
    let heading: i128 = match p.orientation {
        Orientation::North => 0,
        Orientation::East => 1,
        Orientation::South => 2,
        Orientation::West => 3,
    };
    (p.coordinates.x as i128) * X_SCALE + ((p.coordinates.y as i128) + Y_OFFSET) * 4 + heading
}

/// A set of scented positions, shared by all robots of one run. It only
/// ever grows.
pub struct ScentTracker {
    keys: HashSet<i128>,
}

impl View for ScentTracker {
    type V = Set<RobotPosition>;

    closed spec fn view(&self) -> Set<RobotPosition> {
        Set::new(|p: RobotPosition| self.keys@.contains(scent_key(p) as i128))
    }
}

impl ScentTracker {
    /// An empty registry.
    pub fn new() -> (r: Self)
        ensures
            r@ == Set::<RobotPosition>::empty(),
    {
        let r = ScentTracker { keys: HashSet::new() };
        assert(r@ =~= Set::<RobotPosition>::empty());
        r
    }

    /// Whether `position` has been scented.
    pub fn contains(&self, position: &RobotPosition) -> (r: bool)
        ensures
            r == self@.contains(*position),
    {
        let key = key_of(position);
        self.keys.contains(&key)
    }

    /// Adds `position` to the registry.
    pub fn insert(&mut self, position: RobotPosition)
        ensures
            final(self)@ == old(self)@.insert(position),
    {
        let key = key_of(&position);
        self.keys.insert(key);
        assert forall|q: RobotPosition| #[trigger] self@.contains(q) == old(self)@.insert(
            position,
        ).contains(q) by {
            if scent_key(q) as i128 == key {
                assert(scent_key(q) == scent_key(position));
                lemma_scent_key_injective(q, position);
            }
        }
        assert(self@ =~= old(self)@.insert(position));
    }
}

} // verus!
