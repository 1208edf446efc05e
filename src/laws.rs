//! Facts about the rules that hold for every input.
use vstd::prelude::*;

use crate::mission_instructions::{
    mission_outcomes,
    off_grid,
    Coordinates,
    Orientation,
    RobotCommands,
};
use crate::robots::{
    command_outcome,
    forward_target,
    position_text,
    report_text,
    run_commands,
    RobotModel,
    RobotPosition,
    RobotStatus,
};

verus! {

/// True iff a forward step from every position in `scents` leaves the grid
/// with corner `limit`: scents are only laid where a robot fell.
pub open spec fn scents_lead_off(scents: Set<RobotPosition>, limit: Coordinates) -> bool {
    forall|q: RobotPosition|
        #[trigger] scents.contains(q) ==> off_grid(forward_target(q).0, forward_target(q).1, limit)
}

/// Four quarter turns the same way bring every heading back to itself.
pub proof fn lemma_four_turns(o: Orientation)
    ensures
        o.right_of().right_of().right_of().right_of() == o,
        o.left_of().left_of().left_of().left_of() == o,
{
}

/// Four `Right` commands, or four `Left` commands, leave a live robot where
/// it was, facing the same way, and lay no scent.
pub proof fn lemma_four_turn_commands(
    p: RobotPosition,
    limit: Coordinates,
    scents: Set<RobotPosition>,
)
    ensures
        run_commands(
            seq![RobotCommands::Right, RobotCommands::Right, RobotCommands::Right, RobotCommands::Right],
            p,
            RobotStatus::Alive,
            limit,
            scents,
        ) == (p, RobotStatus::Alive, scents),
        run_commands(
            seq![RobotCommands::Left, RobotCommands::Left, RobotCommands::Left, RobotCommands::Left],
            p,
            RobotStatus::Alive,
            limit,
            scents,
        ) == (p, RobotStatus::Alive, scents),
{
    reveal_with_fuel(run_commands, 5);
    let r = RobotCommands::Right;
    let l = RobotCommands::Left;
    assert(seq![r, r, r, r].drop_first() =~= seq![r, r, r]);
    assert(seq![r, r, r].drop_first() =~= seq![r, r]);
    assert(seq![r, r].drop_first() =~= seq![r]);
    assert(seq![r].drop_first() =~= Seq::<RobotCommands>::empty());
    assert(seq![l, l, l, l].drop_first() =~= seq![l, l, l]);
    assert(seq![l, l, l].drop_first() =~= seq![l, l]);
    assert(seq![l, l].drop_first() =~= seq![l]);
    assert(seq![l].drop_first() =~= Seq::<RobotCommands>::empty());
}

/// From a position strictly inside the grid, where no scent can lie, a
/// forward step moves one square in the direction faced, keeps the heading
/// and the robot alive, and lays no scent.
pub proof fn lemma_forward_inside(p: RobotPosition, limit: Coordinates, scents: Set<RobotPosition>)
    requires
        0 < p.coordinates.x < limit.x,
        0 < p.coordinates.y < limit.y,
        scents_lead_off(scents, limit),
    ensures
        ({
            let o = command_outcome(RobotCommands::Forward, p, limit, scents);
            let (x, y) = (p.coordinates.x as int, p.coordinates.y as int);
            &&& o.1 == RobotStatus::Alive
            &&& o.2 == scents
            &&& o.0.orientation == p.orientation
            &&& (o.0.coordinates.x as int, o.0.coordinates.y as int) == match p.orientation {
                Orientation::North => (x, y + 1),
                Orientation::South => (x, y - 1),
                Orientation::East => (x + 1, y),
                Orientation::West => (x - 1, y),
            }
        }),
{
    if scents.contains(p) {
        assert(off_grid(forward_target(p).0, forward_target(p).1, limit));
    }
}

/// A robot that steps off the grid from an unscented position is lost where
/// it stood, that exact position and heading is scented, and none of its
/// later commands run. Its report is its last position followed by `LOST`.
pub proof fn lemma_fall_leaves_scent(
    p: RobotPosition,
    rest: Seq<RobotCommands>,
    limit: Coordinates,
    scents: Set<RobotPosition>,
)
    requires
        !scents.contains(p),
        off_grid(forward_target(p).0, forward_target(p).1, limit),
    ensures
        run_commands(seq![RobotCommands::Forward] + rest, p, RobotStatus::Alive, limit, scents) == (
            p,
            RobotStatus::Lost,
            scents.insert(p),
        ),
        scents.insert(p).contains(p),
        report_text(p, RobotStatus::Lost) == position_text(p) + seq![' ', 'L', 'O', 'S', 'T'],
{
    let cmds = seq![RobotCommands::Forward] + rest;
    assert(cmds[0] == RobotCommands::Forward);
    assert(run_commands(cmds.drop_first(), p, RobotStatus::Lost, limit, scents.insert(p)) == (
        p,
        RobotStatus::Lost,
        scents.insert(p),
    ));
}

/// A live robot at a scented position ignores a `Forward` command, and the
/// commands after it run as they would have without it.
pub proof fn lemma_scent_blocks_forward(
    p: RobotPosition,
    rest: Seq<RobotCommands>,
    limit: Coordinates,
    scents: Set<RobotPosition>,
)
    requires
        scents.contains(p),
    ensures
        command_outcome(RobotCommands::Forward, p, limit, scents) == (p, RobotStatus::Alive, scents),
        run_commands(seq![RobotCommands::Forward] + rest, p, RobotStatus::Alive, limit, scents)
            == run_commands(rest, p, RobotStatus::Alive, limit, scents),
{
    let cmds = seq![RobotCommands::Forward] + rest;
    assert(cmds[0] == RobotCommands::Forward);
    assert(cmds.drop_first() =~= rest);
}

/// The heading after turning from `o` by each of `cmds` in order, each a
/// `Left` or a `Right`.
pub open spec fn turned(o: Orientation, cmds: Seq<RobotCommands>) -> Orientation
    decreases cmds.len(),
{
    if cmds.len() == 0 {
        o
    } else {
        let next = if cmds[0] == RobotCommands::Left {
            o.left_of()
        } else {
            o.right_of()
        };
        turned(next, cmds.drop_first())
    }
}

/// A live robot that only turns stays where it is and alive, ends facing
/// the heading that the turns give, and lays no scent.
pub proof fn lemma_turns_keep_place(
    cmds: Seq<RobotCommands>,
    p: RobotPosition,
    limit: Coordinates,
    scents: Set<RobotPosition>,
)
    requires
        forall|i: int| 0 <= i < cmds.len() ==> #[trigger] cmds[i] != RobotCommands::Forward,
    ensures
        run_commands(cmds, p, RobotStatus::Alive, limit, scents) == (
            RobotPosition { orientation: turned(p.orientation, cmds), ..p },
            RobotStatus::Alive,
            scents,
        ),
    decreases cmds.len(),
{
    if cmds.len() > 0 {
        let o = command_outcome(cmds[0], p, limit, scents);
        assert(cmds[0] != RobotCommands::Forward);
        assert forall|i: int| 0 <= i < cmds.drop_first().len() implies #[trigger] cmds.drop_first()[i]
            != RobotCommands::Forward by {
            assert(cmds.drop_first()[i] == cmds[i + 1]);
        }
        lemma_turns_keep_place(cmds.drop_first(), o.0, limit, scents);
    }
}

/// Every run of commands keeps scents only where a forward step leaves the
/// grid, and a robot that ends lost ends on a scented position.
pub proof fn lemma_run_scents(
    cmds: Seq<RobotCommands>,
    p: RobotPosition,
    status: RobotStatus,
    limit: Coordinates,
    scents: Set<RobotPosition>,
)
    requires
        scents_lead_off(scents, limit),
        status == RobotStatus::Lost ==> scents.contains(p),
    ensures
        ({
            let o = run_commands(cmds, p, status, limit, scents);
            &&& scents_lead_off(o.2, limit)
            &&& o.1 == RobotStatus::Lost ==> o.2.contains(o.0)
            &&& scents.subset_of(o.2)
        }),
    decreases cmds.len(),
{
    if cmds.len() > 0 && status == RobotStatus::Alive {
        let o = command_outcome(cmds[0], p, limit, scents);
        assert(scents_lead_off(o.2, limit));
        lemma_run_scents(cmds.drop_first(), o.0, o.1, limit, o.2);
    }
}

/// A mission of robots that start alive, run from scents that each lead off
/// the grid, lays only such scents, never removes one, and every robot that
/// ends lost ends on a scented position.
pub proof fn lemma_mission_scents(
    robots: Seq<RobotModel>,
    limit: Coordinates,
    scents: Set<RobotPosition>,
)
    requires
        scents_lead_off(scents, limit),
        forall|i: int| 0 <= i < robots.len() ==> (#[trigger] robots[i]).1 == RobotStatus::Alive,
    ensures
        ({
            let o = mission_outcomes(robots, limit, scents);
            &&& scents_lead_off(o.1, limit)
            &&& scents.subset_of(o.1)
            &&& o.0.len() == robots.len()
            &&& forall|i: int|
                0 <= i < o.0.len() && (#[trigger] o.0[i]).1 == RobotStatus::Lost ==> o.1.contains(
                    o.0[i].0,
                )
        }),
    decreases robots.len(),
{
    if robots.len() > 0 {
        let front = robots.drop_last();
        assert forall|i: int| 0 <= i < front.len() implies (#[trigger] front[i]).1
            == RobotStatus::Alive by {
            assert(front[i] == robots[i]);
        }
        lemma_mission_scents(front, limit, scents);
        let before = mission_outcomes(front, limit, scents);
        let last = robots.last();
        assert(robots[robots.len() - 1].1 == RobotStatus::Alive);
        lemma_run_scents(last.2, last.0, last.1, limit, before.1);
        let o = mission_outcomes(robots, limit, scents);
        assert forall|i: int|
            0 <= i < o.0.len() && (#[trigger] o.0[i]).1 == RobotStatus::Lost implies o.1.contains(
            o.0[i].0,
        ) by {
            if i < before.0.len() {
                assert(o.0[i] == before.0[i]);
            }
        }
    }
}

} // verus!
