//! A robot's position, its state machine, and the rules of a single command.
use vstd::prelude::*;

use crate::mission_instructions::{
    coordinates_literal,
    off_grid,
    orientation_of,
    orientation_of_char,
    Coordinates,
    MissionError,
    Orientation,
    RobotCommands,
};
use crate::scent::ScentTracker;
use crate::text::{chars_of, decimal, push_char, push_decimal};

verus! {

/// Where a robot stands and which way it faces.
#[derive(Clone, Copy, Debug, PartialEq, Eq, Structural, Hash)]
pub struct RobotPosition {
    pub coordinates: Coordinates,
    pub orientation: Orientation,
}

/// Whether a robot is still on the grid.
#[derive(Clone, Copy, Debug, PartialEq, Eq, Structural, Hash)]
pub enum RobotStatus {
    Alive,
    Lost,
}

/// The point one step ahead of `p`, in unbounded integers.
pub open spec fn forward_target(p: RobotPosition) -> (int, int) {
    let x = p.coordinates.x as int;
    let y = p.coordinates.y as int;
    match p.orientation {
        Orientation::North => (x, y + 1),
        Orientation::South => (x, y - 1),
        Orientation::East => (x + 1, y),
        Orientation::West => (x - 1, y),
    }
}

/// True iff the point one step ahead of `p` is representable.
pub open spec fn forward_fits(p: RobotPosition) -> bool {
    let t = forward_target(p);
    i32::MIN <= t.0 <= i32::MAX && i32::MIN <= t.1 <= i32::MAX
}

/// The effect of one command on a live robot at `p`, given the grid corner
/// `limit` and the scents laid so far: the new position, the new status and
/// the new set of scents.
pub open spec fn command_outcome(
    cmd: RobotCommands,
    p: RobotPosition,
    limit: Coordinates,
    scents: Set<RobotPosition>,
) -> (RobotPosition, RobotStatus, Set<RobotPosition>) {
    match cmd {
        RobotCommands::Right => (
            RobotPosition { orientation: p.orientation.right_of(), ..p },
            RobotStatus::Alive,
            scents,
        ),
        RobotCommands::Left => (
            RobotPosition { orientation: p.orientation.left_of(), ..p },
            RobotStatus::Alive,
            scents,
        ),
        RobotCommands::Forward => {
            let t = forward_target(p);
            if scents.contains(p) {
                (p, RobotStatus::Alive, scents)
            } else if off_grid(t.0, t.1, limit) {
                (p, RobotStatus::Lost, scents.insert(p))
            } else {
                (
                    RobotPosition {
                        coordinates: Coordinates { x: t.0 as i32, y: t.1 as i32 },
                        orientation: p.orientation,
                    },
                    RobotStatus::Alive,
                    scents,
                )
            }
        },
    }
}

/// The outcome of running `cmds` in order from `p` with status `status`:
/// a lost robot ignores whatever commands remain.
pub open spec fn run_commands(
    cmds: Seq<RobotCommands>,
    p: RobotPosition,
    status: RobotStatus,
    limit: Coordinates,
    scents: Set<RobotPosition>,
) -> (RobotPosition, RobotStatus, Set<RobotPosition>)
    decreases cmds.len(),
{
    if cmds.len() == 0 || status == RobotStatus::Lost {
        (p, status, scents)
    } else {
        let o = command_outcome(cmds[0], p, limit, scents);
        run_commands(cmds.drop_first(), o.0, o.1, limit, o.2)
    }
}

/// The text `"X Y O"` for `p`.
pub open spec fn position_text(p: RobotPosition) -> Seq<char> {
    decimal(p.coordinates.x as int) + seq![' '] + decimal(p.coordinates.y as int) + seq![
        ' ',
        p.orientation.letter(),
    ]
}

/// The report for a robot that finished at `p` with status `status`:
/// `"X Y O"`, followed by `" LOST"` for a lost robot.
pub open spec fn report_text(p: RobotPosition, status: RobotStatus) -> Seq<char> {
    if status == RobotStatus::Lost {
        position_text(p) + seq![' ', 'L', 'O', 'S', 'T']
    } else {
        position_text(p)
    }
}

/// The start position that the line `t` writes: coordinates, a space and a
/// heading letter.
pub open spec fn position_literal(t: Seq<char>) -> Result<RobotPosition, MissionError> {
    if t.len() < 2 || t[t.len() - 2] != ' ' {
        Err(MissionError::InvalidOrientation)
    } else {
        match coordinates_literal(t.subrange(0, t.len() - 2)) {
            None => Err(MissionError::InvalidCoordinates),
            Some(c) => match orientation_of(t.last()) {
                None => Err(MissionError::InvalidOrientation),
                Some(o) => Ok(RobotPosition { coordinates: c, orientation: o }),
            },
        }
    }
}

impl RobotPosition {
    /// Reads a start position written `"X Y O"`.
    pub fn from_str(line: &str) -> (r: Result<RobotPosition, MissionError>)
        ensures
            r == position_literal(line@),
    {
        let t = chars_of(line);
        let n = t.len();
        if n < 2 || t[n - 2] != ' ' {
            return Err(MissionError::InvalidOrientation);
        }
        match Coordinates::parse_chars(&t, 0, n - 2) {
            None => Err(MissionError::InvalidCoordinates),
            Some(coordinates) => match orientation_of_char(t[n - 1]) {
                None => Err(MissionError::InvalidOrientation),
                Some(orientation) => Ok(RobotPosition { coordinates, orientation }),
            },
        }
    }

    /// The text `"X Y O"` for this position.
    pub fn to_string(&self) -> (r: String)
        ensures
            r@ == position_text(*self),
    {
        let mut r = String::new();
        push_decimal(&mut r, self.coordinates.x);
        push_char(&mut r, ' ');
        push_decimal(&mut r, self.coordinates.y);
        push_char(&mut r, ' ');
        push_char(&mut r, self.orientation.to_char());
        assert(r@ =~= position_text(*self));
        r
    }
    pub fn update_orientation(self, orientation: Orientation) -> (r: RobotPosition)
        ensures
            r.coordinates == self.coordinates,
            r.orientation == orientation,
    {
        RobotPosition { coordinates: self.coordinates, orientation }
    }

    /// The position one step ahead, facing the same way.
    pub fn move_forward(&self) -> (r: Self)
        requires
            forward_fits(*self),
        ensures
            r.coordinates.x == forward_target(*self).0,
            r.coordinates.y == forward_target(*self).1,
            r.orientation == self.orientation,
    {
        let new_coordinates = match self.orientation {
            Orientation::North => Coordinates { x: self.coordinates.x, y: self.coordinates.y + 1 },
            Orientation::South => Coordinates { x: self.coordinates.x, y: self.coordinates.y - 1 },
            Orientation::East => Coordinates { x: self.coordinates.x + 1, y: self.coordinates.y },
            Orientation::West => Coordinates { x: self.coordinates.x - 1, y: self.coordinates.y },
        };
        RobotPosition { coordinates: new_coordinates, orientation: self.orientation }
    }

    /// Whether a step ahead stays within the range of `i32`.
    pub fn can_move_forward(&self) -> (r: bool)
        ensures
            r == forward_fits(*self),
    {
        match self.orientation {
            Orientation::North => self.coordinates.y < i32::MAX,
            Orientation::South => self.coordinates.y > i32::MIN,
            Orientation::East => self.coordinates.x < i32::MAX,
            Orientation::West => self.coordinates.x > i32::MIN,
        }
    }

    /// Whether this exact position and heading carries a scent.
    pub fn check_scent(&self, scent_tracker: &ScentTracker) -> (r: bool)
        ensures
            r == scent_tracker@.contains(*self),
    {
        scent_tracker.contains(self)
    }

    /// Lays a scent at this exact position and heading.
    pub fn add_scent(&self, scent_tracker: &mut ScentTracker)
        ensures
            final(scent_tracker)@ == old(scent_tracker)@.insert(*self),
    {
        scent_tracker.insert(*self);
    }
}

/// A robot: where it is, whether it is still on the grid, and the commands it
/// has yet to run, first command first. Once lost, it runs no more commands.
#[derive(Clone, Debug)]
pub struct Robot {
    pub position: RobotPosition,
    pub robot_commands: Vec<RobotCommands>,
    pub status: RobotStatus,
}

/// A robot seen as its position, its status and its queued commands.
pub type RobotModel = (RobotPosition, RobotStatus, Seq<RobotCommands>);

impl View for Robot {
    type V = RobotModel;

    open spec fn view(&self) -> RobotModel {
        (self.position, self.status, self.robot_commands@)
    }
}

/// A robot `m` after it has run all its commands: its final model, with an
/// empty queue, and the scents then laid.
pub open spec fn finished(m: RobotModel, limit: Coordinates, scents: Set<RobotPosition>) -> (
    RobotModel,
    Set<RobotPosition>,
) {
    let o = run_commands(m.2, m.0, m.1, limit, scents);
    ((o.0, o.1, Seq::empty()), o.2)
}

impl Robot {
    /// The line that reports where this robot ended: `"X Y O"`, with
    /// `" LOST"` added for a lost robot.
    pub fn end_of_mission_report(&self) -> (r: String)
        ensures
            r@ == report_text(self.position, self.status),
    {
        let mut r = self.position.to_string();
        if self.status == RobotStatus::Lost {
            push_char(&mut r, ' ');
            push_char(&mut r, 'L');
            push_char(&mut r, 'O');
            push_char(&mut r, 'S');
            push_char(&mut r, 'T');
        }
        assert(r@ =~= report_text(self.position, self.status));
        r
    }

    /// A live robot at `(1, 1)` facing east, with the commands `RFRFRFRF`.
    pub fn new_basic_robot() -> (r: Self)
        ensures
            r.position == (RobotPosition {
                coordinates: Coordinates { x: 1, y: 1 },
                orientation: Orientation::East,
            }),
            r.robot_commands@ == seq![
                RobotCommands::Right,
                RobotCommands::Forward,
                RobotCommands::Right,
                RobotCommands::Forward,
                RobotCommands::Right,
                RobotCommands::Forward,
                RobotCommands::Right,
                RobotCommands::Forward,
            ],
            r.status == RobotStatus::Alive,
    {
        let robot_position = RobotPosition {
            coordinates: Coordinates { x: 1, y: 1 },
            orientation: Orientation::East,
        };
        let robot_commands = vec![
            RobotCommands::Right,
            RobotCommands::Forward,
            RobotCommands::Right,
            RobotCommands::Forward,
            RobotCommands::Right,
            RobotCommands::Forward,
            RobotCommands::Right,
            RobotCommands::Forward,
        ];
        Robot { position: robot_position, robot_commands, status: RobotStatus::Alive }
    }

    /// A live robot at the origin facing north, with no commands.
    pub fn new() -> (r: Self)
        ensures
            r.position == (RobotPosition {
                coordinates: Coordinates { x: 0, y: 0 },
                orientation: Orientation::North,
            }),
            r.robot_commands@.len() == 0,
            r.status == RobotStatus::Alive,
    {
        Robot {
            position: RobotPosition {
                coordinates: Coordinates { x: 0, y: 0 },
                orientation: Orientation::North,
            },
            robot_commands: Vec::new(),
            status: RobotStatus::Alive,
        }
    }

    pub fn set_start_position(self, robot_position: RobotPosition) -> (r: Self)
        ensures
            r.position == robot_position,
            r.robot_commands@ == self.robot_commands@,
            r.status == self.status,
    {
        Robot { position: robot_position, robot_commands: self.robot_commands, status: self.status }
    }

    pub fn update_commands(self, robot_commands: Vec<RobotCommands>) -> (r: Self)
        ensures
            r.position == self.position,
            r.robot_commands@ == robot_commands@,
            r.status == self.status,
    {
        Robot { position: self.position, robot_commands, status: self.status }
    }

    /// Runs the first queued command. A robot that is lost, or becomes lost,
    /// drops every command left in its queue.
    pub fn process_robot_command(
        self,
        coordinate_limit: &Coordinates,
        scent_tracker: &mut ScentTracker,
    ) -> (r: Self)
        requires
            self.robot_commands@.len() > 0,
        ensures
            self.status == RobotStatus::Lost ==> {
                &&& r.position == self.position
                &&& r.status == RobotStatus::Lost
                &&& r.robot_commands@.len() == 0
                &&& final(scent_tracker)@ == old(scent_tracker)@
            },
            self.status == RobotStatus::Alive ==> {
                let o = command_outcome(
                    self.robot_commands@[0],
                    self.position,
                    *coordinate_limit,
                    old(scent_tracker)@,
                );
                &&& r.position == o.0
                &&& r.status == o.1
                &&& final(scent_tracker)@ == o.2
                &&& r.robot_commands@ == if o.1 == RobotStatus::Lost {
                    Seq::empty()
                } else {
                    self.robot_commands@.drop_first()
                }
            },
    {
        if self.status == RobotStatus::Lost {
            return Robot {
                position: self.position,
                robot_commands: Vec::new(),
                status: RobotStatus::Lost,
            };
        }
        let mut commands = self.robot_commands;
        let command = commands.remove(0);
        let (new_position, new_status) = command.process(
            self.position,
            coordinate_limit,
            scent_tracker,
        );
        let remaining = if new_status == RobotStatus::Lost {
            Vec::new()
        } else {
            commands
        };
        assert(remaining@ =~= if new_status == RobotStatus::Lost {
            Seq::empty()
        } else {
            self.robot_commands@.drop_first()
        });
        Robot { position: new_position, robot_commands: remaining, status: new_status }
    }

    /// Runs every queued command in order, stopping once the robot is lost.
    pub fn process_all_commands(
        self,
        coordinate_limit: &Coordinates,
        scent_tracker: &mut ScentTracker,
    ) -> (r: Self)
        ensures
            r.robot_commands@.len() == 0,
            (r.position, r.status, final(scent_tracker)@) == run_commands(
                self.robot_commands@,
                self.position,
                self.status,
                *coordinate_limit,
                old(scent_tracker)@,
            ),
    {
        let ghost goal = run_commands(
            self.robot_commands@,
            self.position,
            self.status,
            *coordinate_limit,
            old(scent_tracker)@,
        );
        let mut robot = self;
        while !robot.robot_commands.is_empty()
            invariant
                run_commands(
                    robot.robot_commands@,
                    robot.position,
                    robot.status,
                    *coordinate_limit,
                    scent_tracker@,
                ) == goal,
            decreases robot.robot_commands@.len(),
        {
            let ghost before = robot;
            let ghost scents_before = scent_tracker@;
            robot = robot.process_robot_command(coordinate_limit, scent_tracker);
            if robot.status == RobotStatus::Lost {
                assert(run_commands(
                    before.robot_commands@.drop_first(),
                    robot.position,
                    robot.status,
                    *coordinate_limit,
                    scent_tracker@,
                ) == (robot.position, robot.status, scent_tracker@));
            }
            assert(run_commands(
                robot.robot_commands@,
                robot.position,
                robot.status,
                *coordinate_limit,
                scent_tracker@,
            ) == run_commands(
                before.robot_commands@,
                before.position,
                before.status,
                *coordinate_limit,
                scents_before,
            ));
        }
        robot
    }
}

} // verus!
