//! Compass orientations, grid coordinates, the commands a robot obeys, and
//! the mission that runs a sequence of robots over one grid.
use vstd::prelude::*;

use crate::parser::{mission_literal, parse_input_to_command};
use crate::robots::{
    command_outcome,
    finished,
    report_text,
    Robot,
    RobotModel,
    RobotPosition,
    RobotStatus,
};
use crate::scent::ScentTracker;
use crate::text::{all_digits, chars_of, i32_literal, parse_i32, push_char};

verus! {

/// The largest value either coordinate of a grid's upper-right corner may take.
pub const MAX_GRID_COORDINATE: i32 = 50;

/// A point of the grid; the lower-left corner is `(0, 0)`.
#[derive(Clone, Copy, Debug, PartialEq, Eq, Structural, Hash)]
pub struct Coordinates {
    pub x: i32,
    pub y: i32,
}

/// True iff the point `(x, y)` lies outside the grid whose upper-right corner
/// is `limit`.
pub open spec fn off_grid(x: int, y: int, limit: Coordinates) -> bool {
    x < 0 || x > limit.x || y < 0 || y > limit.y
}

/// True iff `c` is a valid upper-right corner: both coordinates in `[0, 50]`.
pub open spec fn valid_corner(c: Coordinates) -> bool {
    0 <= c.x <= MAX_GRID_COORDINATE && 0 <= c.y <= MAX_GRID_COORDINATE
}

impl Coordinates {
    /// Whether this point lies outside the grid whose upper-right corner is
    /// `coordinate_limit`.
    pub fn fallen_off_grid(&self, coordinate_limit: &Coordinates) -> (r: bool)
        ensures
            r == off_grid(self.x as int, self.y as int, *coordinate_limit),
    {
        (self.x < 0 || self.x > coordinate_limit.x) || (self.y < 0 || self.y > coordinate_limit.y)
    }

    /// Accepts a grid corner with both coordinates in `[0, 50]`.
    pub fn check_max_value(&self) -> (r: Result<(), MissionError>)
        ensures
            r == if valid_corner(*self) {
                Ok(())
            } else {
                Err(MissionError::GridOutOfRange { x: self.x, y: self.y })
            },
    {
        if (self.x > MAX_GRID_COORDINATE || self.x < 0) || (self.y > MAX_GRID_COORDINATE || self.y
            < 0) {
            return Err(MissionError::GridOutOfRange { x: self.x, y: self.y });
        }
        Ok(())
    }

    /// The coordinates that `t[lo..hi]` writes, as `coordinates_literal`
    /// reads them.
    pub fn parse_chars(t: &Vec<char>, lo: usize, hi: usize) -> (r: Option<Coordinates>)
        requires
            lo <= hi <= t@.len(),
        ensures
            r == coordinates_literal(t@.subrange(lo as int, hi as int)),
    {
        let ghost s = t@.subrange(lo as int, hi as int);
        let mut k: usize = lo;
        while k < hi && t[k] != ' '
            invariant
                lo <= k <= hi <= t@.len(),
                forall|j: int| lo <= j < k ==> t@[j] != ' ',
            decreases hi - k,
        {
            k = k + 1;
        }
        if k == hi {
            assert forall|k2: int| !coordinates_split(s, k2) by {
                if 0 <= k2 < s.len() {
                    assert(s[k2] == t@[lo + k2]);
                }
            }
            return None;
        }
        let x = parse_i32(t, lo, k);
        let y = parse_i32(t, k + 1, hi);
        let ghost kk = k - lo;
        assert(s.subrange(0, kk) =~= t@.subrange(lo as int, k as int));
        assert(s.subrange(kk + 1, s.len() as int) =~= t@.subrange(k + 1, hi as int));
        assert forall|k2: int| #[trigger] coordinates_split(s, k2) implies k2 == kk by {
            lemma_literal_has_no_space(s.subrange(0, k2));
            if k2 > kk {
                assert(s.subrange(0, k2)[kk] == ' ');
            }
            if k2 < kk {
                assert(s[k2] == t@[lo + k2]);
            }
        }
        match (x, y) {
            (Some(x), Some(y)) => {
                assert(coordinates_split(s, kk));
                Some(Coordinates { x, y })
            },
            _ => None,
        }
    }

    /// Reads coordinates written `"X Y"`.
    pub fn from_str(s: &str) -> (r: Result<Coordinates, MissionError>)
        ensures
            r == match coordinates_literal(s@) {
                Some(c) => Ok(c),
                None => Err(MissionError::InvalidCoordinates),
            },
    {
        let t = chars_of(s);
        assert(t@.subrange(0, t@.len() as int) =~= s@);
        match Coordinates::parse_chars(&t, 0, t.len()) {
            Some(c) => Ok(c),
            None => Err(MissionError::InvalidCoordinates),
        }
    }
}

/// Why a mission's text was refused.
#[derive(Clone, Copy, Debug, PartialEq, Eq, Structural)]
pub enum MissionError {
    /// The text holds no line at all.
    MissingGrid,
    /// The grid's upper-right corner lies outside `[0, 50]` on some axis.
    GridOutOfRange { x: i32, y: i32 },
    /// Coordinates that are not two integers separated by one space.
    InvalidCoordinates,
    /// A start line that does not end in a space and one of `N`, `S`, `E`, `W`.
    InvalidOrientation,
    /// A command line with a character other than `L`, `R`, `F`.
    InvalidCommand,
    /// A start line with no command line after it.
    UnpairedLine,
}

/// True iff `t` splits at its `k`-th character, a space, into two integers.
pub open spec fn coordinates_split(t: Seq<char>, k: int) -> bool {
    &&& 0 <= k < t.len()
    &&& t[k] == ' '
    &&& i32_literal(t.subrange(0, k)) is Some
    &&& i32_literal(t.subrange(k + 1, t.len() as int)) is Some
}

/// The coordinates that `t` writes: two `i32` literals separated by a single
/// space, and nothing else.
pub open spec fn coordinates_literal(t: Seq<char>) -> Option<Coordinates> {
    if exists|k: int| coordinates_split(t, k) {
        let k = choose|k: int| coordinates_split(t, k);
        Some(
            Coordinates {
                x: i32_literal(t.subrange(0, k))->0,
                y: i32_literal(t.subrange(k + 1, t.len() as int))->0,
            },
        )
    } else {
        None
    }
}

/// An integer literal holds no space.
pub proof fn lemma_literal_has_no_space(t: Seq<char>)
    requires
        i32_literal(t) is Some,
    ensures
        forall|i: int| 0 <= i < t.len() ==> t[i] != ' ',
{
    assert forall|i: int| 0 <= i < t.len() implies t[i] != ' ' by {
        if !all_digits(t) && i > 0 {
            assert(t[i] == t.drop_first()[i - 1]);
        }
    }
}

/// One of the four compass headings.
#[derive(Clone, Copy, Debug, PartialEq, Eq, Structural, Hash)]
pub enum Orientation {
    North,
    South,
    West,
    East,
}

/// The heading that the letter `c` names.
pub open spec fn orientation_of(c: char) -> Option<Orientation> {
    if c == 'N' {
        Some(Orientation::North)
    } else if c == 'S' {
        Some(Orientation::South)
    } else if c == 'W' {
        Some(Orientation::West)
    } else if c == 'E' {
        Some(Orientation::East)
    } else {
        None
    }
}

/// The heading that `t` writes: exactly one letter.
pub open spec fn orientation_literal(t: Seq<char>) -> Option<Orientation> {
    if t.len() == 1 {
        orientation_of(t[0])
    } else {
        None
    }
}

pub fn orientation_of_char(c: char) -> (r: Option<Orientation>)
    ensures
        r == orientation_of(c),
{
    match c {
        'N' => Some(Orientation::North),
        'S' => Some(Orientation::South),
        'W' => Some(Orientation::West),
        'E' => Some(Orientation::East),
        _ => None,
    }
}

impl Orientation {
    /// The heading after a quarter turn clockwise.
    pub open spec fn right_of(self) -> Orientation {
        match self {
            Orientation::North => Orientation::East,
            Orientation::East => Orientation::South,
            Orientation::South => Orientation::West,
            Orientation::West => Orientation::North,
        }
    }

    /// The heading after a quarter turn anticlockwise.
    pub open spec fn left_of(self) -> Orientation {
        match self {
            Orientation::North => Orientation::West,
            Orientation::West => Orientation::South,
            Orientation::South => Orientation::East,
            Orientation::East => Orientation::North,
        }
    }

    /// The letter that names this heading.
    pub open spec fn letter(self) -> char {
        match self {
            Orientation::North => 'N',
            Orientation::South => 'S',
            Orientation::West => 'W',
            Orientation::East => 'E',
        }
    }

    pub fn to_char(&self) -> (r: char)
        ensures
            r == self.letter(),
    {
        match self {
            Orientation::North => 'N',
            Orientation::South => 'S',
            Orientation::West => 'W',
            Orientation::East => 'E',
        }
    }

    /// The letter that names this heading, as a string.
    pub fn to_string(&self) -> (r: String)
        ensures
            r@ == seq![self.letter()],
    {
        let mut r = String::new();
        push_char(&mut r, self.to_char());
        r
    }

    /// Reads a heading written as one of the letters `N`, `S`, `W`, `E`.
    pub fn from_str(input: &str) -> (r: Result<Orientation, MissionError>)
        ensures
            r == match orientation_literal(input@) {
                Some(o) => Ok(o),
                None => Err(MissionError::InvalidOrientation),
            },
    {
        let t = chars_of(input);
        if t.len() != 1 {
            return Err(MissionError::InvalidOrientation);
        }
        match orientation_of_char(t[0]) {
            Some(o) => Ok(o),
            None => Err(MissionError::InvalidOrientation),
        }
    }

    pub fn change_right(&self) -> (r: Self)
        ensures
            r == self.right_of(),
    {
        match self {
            Orientation::North => Orientation::East,
            Orientation::East => Orientation::South,
            Orientation::South => Orientation::West,
            Orientation::West => Orientation::North,
        }
    }

    pub fn change_left(&self) -> (r: Self)
        ensures
            r == self.left_of(),
    {
        match self {
            Orientation::North => Orientation::West,
            Orientation::East => Orientation::North,
            Orientation::South => Orientation::East,
            Orientation::West => Orientation::South,
        }
    }
}


/// A command a robot obeys.
#[derive(Clone, Copy, Debug, PartialEq, Eq, Structural, Hash)]
pub enum RobotCommands {
    Left,
    Right,
    Forward,
}

/// The command that the letter `c` names.
pub open spec fn command_of(c: char) -> Option<RobotCommands> {
    if c == 'L' {
        Some(RobotCommands::Left)
    } else if c == 'R' {
        Some(RobotCommands::Right)
    } else if c == 'F' {
        Some(RobotCommands::Forward)
    } else {
        None
    }
}

/// The commands that `t` writes, one letter each with no separators.
pub open spec fn commands_literal(t: Seq<char>) -> Option<Seq<RobotCommands>> {
    if forall|i: int| 0 <= i < t.len() ==> (#[trigger] command_of(t[i])) is Some {
        Some(t.map_values(|c: char| command_of(c)->0))
    } else {
        None
    }
}

pub fn command_of_char(c: char) -> (r: Option<RobotCommands>)
    ensures
        r == command_of(c),
{
    match c {
        'L' => Some(RobotCommands::Left),
        'R' => Some(RobotCommands::Right),
        'F' => Some(RobotCommands::Forward),
        _ => None,
    }
}

/// The commands that `t[lo..hi]` writes, as `commands_literal` reads them.
pub fn parse_commands(t: &Vec<char>, lo: usize, hi: usize) -> (r: Option<Vec<RobotCommands>>)
    requires
        lo <= hi <= t@.len(),
    ensures
        match commands_literal(t@.subrange(lo as int, hi as int)) {
            Some(cs) => r is Some && r->0@ == cs,
            None => r is None,
        },
{
    let ghost s = t@.subrange(lo as int, hi as int);
    let mut out: Vec<RobotCommands> = Vec::new();
    let mut i: usize = lo;
    while i < hi
        invariant
            lo <= i <= hi <= t@.len(),
            s == t@.subrange(lo as int, hi as int),
            out@.len() == i - lo,
            forall|j: int| 0 <= j < i - lo ==> (#[trigger] command_of(s[j])) is Some,
            forall|j: int| 0 <= j < i - lo ==> out@[j] == command_of(s[j])->0,
        decreases hi - i,
    {
        match command_of_char(t[i]) {
            Some(c) => {
                out.push(c);
            },
            None => {
                assert(s[i - lo] == t@[i as int]);
                return None;
            },
        }
        i = i + 1;
    }
    assert(out@ =~= s.map_values(|c: char| command_of(c)->0));
    Some(out)
}

impl RobotCommands {
    /// Reads a command written as one of the letters `L`, `R`, `F`.
    pub fn from_str(input: &str) -> (r: Result<RobotCommands, MissionError>)
        ensures
            r == match (if input@.len() == 1 {
                command_of(input@[0])
            } else {
                None
            }) {
                Some(c) => Ok(c),
                None => Err(MissionError::InvalidCommand),
            },
    {
        let t = chars_of(input);
        if t.len() != 1 {
            return Err(MissionError::InvalidCommand);
        }
        match command_of_char(t[0]) {
            Some(c) => Ok(c),
            None => Err(MissionError::InvalidCommand),
        }
    }

    /// Applies this command to a live robot at `robot_position`. A forward
    /// step from a scented position does nothing; one that would leave the
    /// grid leaves the robot where it was, lost, and scents that position.
    pub fn process(
        &self,
        robot_position: RobotPosition,
        coordinate_limit: &Coordinates,
        scent_tracker: &mut ScentTracker,
    ) -> (r: (RobotPosition, RobotStatus))
        ensures
            r.0 == command_outcome(*self, robot_position, *coordinate_limit, old(scent_tracker)@).0,
            r.1 == command_outcome(*self, robot_position, *coordinate_limit, old(scent_tracker)@).1,
            final(scent_tracker)@ == command_outcome(
                *self,
                robot_position,
                *coordinate_limit,
                old(scent_tracker)@,
            ).2,
    {
        match self {
            RobotCommands::Right => {
                let new_orientation = robot_position.orientation.change_right();
                (robot_position.update_orientation(new_orientation), RobotStatus::Alive)
            },
            RobotCommands::Left => {
                let new_orientation = robot_position.orientation.change_left();
                (robot_position.update_orientation(new_orientation), RobotStatus::Alive)
            },
            RobotCommands::Forward => {
                if robot_position.check_scent(scent_tracker) {
                    return (robot_position, RobotStatus::Alive);
                }
                if !robot_position.can_move_forward() {
                    // a step beyond the range of i32 is beyond any grid
                    robot_position.add_scent(scent_tracker);
                    return (robot_position, RobotStatus::Lost);
                }
                let new_position = robot_position.move_forward();
                if new_position.coordinates.fallen_off_grid(coordinate_limit) {
                    robot_position.add_scent(scent_tracker);
                    return (robot_position, RobotStatus::Lost);
                }
                (new_position, RobotStatus::Alive)
            },
        }
    }
}


/// A whole mission: the grid's upper-right corner and the robots, in the
/// order in which they are to run.
#[derive(Clone, Debug)]
pub struct Command {
    pub upper_right: Coordinates,
    pub robots: Vec<Robot>,
}

impl View for Command {
    type V = (Coordinates, Seq<RobotModel>);

    open spec fn view(&self) -> (Coordinates, Seq<RobotModel>) {
        (self.upper_right, self.robots@.map_values(|x: Robot| x@))
    }
}

/// The robots `robots` after each, in order, has run all its commands on the
/// grid with corner `limit`, starting from the scents `scents`: the finished
/// robots and the scents laid in the end.
pub open spec fn mission_outcomes(
    robots: Seq<RobotModel>,
    limit: Coordinates,
    scents: Set<RobotPosition>,
) -> (Seq<RobotModel>, Set<RobotPosition>)
    decreases robots.len(),
{
    if robots.len() == 0 {
        (Seq::empty(), scents)
    } else {
        let before = mission_outcomes(robots.drop_last(), limit, scents);
        let last = finished(robots.last(), limit, before.1);
        (before.0.push(last.0), last.1)
    }
}

/// One report line for each of the finished robots `ms`, in order.
pub open spec fn reports_of(ms: Seq<RobotModel>) -> Seq<Seq<char>> {
    ms.map_values(|m: RobotModel| report_text(m.0, m.1))
}

/// The report lines of the mission that `text` writes, run from an empty
/// set of scents, or why the text was refused.
pub open spec fn mission_report(text: Seq<char>) -> Result<Seq<Seq<char>>, MissionError> {
    match mission_literal(text) {
        Ok(m) => Ok(reports_of(mission_outcomes(m.1, m.0, Set::empty()).0)),
        Err(e) => Err(e),
    }
}

/// Reads the mission `input`, runs its robots in order from an empty set of
/// scents, and returns one report line for each.
pub fn run_mission(input: &str) -> (r: Result<Vec<String>, MissionError>)
    ensures
        match mission_report(input@) {
            Ok(lines) => r is Ok && r->Ok_0@.map_values(|l: String| l@) == lines,
            Err(e) => r == Err::<Vec<String>, MissionError>(e),
        },
{
    let command = match parse_input_to_command(input) {
        Ok(c) => c,
        Err(e) => {
            return Err(e);
        },
    };
    let mut scent_tracker = ScentTracker::new();
    let robots = command.run_robots(&mut scent_tracker);
    Ok(report_lines(&robots))
}

/// The report line of each of `robots`, in order.
pub fn report_lines(robots: &Vec<Robot>) -> (r: Vec<String>)
    ensures
        r@.map_values(|l: String| l@) == reports_of(robots@.map_values(|x: Robot| x@)),
{
    let mut out: Vec<String> = Vec::new();
    let mut i: usize = 0;
    while i < robots.len()
        invariant
            i <= robots@.len(),
            out@.map_values(|l: String| l@) == reports_of(robots@.map_values(|x: Robot| x@)).take(
                i as int,
            ),
        decreases robots@.len() - i,
    {
        let ghost before = out@.map_values(|l: String| l@);
        let line = robots[i].end_of_mission_report();
        out.push(line);
        assert(out@.map_values(|l: String| l@) =~= before.push(line@));
        assert(reports_of(robots@.map_values(|x: Robot| x@)).take(i + 1) =~= reports_of(
            robots@.map_values(|x: Robot| x@),
        ).take(i as int).push(line@));
        i = i + 1;
    }
    assert(reports_of(robots@.map_values(|x: Robot| x@)).take(robots@.len() as int) =~= reports_of(
        robots@.map_values(|x: Robot| x@),
    ));
    out
}

impl Command {
    /// Runs every robot to the end of its commands, one after the other in
    /// order, all sharing `scent_tracker`.
    pub fn run_robots(self, scent_tracker: &mut ScentTracker) -> (r: Vec<Robot>)
        ensures
            (r@.map_values(|x: Robot| x@), final(scent_tracker)@) == mission_outcomes(
                self.robots@.map_values(|x: Robot| x@),
                self.upper_right,
                old(scent_tracker)@,
            ),
    {
        let ghost all = self.robots@.map_values(|x: Robot| x@);
        let limit = self.upper_right;
        let mut pending = self.robots;
        let mut done: Vec<Robot> = Vec::new();
        let n = pending.len();
        let mut k: usize = 0;
        assert(all.take(0) =~= Seq::<RobotModel>::empty());
        assert(pending@.map_values(|x: Robot| x@) =~= all.skip(0));
        while k < n
            invariant
                k <= n == all.len(),
                pending@.len() == n - k,
                limit == self.upper_right,
                all == self.robots@.map_values(|x: Robot| x@),
                pending@.map_values(|x: Robot| x@) == all.skip(k as int),
                (done@.map_values(|x: Robot| x@), scent_tracker@) == mission_outcomes(
                    all.take(k as int),
                    limit,
                    old(scent_tracker)@,
                ),
            decreases all.len() - k,
        {
            assert(pending@.map_values(|x: Robot| x@)[0] == all[k as int]);
            let ghost before_pending = pending@;
            let robot = pending.remove(0);
            let ghost pend = pending@.map_values(|x: Robot| x@);
            assert forall|j: int| 0 <= j < pending@.len() implies #[trigger] pend[j] == all.skip(
                k + 1,
            )[j] by {
                assert(pending@[j] == before_pending[j + 1]);
                assert(before_pending.map_values(|x: Robot| x@)[j + 1] == all.skip(k as int)[j + 1]);
            }
            let ghost before_done = done@.map_values(|x: Robot| x@);
            let finished_robot = robot.process_all_commands(&limit, scent_tracker);
            done.push(finished_robot);
            assert(all.take(k + 1).drop_last() =~= all.take(k as int));
            assert(done@.map_values(|x: Robot| x@) =~= before_done.push(finished_robot@));
            assert(finished_robot@.2 =~= Seq::<RobotCommands>::empty());
            assert(pend =~= all.skip(k + 1));
            k = k + 1;
        }
        assert(all.take(all.len() as int) =~= all);
        done
    }
}

} // verus!
