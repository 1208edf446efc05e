use mars_robots::mission_instructions::Command;
use mars_robots::text::{chars_of, parse_i32, push_decimal};
use mars_robots::{
    Coordinates, MissionError, Orientation, Robot, RobotCommands, RobotPosition, RobotStatus,
    ScentTracker,
};

fn at(x: i32, y: i32, orientation: Orientation) -> RobotPosition {
    RobotPosition { coordinates: Coordinates { x, y }, orientation }
}

#[test]
fn test_process_all_commands() {
    let new_basic_robot = Robot::new_basic_robot();
    let mut scents = ScentTracker::new();
    let processed_robot =
        new_basic_robot.process_all_commands(&Coordinates { x: 5, y: 3 }, &mut scents);
    assert_eq!(processed_robot.position, at(1, 1, Orientation::East));
    assert_eq!(processed_robot.status, RobotStatus::Alive);
    assert!(processed_robot.robot_commands.is_empty());
    assert_eq!(processed_robot.end_of_mission_report(), "1 1 E");
}

#[test]
fn move_forward_in_each_direction() {
    assert_eq!(at(2, 2, Orientation::North).move_forward(), at(2, 3, Orientation::North));
    assert_eq!(at(2, 2, Orientation::South).move_forward(), at(2, 1, Orientation::South));
    assert_eq!(at(2, 2, Orientation::West).move_forward(), at(1, 2, Orientation::West));
    assert_eq!(at(2, 2, Orientation::East).move_forward(), at(3, 2, Orientation::East));
}

#[test]
fn can_move_forward_at_the_limits_of_i32() {
    assert!(!at(0, i32::MAX, Orientation::North).can_move_forward());
    assert!(at(0, i32::MAX, Orientation::South).can_move_forward());
    assert!(!at(i32::MIN, 0, Orientation::West).can_move_forward());
}

#[test]
fn update_orientation_keeps_coordinates() {
    let p = at(4, 1, Orientation::North).update_orientation(Orientation::West);
    assert_eq!(p, at(4, 1, Orientation::West));
}

#[test]
fn new_robot_and_builders() {
    let robot = Robot::new();
    assert_eq!(robot.position, at(0, 0, Orientation::North));
    assert!(robot.robot_commands.is_empty());
    assert_eq!(robot.status, RobotStatus::Alive);
    let robot = robot
        .set_start_position(at(3, 2, Orientation::South))
        .update_commands(vec![RobotCommands::Left, RobotCommands::Forward]);
    assert_eq!(robot.position, at(3, 2, Orientation::South));
    assert_eq!(robot.robot_commands, vec![RobotCommands::Left, RobotCommands::Forward]);
}

#[test]
fn single_robot_command_each_kind() {
    let limit = Coordinates { x: 5, y: 3 };
    let expected = [
        (RobotCommands::Forward, at(0, 1, Orientation::North)),
        (RobotCommands::Left, at(0, 0, Orientation::West)),
        (RobotCommands::Right, at(0, 0, Orientation::East)),
    ];
    for (command, position) in expected {
        let mut scents = ScentTracker::new();
        let robot = Robot::new().update_commands(vec![command, RobotCommands::Forward]);
        let processed = robot.process_robot_command(&limit, &mut scents);
        assert_eq!(processed.position, position);
        assert_eq!(processed.status, RobotStatus::Alive);
        assert_eq!(processed.robot_commands, vec![RobotCommands::Forward]);
    }
}

#[test]
fn falling_robot_drops_its_queue() {
    let limit = Coordinates { x: 5, y: 3 };
    let mut scents = ScentTracker::new();
    let robot = Robot::new()
        .set_start_position(at(0, 0, Orientation::South))
        .update_commands(vec![RobotCommands::Forward, RobotCommands::Left]);
    let processed = robot.process_robot_command(&limit, &mut scents);
    assert_eq!(processed.position, at(0, 0, Orientation::South));
    assert_eq!(processed.status, RobotStatus::Lost);
    assert!(processed.robot_commands.is_empty());
    assert!(scents.contains(&at(0, 0, Orientation::South)));
    assert_eq!(processed.end_of_mission_report(), "0 0 S LOST");
}

#[test]
fn scented_forward_is_skipped_but_turns_still_run() {
    let limit = Coordinates { x: 5, y: 3 };
    let mut scents = ScentTracker::new();
    at(3, 3, Orientation::North).add_scent(&mut scents);
    let robot = Robot::new()
        .set_start_position(at(3, 3, Orientation::North))
        .update_commands(vec![RobotCommands::Forward, RobotCommands::Left, RobotCommands::Forward]);
    let done = robot.process_all_commands(&limit, &mut scents);
    assert_eq!(done.position, at(2, 3, Orientation::West));
    assert_eq!(done.status, RobotStatus::Alive);
}

#[test]
fn scent_tracker_insert_and_contains() {
    let mut scents = ScentTracker::new();
    let p = at(1, 2, Orientation::East);
    assert!(!scents.contains(&p));
    assert!(!p.check_scent(&scents));
    scents.insert(p);
    scents.insert(p);
    assert!(scents.contains(&p));
    assert!(p.check_scent(&scents));
    assert!(!scents.contains(&at(1, 2, Orientation::West)));
}

#[test]
fn run_robots_shares_scents_in_order() {
    let robots = vec![
        Robot::new()
            .set_start_position(at(3, 2, Orientation::North))
            .update_commands(vec![RobotCommands::Forward, RobotCommands::Forward]),
        Robot::new()
            .set_start_position(at(3, 3, Orientation::North))
            .update_commands(vec![RobotCommands::Forward, RobotCommands::Right]),
    ];
    let command = Command { upper_right: Coordinates { x: 5, y: 3 }, robots };
    let mut scents = ScentTracker::new();
    let done = command.run_robots(&mut scents);
    assert_eq!(done[0].end_of_mission_report(), "3 3 N LOST");
    assert_eq!(done[1].end_of_mission_report(), "3 3 E");
}

#[test]
fn position_from_str_and_to_string() {
    assert_eq!(RobotPosition::from_str("3 2 N").unwrap(), at(3, 2, Orientation::North));
    assert_eq!(RobotPosition::from_str("3 2 N").unwrap().to_string(), "3 2 N");
    assert_eq!(at(-7, 40, Orientation::West).to_string(), "-7 40 W");
    assert_eq!(RobotPosition::from_str("3 2").unwrap_err(), MissionError::InvalidCoordinates);
    assert_eq!(RobotPosition::from_str("3 2 ").unwrap_err(), MissionError::InvalidOrientation);
    assert_eq!(RobotPosition::from_str("N").unwrap_err(), MissionError::InvalidOrientation);
    assert_eq!(RobotPosition::from_str("3 2 X").unwrap_err(), MissionError::InvalidOrientation);
    assert_eq!(RobotPosition::from_str("3 N").unwrap_err(), MissionError::InvalidCoordinates);
}

#[test]
fn decimal_text_of_integers() {
    let cases = [
        (0, "0"),
        (7, "7"),
        (10, "10"),
        (2024, "2024"),
        (-1, "-1"),
        (i32::MAX, "2147483647"),
        (i32::MIN, "-2147483648"),
    ];
    for (n, text) in cases {
        let mut s = String::from("x");
        push_decimal(&mut s, n);
        assert_eq!(s, format!("x{}", text));
    }
}

#[test]
fn chars_and_integer_literals() {
    let t = chars_of("a-12+7 99x");
    assert_eq!(t.len(), 10);
    assert_eq!(parse_i32(&t, 1, 4), Some(-12));
    assert_eq!(parse_i32(&t, 4, 6), Some(7));
    assert_eq!(parse_i32(&t, 7, 9), Some(99));
    assert_eq!(parse_i32(&t, 7, 10), None);
    assert_eq!(parse_i32(&t, 1, 2), None);
    assert_eq!(parse_i32(&t, 3, 3), None);
    let big = chars_of("99999999999999999999");
    assert_eq!(parse_i32(&big, 0, big.len()), None);
}
