use mars_robots::parser::{
    generate_robots_from_strs, parse_input_to_command, parse_robot_commands,
    remove_lines_and_whitespace,
};
use mars_robots::{Coordinates, MissionError, Orientation, Robot, RobotCommands, RobotStatus};

use RobotCommands::{Forward as F, Left as L, Right as R};

fn assert_robot(robot: &Robot, x: i32, y: i32, o: Orientation, commands: &[RobotCommands]) {
    assert_eq!(robot.position.coordinates, Coordinates { x, y });
    assert_eq!(robot.position.orientation, o);
    assert_eq!(robot.robot_commands, commands.to_vec());
    assert_eq!(robot.status, RobotStatus::Alive);
}

#[test]
fn test_parse_input_commands() {
    let str = "5 3\n3 2 N\nFRRFLLFFRRFLL";

    let robot_commands = parse_input_to_command(str).unwrap();

    assert_eq!(robot_commands.upper_right, Coordinates { x: 5, y: 3 });
    assert_eq!(robot_commands.robots.len(), 1);
    assert_robot(
        &robot_commands.robots[0],
        3,
        2,
        Orientation::North,
        &[F, R, R, F, L, L, F, F, R, R, F, L, L],
    );
}

#[test]
fn test_error_over_50() {
    let str = "51 51\n3 2 N\nFRRFLLFFRRFLL";

    let robot_commands = parse_input_to_command(str);

    assert_eq!(
        robot_commands.unwrap_err(),
        MissionError::GridOutOfRange { x: 51, y: 51 }
    );
}

#[test]
fn test_parse_multiple_commands() {
    let str = "5 3\n1 1 E\nRFRFRFRF\n\n3 2 N\nFRRFLLFFRRFLL\n\n0 3 W\nLLFFFLFLFL";

    let robot_commands = parse_input_to_command(str).unwrap();

    assert_eq!(robot_commands.upper_right, Coordinates { x: 5, y: 3 });
    assert_eq!(robot_commands.robots.len(), 3);
    assert_robot(&robot_commands.robots[0], 1, 1, Orientation::East, &[R, F, R, F, R, F, R, F]);
    assert_robot(
        &robot_commands.robots[1],
        3,
        2,
        Orientation::North,
        &[F, R, R, F, L, L, F, F, R, R, F, L, L],
    );
    assert_robot(
        &robot_commands.robots[2],
        0,
        3,
        Orientation::West,
        &[L, L, F, F, F, L, F, L, F, L],
    );
}

#[test]
fn test_parsing_robot_commands() {
    let str = "3 2 N\nFRRFLLFFRRFLL";

    let robot_commands = parse_robot_commands(str).unwrap();

    assert_eq!(robot_commands.len(), 1);
    assert_robot(
        &robot_commands[0],
        3,
        2,
        Orientation::North,
        &[F, R, R, F, L, L, F, F, R, R, F, L, L],
    );
}

#[test]
fn test_parsing_multiple_robot_commands() {
    let str = "1 1 E\nRFRFRFRF\n\n3 2 N\nFRRFLLFFRRFLL";

    let robot_commands = parse_robot_commands(str).unwrap();

    assert_eq!(robot_commands.len(), 2);
    assert_robot(&robot_commands[0], 1, 1, Orientation::East, &[R, F, R, F, R, F, R, F]);
    assert_robot(
        &robot_commands[1],
        3,
        2,
        Orientation::North,
        &[F, R, R, F, L, L, F, F, R, R, F, L, L],
    );
}

#[test]
fn test_remove_lines_and_whitespace_space_and_lines() {
    let str = "3 2 N\nFRRFLLFFRRFLL";

    let removed_lines = remove_lines_and_whitespace(str);
    let expected = vec!["3 2 N".to_string(), "FRRFLLFFRRFLL".to_string()];

    assert_eq!(removed_lines, expected)
}

#[test]
fn test_remove_lines_and_whitespace_no_lines() {
    let str = "3 2 N\nFRRFLLFFRRFLL";

    let removed_lines = remove_lines_and_whitespace(str);
    let expected = vec!["3 2 N".to_string(), "FRRFLLFFRRFLL".to_string()];

    assert_eq!(removed_lines, expected)
}

#[test]
fn test_generate_robots_from_strs() {
    let robots =
        generate_robots_from_strs(vec!["3 2 N".to_string(), "FRRFLLFFRRFLL".to_string()])
            .unwrap();

    assert_eq!(robots.len(), 1);
    assert_robot(&robots[0], 3, 2, Orientation::North, &[F, R, R, F, L, L, F, F, R, R, F, L, L]);
}

#[test]
fn test_generate_robots_from_strs_two_robots() {
    let robots = generate_robots_from_strs(vec![
        "1 1 E".to_string(),
        "RFRFRFRF".to_string(),
        "3 2 N".to_string(),
        "FRRFLLFFRRFLL".to_string(),
    ])
    .unwrap();

    assert_eq!(robots.len(), 2);
    assert_robot(&robots[0], 1, 1, Orientation::East, &[R, F, R, F, R, F, R, F]);
    assert_robot(&robots[1], 3, 2, Orientation::North, &[F, R, R, F, L, L, F, F, R, R, F, L, L]);
}

#[test]
fn remove_lines_skips_blank_lines_and_carriage_returns() {
    let removed = remove_lines_and_whitespace("\n5 3\r\n\r\n\n1 1 E\nRF\n");
    assert_eq!(
        removed,
        vec!["5 3".to_string(), "1 1 E".to_string(), "RF".to_string()]
    );
}

#[test]
fn remove_lines_of_empty_text_is_empty() {
    assert!(remove_lines_and_whitespace("").is_empty());
    assert!(remove_lines_and_whitespace("\n\n\r\n").is_empty());
}

#[test]
fn generate_robots_pairs_lines_in_order() {
    let robots = generate_robots_from_strs(vec![
        "0 0 S".to_string(),
        "L".to_string(),
        "4 1 W".to_string(),
        "FF".to_string(),
        "2 2 E".to_string(),
        "R".to_string(),
    ])
    .unwrap();
    assert_eq!(robots.len(), 3);
    assert_robot(&robots[0], 0, 0, Orientation::South, &[L]);
    assert_robot(&robots[1], 4, 1, Orientation::West, &[F, F]);
    assert_robot(&robots[2], 2, 2, Orientation::East, &[R]);
}

#[test]
fn generate_robots_of_no_lines_is_empty() {
    assert!(generate_robots_from_strs(vec![]).unwrap().is_empty());
}

#[test]
fn odd_trailing_line_is_refused() {
    let r = generate_robots_from_strs(vec![
        "1 1 E".to_string(),
        "RF".to_string(),
        "3 2 N".to_string(),
    ]);
    assert_eq!(r.unwrap_err(), MissionError::UnpairedLine);
}

#[test]
fn missing_grid_is_refused() {
    assert_eq!(parse_input_to_command("").unwrap_err(), MissionError::MissingGrid);
    assert_eq!(parse_input_to_command("\n\n").unwrap_err(), MissionError::MissingGrid);
}

#[test]
fn grid_with_one_coordinate_is_refused() {
    assert_eq!(
        parse_input_to_command("5\n1 1 E\nF").unwrap_err(),
        MissionError::InvalidCoordinates
    );
}

#[test]
fn negative_grid_is_refused() {
    assert_eq!(
        parse_input_to_command("-1 3\n1 1 E\nF").unwrap_err(),
        MissionError::GridOutOfRange { x: -1, y: 3 }
    );
}

#[test]
fn grid_of_fifty_is_accepted() {
    let c = parse_input_to_command("50 50\n50 50 N\nF").unwrap();
    assert_eq!(c.upper_right, Coordinates { x: 50, y: 50 });
    assert_eq!(
        parse_input_to_command("50 51\n1 1 N\nF").unwrap_err(),
        MissionError::GridOutOfRange { x: 50, y: 51 }
    );
}

#[test]
fn bad_start_lines_are_refused() {
    assert_eq!(
        parse_input_to_command("5 3\n1 1 Q\nF").unwrap_err(),
        MissionError::InvalidOrientation
    );
    assert_eq!(
        parse_input_to_command("5 3\n1 1 NN\nF").unwrap_err(),
        MissionError::InvalidOrientation
    );
    assert_eq!(
        parse_input_to_command("5 3\n1 x N\nF").unwrap_err(),
        MissionError::InvalidCoordinates
    );
    assert_eq!(
        parse_input_to_command("5 3\n1 N\nF").unwrap_err(),
        MissionError::InvalidCoordinates
    );
}

#[test]
fn bad_command_letter_is_refused() {
    assert_eq!(
        parse_input_to_command("5 3\n1 1 N\nFXF").unwrap_err(),
        MissionError::InvalidCommand
    );
}

#[test]
fn first_bad_robot_decides_the_error() {
    assert_eq!(
        parse_input_to_command("5 3\n1 1 N\nFQ\n1 1 Z\nF").unwrap_err(),
        MissionError::InvalidCommand
    );
}

#[test]
fn carriage_return_without_newline_stays_in_last_line() {
    assert_eq!(remove_lines_and_whitespace("a\r"), vec!["a\r".to_string()]);
    assert_eq!(
        remove_lines_and_whitespace("a\r\nb\r"),
        vec!["a".to_string(), "b\r".to_string()]
    );
    assert_eq!(
        parse_input_to_command("5 3\r\n1 1 N\r\nLLF\r").unwrap_err(),
        MissionError::InvalidCommand
    );
}

#[test]
fn grid_line_may_end_in_spaces() {
    let c = parse_input_to_command("5 3  \n1 1 N\nF").unwrap();
    assert_eq!(c.upper_right, Coordinates { x: 5, y: 3 });
    assert_eq!(
        parse_input_to_command("5 3 7\n1 1 N\nF").unwrap_err(),
        MissionError::InvalidCoordinates
    );
}
