use tictactoe::board::Position;
use tictactoe::parse::ParsePositionError;

#[test]
fn test_position_parse() {
    let pos1: Position = "1,2".parse().unwrap();
    assert_eq!(pos1, Position::new(1, 2));
    assert!("13eq,3".parse::<Position>().is_err());
}

#[test]
fn parse_trims_and_signs() {
    assert_eq!(Position::parse(" 2 ,\t+0 "), Ok(Position::new(2, 0)));
    assert_eq!(Position::parse("007,255"), Ok(Position::new(7, 255)));
}

#[test]
fn parse_errors() {
    assert_eq!(Position::parse("1"), Err(ParsePositionError::ArgumentCount));
    assert_eq!(Position::parse("1,2,3"), Err(ParsePositionError::ArgumentCount));
    assert_eq!(Position::parse(""), Err(ParsePositionError::ArgumentCount));
    assert_eq!(Position::parse("13eq,3"), Err(ParsePositionError::InvalidX));
    assert_eq!(Position::parse(",3"), Err(ParsePositionError::InvalidX));
    assert_eq!(Position::parse("256,3"), Err(ParsePositionError::InvalidX));
    assert_eq!(Position::parse("-1,3"), Err(ParsePositionError::InvalidX));
    assert_eq!(Position::parse("1,+"), Err(ParsePositionError::InvalidY));
    assert_eq!(Position::parse("1,1 1"), Err(ParsePositionError::InvalidY));
}

#[test]
fn from_vec_cases() {
    assert_eq!(Position::from_vec(vec![1, 2]), Ok(Position::new(1, 2)));
    assert_eq!(Position::from_vec(vec![1]), Err(ParsePositionError::ArgumentCount));
    assert_eq!(Position::from_vec(vec![1, 2, 3]), Err(ParsePositionError::ArgumentCount));
    assert_eq!(Position::from_vec(vec![256, 2]), Err(ParsePositionError::InvalidX));
    assert_eq!(Position::from_vec(vec![2, 300]), Err(ParsePositionError::InvalidY));
    assert_eq!(Position::from_vec(vec![9, 9]), Ok(Position::new(9, 9)));
}
