use tictactoe::errors::{ApiError, ErrorResponse, GameError};
use tictactoe::game::MatchError;

fn game_parts(e: GameError) -> (u16, &'static str, String) {
    match ApiError::from(e).into_response_parts() {
        (status, ErrorResponse::GameError { code, message }) => (status, code, message),
        _ => panic!("wrong body kind"),
    }
}

fn match_parts(e: MatchError) -> (u16, &'static str, String) {
    match ApiError::from(e).into_response_parts() {
        (status, ErrorResponse::MatchError { code, message }) => (status, code, message),
        _ => panic!("wrong body kind"),
    }
}

#[test]
fn game_errors_map_to_statuses() {
    let (s, c, m) = game_parts(GameError::GameNotFound);
    assert_eq!((s, c, m.as_str()), (404, "GAME_NOT_FOUND", "The requested game does not exist"));
    let (s, c, m) = game_parts(GameError::GameFull);
    assert_eq!((s, c, m.as_str()), (409, "GAME_FULL", "This game is already full"));
    let (s, c, m) = game_parts(GameError::InvalidGameId);
    assert_eq!((s, c, m.as_str()), (400, "INVALID_GAME_ID", "The provided game ID is invalid"));
    let (s, c, m) = game_parts(GameError::InternalError);
    assert_eq!((s, c, m.as_str()), (500, "INTERNAL_ERROR", "An internal server error occurred"));
}

#[test]
fn match_errors_map_to_statuses() {
    let (s, c, m) = match_parts(MatchError::GameOver);
    assert_eq!((s, c, m.as_str()), (400, "GAME_OVER", "This game has already ended"));
    let (s, c, m) = match_parts(MatchError::InvalidMove);
    assert_eq!((s, c, m.as_str()), (400, "INVALID_MOVE", "The requested move is invalid"));
    let (s, c, m) = match_parts(MatchError::CellOccupied);
    assert_eq!((s, c, m.as_str()), (409, "CELL_OCCUPIED", "The selected cell is already occupied"));
}

#[test]
fn invalid_request_keeps_message() {
    let e = ApiError::InvalidRequest("Invalid move format".to_string());
    match e.into_response_parts() {
        (400, ErrorResponse::InvalidRequest { message }) => {
            assert_eq!(message, "Invalid move format")
        }
        _ => panic!("wrong response"),
    }
}
