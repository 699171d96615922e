use crate::game::MatchError;
use vstd::prelude::*;

verus! {

/// Failures around a game session, outside the rules of play.
#[derive(Debug, Clone, Copy, PartialEq, Eq, Structural)]
pub enum GameError {
    GameNotFound,
    GameFull,
    InvalidGameId,
    InternalError,
}

/// Everything a request can fail with.
#[derive(Debug)]
pub enum ApiError {
    GameError(GameError),
    MatchError(MatchError),
    InvalidRequest(String),
}

/// The body sent back for a failed request.
#[derive(Debug)]
pub enum ErrorResponse {
    GameError { code: &'static str, message: String },
    MatchError { code: &'static str, message: String },
    InvalidRequest { message: String },
}

/// The HTTP status code answered for `e`.
pub open spec fn http_status_of(e: ApiError) -> u16 {
    match e {
        ApiError::GameError(GameError::GameNotFound) => 404,
        ApiError::GameError(GameError::GameFull) => 409,
        ApiError::GameError(GameError::InvalidGameId) => 400,
        ApiError::GameError(GameError::InternalError) => 500,
        ApiError::MatchError(MatchError::CellOccupied) => 409,
        ApiError::MatchError(_) => 400,
        ApiError::InvalidRequest(_) => 400,
    }
}

pub open spec fn game_error_code(g: GameError) -> Seq<char> {
    match g {
        GameError::GameNotFound => "GAME_NOT_FOUND"@,
        GameError::GameFull => "GAME_FULL"@,
        GameError::InvalidGameId => "INVALID_GAME_ID"@,
        GameError::InternalError => "INTERNAL_ERROR"@,
    }
}

pub open spec fn game_error_message(g: GameError) -> Seq<char> {
    match g {
        GameError::GameNotFound => "The requested game does not exist"@,
        GameError::GameFull => "This game is already full"@,
        GameError::InvalidGameId => "The provided game ID is invalid"@,
        GameError::InternalError => "An internal server error occurred"@,
    }
}

pub open spec fn match_error_code(m: MatchError) -> Seq<char> {
    match m {
        MatchError::GameOver => "GAME_OVER"@,
        MatchError::InvalidMove => "INVALID_MOVE"@,
        MatchError::CellOccupied => "CELL_OCCUPIED"@,
    }
}

pub open spec fn match_error_message(m: MatchError) -> Seq<char> {
    match m {
        MatchError::GameOver => "This game has already ended"@,
        MatchError::InvalidMove => "The requested move is invalid"@,
        MatchError::CellOccupied => "The selected cell is already occupied"@,
    }
}

/// `r` is the body answered for `e`.
pub open spec fn is_response_for(r: ErrorResponse, e: ApiError) -> bool {
    match e {
        ApiError::GameError(g) => r matches ErrorResponse::GameError { code, message } && code@
            == game_error_code(g) && message@ == game_error_message(g),
        ApiError::MatchError(m) => r matches ErrorResponse::MatchError { code, message } && code@
            == match_error_code(m) && message@ == match_error_message(m),
        ApiError::InvalidRequest(msg) => r matches ErrorResponse::InvalidRequest { message }
            && message@ == msg@,
    }
}

impl ApiError {
    /// The HTTP status code and the body to answer this error with.
    pub fn into_response_parts(self) -> (r: (u16, ErrorResponse))
        ensures
            r.0 == http_status_of(self),
            is_response_for(r.1, self),
    {
        match self {
            ApiError::GameError(game_error) => match game_error {
                GameError::GameNotFound => (
                    404,
                    ErrorResponse::GameError {
                        code: "GAME_NOT_FOUND",
                        message: String::from_str("The requested game does not exist"),
                    },
                ),
                GameError::GameFull => (
                    409,
                    ErrorResponse::GameError {
                        code: "GAME_FULL",
                        message: String::from_str("This game is already full"),
                    },
                ),
                GameError::InvalidGameId => (
                    400,
                    ErrorResponse::GameError {
                        code: "INVALID_GAME_ID",
                        message: String::from_str("The provided game ID is invalid"),
                    },
                ),
                GameError::InternalError => (
                    500,
                    ErrorResponse::GameError {
                        code: "INTERNAL_ERROR",
                        message: String::from_str("An internal server error occurred"),
                    },
                ),
            },
            ApiError::MatchError(match_error) => match match_error {
                MatchError::GameOver => (
                    400,
                    ErrorResponse::MatchError {
                        code: "GAME_OVER",
                        message: String::from_str("This game has already ended"),
                    },
                ),
                MatchError::InvalidMove => (
                    400,
                    ErrorResponse::MatchError {
                        code: "INVALID_MOVE",
                        message: String::from_str("The requested move is invalid"),
                    },
                ),
                MatchError::CellOccupied => (
                    409,
                    ErrorResponse::MatchError {
                        code: "CELL_OCCUPIED",
                        message: String::from_str("The selected cell is already occupied"),
                    },
                ),
            },
            ApiError::InvalidRequest(msg) => (400, ErrorResponse::InvalidRequest { message: msg }),
        }
    }
}

impl From<GameError> for ApiError {
    fn from(error: GameError) -> (r: ApiError)
        ensures
            r == ApiError::GameError(error),
    {
        ApiError::GameError(error)
    }
}

impl vstd::std_specs::convert::FromSpecImpl<GameError> for ApiError {
    open spec fn obeys_from_spec() -> bool {
        true
    }

    open spec fn from_spec(v: GameError) -> ApiError {
        ApiError::GameError(v)
    }
}

impl From<MatchError> for ApiError {
    fn from(error: MatchError) -> (r: ApiError)
        ensures
            r == ApiError::MatchError(error),
    {
        ApiError::MatchError(error)
    }
}

impl vstd::std_specs::convert::FromSpecImpl<MatchError> for ApiError {
    open spec fn obeys_from_spec() -> bool {
        true
    }

    open spec fn from_spec(v: MatchError) -> ApiError {
        ApiError::MatchError(v)
    }
}

} // verus!
