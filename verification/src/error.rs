//! The ways an operation of the engine can refuse its input.

use vstd::prelude::*;
use crate::text::{signed_decimal, signed_decimal_text};

verus! {

/// An input that the engine rejects before it changes anything.
#[derive(Clone, Copy, Debug, PartialEq, Eq, Structural)]
pub enum ValidationError {
    /// A seat was given an empty section, row or seat label.
    EmptySeatField,
    /// A seat range whose first number is above its last.
    SeatRangeInverted,
    /// A run of fifty seats or more.
    SeatRangeTooLarge,
    /// A request to a game for fewer than one or more than four seats.
    SeatsRequested { game_pk: i64, seats_requested: i64 },
    /// A new count for a request that is below one or above four.
    SeatCount { seats_requested: i64 },
    /// A seat id that names no seat.
    UnknownSeat { seat_id: i64 },
    /// A game key that names no game.
    UnknownGame { game_pk: i64 },
    /// An approval that would lower the number of approved seats.
    NegativeApproval { request_id: i64 },
    /// A status that contradicts who holds the ticket.
    StatusMismatch { ticket_id: i64 },
}

/// A failure of the store itself.
#[derive(Clone, Copy, Debug, PartialEq, Eq, Structural)]
pub enum StorageError {
    /// No further row identifier can be issued.
    IdsExhausted,
    /// A counter would leave the range of its column.
    CounterOverflow,
}

/// Why an operation did not take place.
#[derive(Clone, Copy, Debug, PartialEq, Eq, Structural)]
pub enum EngineError {
    Validation(ValidationError),
    Storage(StorageError),
}

impl EngineError {
    /// Whether the caller's input was at fault.
    pub fn is_validation(&self) -> (b: bool)
        ensures
            b == (*self is Validation),
    {
        match self {
            EngineError::Validation(_) => true,
            EngineError::Storage(_) => false,
        }
    }
}

impl EngineError {
    /// The HTTP status that the refusal answers with: 400 where the caller's
    /// input was at fault, 500 where the store failed.
    pub fn status_code(&self) -> (code: u16)
        ensures
            code == (if *self is Validation {
                400u16
            } else {
                500u16
            }),
    {
        match self {
            EngineError::Validation(_) => 400,
            EngineError::Storage(_) => 500,
        }
    }

    /// What the refusal says to the caller.
    pub open spec fn text(self) -> Seq<char> {
        match self {
            EngineError::Validation(ValidationError::EmptySeatField) => "section, row and seat are required"@,
            EngineError::Validation(ValidationError::SeatRangeInverted) => "seat_start must be <= seat_end"@,
            EngineError::Validation(ValidationError::SeatRangeTooLarge) => "Maximum 49 seats per batch"@,
            EngineError::Validation(
                ValidationError::SeatsRequested { game_pk, seats_requested },
            ) => "seats_requested must be 1-4 (got "@ + signed_decimal(seats_requested as int)
                + " for game_pk "@ + signed_decimal(game_pk as int) + ")"@,
            EngineError::Validation(ValidationError::SeatCount { seats_requested }) => "seats_requested must be 1-4"@,
            EngineError::Validation(ValidationError::UnknownSeat { seat_id }) => "Seat not found"@,
            EngineError::Validation(ValidationError::UnknownGame { game_pk }) => "Game not found"@,
            EngineError::Validation(ValidationError::NegativeApproval { request_id }) => "seats_approved must not be negative"@,
            EngineError::Validation(ValidationError::StatusMismatch { ticket_id }) => "status can only be changed by assigning or revoking"@,
            EngineError::Storage(StorageError::IdsExhausted) => "no identifier left"@,
            EngineError::Storage(StorageError::CounterOverflow) => "counter out of range"@,
        }
    }

    /// What the refusal says to the caller.
    pub fn message(&self) -> (r: String)
        ensures
            r@ == self.text(),
    {
        match self {
            EngineError::Validation(ValidationError::EmptySeatField) => String::from_str(
                "section, row and seat are required",
            ),
            EngineError::Validation(ValidationError::SeatRangeInverted) => String::from_str(
                "seat_start must be <= seat_end",
            ),
            EngineError::Validation(ValidationError::SeatRangeTooLarge) => String::from_str(
                "Maximum 49 seats per batch",
            ),
            EngineError::Validation(ValidationError::SeatsRequested { game_pk, seats_requested }) => {
                let mut r = String::from_str("seats_requested must be 1-4 (got ");
                let seats = signed_decimal_text(*seats_requested);
                r.append(seats.as_str());
                r.append(" for game_pk ");
                let game = signed_decimal_text(*game_pk);
                r.append(game.as_str());
                r.append(")");
                r
            },
            EngineError::Validation(ValidationError::SeatCount { .. }) => String::from_str(
                "seats_requested must be 1-4",
            ),
            EngineError::Validation(ValidationError::UnknownSeat { .. }) => String::from_str(
                "Seat not found",
            ),
            EngineError::Validation(ValidationError::UnknownGame { .. }) => String::from_str(
                "Game not found",
            ),
            EngineError::Validation(ValidationError::NegativeApproval { .. }) => String::from_str(
                "seats_approved must not be negative",
            ),
            EngineError::Validation(ValidationError::StatusMismatch { .. }) => String::from_str(
                "status can only be changed by assigning or revoking",
            ),
            EngineError::Storage(StorageError::IdsExhausted) => String::from_str("no identifier left"),
            EngineError::Storage(StorageError::CounterOverflow) => String::from_str(
                "counter out of range",
            ),
        }
    }
}

} // verus!
