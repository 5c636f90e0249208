//! The rows that the engine keeps.

use vstd::prelude::*;
use crate::text::{clone_opt_text, same_text};

verus! {

/// The name of the team whose home games the seats belong to.
pub open spec fn managed_team() -> Seq<char> {
    "San Francisco Giants"@
}

/// The state of a ticket.
#[derive(Clone, Copy, Debug, PartialEq, Eq, Structural)]
pub enum TicketStatus {
    Available,
    Assigned,
}

/// The state of a request.
#[derive(Clone, Copy, Debug, PartialEq, Eq, Structural)]
pub enum RequestStatus {
    Pending,
    Approved,
    Withdrawn,
}

/// What a user may do.
#[derive(Clone, Copy, Debug, PartialEq, Eq, Structural)]
pub enum Role {
    Member,
    Admin,
}

/// A scheduled contest, keyed by `game_pk`.
#[derive(Debug)]
pub struct Game {
    pub game_pk: i64,
    pub game_guid: Option<String>,
    pub game_type: String,
    pub season: String,
    pub game_date: String,
    pub official_date: String,
    pub status_abstract: String,
    pub status_detailed: String,
    pub status_code: String,
    pub start_time_tbd: bool,
    pub away_team_id: i64,
    pub away_team_name: String,
    pub away_score: Option<i64>,
    pub away_is_winner: Option<bool>,
    pub home_team_id: i64,
    pub home_team_name: String,
    pub home_score: Option<i64>,
    pub home_is_winner: Option<bool>,
    pub venue_id: i64,
    pub venue_name: String,
    pub day_night: Option<String>,
    pub series_description: Option<String>,
    pub series_game_number: Option<i64>,
    pub games_in_series: Option<i64>,
    pub double_header: String,
    pub game_number: i64,
    pub scheduled_innings: i64,
    pub is_tie: bool,
}

/// A give-away or offer attached to a game, keyed by `(offer_id, game_pk)`.
#[derive(Debug)]
pub struct Promotion {
    pub offer_id: i64,
    pub game_pk: i64,
    pub name: String,
    pub offer_type: Option<String>,
    pub description: Option<String>,
    pub distribution: Option<String>,
    pub presented_by: Option<String>,
    pub alt_page_url: Option<String>,
    pub ticket_link: Option<String>,
    pub thumbnail_url: Option<String>,
    pub image_url: Option<String>,
    pub display_order: i64,
}

/// A physical season-ticket seat.
#[derive(Debug)]
pub struct Seat {
    pub id: i64,
    pub section: String,
    pub row: String,
    pub seat: String,
    pub notes: Option<String>,
}

/// One seat's right to attend one home game.
#[derive(Debug)]
pub struct GameTicket {
    pub id: i64,
    pub game_pk: i64,
    pub seat_id: i64,
    pub status: TicketStatus,
    pub notes: Option<String>,
    pub assigned_to: Option<i64>,
}

/// An identity known to the engine.
#[derive(Debug)]
pub struct User {
    pub id: i64,
    pub auth0_sub: String,
    pub email: String,
    pub name: String,
    pub role: Role,
}

/// A ticket together with the labels of its seat.
#[derive(Debug)]
pub struct GameTicketDetail {
    pub id: i64,
    pub game_pk: i64,
    pub seat_id: i64,
    pub section: String,
    pub row: String,
    pub seat: String,
    pub status: TicketStatus,
    pub notes: Option<String>,
    pub assigned_to: Option<i64>,
}

/// A member's ask for a number of seats to one game.
#[derive(Debug)]
pub struct TicketRequest {
    pub id: i64,
    pub user_id: i64,
    pub game_pk: i64,
    pub seats_requested: i64,
    pub seats_approved: i64,
    pub status: RequestStatus,
    pub notes: Option<String>,
}

impl Game {
    /// Whether the managed team plays this game at home.
    pub open spec fn is_home(self) -> bool {
        self.home_team_name@ == managed_team()
    }

    /// Whether the managed team plays this game at home.
    pub fn plays_at_home(&self) -> (b: bool)
        ensures
            b == self.is_home(),
    {
        same_text(self.home_team_name.as_str(), "San Francisco Giants")
    }
}

impl Clone for Game {
    fn clone(&self) -> (r: Self)
        ensures
            r == *self,
    {
        Game {
            game_pk: self.game_pk,
            game_guid: clone_opt_text(&self.game_guid),
            game_type: self.game_type.clone(),
            season: self.season.clone(),
            game_date: self.game_date.clone(),
            official_date: self.official_date.clone(),
            status_abstract: self.status_abstract.clone(),
            status_detailed: self.status_detailed.clone(),
            status_code: self.status_code.clone(),
            start_time_tbd: self.start_time_tbd,
            away_team_id: self.away_team_id,
            away_team_name: self.away_team_name.clone(),
            away_score: self.away_score,
            away_is_winner: self.away_is_winner,
            home_team_id: self.home_team_id,
            home_team_name: self.home_team_name.clone(),
            home_score: self.home_score,
            home_is_winner: self.home_is_winner,
            venue_id: self.venue_id,
            venue_name: self.venue_name.clone(),
            day_night: clone_opt_text(&self.day_night),
            series_description: clone_opt_text(&self.series_description),
            series_game_number: self.series_game_number,
            games_in_series: self.games_in_series,
            double_header: self.double_header.clone(),
            game_number: self.game_number,
            scheduled_innings: self.scheduled_innings,
            is_tie: self.is_tie,
        }
    }
}

impl Clone for Promotion {
    fn clone(&self) -> (r: Self)
        ensures
            r == *self,
    {
        Promotion {
            offer_id: self.offer_id,
            game_pk: self.game_pk,
            name: self.name.clone(),
            offer_type: clone_opt_text(&self.offer_type),
            description: clone_opt_text(&self.description),
            distribution: clone_opt_text(&self.distribution),
            presented_by: clone_opt_text(&self.presented_by),
            alt_page_url: clone_opt_text(&self.alt_page_url),
            ticket_link: clone_opt_text(&self.ticket_link),
            thumbnail_url: clone_opt_text(&self.thumbnail_url),
            image_url: clone_opt_text(&self.image_url),
            display_order: self.display_order,
        }
    }
}

impl Clone for Seat {
    fn clone(&self) -> (r: Self)
        ensures
            r == *self,
    {
        Seat {
            id: self.id,
            section: self.section.clone(),
            row: self.row.clone(),
            seat: self.seat.clone(),
            notes: clone_opt_text(&self.notes),
        }
    }
}

impl Clone for GameTicket {
    fn clone(&self) -> (r: Self)
        ensures
            r == *self,
    {
        GameTicket {
            id: self.id,
            game_pk: self.game_pk,
            seat_id: self.seat_id,
            status: self.status,
            notes: clone_opt_text(&self.notes),
            assigned_to: self.assigned_to,
        }
    }
}

impl Clone for User {
    fn clone(&self) -> (r: Self)
        ensures
            r == *self,
    {
        User {
            id: self.id,
            auth0_sub: self.auth0_sub.clone(),
            email: self.email.clone(),
            name: self.name.clone(),
            role: self.role,
        }
    }
}

impl Clone for GameTicketDetail {
    fn clone(&self) -> (r: Self)
        ensures
            r == *self,
    {
        GameTicketDetail {
            id: self.id,
            game_pk: self.game_pk,
            seat_id: self.seat_id,
            section: self.section.clone(),
            row: self.row.clone(),
            seat: self.seat.clone(),
            status: self.status,
            notes: clone_opt_text(&self.notes),
            assigned_to: self.assigned_to,
        }
    }
}

impl Clone for TicketRequest {
    fn clone(&self) -> (r: Self)
        ensures
            r == *self,
    {
        TicketRequest {
            id: self.id,
            user_id: self.user_id,
            game_pk: self.game_pk,
            seats_requested: self.seats_requested,
            seats_approved: self.seats_approved,
            status: self.status,
            notes: clone_opt_text(&self.notes),
        }
    }
}

/// A row that can be copied out of its table.
pub trait Row: Sized {
    /// A copy of the row.
    fn duplicate(&self) -> (r: Self)
        ensures
            r == *self,
    ;
}

impl Row for Game {
    fn duplicate(&self) -> (r: Self) {
        self.clone()
    }
}

impl Row for Promotion {
    fn duplicate(&self) -> (r: Self) {
        self.clone()
    }
}

impl Row for Seat {
    fn duplicate(&self) -> (r: Self) {
        self.clone()
    }
}

impl Row for GameTicket {
    fn duplicate(&self) -> (r: Self) {
        self.clone()
    }
}

impl Row for User {
    fn duplicate(&self) -> (r: Self) {
        self.clone()
    }
}

impl Row for TicketRequest {
    fn duplicate(&self) -> (r: Self) {
        self.clone()
    }
}

impl TicketStatus {
    /// The word for the status.
    pub open spec fn name(self) -> Seq<char> {
        match self {
            TicketStatus::Available => "available"@,
            TicketStatus::Assigned => "assigned"@,
        }
    }

    /// The status that a word stands for.
    pub open spec fn named(word: Seq<char>) -> Option<TicketStatus> {
        if word == "available"@ {
            Some(TicketStatus::Available)
        } else if word == "assigned"@ {
            Some(TicketStatus::Assigned)
        } else {
            None
        }
    }

    /// The word for the status.
    pub fn as_str(&self) -> (word: &'static str)
        ensures
            word@ == self.name(),
    {
        match self {
            TicketStatus::Available => "available",
            TicketStatus::Assigned => "assigned",
        }
    }

    /// The status that a word stands for.
    pub fn from_name(word: &str) -> (status: Option<TicketStatus>)
        ensures
            status == TicketStatus::named(word@),
    {
        if same_text(word, "available") {
            Some(TicketStatus::Available)
        } else if same_text(word, "assigned") {
            Some(TicketStatus::Assigned)
        } else {
            None
        }
    }
}

impl RequestStatus {
    /// The word for the status.
    pub open spec fn name(self) -> Seq<char> {
        match self {
            RequestStatus::Pending => "pending"@,
            RequestStatus::Approved => "approved"@,
            RequestStatus::Withdrawn => "withdrawn"@,
        }
    }

    /// The status that a word stands for.
    pub open spec fn named(word: Seq<char>) -> Option<RequestStatus> {
        if word == "pending"@ {
            Some(RequestStatus::Pending)
        } else if word == "approved"@ {
            Some(RequestStatus::Approved)
        } else if word == "withdrawn"@ {
            Some(RequestStatus::Withdrawn)
        } else {
            None
        }
    }

    /// The word for the status.
    pub fn as_str(&self) -> (word: &'static str)
        ensures
            word@ == self.name(),
    {
        match self {
            RequestStatus::Pending => "pending",
            RequestStatus::Approved => "approved",
            RequestStatus::Withdrawn => "withdrawn",
        }
    }

    /// The status that a word stands for.
    pub fn from_name(word: &str) -> (status: Option<RequestStatus>)
        ensures
            status == RequestStatus::named(word@),
    {
        if same_text(word, "pending") {
            Some(RequestStatus::Pending)
        } else if same_text(word, "approved") {
            Some(RequestStatus::Approved)
        } else if same_text(word, "withdrawn") {
            Some(RequestStatus::Withdrawn)
        } else {
            None
        }
    }
}

impl Role {
    /// The word for the role.
    pub open spec fn name(self) -> Seq<char> {
        match self {
            Role::Member => "member"@,
            Role::Admin => "admin"@,
        }
    }

    /// The role that a word stands for.
    pub open spec fn named(word: Seq<char>) -> Option<Role> {
        if word == "member"@ {
            Some(Role::Member)
        } else if word == "admin"@ {
            Some(Role::Admin)
        } else {
            None
        }
    }

    /// The word for the role.
    pub fn as_str(&self) -> (word: &'static str)
        ensures
            word@ == self.name(),
    {
        match self {
            Role::Member => "member",
            Role::Admin => "admin",
        }
    }

    /// The role that a word stands for.
    pub fn from_name(word: &str) -> (role: Option<Role>)
        ensures
            role == Role::named(word@),
    {
        if same_text(word, "member") {
            Some(Role::Member)
        } else if same_text(word, "admin") {
            Some(Role::Admin)
        } else {
            None
        }
    }
}

/// Every status and role is the one that its word stands for.
pub proof fn law_words_name_their_states(ticket: TicketStatus, request: RequestStatus, role: Role)
    ensures
        TicketStatus::named(ticket.name()) == Some(ticket),
        RequestStatus::named(request.name()) == Some(request),
        Role::named(role.name()) == Some(role),
{
    reveal_strlit("available");
    reveal_strlit("assigned");
    reveal_strlit("pending");
    reveal_strlit("approved");
    reveal_strlit("withdrawn");
    reveal_strlit("member");
    reveal_strlit("admin");
    assert("available"@.len() != "assigned"@.len());
    assert("pending"@.len() != "approved"@.len());
    assert("pending"@.len() != "withdrawn"@.len());
    assert("approved"@.len() != "withdrawn"@.len());
    assert("member"@.len() != "admin"@.len());
}

impl Game {
    /// The side on which the managed team plays: "home" or "away".
    pub fn side(&self) -> (word: &'static str)
        ensures
            word@ == (if self.is_home() {
                "home"@
            } else {
                "away"@
            }),
    {
        if self.plays_at_home() {
            "home"
        } else {
            "away"
        }
    }

    /// The team that the managed team plays against.
    pub fn opponent(&self) -> (name: &String)
        ensures
            *name == (if self.is_home() {
                self.away_team_name
            } else {
                self.home_team_name
            }),
    {
        if self.plays_at_home() {
            &self.away_team_name
        } else {
            &self.home_team_name
        }
    }

    /// When the game starts, for display: "TBD" while that is not settled.
    pub fn time_display(&self) -> (text: String)
        ensures
            text@ == (if self.start_time_tbd {
                "TBD"@
            } else {
                self.game_date@
            }),
    {
        if self.start_time_tbd {
            String::from_str("TBD")
        } else {
            self.game_date.clone()
        }
    }
}

impl GameTicketDetail {
    /// The ticket in one line: section, colon, row and seat, and the status in
    /// brackets.
    pub open spec fn line(self) -> Seq<char> {
        self.section@ + ":"@ + self.row@ + self.seat@ + " ["@ + self.status.name() + "]"@
    }

    /// The ticket in one line.
    pub fn describe(&self) -> (text: String)
        ensures
            text@ == self.line(),
    {
        let mut text = self.section.clone();
        text.append(":");
        text.append(self.row.as_str());
        text.append(self.seat.as_str());
        text.append(" [");
        text.append(self.status.as_str());
        text.append("]");
        text
    }
}

} // verus!
