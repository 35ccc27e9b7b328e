//! The details of a game, as the League client reports them.
use crate::json::{self, Json, JsonView};
use vstd::prelude::*;

verus! {

/// The detail of one game.
#[derive(Debug)]
pub struct GameDetail {
    pub game_id: i64,
    pub game_creation: i64,
    pub game_duration: i64,
    pub participant_identities: Vec<ParticipantIdentity>,
    pub participants: Vec<Participant>,
}

/// Which player took part under a participant id.
#[derive(Debug)]
pub struct ParticipantIdentity {
    pub participant_id: i64,
    pub player: Option<PlayerIdentity>,
}

/// The names of a player.
#[derive(Debug)]
pub struct PlayerIdentity {
    pub puuid: String,
    pub game_name: String,
    pub tag_line: String,
    pub summoner_name: String,
}

/// One player's part in a game, with the statistics that the client keeps.
#[derive(Debug)]
pub struct Participant {
    pub participant_id: i64,
    pub champion_id: i64,
    pub stats: Option<Json>,
}

/// What a [`PlayerIdentity`] says.
pub struct PlayerView {
    pub puuid: Seq<char>,
    pub game_name: Seq<char>,
    pub tag_line: Seq<char>,
    pub summoner_name: Seq<char>,
}

/// What a [`ParticipantIdentity`] says.
pub struct IdentityView {
    pub participant_id: i64,
    pub player: Option<PlayerView>,
}

/// What a [`Participant`] says.
pub struct ParticipantView {
    pub participant_id: i64,
    pub champion_id: i64,
    pub stats: Option<JsonView>,
}

/// What a [`GameDetail`] says.
pub struct GameView {
    pub game_id: i64,
    pub game_creation: i64,
    pub game_duration: i64,
    pub identities: Seq<IdentityView>,
    pub participants: Seq<ParticipantView>,
}

impl View for PlayerIdentity {
    type V = PlayerView;

    open spec fn view(&self) -> PlayerView {
        PlayerView {
            puuid: self.puuid@,
            game_name: self.game_name@,
            tag_line: self.tag_line@,
            summoner_name: self.summoner_name@,
        }
    }
}

impl View for ParticipantIdentity {
    type V = IdentityView;

    open spec fn view(&self) -> IdentityView {
        IdentityView {
            participant_id: self.participant_id,
            player: match self.player {
                Some(player) => Some(player@),
                None => None,
            },
        }
    }
}

impl View for Participant {
    type V = ParticipantView;

    open spec fn view(&self) -> ParticipantView {
        ParticipantView {
            participant_id: self.participant_id,
            champion_id: self.champion_id,
            stats: json::opt_json(self.stats),
        }
    }
}

impl View for GameDetail {
    type V = GameView;

    open spec fn view(&self) -> GameView {
        GameView {
            game_id: self.game_id,
            game_creation: self.game_creation,
            game_duration: self.game_duration,
            identities: self.participant_identities@.map_values(|i: ParticipantIdentity| i@),
            participants: self.participants@.map_values(|p: Participant| p@),
        }
    }
}

} // verus!
