//! The LiveClient Data API, which answers while a game is under way.
use crate::http::{self, read_body, Exchange};
use crate::json::{self, Json, JsonView};
use crate::text::{self, join, same};
use vstd::prelude::*;

verus! {

/// Where the API answers.
pub const LIVE_BASE: &'static str = "https://127.0.0.1:2999";

/// What to ask for the statistics of the game.
pub const GAME_STATS_PATH: &'static str = "/liveclientdata/gamestats";

/// What to ask for the statistics of the player.
pub const ACTIVE_PLAYER_PATH: &'static str = "/liveclientdata/activeplayer";

/// The game mode of ARAM: Mayhem.
pub const MAYHEM_MODE: &'static str = "KIWI";

/// The URL of a question to the API.
pub fn live_url(path: &str) -> (url: String)
    ensures
        url@ == LIVE_BASE@ + path@,
{
    join(LIVE_BASE, path)
}

/// The document that the API answered with, where it answered with one.
pub open spec fn live_doc(exchange: Exchange) -> Option<JsonView> {
    match exchange {
        Ok(reply) => if http::success(reply.status@) {
            match http::body_json(reply.body) {
                Ok(doc) => Some(doc),
                Err(_) => None,
            }
        } else {
            None
        },
        Err(_) => None,
    }
}

/// Reads the document that the API answered with.
pub fn get_json(exchange: &Exchange) -> (doc: Option<Json>)
    ensures
        json::opt_json(doc) == live_doc(*exchange),
{
    match exchange {
        Ok(reply) => if reply.status.is_success() {
            match read_body(&reply.body) {
                Ok(doc) => Some(doc),
                Err(_) => None,
            }
        } else {
            None
        },
        Err(_) => None,
    }
}

/// The mode that the statistics of a game report.
pub fn read_game_mode(stats: &Json) -> (mode: Option<String>)
    ensures
        text::opt_text(mode) == stats@.get_text("gameMode"@),
{
    match stats.get_text("gameMode") {
        Some(mode) => Some(mode.clone()),
        None => None,
    }
}

/// The mode of the game under way; none where the API does not answer.
pub open spec fn mode_of(exchange: Exchange) -> Option<Seq<char>> {
    match live_doc(exchange) {
        Some(stats) => stats.get_text("gameMode"@),
        None => None,
    }
}

/// The mode of the game under way, as the API answered.
pub fn game_mode(exchange: &Exchange) -> (mode: Option<String>)
    ensures
        text::opt_text(mode) == mode_of(*exchange),
{
    match get_json(exchange) {
        Some(stats) => read_game_mode(&stats),
        None => None,
    }
}

/// The build of the player, as the document of the player gives it.
pub fn read_champion_stats(player: &Json) -> (stats: Option<Json>)
    ensures
        json::opt_json(stats) == player@.get("championStats"@),
{
    match player.get("championStats") {
        Some(stats) => Some(stats.clone()),
        None => None,
    }
}

/// The build of the player; none where the API does not give it.
pub open spec fn champion_stats_of(exchange: Exchange) -> Option<JsonView> {
    match live_doc(exchange) {
        Some(player) => player.get("championStats"@),
        None => None,
    }
}

/// The build of the player, as the API answered.
pub fn champion_stats(exchange: &Exchange) -> (stats: Option<Json>)
    ensures
        json::opt_json(stats) == champion_stats_of(*exchange),
{
    match get_json(exchange) {
        Some(player) => read_champion_stats(&player),
        None => None,
    }
}

/// Whether the game under way is ARAM: Mayhem, by its mode.
pub fn is_mayhem_in_game(mode: &Option<String>) -> (r: bool)
    ensures
        r == (text::opt_text(*mode) == Some(MAYHEM_MODE@)),
{
    match mode {
        Some(mode) => same(mode.as_str(), MAYHEM_MODE),
        None => false,
    }
}

} // verus!
