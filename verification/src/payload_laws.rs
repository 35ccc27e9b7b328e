//! What the payload of a game tells the backend, field by field.
use crate::first;
use crate::game::{
    GameDetail, GameView, IdentityView, Participant, ParticipantView, PlayerIdentity, PlayerView,
};
use crate::json::{Json, JsonView};
use crate::payload;
use crate::text;
use vstd::prelude::*;

verus! {

/// The names of the fields of a game's payload are told apart by length, or by a character.
proof fn lemma_match_keys()
    ensures
        "gameId"@.len() == 6,
        "participants"@.len() == 12,
        "championId"@.len() == 10,
        "win"@.len() == 3,
        "kills"@.len() == 5,
        "deaths"@.len() == 6,
        "assists"@.len() == 7,
        "doubleKills"@.len() == 11,
        "tripleKills"@.len() == 11,
        "quadraKills"@.len() == 11,
        "pentaKills"@.len() == 10,
        "damageDealt"@.len() == 11,
        "damageTaken"@.len() == 11,
        "gold"@.len() == 4,
        "totalHeal"@.len() == 9,
        "killingSpree"@.len() == 12,
        "items"@.len() == 5,
        "augments"@.len() == 8,
        "gameCreation"@.len() == 12,
        "gameDuration"@.len() == 12,
        "damageSelfMitigated"@.len() == 19,
        "totalDamageDealt"@.len() == 16,
        "totalDamageToChampions"@.len() == 22,
        "physicalDmgChamps"@.len() == 17,
        "magicDmgChamps"@.len() == 14,
        "trueDmgChamps"@.len() == 13,
        "totalUnitsHealed"@.len() == 16,
        "goldSpent"@.len() == 9,
        "largestMultiKill"@.len() == 16,
        "largestCriticalStrike"@.len() == 21,
        "killingSprees"@.len() == 13,
        "longestTimeLiving"@.len() == 17,
        "timeCcing"@.len() == 9,
        "totalCcDealt"@.len() == 12,
        "visionScore"@.len() == 11,
        "totalMinions"@.len() == 12,
        "neutralMinions"@.len() == 14,
        "champLevel"@.len() == 10,
        "raw"@.len() == 3,
        "gameId"@[0] != "deaths"@[0],
        "participants"@[0] != "killingSpree"@[0],
        "participants"@[0] != "gameCreation"@[0],
        "participants"@[0] != "gameDuration"@[0],
        "participants"@[0] != "totalCcDealt"@[0],
        "participants"@[0] != "totalMinions"@[0],
        "championId"@[0] != "pentaKills"@[0],
        "championId"@[5] != "champLevel"@[5],
        "win"@[0] != "raw"@[0],
        "kills"@[0] != "items"@[0],
        "doubleKills"@[0] != "tripleKills"@[0],
        "doubleKills"@[0] != "quadraKills"@[0],
        "doubleKills"@[1] != "damageDealt"@[1],
        "doubleKills"@[1] != "damageTaken"@[1],
        "doubleKills"@[0] != "visionScore"@[0],
        "tripleKills"@[0] != "quadraKills"@[0],
        "tripleKills"@[0] != "damageDealt"@[0],
        "tripleKills"@[0] != "damageTaken"@[0],
        "tripleKills"@[0] != "visionScore"@[0],
        "quadraKills"@[0] != "damageDealt"@[0],
        "quadraKills"@[0] != "damageTaken"@[0],
        "quadraKills"@[0] != "visionScore"@[0],
        "pentaKills"@[0] != "champLevel"@[0],
        "damageDealt"@[6] != "damageTaken"@[6],
        "damageDealt"@[0] != "visionScore"@[0],
        "damageTaken"@[0] != "visionScore"@[0],
        "totalHeal"@[0] != "goldSpent"@[0],
        "totalHeal"@[1] != "timeCcing"@[1],
        "killingSpree"@[0] != "gameCreation"@[0],
        "killingSpree"@[0] != "gameDuration"@[0],
        "killingSpree"@[0] != "totalCcDealt"@[0],
        "killingSpree"@[0] != "totalMinions"@[0],
        "gameCreation"@[4] != "gameDuration"@[4],
        "gameCreation"@[0] != "totalCcDealt"@[0],
        "gameCreation"@[0] != "totalMinions"@[0],
        "gameDuration"@[0] != "totalCcDealt"@[0],
        "gameDuration"@[0] != "totalMinions"@[0],
        "totalDamageDealt"@[5] != "totalUnitsHealed"@[5],
        "totalDamageDealt"@[0] != "largestMultiKill"@[0],
        "physicalDmgChamps"@[0] != "longestTimeLiving"@[0],
        "magicDmgChamps"@[0] != "neutralMinions"@[0],
        "trueDmgChamps"@[0] != "killingSprees"@[0],
        "totalUnitsHealed"@[0] != "largestMultiKill"@[0],
        "goldSpent"@[0] != "timeCcing"@[0],
        "totalCcDealt"@[5] != "totalMinions"@[5],
{
    reveal_strlit("gameId");
    reveal_strlit("participants");
    reveal_strlit("championId");
    reveal_strlit("win");
    reveal_strlit("kills");
    reveal_strlit("deaths");
    reveal_strlit("assists");
    reveal_strlit("doubleKills");
    reveal_strlit("tripleKills");
    reveal_strlit("quadraKills");
    reveal_strlit("pentaKills");
    reveal_strlit("damageDealt");
    reveal_strlit("damageTaken");
    reveal_strlit("gold");
    reveal_strlit("totalHeal");
    reveal_strlit("killingSpree");
    reveal_strlit("items");
    reveal_strlit("augments");
    reveal_strlit("gameCreation");
    reveal_strlit("gameDuration");
    reveal_strlit("damageSelfMitigated");
    reveal_strlit("totalDamageDealt");
    reveal_strlit("totalDamageToChampions");
    reveal_strlit("physicalDmgChamps");
    reveal_strlit("magicDmgChamps");
    reveal_strlit("trueDmgChamps");
    reveal_strlit("totalUnitsHealed");
    reveal_strlit("goldSpent");
    reveal_strlit("largestMultiKill");
    reveal_strlit("largestCriticalStrike");
    reveal_strlit("killingSprees");
    reveal_strlit("longestTimeLiving");
    reveal_strlit("timeCcing");
    reveal_strlit("totalCcDealt");
    reveal_strlit("visionScore");
    reveal_strlit("totalMinions");
    reveal_strlit("neutralMinions");
    reveal_strlit("champLevel");
    reveal_strlit("raw");
}

/// Each field of the payload of a game comes from what the backend means by it:
/// the identity of the game and the score.
pub proof fn law_match_base_fields(game: GameView, p: ParticipantView)
    ensures
        payload::match_payload(game, p).get("gameId"@) == Some(JsonView::Int(game.game_id as int)),
        payload::match_payload(game, p).get("participants"@) == Some(JsonView::List(payload::team_payload(game))),
        payload::match_payload(game, p).get("championId"@) == Some(JsonView::Int(p.champion_id as int)),
        payload::match_payload(game, p).get("win"@) == Some(JsonView::Bool(payload::won(payload::stats_of(p)))),
        payload::match_payload(game, p).get("kills"@) == Some(payload::stat_view(payload::stats_of(p), "kills"@)),
        payload::match_payload(game, p).get("deaths"@) == Some(payload::stat_view(payload::stats_of(p), "deaths"@)),
        payload::match_payload(game, p).get("assists"@) == Some(payload::stat_view(payload::stats_of(p), "assists"@)),
        payload::match_payload(game, p).get("doubleKills"@) == Some(payload::stat_view(payload::stats_of(p), "doubleKills"@)),
        payload::match_payload(game, p).get("tripleKills"@) == Some(payload::stat_view(payload::stats_of(p), "tripleKills"@)),
        payload::match_payload(game, p).get("quadraKills"@) == Some(payload::stat_view(payload::stats_of(p), "quadraKills"@)),
        payload::match_payload(game, p).get("pentaKills"@) == Some(payload::stat_view(payload::stats_of(p), "pentaKills"@)),
        payload::match_payload(game, p).get("damageDealt"@) == Some(payload::stat_view(payload::stats_of(p), "totalDamageDealtToChampions"@)),
        payload::match_payload(game, p).get("damageTaken"@) == Some(payload::stat_view(payload::stats_of(p), "totalDamageTaken"@)),
        payload::match_payload(game, p).get("gold"@) == Some(payload::stat_view(payload::stats_of(p), "goldEarned"@)),
        payload::match_payload(game, p).get("totalHeal"@) == Some(payload::stat_view(payload::stats_of(p), "totalHeal"@)),
        payload::match_payload(game, p).get("killingSpree"@) == Some(payload::stat_view(payload::stats_of(p), "largestKillingSpree"@)),
        payload::match_payload(game, p).get("items"@) == Some(payload::ints_view(payload::item_slots(payload::stats_of(p)))),
        payload::match_payload(game, p).get("augments"@) == Some(payload::ints_view(payload::augments(payload::stats_of(p)))),
        payload::match_payload(game, p).get("gameCreation"@) == Some(JsonView::Int(game.game_creation as int)),
        payload::match_payload(game, p).get("gameDuration"@) == Some(JsonView::Int(game.game_duration as int)),
{
    lemma_match_keys();
}

/// Each field of the payload of a game comes from what the backend means by it:
/// the detailed statistics, and all of them as they were read.
pub proof fn law_match_rich_fields(game: GameView, p: ParticipantView)
    ensures
        payload::match_payload(game, p).get("damageSelfMitigated"@) == Some(payload::stat_view(payload::stats_of(p), "damageSelfMitigated"@)),
        payload::match_payload(game, p).get("totalDamageDealt"@) == Some(payload::stat_view(payload::stats_of(p), "totalDamageDealt"@)),
        payload::match_payload(game, p).get("totalDamageToChampions"@) == Some(payload::stat_view(payload::stats_of(p), "totalDamageDealtToChampions"@)),
        payload::match_payload(game, p).get("physicalDmgChamps"@) == Some(payload::stat_view(payload::stats_of(p), "physicalDamageDealtToChampions"@)),
        payload::match_payload(game, p).get("magicDmgChamps"@) == Some(payload::stat_view(payload::stats_of(p), "magicDamageDealtToChampions"@)),
        payload::match_payload(game, p).get("trueDmgChamps"@) == Some(payload::stat_view(payload::stats_of(p), "trueDamageDealtToChampions"@)),
        payload::match_payload(game, p).get("totalUnitsHealed"@) == Some(payload::stat_view(payload::stats_of(p), "totalUnitsHealed"@)),
        payload::match_payload(game, p).get("goldSpent"@) == Some(payload::stat_view(payload::stats_of(p), "goldSpent"@)),
        payload::match_payload(game, p).get("largestMultiKill"@) == Some(payload::stat_view(payload::stats_of(p), "largestMultiKill"@)),
        payload::match_payload(game, p).get("largestCriticalStrike"@) == Some(payload::stat_view(payload::stats_of(p), "largestCriticalStrike"@)),
        payload::match_payload(game, p).get("killingSprees"@) == Some(payload::stat_view(payload::stats_of(p), "killingSprees"@)),
        payload::match_payload(game, p).get("longestTimeLiving"@) == Some(payload::stat_view(payload::stats_of(p), "longestTimeSpentLiving"@)),
        payload::match_payload(game, p).get("timeCcing"@) == Some(payload::stat_view(payload::stats_of(p), "timeCCingOthers"@)),
        payload::match_payload(game, p).get("totalCcDealt"@) == Some(payload::stat_view(payload::stats_of(p), "totalTimeCrowdControlDealt"@)),
        payload::match_payload(game, p).get("visionScore"@) == Some(payload::stat_view(payload::stats_of(p), "visionScore"@)),
        payload::match_payload(game, p).get("totalMinions"@) == Some(payload::stat_view(payload::stats_of(p), "totalMinionsKilled"@)),
        payload::match_payload(game, p).get("neutralMinions"@) == Some(payload::stat_view(payload::stats_of(p), "neutralMinionsKilled"@)),
        payload::match_payload(game, p).get("champLevel"@) == Some(payload::stat_view(payload::stats_of(p), "champLevel"@)),
        payload::match_payload(game, p).get("raw"@) == Some(payload::stats_of(p)),
{
    lemma_match_keys();
}

/// The names of the fields of a participant are told apart by length, or by a
/// character.
proof fn lemma_participant_keys()
    ensures
        "participantId"@.len() == 13,
        "puuid"@.len() == 5,
        "gameName"@.len() == 8,
        "tagLine"@.len() == 7,
        "championId"@.len() == 10,
        "win"@.len() == 3,
        "kills"@.len() == 5,
        "deaths"@.len() == 6,
        "assists"@.len() == 7,
        "totalDamageToChampions"@.len() == 22,
        "totalHeal"@.len() == 9,
        "damageSelfMitigated"@.len() == 19,
        "gold"@.len() == 4,
        "augments"@.len() == 8,
        "items"@.len() == 5,
        "doubleKills"@.len() == 11,
        "tripleKills"@.len() == 11,
        "quadraKills"@.len() == 11,
        "pentaKills"@.len() == 10,
        "damageDealt"@.len() == 11,
        "damageTaken"@.len() == 11,
        "totalDamageDealt"@.len() == 16,
        "physicalDmgChamps"@.len() == 17,
        "magicDmgChamps"@.len() == 14,
        "trueDmgChamps"@.len() == 13,
        "totalUnitsHealed"@.len() == 16,
        "goldSpent"@.len() == 9,
        "largestMultiKill"@.len() == 16,
        "largestCriticalStrike"@.len() == 21,
        "killingSpree"@.len() == 12,
        "killingSprees"@.len() == 13,
        "longestTimeLiving"@.len() == 17,
        "timeCcing"@.len() == 9,
        "totalCcDealt"@.len() == 12,
        "visionScore"@.len() == 11,
        "totalMinions"@.len() == 12,
        "neutralMinions"@.len() == 14,
        "champLevel"@.len() == 10,
        "raw"@.len() == 3,
        "participantId"@[0] != "trueDmgChamps"@[0],
        "participantId"@[0] != "killingSprees"@[0],
        "puuid"@[0] != "kills"@[0],
        "puuid"@[0] != "items"@[0],
        "gameName"@[0] != "augments"@[0],
        "tagLine"@[0] != "assists"@[0],
        "championId"@[0] != "pentaKills"@[0],
        "championId"@[5] != "champLevel"@[5],
        "win"@[0] != "raw"@[0],
        "kills"@[0] != "items"@[0],
        "totalHeal"@[0] != "goldSpent"@[0],
        "totalHeal"@[1] != "timeCcing"@[1],
        "doubleKills"@[0] != "tripleKills"@[0],
        "doubleKills"@[0] != "quadraKills"@[0],
        "doubleKills"@[1] != "damageDealt"@[1],
        "doubleKills"@[1] != "damageTaken"@[1],
        "doubleKills"@[0] != "visionScore"@[0],
        "tripleKills"@[0] != "quadraKills"@[0],
        "tripleKills"@[0] != "damageDealt"@[0],
        "tripleKills"@[0] != "damageTaken"@[0],
        "tripleKills"@[0] != "visionScore"@[0],
        "quadraKills"@[0] != "damageDealt"@[0],
        "quadraKills"@[0] != "damageTaken"@[0],
        "quadraKills"@[0] != "visionScore"@[0],
        "pentaKills"@[0] != "champLevel"@[0],
        "damageDealt"@[6] != "damageTaken"@[6],
        "damageDealt"@[0] != "visionScore"@[0],
        "damageTaken"@[0] != "visionScore"@[0],
        "totalDamageDealt"@[5] != "totalUnitsHealed"@[5],
        "totalDamageDealt"@[0] != "largestMultiKill"@[0],
        "physicalDmgChamps"@[0] != "longestTimeLiving"@[0],
        "magicDmgChamps"@[0] != "neutralMinions"@[0],
        "trueDmgChamps"@[0] != "killingSprees"@[0],
        "totalUnitsHealed"@[0] != "largestMultiKill"@[0],
        "goldSpent"@[0] != "timeCcing"@[0],
        "killingSpree"@[0] != "totalCcDealt"@[0],
        "killingSpree"@[0] != "totalMinions"@[0],
        "totalCcDealt"@[5] != "totalMinions"@[5],
{
    reveal_strlit("participantId");
    reveal_strlit("puuid");
    reveal_strlit("gameName");
    reveal_strlit("tagLine");
    reveal_strlit("championId");
    reveal_strlit("win");
    reveal_strlit("kills");
    reveal_strlit("deaths");
    reveal_strlit("assists");
    reveal_strlit("totalDamageToChampions");
    reveal_strlit("totalHeal");
    reveal_strlit("damageSelfMitigated");
    reveal_strlit("gold");
    reveal_strlit("augments");
    reveal_strlit("items");
    reveal_strlit("doubleKills");
    reveal_strlit("tripleKills");
    reveal_strlit("quadraKills");
    reveal_strlit("pentaKills");
    reveal_strlit("damageDealt");
    reveal_strlit("damageTaken");
    reveal_strlit("totalDamageDealt");
    reveal_strlit("physicalDmgChamps");
    reveal_strlit("magicDmgChamps");
    reveal_strlit("trueDmgChamps");
    reveal_strlit("totalUnitsHealed");
    reveal_strlit("goldSpent");
    reveal_strlit("largestMultiKill");
    reveal_strlit("largestCriticalStrike");
    reveal_strlit("killingSpree");
    reveal_strlit("killingSprees");
    reveal_strlit("longestTimeLiving");
    reveal_strlit("timeCcing");
    reveal_strlit("totalCcDealt");
    reveal_strlit("visionScore");
    reveal_strlit("totalMinions");
    reveal_strlit("neutralMinions");
    reveal_strlit("champLevel");
    reveal_strlit("raw");
}

/// Each field of a participant's part of the payload comes from what the backend
/// means by it: who it is, the score, and what was picked.
pub proof fn law_participant_base_fields(p: ParticipantView, who: Option<PlayerView>)
    ensures
        payload::participant_payload(p, who).get("participantId"@) == Some(JsonView::Int(p.participant_id as int)),
        payload::participant_payload(p, who).get("puuid"@) == Some(JsonView::Text(payload::player_puuid(who))),
        payload::participant_payload(p, who).get("gameName"@) == Some(JsonView::Text(payload::player_game_name(who))),
        payload::participant_payload(p, who).get("tagLine"@) == Some(JsonView::Text(payload::player_tag_line(who))),
        payload::participant_payload(p, who).get("championId"@) == Some(JsonView::Int(p.champion_id as int)),
        payload::participant_payload(p, who).get("win"@) == Some(JsonView::Bool(payload::won(payload::stats_of(p)))),
        payload::participant_payload(p, who).get("kills"@) == Some(payload::stat_view(payload::stats_of(p), "kills"@)),
        payload::participant_payload(p, who).get("deaths"@) == Some(payload::stat_view(payload::stats_of(p), "deaths"@)),
        payload::participant_payload(p, who).get("assists"@) == Some(payload::stat_view(payload::stats_of(p), "assists"@)),
        payload::participant_payload(p, who).get("totalDamageToChampions"@) == Some(payload::stat_view(payload::stats_of(p), "totalDamageDealtToChampions"@)),
        payload::participant_payload(p, who).get("totalHeal"@) == Some(payload::stat_view(payload::stats_of(p), "totalHeal"@)),
        payload::participant_payload(p, who).get("damageSelfMitigated"@) == Some(payload::stat_view(payload::stats_of(p), "damageSelfMitigated"@)),
        payload::participant_payload(p, who).get("gold"@) == Some(payload::stat_view(payload::stats_of(p), "goldEarned"@)),
        payload::participant_payload(p, who).get("augments"@) == Some(payload::ints_view(payload::augments(payload::stats_of(p)))),
        payload::participant_payload(p, who).get("items"@) == Some(payload::ints_view(payload::non_zero(payload::item_slots(payload::stats_of(p))))),
{
    lemma_participant_keys();
}

/// Each field of a participant's part of the payload comes from what the backend
/// means by it: the detailed statistics, and all of them as they were read.
pub proof fn law_participant_rich_fields(p: ParticipantView, who: Option<PlayerView>)
    ensures
        payload::participant_payload(p, who).get("doubleKills"@) == Some(payload::stat_view(payload::stats_of(p), "doubleKills"@)),
        payload::participant_payload(p, who).get("tripleKills"@) == Some(payload::stat_view(payload::stats_of(p), "tripleKills"@)),
        payload::participant_payload(p, who).get("quadraKills"@) == Some(payload::stat_view(payload::stats_of(p), "quadraKills"@)),
        payload::participant_payload(p, who).get("pentaKills"@) == Some(payload::stat_view(payload::stats_of(p), "pentaKills"@)),
        payload::participant_payload(p, who).get("damageDealt"@) == Some(payload::stat_view(payload::stats_of(p), "totalDamageDealtToChampions"@)),
        payload::participant_payload(p, who).get("damageTaken"@) == Some(payload::stat_view(payload::stats_of(p), "totalDamageTaken"@)),
        payload::participant_payload(p, who).get("totalDamageDealt"@) == Some(payload::stat_view(payload::stats_of(p), "totalDamageDealt"@)),
        payload::participant_payload(p, who).get("physicalDmgChamps"@) == Some(payload::stat_view(payload::stats_of(p), "physicalDamageDealtToChampions"@)),
        payload::participant_payload(p, who).get("magicDmgChamps"@) == Some(payload::stat_view(payload::stats_of(p), "magicDamageDealtToChampions"@)),
        payload::participant_payload(p, who).get("trueDmgChamps"@) == Some(payload::stat_view(payload::stats_of(p), "trueDamageDealtToChampions"@)),
        payload::participant_payload(p, who).get("totalUnitsHealed"@) == Some(payload::stat_view(payload::stats_of(p), "totalUnitsHealed"@)),
        payload::participant_payload(p, who).get("goldSpent"@) == Some(payload::stat_view(payload::stats_of(p), "goldSpent"@)),
        payload::participant_payload(p, who).get("largestMultiKill"@) == Some(payload::stat_view(payload::stats_of(p), "largestMultiKill"@)),
        payload::participant_payload(p, who).get("largestCriticalStrike"@) == Some(payload::stat_view(payload::stats_of(p), "largestCriticalStrike"@)),
        payload::participant_payload(p, who).get("killingSpree"@) == Some(payload::stat_view(payload::stats_of(p), "largestKillingSpree"@)),
        payload::participant_payload(p, who).get("killingSprees"@) == Some(payload::stat_view(payload::stats_of(p), "killingSprees"@)),
        payload::participant_payload(p, who).get("longestTimeLiving"@) == Some(payload::stat_view(payload::stats_of(p), "longestTimeSpentLiving"@)),
        payload::participant_payload(p, who).get("timeCcing"@) == Some(payload::stat_view(payload::stats_of(p), "timeCCingOthers"@)),
        payload::participant_payload(p, who).get("totalCcDealt"@) == Some(payload::stat_view(payload::stats_of(p), "totalTimeCrowdControlDealt"@)),
        payload::participant_payload(p, who).get("visionScore"@) == Some(payload::stat_view(payload::stats_of(p), "visionScore"@)),
        payload::participant_payload(p, who).get("totalMinions"@) == Some(payload::stat_view(payload::stats_of(p), "totalMinionsKilled"@)),
        payload::participant_payload(p, who).get("neutralMinions"@) == Some(payload::stat_view(payload::stats_of(p), "neutralMinionsKilled"@)),
        payload::participant_payload(p, who).get("champLevel"@) == Some(payload::stat_view(payload::stats_of(p), "champLevel"@)),
        payload::participant_payload(p, who).get("raw"@) == Some(payload::stats_of(p)),
{
    lemma_participant_keys();
}

/// Filtering out zeros leaves none, and no more than there were numbers.
proof fn lemma_non_zero(numbers: Seq<i64>)
    ensures
        payload::non_zero(numbers).len() <= numbers.len(),
        !payload::non_zero(numbers).contains(0),
        forall|n: i64| n != 0 && #[trigger] numbers.contains(n) ==> payload::non_zero(
            numbers,
        ).contains(n),
    decreases numbers.len(),
{
    reveal(Seq::filter);
    if numbers.len() > 0 {
        let rest = numbers.drop_last();
        lemma_non_zero(rest);
        let kept = payload::non_zero(numbers);
        let before = payload::non_zero(rest);
        assert forall|n: i64| n != 0 && #[trigger] numbers.contains(n) implies kept.contains(n) by {
            let i = choose|i: int| 0 <= i < numbers.len() && numbers[i] == n;
            if i < rest.len() {
                assert(rest[i] == n);
                assert(before.contains(n));
                let k = choose|k: int| 0 <= k < before.len() && before[k] == n;
                assert(kept[k] == n);
            } else {
                assert(kept[before.len() as int] == n);
            }
        }
    }
}

/// The payload of a game reports every participant, all seven item slots, and
/// at most six augments, none of them zero and none left out.
pub proof fn law_payload_is_complete(game: GameView, p: ParticipantView)
    ensures
        payload::team_payload(game).len() == game.participants.len(),
        payload::item_slots(payload::stats_of(p)).len() == 7,
        payload::augments(payload::stats_of(p)).len() <= 6,
        !payload::augments(payload::stats_of(p)).contains(0),
        forall|i: int|
            1 <= i <= 6 && #[trigger] payload::stat(
                payload::stats_of(p),
                "playerAugment"@ + text::decimal(i),
            ) != 0 ==> payload::augments(payload::stats_of(p)).contains(
                payload::stat(payload::stats_of(p), "playerAugment"@ + text::decimal(i)),
            ),
{
    let stats = payload::stats_of(p);
    let slots = payload::augment_slots(stats);
    lemma_non_zero(slots);
    assert forall|i: int|
        1 <= i <= 6 && #[trigger] payload::stat(stats, "playerAugment"@ + text::decimal(i))
            != 0 implies payload::augments(stats).contains(
        payload::stat(stats, "playerAugment"@ + text::decimal(i)),
    ) by {
        assert(slots[i - 1] == payload::stat(stats, "playerAugment"@ + text::decimal(i)));
        assert(slots.contains(slots[i - 1]));
    }
}

/// The integer that a document holds under a key, where an `i64` can hold it;
/// else 0.
pub open spec fn number_at(doc: JsonView, key: Seq<char>) -> int {
    match doc.get(key) {
        Some(JsonView::Int(n)) if i64::MIN <= n <= i64::MAX => n,
        _ => 0,
    }
}

/// The statistics that came with a participant, or an empty object.
pub open spec fn kept_stats(p: Participant) -> JsonView {
    match p.stats {
        Some(stats) => stats@,
        None => JsonView::Object(Map::empty()),
    }
}

proof fn lemma_numbers(stats: JsonView)
    ensures
        forall|key: Seq<char>| #[trigger]
            payload::stat_view(stats, key) == JsonView::Int(number_at(stats, key)),
{
}

/// A statistic is the integer under its key, and 0 where the document has no
/// such integer.
pub proof fn law_statistic_is_the_integer_under_its_key(stats: Json, key: &str, n: i64)
    requires
        call_ensures(payload::opt_int, (&stats, key), n),
    ensures
        n == number_at(stats@, key@),
{
}

/// A game is reported as won if and only if the statistics hold `true` or the
/// integer 1 under `win`; in particular not where they hold `false`.
pub proof fn law_win_is_true_or_one(game: GameDetail, p: Participant, doc: Json)
    requires
        call_ensures(payload::build_match_payload, (&game, &p), doc),
    ensures
        ({
            let said = kept_stats(p).get("win"@);
            let win = said == Some(JsonView::Bool(true)) || said == Some(JsonView::Int(1));
            &&& doc@.get("win"@) == Some(JsonView::Bool(win))
            &&& said == Some(JsonView::Bool(false)) ==> doc@.get("win"@) == Some(
                JsonView::Bool(false),
            )
        }),
{
    law_match_base_fields(game@, p@);
}

/// A participant is reported as a winner if and only if the statistics hold
/// `true` or the integer 1 under `win`.
pub proof fn law_participant_win_is_true_or_one(
    p: Participant,
    who: Option<&PlayerIdentity>,
    doc: Json,
)
    requires
        call_ensures(payload::build_participant, (&p, who), doc),
    ensures
        ({
            let said = kept_stats(p).get("win"@);
            let win = said == Some(JsonView::Bool(true)) || said == Some(JsonView::Int(1));
            doc@.get("win"@) == Some(JsonView::Bool(win))
        }),
{
    law_participant_base_fields(p@, payload::opt_player(who));
}

/// The payload of a game names the game and the champion, and holds the
/// statistics of the participant it is seen from just as they came.
pub proof fn law_match_identity(game: GameDetail, p: Participant, doc: Json)
    requires
        call_ensures(payload::build_match_payload, (&game, &p), doc),
    ensures
        doc@.get("gameId"@) == Some(JsonView::Int(game.game_id as int)),
        doc@.get("gameCreation"@) == Some(JsonView::Int(game.game_creation as int)),
        doc@.get("gameDuration"@) == Some(JsonView::Int(game.game_duration as int)),
        doc@.get("championId"@) == Some(JsonView::Int(p.champion_id as int)),
        doc@.get("raw"@) == Some(kept_stats(p)),
{
    law_match_base_fields(game@, p@);
    law_match_rich_fields(game@, p@);
}

/// Each number of the payload of a game is the statistic that the backend means
/// by it.
pub proof fn law_match_numbers(game: GameDetail, p: Participant, doc: Json)
    requires
        call_ensures(payload::build_match_payload, (&game, &p), doc),
    ensures
        doc@.get("kills"@) == Some(JsonView::Int(number_at(kept_stats(p), "kills"@))),
        doc@.get("deaths"@) == Some(JsonView::Int(number_at(kept_stats(p), "deaths"@))),
        doc@.get("assists"@) == Some(JsonView::Int(number_at(kept_stats(p), "assists"@))),
        doc@.get("doubleKills"@) == Some(JsonView::Int(number_at(kept_stats(p), "doubleKills"@))),
        doc@.get("tripleKills"@) == Some(JsonView::Int(number_at(kept_stats(p), "tripleKills"@))),
        doc@.get("quadraKills"@) == Some(JsonView::Int(number_at(kept_stats(p), "quadraKills"@))),
        doc@.get("pentaKills"@) == Some(JsonView::Int(number_at(kept_stats(p), "pentaKills"@))),
        doc@.get("damageDealt"@) == Some(JsonView::Int(number_at(kept_stats(p), "totalDamageDealtToChampions"@))),
        doc@.get("damageTaken"@) == Some(JsonView::Int(number_at(kept_stats(p), "totalDamageTaken"@))),
        doc@.get("gold"@) == Some(JsonView::Int(number_at(kept_stats(p), "goldEarned"@))),
        doc@.get("totalHeal"@) == Some(JsonView::Int(number_at(kept_stats(p), "totalHeal"@))),
        doc@.get("killingSpree"@) == Some(JsonView::Int(number_at(kept_stats(p), "largestKillingSpree"@))),
        doc@.get("damageSelfMitigated"@) == Some(JsonView::Int(number_at(kept_stats(p), "damageSelfMitigated"@))),
        doc@.get("totalDamageDealt"@) == Some(JsonView::Int(number_at(kept_stats(p), "totalDamageDealt"@))),
        doc@.get("totalDamageToChampions"@) == Some(JsonView::Int(number_at(kept_stats(p), "totalDamageDealtToChampions"@))),
        doc@.get("physicalDmgChamps"@) == Some(JsonView::Int(number_at(kept_stats(p), "physicalDamageDealtToChampions"@))),
        doc@.get("magicDmgChamps"@) == Some(JsonView::Int(number_at(kept_stats(p), "magicDamageDealtToChampions"@))),
        doc@.get("trueDmgChamps"@) == Some(JsonView::Int(number_at(kept_stats(p), "trueDamageDealtToChampions"@))),
        doc@.get("totalUnitsHealed"@) == Some(JsonView::Int(number_at(kept_stats(p), "totalUnitsHealed"@))),
        doc@.get("goldSpent"@) == Some(JsonView::Int(number_at(kept_stats(p), "goldSpent"@))),
        doc@.get("largestMultiKill"@) == Some(JsonView::Int(number_at(kept_stats(p), "largestMultiKill"@))),
        doc@.get("largestCriticalStrike"@) == Some(JsonView::Int(number_at(kept_stats(p), "largestCriticalStrike"@))),
        doc@.get("killingSprees"@) == Some(JsonView::Int(number_at(kept_stats(p), "killingSprees"@))),
        doc@.get("longestTimeLiving"@) == Some(JsonView::Int(number_at(kept_stats(p), "longestTimeSpentLiving"@))),
        doc@.get("timeCcing"@) == Some(JsonView::Int(number_at(kept_stats(p), "timeCCingOthers"@))),
        doc@.get("totalCcDealt"@) == Some(JsonView::Int(number_at(kept_stats(p), "totalTimeCrowdControlDealt"@))),
        doc@.get("visionScore"@) == Some(JsonView::Int(number_at(kept_stats(p), "visionScore"@))),
        doc@.get("totalMinions"@) == Some(JsonView::Int(number_at(kept_stats(p), "totalMinionsKilled"@))),
        doc@.get("neutralMinions"@) == Some(JsonView::Int(number_at(kept_stats(p), "neutralMinionsKilled"@))),
        doc@.get("champLevel"@) == Some(JsonView::Int(number_at(kept_stats(p), "champLevel"@))),
{
    law_match_base_fields(game@, p@);
    law_match_rich_fields(game@, p@);
    lemma_numbers(kept_stats(p));
}

/// A participant is reported with the participant's ids and the statistics just
/// as they came.
pub proof fn law_participant_identity(p: Participant, who: Option<&PlayerIdentity>, doc: Json)
    requires
        call_ensures(payload::build_participant, (&p, who), doc),
    ensures
        doc@.get("participantId"@) == Some(JsonView::Int(p.participant_id as int)),
        doc@.get("championId"@) == Some(JsonView::Int(p.champion_id as int)),
        doc@.get("raw"@) == Some(kept_stats(p)),
{
    law_participant_base_fields(p@, payload::opt_player(who));
    law_participant_rich_fields(p@, payload::opt_player(who));
}

/// A participant is reported under the names of the player: the unique id, the
/// tag line, and the game name or, where that is empty, the summoner name. Where
/// the player is not known all three are empty.
pub proof fn law_participant_names(p: Participant, who: Option<&PlayerIdentity>, doc: Json)
    requires
        call_ensures(payload::build_participant, (&p, who), doc),
    ensures
        who matches Some(player) ==> {
            &&& doc@.get("puuid"@) == Some(JsonView::Text(player.puuid@))
            &&& doc@.get("tagLine"@) == Some(JsonView::Text(player.tag_line@))
            &&& player.game_name@.len() > 0 ==> doc@.get("gameName"@) == Some(
                JsonView::Text(player.game_name@),
            )
            &&& player.game_name@.len() == 0 ==> doc@.get("gameName"@) == Some(
                JsonView::Text(player.summoner_name@),
            )
        },
        who is None ==> {
            let empty = Some(JsonView::Text(Seq::<char>::empty()));
            &&& doc@.get("puuid"@) == empty
            &&& doc@.get("tagLine"@) == empty
            &&& doc@.get("gameName"@) == empty
        },
{
    law_participant_base_fields(p@, payload::opt_player(who));
}

/// Each number that is reported of a participant is the statistic that the
/// backend means by it.
pub proof fn law_participant_numbers(p: Participant, who: Option<&PlayerIdentity>, doc: Json)
    requires
        call_ensures(payload::build_participant, (&p, who), doc),
    ensures
        doc@.get("kills"@) == Some(JsonView::Int(number_at(kept_stats(p), "kills"@))),
        doc@.get("deaths"@) == Some(JsonView::Int(number_at(kept_stats(p), "deaths"@))),
        doc@.get("assists"@) == Some(JsonView::Int(number_at(kept_stats(p), "assists"@))),
        doc@.get("totalDamageToChampions"@) == Some(JsonView::Int(number_at(kept_stats(p), "totalDamageDealtToChampions"@))),
        doc@.get("totalHeal"@) == Some(JsonView::Int(number_at(kept_stats(p), "totalHeal"@))),
        doc@.get("damageSelfMitigated"@) == Some(JsonView::Int(number_at(kept_stats(p), "damageSelfMitigated"@))),
        doc@.get("gold"@) == Some(JsonView::Int(number_at(kept_stats(p), "goldEarned"@))),
        doc@.get("doubleKills"@) == Some(JsonView::Int(number_at(kept_stats(p), "doubleKills"@))),
        doc@.get("tripleKills"@) == Some(JsonView::Int(number_at(kept_stats(p), "tripleKills"@))),
        doc@.get("quadraKills"@) == Some(JsonView::Int(number_at(kept_stats(p), "quadraKills"@))),
        doc@.get("pentaKills"@) == Some(JsonView::Int(number_at(kept_stats(p), "pentaKills"@))),
        doc@.get("damageDealt"@) == Some(JsonView::Int(number_at(kept_stats(p), "totalDamageDealtToChampions"@))),
        doc@.get("damageTaken"@) == Some(JsonView::Int(number_at(kept_stats(p), "totalDamageTaken"@))),
        doc@.get("totalDamageDealt"@) == Some(JsonView::Int(number_at(kept_stats(p), "totalDamageDealt"@))),
        doc@.get("physicalDmgChamps"@) == Some(JsonView::Int(number_at(kept_stats(p), "physicalDamageDealtToChampions"@))),
        doc@.get("magicDmgChamps"@) == Some(JsonView::Int(number_at(kept_stats(p), "magicDamageDealtToChampions"@))),
        doc@.get("trueDmgChamps"@) == Some(JsonView::Int(number_at(kept_stats(p), "trueDamageDealtToChampions"@))),
        doc@.get("totalUnitsHealed"@) == Some(JsonView::Int(number_at(kept_stats(p), "totalUnitsHealed"@))),
        doc@.get("goldSpent"@) == Some(JsonView::Int(number_at(kept_stats(p), "goldSpent"@))),
        doc@.get("largestMultiKill"@) == Some(JsonView::Int(number_at(kept_stats(p), "largestMultiKill"@))),
        doc@.get("largestCriticalStrike"@) == Some(JsonView::Int(number_at(kept_stats(p), "largestCriticalStrike"@))),
        doc@.get("killingSpree"@) == Some(JsonView::Int(number_at(kept_stats(p), "largestKillingSpree"@))),
        doc@.get("killingSprees"@) == Some(JsonView::Int(number_at(kept_stats(p), "killingSprees"@))),
        doc@.get("longestTimeLiving"@) == Some(JsonView::Int(number_at(kept_stats(p), "longestTimeSpentLiving"@))),
        doc@.get("timeCcing"@) == Some(JsonView::Int(number_at(kept_stats(p), "timeCCingOthers"@))),
        doc@.get("totalCcDealt"@) == Some(JsonView::Int(number_at(kept_stats(p), "totalTimeCrowdControlDealt"@))),
        doc@.get("visionScore"@) == Some(JsonView::Int(number_at(kept_stats(p), "visionScore"@))),
        doc@.get("totalMinions"@) == Some(JsonView::Int(number_at(kept_stats(p), "totalMinionsKilled"@))),
        doc@.get("neutralMinions"@) == Some(JsonView::Int(number_at(kept_stats(p), "neutralMinionsKilled"@))),
        doc@.get("champLevel"@) == Some(JsonView::Int(number_at(kept_stats(p), "champLevel"@))),
{
    law_participant_base_fields(p@, payload::opt_player(who));
    law_participant_rich_fields(p@, payload::opt_player(who));
    lemma_numbers(kept_stats(p));
}

/// The numbers under the keys of the seven item slots.
pub open spec fn seven_items(stats: JsonView) -> Seq<int> {
    seq![
        number_at(stats, "item0"@),
        number_at(stats, "item1"@),
        number_at(stats, "item2"@),
        number_at(stats, "item3"@),
        number_at(stats, "item4"@),
        number_at(stats, "item5"@),
        number_at(stats, "item6"@),
    ]
}

/// The numbers under the keys of the six augment slots.
pub open spec fn six_augments(stats: JsonView) -> Seq<int> {
    seq![
        number_at(stats, "playerAugment1"@),
        number_at(stats, "playerAugment2"@),
        number_at(stats, "playerAugment3"@),
        number_at(stats, "playerAugment4"@),
        number_at(stats, "playerAugment5"@),
        number_at(stats, "playerAugment6"@),
    ]
}

/// Whether a document is the list of these integers, in order.
pub open spec fn lists(doc: Option<JsonView>, numbers: Seq<int>) -> bool {
    match doc {
        Some(JsonView::List(items)) => {
            &&& items.len() == numbers.len()
            &&& forall|i: int|
                0 <= i < items.len() ==> #[trigger] items[i] == JsonView::Int(numbers[i])
        },
        _ => false,
    }
}

proof fn lemma_small_decimals()
    ensures
        text::decimal(0) == seq!['0'],
        text::decimal(1) == seq!['1'],
        text::decimal(2) == seq!['2'],
        text::decimal(3) == seq!['3'],
        text::decimal(4) == seq!['4'],
        text::decimal(5) == seq!['5'],
        text::decimal(6) == seq!['6'],
{
    assert(text::decimal(0) =~= seq!['0']);
    assert(text::decimal(1) =~= seq!['1']);
    assert(text::decimal(2) =~= seq!['2']);
    assert(text::decimal(3) =~= seq!['3']);
    assert(text::decimal(4) =~= seq!['4']);
    assert(text::decimal(5) =~= seq!['5']);
    assert(text::decimal(6) =~= seq!['6']);
}

proof fn lemma_item_slots(stats: JsonView)
    ensures
        payload::item_slots(stats).map_values(|n: i64| n as int) == seven_items(stats),
{
    lemma_small_decimals();
    reveal_strlit("item");
    reveal_strlit("item0");
    reveal_strlit("item1");
    reveal_strlit("item2");
    reveal_strlit("item3");
    reveal_strlit("item4");
    reveal_strlit("item5");
    reveal_strlit("item6");
    assert("item"@ + text::decimal(0) =~= "item0"@);
    assert("item"@ + text::decimal(1) =~= "item1"@);
    assert("item"@ + text::decimal(2) =~= "item2"@);
    assert("item"@ + text::decimal(3) =~= "item3"@);
    assert("item"@ + text::decimal(4) =~= "item4"@);
    assert("item"@ + text::decimal(5) =~= "item5"@);
    assert("item"@ + text::decimal(6) =~= "item6"@);
    assert(payload::item_slots(stats).map_values(|n: i64| n as int) =~= seven_items(stats));
}

proof fn lemma_augment_slots(stats: JsonView)
    ensures
        payload::augment_slots(stats).map_values(|n: i64| n as int) == six_augments(stats),
{
    lemma_small_decimals();
    reveal_strlit("playerAugment");
    reveal_strlit("playerAugment1");
    reveal_strlit("playerAugment2");
    reveal_strlit("playerAugment3");
    reveal_strlit("playerAugment4");
    reveal_strlit("playerAugment5");
    reveal_strlit("playerAugment6");
    assert("playerAugment"@ + text::decimal(1) =~= "playerAugment1"@);
    assert("playerAugment"@ + text::decimal(2) =~= "playerAugment2"@);
    assert("playerAugment"@ + text::decimal(3) =~= "playerAugment3"@);
    assert("playerAugment"@ + text::decimal(4) =~= "playerAugment4"@);
    assert("playerAugment"@ + text::decimal(5) =~= "playerAugment5"@);
    assert("playerAugment"@ + text::decimal(6) =~= "playerAugment6"@);
    assert(payload::augment_slots(stats).map_values(|n: i64| n as int) =~= six_augments(stats));
}

/// Dropping the zeros does not depend on how wide the numbers are.
proof fn lemma_zeros_dropped(numbers: Seq<i64>)
    ensures
        payload::non_zero(numbers).map_values(|n: i64| n as int) == numbers.map_values(
            |n: i64| n as int,
        ).filter(|n: int| n != 0),
    decreases numbers.len(),
{
    reveal(Seq::filter);
    let wide = numbers.map_values(|n: i64| n as int);
    if numbers.len() > 0 {
        lemma_zeros_dropped(numbers.drop_last());
        assert(wide.drop_last() =~= numbers.drop_last().map_values(|n: i64| n as int));
    }
    assert(payload::non_zero(numbers).map_values(|n: i64| n as int) =~= wide.filter(
        |n: int| n != 0,
    ));
}

/// The payload of a game lists all seven item slots, empty ones as 0, and the
/// augments that were picked, in the order of their slots.
pub proof fn law_match_items_and_augments(game: GameDetail, p: Participant, doc: Json)
    requires
        call_ensures(payload::build_match_payload, (&game, &p), doc),
    ensures
        lists(doc@.get("items"@), seven_items(kept_stats(p))),
        lists(doc@.get("augments"@), six_augments(kept_stats(p)).filter(|n: int| n != 0)),
{
    let stats = kept_stats(p);
    law_match_base_fields(game@, p@);
    lemma_item_slots(stats);
    lemma_augment_slots(stats);
    lemma_zeros_dropped(payload::augment_slots(stats));
    lemma_ints(payload::item_slots(stats));
    lemma_ints(payload::augments(stats));
}

proof fn lemma_ints(numbers: Seq<i64>)
    ensures
        lists(Some(payload::ints_view(numbers)), numbers.map_values(|n: i64| n as int)),
{
}

/// What is reported of a participant lists the items that were bought and the
/// augments that were picked, in the order of their slots and without empty
/// ones.
pub proof fn law_participant_items_and_augments(
    p: Participant,
    who: Option<&PlayerIdentity>,
    doc: Json,
)
    requires
        call_ensures(payload::build_participant, (&p, who), doc),
    ensures
        lists(doc@.get("items"@), seven_items(kept_stats(p)).filter(|n: int| n != 0)),
        lists(doc@.get("augments"@), six_augments(kept_stats(p)).filter(|n: int| n != 0)),
{
    let stats = kept_stats(p);
    law_participant_base_fields(p@, payload::opt_player(who));
    lemma_item_slots(stats);
    lemma_augment_slots(stats);
    lemma_zeros_dropped(payload::item_slots(stats));
    lemma_zeros_dropped(payload::augment_slots(stats));
    lemma_ints(payload::non_zero(payload::item_slots(stats)));
    lemma_ints(payload::augments(stats));
}

/// The payload of a game reports every participant in its place, just as it is
/// reported alone, under the player of the first identity that has the
/// participant's id; where no identity has it, or that one names nobody, under
/// no player.
pub proof fn law_team_is_reported_in_order(
    game: GameDetail,
    p: Participant,
    doc: Json,
    i: int,
    who: Option<&PlayerIdentity>,
    row: Json,
)
    requires
        call_ensures(payload::build_match_payload, (&game, &p), doc),
        0 <= i < game.participants@.len(),
        call_ensures(payload::build_participant, (&game.participants@[i], who), row),
        plays_as(game, game.participants@[i].participant_id, who),
    ensures
        doc@.get("participants"@) matches Some(JsonView::List(team)) && team.len()
            == game.participants@.len() && team[i] == row@,
{
    law_match_base_fields(game@, p@);
    let id = game.participants@[i].participant_id;
    let test = |k: IdentityView| k.participant_id == id;
    let all = game.participant_identities@;
    if exists|k: int| 0 <= k < all.len() && (#[trigger] all[k]).participant_id == id {
        let k = choose|k: int|
            0 <= k < all.len() && (#[trigger] all[k]).participant_id == id && (forall|j: int|
                0 <= j < k ==> (#[trigger] all[j]).participant_id != id) && all[k].player
                == owned(who);
        assert(game@.identities[k] == all[k]@);
        assert forall|j: int| 0 <= j < k implies !test(#[trigger] game@.identities[j]) by {
            assert(game@.identities[j] == all[j]@);
        }
        first::lemma_first_is(game@.identities, test, k);
    } else {
        assert forall|j: int| 0 <= j < game@.identities.len() implies !test(
            #[trigger] game@.identities[j],
        ) by {
            assert(game@.identities[j] == all[j]@);
        }
        first::lemma_first_none(game@.identities, test);
    }
    assert(payload::player_of(game@, id) == payload::opt_player(who));
    assert(game@.participants[i] == game.participants@[i]@);
}

/// A borrowed player as it is kept.
pub open spec fn owned(who: Option<&PlayerIdentity>) -> Option<PlayerIdentity> {
    match who {
        Some(player) => Some(*player),
        None => None,
    }
}

/// Whether this is the player of the first identity with a participant id, or
/// nobody where no identity has it.
pub open spec fn plays_as(game: GameDetail, id: i64, who: Option<&PlayerIdentity>) -> bool {
    let all = game.participant_identities@;
    if exists|k: int| 0 <= k < all.len() && (#[trigger] all[k]).participant_id == id {
        exists|k: int|
            0 <= k < all.len() && (#[trigger] all[k]).participant_id == id && (forall|j: int|
                0 <= j < k ==> (#[trigger] all[j]).participant_id != id) && all[k].player
                == owned(who)
    } else {
        who is None
    }
}

/// Whether identity `k` is the first that names the player with a unique id.
pub open spec fn first_names(game: GameDetail, puuid: Seq<char>, k: int) -> bool {
    let all = game.participant_identities@;
    &&& 0 <= k < all.len()
    &&& all[k].player matches Some(player) && player.puuid@ == puuid
    &&& forall|j: int|
        0 <= j < k ==> ((#[trigger] all[j]).player matches Some(player) ==> player.puuid@ != puuid)
}

/// Whether participant `i` is the first with a participant id.
pub open spec fn first_with_id(game: GameDetail, id: i64, i: int) -> bool {
    &&& 0 <= i < game.participants@.len()
    &&& game.participants@[i].participant_id == id
    &&& forall|j: int| 0 <= j < i ==> (#[trigger] game.participants@[j]).participant_id != id
}

/// The player's own participant is the one with the id of the first identity
/// that names the player, wherever it stands.
pub proof fn law_own_participant_is_the_named_one(
    game: GameDetail,
    puuid: &str,
    found: Option<&Participant>,
    k: int,
    i: int,
)
    requires
        call_ensures(payload::find_my_participant, (&game, puuid), found),
        first_names(game, puuid@, k),
        first_with_id(game, game.participant_identities@[k].participant_id, i),
    ensures
        found == Some(&game.participants@[i]),
{
    lemma_my_index(game, puuid@, k, i);
}

/// Where no identity names the player, or no participant has the id of the one
/// that does, the first participant stands in; a game without participants has
/// none.
pub proof fn law_first_participant_stands_in(
    game: GameDetail,
    puuid: &str,
    found: Option<&Participant>,
)
    requires
        call_ensures(payload::find_my_participant, (&game, puuid), found),
        forall|k: int, i: int|
            !(#[trigger] first_names(game, puuid@, k) && #[trigger] first_with_id(
                game,
                game.participant_identities@[k].participant_id,
                i,
            )),
    ensures
        game.participants@.len() > 0 ==> found == Some(&game.participants@[0]),
        game.participants@.len() == 0 ==> found is None,
{
    let test = |i: IdentityView| payload::names_player(i, puuid@);
    if let Some(identity) = first::first_item(game@.identities, test) {
        let k = choose|k: int| first::is_first(game@.identities, test, k);
        assert(first::is_first(game@.identities, test, k));
        lemma_first_names(game, puuid@, k);
        let mine = |p: ParticipantView| p.participant_id == identity.participant_id;
        if first::first_index(game@.participants, mine) is Some {
            let i = choose|i: int| first::is_first(game@.participants, mine, i);
            assert(first::is_first(game@.participants, mine, i));
            assert(game@.participants[i] == game.participants@[i]@);
            assert forall|j: int| 0 <= j < i implies (
            #[trigger] game.participants@[j]).participant_id
                != game.participant_identities@[k].participant_id by {
                assert(game@.participants[j] == game.participants@[j]@);
                assert(!mine(game@.participants[j]));
            }
            assert(first_with_id(game, game.participant_identities@[k].participant_id, i));
        }
    }
}

/// The first identity that names the player, in either form.
proof fn lemma_first_names(game: GameDetail, puuid: Seq<char>, k: int)
    ensures
        first_names(game, puuid, k) <==> first::is_first(
            game@.identities,
            |i: IdentityView| payload::names_player(i, puuid),
            k,
        ),
{
    let test = |i: IdentityView| payload::names_player(i, puuid);
    let all = game.participant_identities@;
    assert(forall|j: int| 0 <= j < all.len() ==> #[trigger] game@.identities[j] == all[j]@);
    if first_names(game, puuid, k) {
        assert forall|j: int| 0 <= j < k implies !test(#[trigger] game@.identities[j]) by {
            assert(game@.identities[j] == all[j]@);
        }
    }
    if first::is_first(game@.identities, test, k) {
        assert forall|j: int| 0 <= j < k implies ((
        #[trigger] all[j]).player matches Some(player) ==> player.puuid@ != puuid) by {
            assert(game@.identities[j] == all[j]@);
            assert(!test(game@.identities[j]));
        }
    }
}

/// Where the identities lead to a participant, that is the player's own.
pub proof fn lemma_my_index(game: GameDetail, puuid: Seq<char>, k: int, i: int)
    requires
        first_names(game, puuid, k),
        first_with_id(game, game.participant_identities@[k].participant_id, i),
    ensures
        payload::my_index(game@, puuid) == Some(i),
        game@.participants[i] == game.participants@[i]@,
{
    lemma_first_names(game, puuid, k);
    let test = |i: IdentityView| payload::names_player(i, puuid);
    first::lemma_first_is(game@.identities, test, k);
    let identity = game@.identities[k];
    assert(identity == game.participant_identities@[k]@);
    let mine = |p: ParticipantView| p.participant_id == identity.participant_id;
    assert(game@.participants[i] == game.participants@[i]@);
    assert forall|j: int| 0 <= j < i implies !mine(#[trigger] game@.participants[j]) by {
        assert(game@.participants[j] == game.participants@[j]@);
    }
    first::lemma_first_is(game@.participants, mine, i);
}

} // verus!
