//! The match payload: what the backend is told of a game.
use crate::first;
use crate::game::{
    GameDetail, GameView, IdentityView, Participant, ParticipantView, PlayerIdentity, PlayerView,
};
use crate::json::{self, put, Json, JsonView};
use crate::text::{self, join, same, unsigned_text};
use vstd::prelude::*;

verus! {

/// The integer under `key`, or 0 where there is none.
pub open spec fn stat(stats: JsonView, key: Seq<char>) -> i64 {
    match stats.get_i64(key) {
        Some(n) => n,
        None => 0,
    }
}

/// The integer under `key`, or 0 where there is none, as a JSON number.
pub open spec fn stat_view(stats: JsonView, key: Seq<char>) -> JsonView {
    JsonView::Int(stat(stats, key) as int)
}

/// The integer under `key`, or 0 where there is none.
pub fn opt_int(stats: &Json, key: &str) -> (n: i64)
    ensures
        n == stat(stats@, key@),
{
    match stats.get_i64(key) {
        Some(n) => n,
        None => 0,
    }
}

/// The statistics of a participant; without any, an empty object.
pub open spec fn stats_of(p: ParticipantView) -> JsonView {
    match p.stats {
        Some(stats) => stats,
        None => JsonView::Object(Map::empty()),
    }
}

/// Whether the statistics report a win: `true`, or the integer 1.
pub open spec fn won(stats: JsonView) -> bool {
    match stats.get("win"@) {
        Some(JsonView::Bool(b)) => b,
        Some(JsonView::Int(n)) => n == 1,
        _ => false,
    }
}

/// The seven item slots, from `item0` to `item6`.
pub open spec fn item_slots(stats: JsonView) -> Seq<i64> {
    Seq::new(7, |i: int| stat(stats, "item"@ + text::decimal(i)))
}

/// The six augment slots, from `playerAugment1` to `playerAugment6`.
pub open spec fn augment_slots(stats: JsonView) -> Seq<i64> {
    Seq::new(6, |i: int| stat(stats, "playerAugment"@ + text::decimal(i + 1)))
}

/// The numbers other than 0, in order.
pub open spec fn non_zero(numbers: Seq<i64>) -> Seq<i64> {
    numbers.filter(|n: i64| n != 0)
}

/// The augments that were picked.
pub open spec fn augments(stats: JsonView) -> Seq<i64> {
    non_zero(augment_slots(stats))
}

/// Numbers as a JSON list.
pub open spec fn ints_view(numbers: Seq<i64>) -> JsonView {
    JsonView::List(numbers.map_values(|n: i64| JsonView::Int(n as int)))
}

/// The player that took part under a participant id: the one of the first
/// identity with that id.
pub open spec fn player_of(game: GameView, participant_id: i64) -> Option<PlayerView> {
    match first::first_item(game.identities, |i: IdentityView| i.participant_id == participant_id) {
        Some(identity) => identity.player,
        None => None,
    }
}

/// The player's unique id; empty where the player is not known.
pub open spec fn player_puuid(who: Option<PlayerView>) -> Seq<char> {
    match who {
        Some(player) => player.puuid,
        None => Seq::empty(),
    }
}

/// The player's game name, or the summoner name where there is none.
pub open spec fn player_game_name(who: Option<PlayerView>) -> Seq<char> {
    match who {
        Some(player) => if player.game_name.len() > 0 {
            player.game_name
        } else {
            player.summoner_name
        },
        None => Seq::empty(),
    }
}

/// The player's tag line; empty where the player is not known.
pub open spec fn player_tag_line(who: Option<PlayerView>) -> Seq<char> {
    match who {
        Some(player) => player.tag_line,
        None => Seq::empty(),
    }
}

/// What the backend is told of one participant.
pub open spec fn participant_payload(p: ParticipantView, who: Option<PlayerView>) -> JsonView {
    let stats = stats_of(p);
    JsonView::Object(
        map![
            "participantId"@ => JsonView::Int(p.participant_id as int),
            "puuid"@ => JsonView::Text(player_puuid(who)),
            "gameName"@ => JsonView::Text(player_game_name(who)),
            "tagLine"@ => JsonView::Text(player_tag_line(who)),
            "championId"@ => JsonView::Int(p.champion_id as int),
            "win"@ => JsonView::Bool(won(stats)),
            "kills"@ => stat_view(stats, "kills"@),
            "deaths"@ => stat_view(stats, "deaths"@),
            "assists"@ => stat_view(stats, "assists"@),
            "totalDamageToChampions"@ => stat_view(stats, "totalDamageDealtToChampions"@),
            "totalHeal"@ => stat_view(stats, "totalHeal"@),
            "damageSelfMitigated"@ => stat_view(stats, "damageSelfMitigated"@),
            "gold"@ => stat_view(stats, "goldEarned"@),
            "augments"@ => ints_view(augments(stats)),
            "items"@ => ints_view(non_zero(item_slots(stats))),
            "doubleKills"@ => stat_view(stats, "doubleKills"@),
            "tripleKills"@ => stat_view(stats, "tripleKills"@),
            "quadraKills"@ => stat_view(stats, "quadraKills"@),
            "pentaKills"@ => stat_view(stats, "pentaKills"@),
            "damageDealt"@ => stat_view(stats, "totalDamageDealtToChampions"@),
            "damageTaken"@ => stat_view(stats, "totalDamageTaken"@),
            "totalDamageDealt"@ => stat_view(stats, "totalDamageDealt"@),
            "physicalDmgChamps"@ => stat_view(stats, "physicalDamageDealtToChampions"@),
            "magicDmgChamps"@ => stat_view(stats, "magicDamageDealtToChampions"@),
            "trueDmgChamps"@ => stat_view(stats, "trueDamageDealtToChampions"@),
            "totalUnitsHealed"@ => stat_view(stats, "totalUnitsHealed"@),
            "goldSpent"@ => stat_view(stats, "goldSpent"@),
            "largestMultiKill"@ => stat_view(stats, "largestMultiKill"@),
            "largestCriticalStrike"@ => stat_view(stats, "largestCriticalStrike"@),
            "killingSpree"@ => stat_view(stats, "largestKillingSpree"@),
            "killingSprees"@ => stat_view(stats, "killingSprees"@),
            "longestTimeLiving"@ => stat_view(stats, "longestTimeSpentLiving"@),
            "timeCcing"@ => stat_view(stats, "timeCCingOthers"@),
            "totalCcDealt"@ => stat_view(stats, "totalTimeCrowdControlDealt"@),
            "visionScore"@ => stat_view(stats, "visionScore"@),
            "totalMinions"@ => stat_view(stats, "totalMinionsKilled"@),
            "neutralMinions"@ => stat_view(stats, "neutralMinionsKilled"@),
            "champLevel"@ => stat_view(stats, "champLevel"@),
            "raw"@ => stats,
        ],
    )
}

/// What the backend is told of each participant of a game, in order.
pub open spec fn team_payload(game: GameView) -> Seq<JsonView> {
    game.participants.map_values(
        |p: ParticipantView| participant_payload(p, player_of(game, p.participant_id)),
    )
}

/// What the backend is told of a game, seen from one participant.
pub open spec fn match_payload(game: GameView, participant: ParticipantView) -> JsonView {
    let stats = stats_of(participant);
    JsonView::Object(
        map![
            "gameId"@ => JsonView::Int(game.game_id as int),
            "participants"@ => JsonView::List(team_payload(game)),
            "championId"@ => JsonView::Int(participant.champion_id as int),
            "win"@ => JsonView::Bool(won(stats)),
            "kills"@ => stat_view(stats, "kills"@),
            "deaths"@ => stat_view(stats, "deaths"@),
            "assists"@ => stat_view(stats, "assists"@),
            "doubleKills"@ => stat_view(stats, "doubleKills"@),
            "tripleKills"@ => stat_view(stats, "tripleKills"@),
            "quadraKills"@ => stat_view(stats, "quadraKills"@),
            "pentaKills"@ => stat_view(stats, "pentaKills"@),
            "damageDealt"@ => stat_view(stats, "totalDamageDealtToChampions"@),
            "damageTaken"@ => stat_view(stats, "totalDamageTaken"@),
            "gold"@ => stat_view(stats, "goldEarned"@),
            "totalHeal"@ => stat_view(stats, "totalHeal"@),
            "killingSpree"@ => stat_view(stats, "largestKillingSpree"@),
            "items"@ => ints_view(item_slots(stats)),
            "augments"@ => ints_view(augments(stats)),
            "gameCreation"@ => JsonView::Int(game.game_creation as int),
            "gameDuration"@ => JsonView::Int(game.game_duration as int),
            "damageSelfMitigated"@ => stat_view(stats, "damageSelfMitigated"@),
            "totalDamageDealt"@ => stat_view(stats, "totalDamageDealt"@),
            "totalDamageToChampions"@ => stat_view(stats, "totalDamageDealtToChampions"@),
            "physicalDmgChamps"@ => stat_view(stats, "physicalDamageDealtToChampions"@),
            "magicDmgChamps"@ => stat_view(stats, "magicDamageDealtToChampions"@),
            "trueDmgChamps"@ => stat_view(stats, "trueDamageDealtToChampions"@),
            "totalUnitsHealed"@ => stat_view(stats, "totalUnitsHealed"@),
            "goldSpent"@ => stat_view(stats, "goldSpent"@),
            "largestMultiKill"@ => stat_view(stats, "largestMultiKill"@),
            "largestCriticalStrike"@ => stat_view(stats, "largestCriticalStrike"@),
            "killingSprees"@ => stat_view(stats, "killingSprees"@),
            "longestTimeLiving"@ => stat_view(stats, "longestTimeSpentLiving"@),
            "timeCcing"@ => stat_view(stats, "timeCCingOthers"@),
            "totalCcDealt"@ => stat_view(stats, "totalTimeCrowdControlDealt"@),
            "visionScore"@ => stat_view(stats, "visionScore"@),
            "totalMinions"@ => stat_view(stats, "totalMinionsKilled"@),
            "neutralMinions"@ => stat_view(stats, "neutralMinionsKilled"@),
            "champLevel"@ => stat_view(stats, "champLevel"@),
            "raw"@ => stats,
        ],
    )
}

fn put_stat(members: &mut Vec<(String, Json)>, key: &str, stats: &Json, stat_key: &str)
    ensures
        json::object_view(final(members)@) == json::object_view(old(members)@).insert(
            key@,
            stat_view(stats@, stat_key@),
        ),
{
    put(members, key, Json::Int(opt_int(stats, stat_key)));
}

fn own_stats(p: &Participant) -> (stats: Json)
    ensures
        stats@ == stats_of(p@),
{
    match &p.stats {
        Some(stats) => stats.clone(),
        None => {
            proof {
                json::lemma_empty_views();
            }
            Json::Object(Vec::new())
        },
    }
}

fn read_win(stats: &Json) -> (win: bool)
    ensures
        win == won(stats@),
{
    match stats.get("win") {
        Some(Json::Bool(b)) => *b,
        Some(Json::Int(n)) => *n == 1,
        Some(Json::Big(n)) => *n == 1,
        _ => false,
    }
}

fn read_items(stats: &Json) -> (items: Vec<i64>)
    ensures
        items@ == item_slots(stats@),
{
    let mut items: Vec<i64> = Vec::new();
    let mut i: u64 = 0;
    while i < 7
        invariant
            i <= 7,
            items@ == item_slots(stats@).take(i as int),
        decreases 7 - i,
    {
        let key = join("item", unsigned_text(i).as_str());
        items.push(opt_int(stats, key.as_str()));
        assert(items@ =~= item_slots(stats@).take(i + 1));
        i = i + 1;
    }
    assert(item_slots(stats@).take(7) =~= item_slots(stats@));
    items
}

fn read_augment_slots(stats: &Json) -> (slots: Vec<i64>)
    ensures
        slots@ == augment_slots(stats@),
{
    let mut slots: Vec<i64> = Vec::new();
    let mut i: u64 = 1;
    while i <= 6
        invariant
            1 <= i <= 7,
            slots@ == augment_slots(stats@).take(i - 1),
        decreases 7 - i,
    {
        let key = join("playerAugment", unsigned_text(i).as_str());
        slots.push(opt_int(stats, key.as_str()));
        assert(slots@ =~= augment_slots(stats@).take(i as int));
        i = i + 1;
    }
    assert(augment_slots(stats@).take(6) =~= augment_slots(stats@));
    slots
}

fn drop_zeros(numbers: &Vec<i64>) -> (kept: Vec<i64>)
    ensures
        kept@ == non_zero(numbers@),
{
    let mut kept: Vec<i64> = Vec::new();
    let mut i: usize = 0;
    proof {
        reveal(Seq::filter);
    }
    while i < numbers.len()
        invariant
            i <= numbers.len(),
            kept@ == non_zero(numbers@.take(i as int)),
        decreases numbers.len() - i,
    {
        proof {
            reveal(Seq::filter);
            assert(numbers@.take(i + 1).drop_last() =~= numbers@.take(i as int));
        }
        if numbers[i] != 0 {
            kept.push(numbers[i]);
        }
        i = i + 1;
    }
    assert(numbers@.take(i as int) =~= numbers@);
    kept
}

fn int_list(numbers: &Vec<i64>) -> (list: Json)
    ensures
        list@ == ints_view(numbers@),
{
    let mut items: Vec<Json> = Vec::new();
    let mut i: usize = 0;
    while i < numbers.len()
        invariant
            i <= numbers.len(),
            items.len() == i,
            forall|j: int| 0 <= j < i ==> (#[trigger] items@[j])@ == JsonView::Int(numbers@[j] as int),
        decreases numbers.len() - i,
    {
        items.push(Json::Int(numbers[i]));
        i = i + 1;
    }
    proof {
        json::lemma_list_view(items@);
        assert(json::list_view(items@) =~= numbers@.map_values(|n: i64| JsonView::Int(n as int)));
    }
    Json::List(items)
}

/// The player, as a payload names it.
pub open spec fn opt_player(who: Option<&PlayerIdentity>) -> Option<PlayerView> {
    match who {
        Some(player) => Some(player@),
        None => None,
    }
}

/// Builds what the backend is told of one participant.
pub fn build_participant(p: &Participant, ident: Option<&PlayerIdentity>) -> (payload: Json)
    ensures
        payload@ == participant_payload(p@, opt_player(ident)),
{
    let stats = own_stats(p);
    let win = read_win(&stats);
    let items = drop_zeros(&read_items(&stats));
    let augments = drop_zeros(&read_augment_slots(&stats));
    let (puuid, game_name, tag_line) = match ident {
        Some(player) => (
            player.puuid.clone(),
            if !player.game_name.as_str().is_empty() {
                player.game_name.clone()
            } else {
                player.summoner_name.clone()
            },
            player.tag_line.clone(),
        ),
        None => (String::new(), String::new(), String::new()),
    };
    let mut m: Vec<(String, Json)> = Vec::new();
    proof {
        json::lemma_empty_views();
    }
    put(&mut m, "participantId", Json::Int(p.participant_id));
    put(&mut m, "puuid", Json::Text(puuid));
    put(&mut m, "gameName", Json::Text(game_name));
    put(&mut m, "tagLine", Json::Text(tag_line));
    put(&mut m, "championId", Json::Int(p.champion_id));
    put(&mut m, "win", Json::Bool(win));
    put_stat(&mut m, "kills", &stats, "kills");
    put_stat(&mut m, "deaths", &stats, "deaths");
    put_stat(&mut m, "assists", &stats, "assists");
    put_stat(&mut m, "totalDamageToChampions", &stats, "totalDamageDealtToChampions");
    put_stat(&mut m, "totalHeal", &stats, "totalHeal");
    put_stat(&mut m, "damageSelfMitigated", &stats, "damageSelfMitigated");
    put_stat(&mut m, "gold", &stats, "goldEarned");
    put(&mut m, "augments", int_list(&augments));
    put(&mut m, "items", int_list(&items));
    put_stat(&mut m, "doubleKills", &stats, "doubleKills");
    put_stat(&mut m, "tripleKills", &stats, "tripleKills");
    put_stat(&mut m, "quadraKills", &stats, "quadraKills");
    put_stat(&mut m, "pentaKills", &stats, "pentaKills");
    put_stat(&mut m, "damageDealt", &stats, "totalDamageDealtToChampions");
    put_stat(&mut m, "damageTaken", &stats, "totalDamageTaken");
    put_stat(&mut m, "totalDamageDealt", &stats, "totalDamageDealt");
    put_stat(&mut m, "physicalDmgChamps", &stats, "physicalDamageDealtToChampions");
    put_stat(&mut m, "magicDmgChamps", &stats, "magicDamageDealtToChampions");
    put_stat(&mut m, "trueDmgChamps", &stats, "trueDamageDealtToChampions");
    put_stat(&mut m, "totalUnitsHealed", &stats, "totalUnitsHealed");
    put_stat(&mut m, "goldSpent", &stats, "goldSpent");
    put_stat(&mut m, "largestMultiKill", &stats, "largestMultiKill");
    put_stat(&mut m, "largestCriticalStrike", &stats, "largestCriticalStrike");
    put_stat(&mut m, "killingSpree", &stats, "largestKillingSpree");
    put_stat(&mut m, "killingSprees", &stats, "killingSprees");
    put_stat(&mut m, "longestTimeLiving", &stats, "longestTimeSpentLiving");
    put_stat(&mut m, "timeCcing", &stats, "timeCCingOthers");
    put_stat(&mut m, "totalCcDealt", &stats, "totalTimeCrowdControlDealt");
    put_stat(&mut m, "visionScore", &stats, "visionScore");
    put_stat(&mut m, "totalMinions", &stats, "totalMinionsKilled");
    put_stat(&mut m, "neutralMinions", &stats, "neutralMinionsKilled");
    put_stat(&mut m, "champLevel", &stats, "champLevel");
    put(&mut m, "raw", stats);
    Json::Object(m)
}

fn find_player<'a>(game: &'a GameDetail, participant_id: i64) -> (who: Option<&'a PlayerIdentity>)
    ensures
        opt_player(who) == player_of(game@, participant_id),
{
    let ghost test = |i: IdentityView| i.participant_id == participant_id;
    let mut i: usize = 0;
    while i < game.participant_identities.len()
        invariant
            i <= game.participant_identities.len(),
            test == (|i: IdentityView| i.participant_id == participant_id),
            forall|j: int| 0 <= j < i ==> !test(#[trigger] game@.identities[j]),
        decreases game.participant_identities.len() - i,
    {
        let identity = &game.participant_identities[i];
        assert(game@.identities[i as int] == identity@);
        if identity.participant_id == participant_id {
            proof {
                first::lemma_first_is(game@.identities, test, i as int);
            }
            return match &identity.player {
                Some(player) => Some(player),
                None => None,
            };
        }
        i = i + 1;
    }
    proof {
        first::lemma_first_none(game@.identities, test);
    }
    None
}

/// Builds what the backend is told of a game, seen from one participant.
pub fn build_match_payload(game: &GameDetail, participant: &Participant) -> (payload: Json)
    ensures
        payload@ == match_payload(game@, participant@),
{
    let stats = own_stats(participant);
    let win = read_win(&stats);
    let items = read_items(&stats);
    let augments = drop_zeros(&read_augment_slots(&stats));
    let mut participants: Vec<Json> = Vec::new();
    let mut i: usize = 0;
    while i < game.participants.len()
        invariant
            i <= game.participants.len(),
            participants.len() == i,
            forall|j: int|
                0 <= j < i ==> (#[trigger] participants@[j])@ == team_payload(game@)[j],
        decreases game.participants.len() - i,
    {
        let p = &game.participants[i];
        let who = find_player(game, p.participant_id);
        participants.push(build_participant(p, who));
        i = i + 1;
    }
    proof {
        json::lemma_list_view(participants@);
        assert(json::list_view(participants@) =~= team_payload(game@));
        json::lemma_empty_views();
    }
    let mut m: Vec<(String, Json)> = Vec::new();
    put(&mut m, "gameId", Json::Int(game.game_id));
    put(&mut m, "participants", Json::List(participants));
    put(&mut m, "championId", Json::Int(participant.champion_id));
    put(&mut m, "win", Json::Bool(win));
    put_stat(&mut m, "kills", &stats, "kills");
    put_stat(&mut m, "deaths", &stats, "deaths");
    put_stat(&mut m, "assists", &stats, "assists");
    put_stat(&mut m, "doubleKills", &stats, "doubleKills");
    put_stat(&mut m, "tripleKills", &stats, "tripleKills");
    put_stat(&mut m, "quadraKills", &stats, "quadraKills");
    put_stat(&mut m, "pentaKills", &stats, "pentaKills");
    put_stat(&mut m, "damageDealt", &stats, "totalDamageDealtToChampions");
    put_stat(&mut m, "damageTaken", &stats, "totalDamageTaken");
    put_stat(&mut m, "gold", &stats, "goldEarned");
    put_stat(&mut m, "totalHeal", &stats, "totalHeal");
    put_stat(&mut m, "killingSpree", &stats, "largestKillingSpree");
    put(&mut m, "items", int_list(&items));
    put(&mut m, "augments", int_list(&augments));
    put(&mut m, "gameCreation", Json::Int(game.game_creation));
    put(&mut m, "gameDuration", Json::Int(game.game_duration));
    put_stat(&mut m, "damageSelfMitigated", &stats, "damageSelfMitigated");
    put_stat(&mut m, "totalDamageDealt", &stats, "totalDamageDealt");
    put_stat(&mut m, "totalDamageToChampions", &stats, "totalDamageDealtToChampions");
    put_stat(&mut m, "physicalDmgChamps", &stats, "physicalDamageDealtToChampions");
    put_stat(&mut m, "magicDmgChamps", &stats, "magicDamageDealtToChampions");
    put_stat(&mut m, "trueDmgChamps", &stats, "trueDamageDealtToChampions");
    put_stat(&mut m, "totalUnitsHealed", &stats, "totalUnitsHealed");
    put_stat(&mut m, "goldSpent", &stats, "goldSpent");
    put_stat(&mut m, "largestMultiKill", &stats, "largestMultiKill");
    put_stat(&mut m, "largestCriticalStrike", &stats, "largestCriticalStrike");
    put_stat(&mut m, "killingSprees", &stats, "killingSprees");
    put_stat(&mut m, "longestTimeLiving", &stats, "longestTimeSpentLiving");
    put_stat(&mut m, "timeCcing", &stats, "timeCCingOthers");
    put_stat(&mut m, "totalCcDealt", &stats, "totalTimeCrowdControlDealt");
    put_stat(&mut m, "visionScore", &stats, "visionScore");
    put_stat(&mut m, "totalMinions", &stats, "totalMinionsKilled");
    put_stat(&mut m, "neutralMinions", &stats, "neutralMinionsKilled");
    put_stat(&mut m, "champLevel", &stats, "champLevel");
    put(&mut m, "raw", stats);
    Json::Object(m)
}

/// The place of the first participant, which stands in where nobody matches.
pub open spec fn fallback_index(game: GameView) -> Option<int> {
    if game.participants.len() > 0 {
        Some(0)
    } else {
        None
    }
}

/// Whether an identity names the player with the unique id `puuid`.
pub open spec fn names_player(identity: IdentityView, puuid: Seq<char>) -> bool {
    match identity.player {
        Some(player) => player.puuid == puuid,
        None => false,
    }
}

/// The place of the player's own participant: the first one with the id that
/// the first identity naming the player gives, else the first of all.
pub open spec fn my_index(game: GameView, puuid: Seq<char>) -> Option<int> {
    match first::first_item(game.identities, |i: IdentityView| names_player(i, puuid)) {
        Some(identity) => match first::first_index(
            game.participants,
            |p: ParticipantView| p.participant_id == identity.participant_id,
        ) {
            Some(i) => Some(i),
            None => fallback_index(game),
        },
        None => fallback_index(game),
    }
}

fn find_own_id(game: &GameDetail, my_puuid: &str) -> (id: Option<i64>)
    ensures
        match first::first_item(game@.identities, |i: IdentityView| names_player(i, my_puuid@)) {
            Some(identity) => id == Some(identity.participant_id),
            None => id is None,
        },
{
    let ghost test = |i: IdentityView| names_player(i, my_puuid@);
    let mut i: usize = 0;
    while i < game.participant_identities.len()
        invariant
            i <= game.participant_identities.len(),
            test == (|i: IdentityView| names_player(i, my_puuid@)),
            forall|j: int| 0 <= j < i ==> !test(#[trigger] game@.identities[j]),
        decreases game.participant_identities.len() - i,
    {
        let identity = &game.participant_identities[i];
        assert(game@.identities[i as int] == identity@);
        let named = match &identity.player {
            Some(player) => same(player.puuid.as_str(), my_puuid),
            None => false,
        };
        if named {
            proof {
                first::lemma_first_is(game@.identities, test, i as int);
            }
            return Some(identity.participant_id);
        }
        i = i + 1;
    }
    proof {
        first::lemma_first_none(game@.identities, test);
    }
    None
}

/// Finds the participant of the player with the unique id `my_puuid`; where
/// the identities do not lead to one, the first participant.
pub fn find_my_participant<'a>(game: &'a GameDetail, my_puuid: &str) -> (found: Option<
    &'a Participant,
>)
    ensures
        match my_index(game@, my_puuid@) {
            Some(i) => 0 <= i < game.participants@.len() && found == Some(&game.participants@[i]),
            None => found is None,
        },
{
    if let Some(id) = find_own_id(game, my_puuid) {
        let ghost test = |p: ParticipantView| p.participant_id == id;
        let mut i: usize = 0;
        while i < game.participants.len()
            invariant
                i <= game.participants.len(),
                test == (|p: ParticipantView| p.participant_id == id),
                forall|j: int| 0 <= j < i ==> !test(#[trigger] game@.participants[j]),
                match first::first_item(
                    game@.identities,
                    |i: IdentityView| names_player(i, my_puuid@),
                ) {
                    Some(identity) => id == identity.participant_id,
                    None => false,
                },
            decreases game.participants.len() - i,
        {
            assert(game@.participants[i as int] == game.participants@[i as int]@);
            if game.participants[i].participant_id == id {
                proof {
                    first::lemma_first_is(game@.participants, test, i as int);
                }
                return Some(&game.participants[i]);
            }
            i = i + 1;
        }
        proof {
            first::lemma_first_none(game@.participants, test);
        }
    }
    if game.participants.len() > 0 {
        Some(&game.participants[0])
    } else {
        None
    }
}

} // verus!
