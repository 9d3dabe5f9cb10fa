//! Simulator drivers: the interface a client talks to, and a scripted mock simulator
//! that plays a short run (map, one fight, a reward, a rest site, a shop, the boss)
//! without the game files.
use crate::protocol::{
    action_model, ArgValueModel, bare_state, plain, player_model, CardInfo, CardInfoModel, CardStats, Command, CommandModel, EnemyInfo,
    EnemyInfoModel, EnemyIntent, EnemyIntentModel, GameContext, GameContextModel, GameState,
    GameStateModel, LocalizedString, MapChoice, MapChoiceModel, OstyState, PlayerState, PlayerStateModel,
};
use vstd::prelude::*;

verus! {

/// Why a driver could not answer a command.
#[derive(Debug)]
pub struct DriverError {
    pub message: String,
}

/// Something that answers simulator commands with game states.
pub trait SimulatorDriver {
    /// Sends `cmd` and returns the simulator's answer.
    fn send(&mut self, cmd: &Command) -> Result<GameState, DriverError>;

    /// Shuts the simulator down.
    fn close(&mut self) -> Result<(), DriverError>;
}

/// What a (trimmed) line of the simulator's output is to a driver waiting for an answer.
#[derive(Debug, Clone, Copy, PartialEq, Eq, Structural)]
pub enum ReplyLine {
    /// An empty line, skipped.
    Blank,
    /// A line starting with `{`: the answer, as a JSON document.
    Document,
    /// Any other line (log output of the simulator), skipped.
    Noise,
}

/// What a trimmed output line of the simulator is: empty, a JSON document (it starts
/// with `{`), or other output.
pub fn classify_reply_line(trimmed: &str) -> (r: ReplyLine)
    ensures
        r == (if trimmed@.len() == 0 {
            ReplyLine::Blank
        } else if trimmed@[0] == '{' {
            ReplyLine::Document
        } else {
            ReplyLine::Noise
        }),
{
    if trimmed.unicode_len() == 0 {
        ReplyLine::Blank
    } else if trimmed.get_char(0) == '{' {
        ReplyLine::Document
    } else {
        ReplyLine::Noise
    }
}

/// A place where the live driver looks for the simulator's project root.
#[derive(Debug, Clone, Copy, PartialEq, Eq, Structural)]
pub enum RootCandidate {
    /// The directory named by the `STS2_ROOT` environment variable.
    Environment,
    /// The root the caller passed.
    Given,
    /// A directory relative to the working directory.
    Relative(RelativeRoot),
}

/// The directories, relative to the working directory, where the project root is looked
/// for last.
#[derive(Debug, Clone, Copy, PartialEq, Eq, Structural)]
pub enum RelativeRoot {
    /// `.`
    Current,
    /// `..`
    Parent,
    /// `../sts2-cli`
    SiblingCheckout,
}

/// The order in which the project root is looked for: the environment's root when it is
/// set, then the given root, then the working directory, its parent, and a sibling
/// `sts2-cli` checkout.  The first candidate that holds the project wins.
pub open spec fn root_search_order_spec(environment_set: bool) -> Seq<RootCandidate> {
    let rest = seq![
        RootCandidate::Given,
        RootCandidate::Relative(RelativeRoot::Current),
        RootCandidate::Relative(RelativeRoot::Parent),
        RootCandidate::Relative(RelativeRoot::SiblingCheckout),
    ];
    if environment_set {
        seq![RootCandidate::Environment] + rest
    } else {
        rest
    }
}

/// The environment's root is looked at first, and only when it is set; the given root
/// comes next; the working directory, its parent and the sibling checkout come last, in
/// that order; no place is looked at twice.
pub proof fn root_search_prefers_environment_then_given(environment_set: bool)
    ensures
        ({
            let o = root_search_order_spec(environment_set);
            let g = if environment_set { 1int } else { 0int };
            &&& o.len() == g + 4
            &&& (o[0] == RootCandidate::Environment) == environment_set
            &&& o[g] == RootCandidate::Given
            &&& o[g + 1] == RootCandidate::Relative(RelativeRoot::Current)
            &&& o[g + 2] == RootCandidate::Relative(RelativeRoot::Parent)
            &&& o[g + 3] == RootCandidate::Relative(RelativeRoot::SiblingCheckout)
            &&& forall|i: int, j: int| 0 <= i < j < o.len() ==> o[i] != o[j]
        }),
{
}

/// The path of a relative candidate root.
pub open spec fn relative_root_path(r: RelativeRoot) -> Seq<char> {
    match r {
        RelativeRoot::Current => "."@,
        RelativeRoot::Parent => ".."@,
        RelativeRoot::SiblingCheckout => "../sts2-cli"@,
    }
}

/// The places where the project root is looked for, in order: see
/// [`root_search_order_spec`].
pub fn root_search_order(environment_set: bool) -> (r: Vec<RootCandidate>)
    ensures
        r@ == root_search_order_spec(environment_set),
{
    let mut order: Vec<RootCandidate> = Vec::new();
    if environment_set {
        order.push(RootCandidate::Environment);
    }
    order.push(RootCandidate::Given);
    order.push(RootCandidate::Relative(RelativeRoot::Current));
    order.push(RootCandidate::Relative(RelativeRoot::Parent));
    order.push(RootCandidate::Relative(RelativeRoot::SiblingCheckout));
    assert(order@ =~= root_search_order_spec(environment_set));
    order
}

impl RelativeRoot {
    /// The path of this candidate, relative to the working directory.
    pub fn path(&self) -> (r: &'static str)
        ensures
            r@ == relative_root_path(*self),
    {
        match self {
            RelativeRoot::Current => ".",
            RelativeRoot::Parent => "..",
            RelativeRoot::SiblingCheckout => "../sts2-cli",
        }
    }
}

// ---------------------------------------------------------------------------
// Model of the mock simulator
// ---------------------------------------------------------------------------

/// Model of a [`MockDriver`].
pub struct MockModel {
    pub floor: i32,
    pub player_hp: i32,
    pub player_max_hp: i32,
    pub player_gold: i32,
    pub enemy_hp: i32,
    pub combat_round: i32,
    pub osty_hp: i32,
    pub current_phase: Seq<char>,
}

/// The state of a fresh mock simulator.
pub open spec fn mock_start() -> MockModel {
    MockModel {
        floor: 1,
        player_hp: 75,
        player_max_hp: 75,
        player_gold: 99,
        enemy_hp: 42,
        combat_round: 1,
        osty_hp: 5,
        current_phase: "ready"@,
    }
}

/// Damage dealt to the enemy by each `play_card`.
pub open spec fn card_damage() -> int {
    18
}

/// Gold won by defeating the enemy.
pub open spec fn kill_reward() -> int {
    25
}

/// A decision message for `decision` with nothing else set.
pub open spec fn decision_model(decision: Seq<char>) -> GameStateModel {
    GameStateModel { decision: Some(decision), ..bare_state("decision"@) }
}

/// A card with no keywords and no stock flag.
pub open spec fn card_model(
    index: usize,
    name: Seq<char>,
    cost: i32,
    card_type: Seq<char>,
    can_play: bool,
    target_type: Option<Seq<char>>,
    stats: Option<CardStats>,
) -> CardInfoModel {
    CardInfoModel {
        index,
        name: plain(name),
        cost,
        card_type,
        can_play,
        target_type,
        stats,
        keywords: None,
        is_stocked: None,
    }
}

/// The Cultist with `hp` hit points, announcing a 6-damage attack.
pub open spec fn cultist_model(hp: i32) -> EnemyInfoModel {
    EnemyInfoModel {
        index: 0,
        name: plain("Cultist"@),
        hp,
        max_hp: 48,
        block: 0,
        intents: Some(seq![EnemyIntentModel { intent_type: "Attack"@, damage: Some(6), hits: Some(1) }]),
        intends_attack: Some(true),
    }
}

/// Osty with `hp` hit points.
pub open spec fn osty_model(hp: i32) -> OstyState {
    OstyState { hp, max_hp: 10, block: 0, alive: true }
}

/// Act 1 at `floor`, in a room of type `room`.
pub open spec fn context_model(floor: i32, room: Seq<char>) -> GameContextModel {
    GameContextModel { act: 1, floor, room_type: Some(room), boss: None }
}

/// The player as the mock reports it.
pub open spec fn mock_player(m: MockModel, energy: i32, block: i32, deck_size: usize) -> PlayerStateModel {
    player_model(m.player_hp, m.player_max_hp, m.player_gold, energy, block, deck_size)
}

/// The answer to `start_run`, given the state after it.
pub open spec fn map_select_reply(m: MockModel) -> GameStateModel {
    GameStateModel {
        context: Some(context_model(m.floor, "Map"@)),
        player: Some(mock_player(m, 3, 0, 10)),
        choices: Some(
            seq![
                MapChoiceModel { col: 0, row: 1, room_type: "Monster"@ },
                MapChoiceModel { col: 1, row: 1, room_type: "Treasure"@ },
            ],
        ),
        ..decision_model("map_select"@)
    }
}

/// The opening hand of the fight.
pub open spec fn opening_hand() -> Seq<CardInfoModel> {
    seq![
        card_model(0, "Flatten"@, 1, "Attack"@, true, Some("AnyEnemy"@), Some(CardStats { damage: Some(18), block: None, magic: None })),
        card_model(1, "Bodyguard"@, 1, "Skill"@, true, Some("Self"@), None),
        card_model(2, "Defend"@, 1, "Skill"@, true, Some("Self"@), None),
    ]
}

/// The answer to `select_map_node`, given the state after it.
pub open spec fn combat_start_reply(m: MockModel) -> GameStateModel {
    GameStateModel {
        round: Some(m.combat_round),
        energy: Some(3),
        player: Some(mock_player(m, 3, 0, 10)),
        osty: Some(osty_model(m.osty_hp)),
        enemies: Some(seq![cultist_model(m.enemy_hp)]),
        hand: Some(opening_hand()),
        ..decision_model("combat_play"@)
    }
}

/// The answer to a `play_card` that leaves the enemy standing, given the state after it.
pub open spec fn combat_continue_reply(m: MockModel) -> GameStateModel {
    GameStateModel {
        round: Some(m.combat_round),
        energy: Some(2),
        player: Some(mock_player(m, 2, 5, 10)),
        osty: Some(osty_model(m.osty_hp)),
        enemies: Some(seq![cultist_model(m.enemy_hp)]),
        hand: Some(seq![card_model(1, "Bodyguard"@, 1, "Skill"@, true, Some("Self"@), None)]),
        ..decision_model("combat_play"@)
    }
}

/// The answer to the `play_card` that defeats the enemy, given the state after it.
pub open spec fn card_reward_reply(m: MockModel) -> GameStateModel {
    GameStateModel {
        player: Some(mock_player(m, 0, 0, 10)),
        cards: Some(
            seq![
                card_model(0, "Calcify"@, 0, "Power"@, false, None, None),
                card_model(1, "Strike"@, 0, "Attack"@, false, None, None),
            ],
        ),
        ..decision_model("card_reward"@)
    }
}

/// The end of the run at the boss, given the state after the step and the deck size.
pub open spec fn victory_reply(m: MockModel, deck_size: usize) -> GameStateModel {
    GameStateModel {
        victory: Some(true),
        player: Some(mock_player(m, 0, 0, deck_size)),
        context: Some(context_model(m.floor, "Boss"@)),
        ..decision_model("game_over"@)
    }
}

/// The rest site reached after a reward, given the state after the step.
pub open spec fn rest_site_reply(m: MockModel) -> GameStateModel {
    GameStateModel {
        player: Some(mock_player(m, 0, 0, 11)),
        context: Some(context_model(m.floor, "RestSite"@)),
        ..decision_model("rest_site"@)
    }
}

/// The shop reached from the rest site, given the state after the step.
pub open spec fn shop_reply(m: MockModel) -> GameStateModel {
    GameStateModel {
        player: Some(mock_player(m, 0, 0, 11)),
        card_removal_cost: Some(75),
        cards: Some(
            seq![CardInfoModel { is_stocked: Some(true), ..card_model(0, "Unleash"@, 50, Seq::empty(), false, None, None) }],
        ),
        ..decision_model("shop"@)
    }
}

/// `m` on the next floor, in phase `phase`.
pub open spec fn next_floor(m: MockModel, phase: Seq<char>) -> MockModel {
    MockModel { floor: (m.floor + 1) as i32, current_phase: phase, ..m }
}

/// Whether the mock can take `c` without a counter leaving the `i32` range.
pub open spec fn mock_accepts(m: MockModel, c: CommandModel) -> bool {
    match c {
        CommandModel::Action { action, .. } => {
            if action == "play_card"@ {
                &&& m.enemy_hp - card_damage() >= i32::MIN
                &&& m.enemy_hp - card_damage() <= 0 ==> m.player_gold + kill_reward() <= i32::MAX
            } else if action == "select_card_reward"@ || action == "skip_card_reward"@ || action
                == "choose_option"@ || action == "buy_card"@ || action == "remove_card"@ || action
                == "leave_room"@ {
                m.floor + 1 <= i32::MAX
            } else {
                true
            }
        },
        _ => true,
    }
}

/// The mock's next state and answer for command `c` in state `m`.
pub open spec fn mock_step(m: MockModel, c: CommandModel) -> (MockModel, GameStateModel) {
    match c {
        CommandModel::StartRun { .. } => {
            let n = MockModel { current_phase: "map_select"@, floor: 1, ..m };
            (n, map_select_reply(n))
        },
        CommandModel::Action { action, .. } => {
            if action == "select_map_node"@ {
                let n = MockModel { current_phase: "combat_play"@, combat_round: 1, enemy_hp: 42, ..m };
                (n, combat_start_reply(n))
            } else if action == "play_card"@ {
                let hp = (m.enemy_hp - card_damage()) as i32;
                if hp <= 0 {
                    let n = MockModel {
                        enemy_hp: hp,
                        current_phase: "card_reward"@,
                        player_gold: (m.player_gold + kill_reward()) as i32,
                        ..m
                    };
                    (n, card_reward_reply(n))
                } else {
                    let n = MockModel { enemy_hp: hp, ..m };
                    (n, combat_continue_reply(n))
                }
            } else if action == "select_card_reward"@ || action == "skip_card_reward"@ {
                if m.floor + 1 >= 4 {
                    let n = next_floor(m, "game_over"@);
                    (n, victory_reply(n, 11))
                } else {
                    let n = next_floor(m, "rest_site"@);
                    (n, rest_site_reply(n))
                }
            } else if action == "choose_option"@ {
                let n = next_floor(m, "shop"@);
                (n, shop_reply(n))
            } else if action == "buy_card"@ || action == "remove_card"@ || action == "leave_room"@ {
                let n = next_floor(m, "game_over"@);
                (n, victory_reply(n, 12))
            } else {
                (m, decision_model("map_select"@))
            }
        },
        CommandModel::Quit { .. } => (m, bare_state("quit_result"@)),
        _ => (m, GameStateModel { version: Some("0.2.0"@), ..bare_state("ready"@) }),
    }
}


// ---------------------------------------------------------------------------
// Laws of the mock simulator
// ---------------------------------------------------------------------------

/// The mock never changes the player's hit points, maximum hit points, or Osty's
/// hit points.
pub proof fn mock_keeps_hit_points(m: MockModel, c: CommandModel)
    ensures
        mock_step(m, c).0.player_hp == m.player_hp,
        mock_step(m, c).0.player_max_hp == m.player_max_hp,
        mock_step(m, c).0.osty_hp == m.osty_hp,
{
}

/// The player's gold never decreases; it grows by the kill reward exactly when a card
/// defeats the enemy.
pub proof fn mock_gold_only_grows(m: MockModel, c: CommandModel)
    requires
        mock_accepts(m, c),
    ensures
        mock_step(m, c).0.player_gold == m.player_gold || mock_step(m, c).0.player_gold == m.player_gold
            + kill_reward(),
        mock_step(m, c).0.player_gold >= m.player_gold,
{
}

/// Outside a new run (which goes back to floor 1), the floor never goes down, and it
/// goes up by at most one per command.
pub proof fn mock_floor_moves_forward(m: MockModel, c: CommandModel)
    requires
        mock_accepts(m, c),
    ensures
        c is StartRun ==> mock_step(m, c).0.floor == 1,
        !(c is StartRun) ==> m.floor <= mock_step(m, c).0.floor <= m.floor + 1,
{
}

/// Whenever the mock moves to another phase, its answer announces the new phase as the
/// pending decision.
pub proof fn mock_announces_new_phase(m: MockModel, c: CommandModel)
    ensures
        mock_step(m, c).0.current_phase != m.current_phase ==> mock_step(m, c).1.decision == Some(
            mock_step(m, c).0.current_phase,
        ),
{
}

/// Every answer of the mock reports the player with the mock's own numbers.
pub proof fn mock_reports_its_player(m: MockModel, c: CommandModel)
    ensures
        mock_step(m, c).1.player matches Some(p) ==> p.hp == mock_step(m, c).0.player_hp && p.max_hp
            == mock_step(m, c).0.player_max_hp && p.gold == mock_step(m, c).0.player_gold,
{
}

/// Whether `g` is the mock's announcement that the run was won at the boss on `floor`,
/// with a deck of `deck_size` cards.
pub open spec fn announces_victory(g: GameStateModel, floor: int, deck_size: usize) -> bool {
    &&& g.decision == Some("game_over"@)
    &&& g.victory == Some(true)
    &&& g.context matches Some(ctx) && ctx.floor == floor && ctx.room_type == Some("Boss"@)
    &&& g.player matches Some(p) && p.deck_size == deck_size
}

/// How the mock moves between rooms, in any state: leaving the shop (buying a card,
/// removing one or just leaving) ends the run one floor up, at the boss, with a win;
/// taking or skipping a card reward goes one floor up, to the rest site, or ends the run
/// when that floor is the fourth or later; choosing a rest-site option goes one floor up,
/// to the shop; travelling on the map starts a fight on the same floor.
pub proof fn mock_room_exits(m: MockModel, args: Option<Seq<(Seq<char>, ArgValueModel)>>)
    requires
        m.floor < i32::MAX,
    ensures
        forall|name: Seq<char>|
            name == "buy_card"@ || name == "remove_card"@ || name == "leave_room"@ ==> {
                let (n, g) = #[trigger] mock_step(m, action_model(name, args));
                &&& n.floor == m.floor + 1
                &&& n.current_phase == "game_over"@
                &&& announces_victory(g, m.floor + 1, 12)
            },
        forall|name: Seq<char>|
            name == "select_card_reward"@ || name == "skip_card_reward"@ ==> {
                let (n, g) = #[trigger] mock_step(m, action_model(name, args));
                &&& n.floor == m.floor + 1
                &&& m.floor + 1 >= 4 ==> n.current_phase == "game_over"@ && announces_victory(g, m.floor + 1, 11)
                &&& m.floor + 1 < 4 ==> n.current_phase == "rest_site"@ && g.decision == Some("rest_site"@)
            },
        ({
            let (n, g) = mock_step(m, action_model("choose_option"@, args));
            n.floor == m.floor + 1 && n.current_phase == "shop"@ && g.decision == Some("shop"@)
        }),
        ({
            let (n, g) = mock_step(m, action_model("select_map_node"@, args));
            n.floor == m.floor && n.current_phase == "combat_play"@ && g.decision == Some("combat_play"@)
        }),
{
    reveal_strlit("select_map_node");
    reveal_strlit("play_card");
    reveal_strlit("select_card_reward");
    reveal_strlit("skip_card_reward");
    reveal_strlit("choose_option");
    reveal_strlit("buy_card");
    reveal_strlit("remove_card");
    reveal_strlit("leave_room");
    assert("buy_card"@[0] != "select_map_node"@[0] && "buy_card"@[0] != "play_card"@[0]);
    assert("buy_card"@[0] != "choose_option"@[0] && "buy_card"@[0] != "skip_card_reward"@[0]);
    assert("remove_card"@[0] != "select_map_node"@[0] && "remove_card"@[0] != "play_card"@[0]);
    assert("remove_card"@[0] != "choose_option"@[0] && "remove_card"@[0] != "skip_card_reward"@[0]);
    assert("leave_room"@[0] != "select_map_node"@[0] && "leave_room"@[0] != "play_card"@[0]);
    assert("leave_room"@[0] != "choose_option"@[0] && "leave_room"@[0] != "skip_card_reward"@[0]);
    assert("buy_card"@.len() != "select_card_reward"@.len());
    assert("remove_card"@[0] != "select_card_reward"@[0]);
    assert("leave_room"@.len() != "select_card_reward"@.len());
    assert("select_card_reward"@.len() != "select_map_node"@.len());
    assert("select_card_reward"@[0] != "play_card"@[0]);
    assert("skip_card_reward"@[1] != "select_map_node"@[1] && "skip_card_reward"@[0] != "play_card"@[0]);
}

/// How the mock starts a run and fights, in any state: a new run puts it on the map of
/// floor 1; each card played takes 18 hit points off the enemy, and the card that brings
/// them to zero or below wins the fight, 25 gold and a card reward, while any other card
/// leaves the fight going; an action it does not know changes nothing and asks for the
/// map.
pub proof fn mock_runs_and_fights(m: MockModel, args: Option<Seq<(Seq<char>, ArgValueModel)>>, c: CommandModel)
    requires
        m.enemy_hp - 18 >= i32::MIN,
        m.enemy_hp <= 18 ==> m.player_gold + 25 <= i32::MAX,
    ensures
        c is StartRun ==> {
            let (n, g) = mock_step(m, c);
            &&& n.floor == 1 && n.current_phase == "map_select"@
            &&& g.decision == Some("map_select"@)
        },
        ({
            let (n, g) = mock_step(m, action_model("play_card"@, args));
            &&& n.enemy_hp == m.enemy_hp - 18
            &&& n.floor == m.floor
            &&& m.enemy_hp <= 18 ==> n.current_phase == "card_reward"@ && n.player_gold == m.player_gold + 25
                && g.decision == Some("card_reward"@)
            &&& m.enemy_hp > 18 ==> n.current_phase == m.current_phase && n.player_gold == m.player_gold
                && g.decision == Some("combat_play"@) && (g.enemies matches Some(es) && es.len() == 1
                && es[0].hp == m.enemy_hp - 18)
        }),
        forall|name: Seq<char>|
            name != "select_map_node"@ && name != "play_card"@ && name != "select_card_reward"@ && name
                != "skip_card_reward"@ && name != "choose_option"@ && name != "buy_card"@ && name
                != "remove_card"@ && name != "leave_room"@ ==> {
                let (n, g) = #[trigger] mock_step(m, action_model(name, args));
                n == m && g.decision == Some("map_select"@) && g.player is None
            },
{
    reveal_strlit("select_map_node");
    reveal_strlit("play_card");
    assert("play_card"@.len() != "select_map_node"@.len());
}

/// Commands other than starting a run and actions leave the mock as it is: quitting is
/// answered with a `quit_result` message, and fetching the map or loading a save with a
/// `ready` message of version 0.2.0.
pub proof fn mock_other_commands_change_nothing(m: MockModel, c: CommandModel)
    requires
        !(c is StartRun),
        !(c is Action),
    ensures
        mock_step(m, c).0 == m,
        c is Quit ==> mock_step(m, c).1.msg_type == "quit_result"@,
        !(c is Quit) ==> mock_step(m, c).1.msg_type == "ready"@ && mock_step(m, c).1.version == Some("0.2.0"@),
{
}

// ---------------------------------------------------------------------------
// Building the mock's answers
// ---------------------------------------------------------------------------

fn text(s: &str) -> (r: LocalizedString)
    ensures
        r.deep_view() == plain(s@),
{
    LocalizedString::Plain(s.to_owned())
}

fn some_text(s: &str) -> (r: Option<String>)
    ensures
        r.deep_view() == Some(s@),
{
    Some(s.to_owned())
}

fn card(
    index: usize,
    name: &str,
    cost: i32,
    card_type: &str,
    can_play: bool,
    target_type: Option<&str>,
    stats: Option<CardStats>,
) -> (r: CardInfo)
    ensures
        r.deep_view() == card_model(
            index,
            name@,
            cost,
            card_type@,
            can_play,
            match target_type {
                Some(t) => Some(t@),
                None => None,
            },
            stats.deep_view(),
        ),
{
    let target_type = match target_type {
        Some(t) => Some(t.to_owned()),
        None => None,
    };
    CardInfo {
        index,
        name: text(name),
        cost,
        card_type: card_type.to_owned(),
        can_play,
        target_type,
        stats,
        keywords: None,
        is_stocked: None,
    }
}

fn decision_state(decision: &str) -> (r: GameState)
    ensures
        r.deep_view() == decision_model(decision@),
{
    let mut s = GameState::bare("decision");
    s.decision = some_text(decision);
    s
}

fn cultist(hp: i32) -> (r: EnemyInfo)
    ensures
        r.deep_view() == cultist_model(hp),
{
    let mut intents: Vec<EnemyIntent> = Vec::new();
    intents.push(EnemyIntent { intent_type: "Attack".to_owned(), damage: Some(6), hits: Some(1) });
    let r = EnemyInfo {
        index: 0,
        name: text("Cultist"),
        hp,
        max_hp: 48,
        block: 0,
        intents: Some(intents),
        intends_attack: Some(true),
    };
    assert(r.intents.deep_view() =~= Some(
        seq![EnemyIntentModel { intent_type: "Attack"@, damage: Some(6), hits: Some(1) }],
    ));
    r
}

fn enemies_of(enemy: EnemyInfo) -> (r: Option<Vec<EnemyInfo>>)
    ensures
        r.deep_view() == Some(seq![enemy.deep_view()]),
{
    let mut v: Vec<EnemyInfo> = Vec::new();
    v.push(enemy);
    assert(v.deep_view() =~= seq![enemy.deep_view()]);
    Some(v)
}

fn osty(hp: i32) -> (r: OstyState)
    ensures
        r.deep_view() == osty_model(hp),
{
    OstyState { hp, max_hp: 10, block: 0, alive: true }
}

fn context_at(floor: i32, room: &str) -> (r: GameContext)
    ensures
        r.deep_view() == context_model(floor, room@),
{
    GameContext { act: 1, floor, room_type: some_text(room), boss: None }
}

fn bodyguard() -> (r: CardInfo)
    ensures
        r.deep_view() == card_model(1, "Bodyguard"@, 1, "Skill"@, true, Some("Self"@), None),
{
    card(1, "Bodyguard", 1, "Skill", true, Some("Self"), None)
}

fn opening_hand_cards() -> (r: Vec<CardInfo>)
    ensures
        r.deep_view() == opening_hand(),
{
    let mut hand: Vec<CardInfo> = Vec::new();
    let stats = CardStats { damage: Some(18), block: None, magic: None };
    hand.push(card(0, "Flatten", 1, "Attack", true, Some("AnyEnemy"), Some(stats)));
    hand.push(bodyguard());
    hand.push(card(2, "Defend", 1, "Skill", true, Some("Self"), None));
    assert(hand.deep_view() =~= opening_hand());
    hand
}

/// The simulator's version reported by the mock.
fn ready_state() -> (r: GameState)
    ensures
        r.deep_view() == (GameStateModel { version: Some("0.2.0"@), ..bare_state("ready"@) }),
{
    let mut s = GameState::bare("ready");
    s.version = some_text("0.2.0");
    s
}

fn same_text(a: &String, lit: &str) -> (r: bool)
    ensures
        r == (a@ == lit@),
{
    *a == lit.to_owned()
}

// ---------------------------------------------------------------------------
// The mock simulator
// ---------------------------------------------------------------------------

/// A scripted stand-in for the simulator, for tests and demonstrations when the game
/// files are absent.  Its counters are public so that callers can set up situations.
#[derive(Debug)]
pub struct MockDriver {
    pub floor: i32,
    pub player_hp: i32,
    pub player_max_hp: i32,
    pub player_gold: i32,
    pub enemy_hp: i32,
    pub combat_round: i32,
    pub osty_hp: i32,
    pub current_phase: String,
}

impl DeepView for MockDriver {
    type V = MockModel;

    open spec fn deep_view(&self) -> MockModel {
        MockModel {
            floor: self.floor,
            player_hp: self.player_hp,
            player_max_hp: self.player_max_hp,
            player_gold: self.player_gold,
            enemy_hp: self.enemy_hp,
            combat_round: self.combat_round,
            osty_hp: self.osty_hp,
            current_phase: self.current_phase@,
        }
    }
}

impl Default for MockDriver {
    fn default() -> (r: Self)
        ensures
            r.deep_view() == mock_start(),
    {
        Self::new()
    }
}

impl MockDriver {
    /// A mock at the start of a run.
    pub fn new() -> (r: Self)
        ensures
            r.deep_view() == mock_start(),
    {
        MockDriver {
            floor: 1,
            player_hp: 75,
            player_max_hp: 75,
            player_gold: 99,
            enemy_hp: 42,
            combat_round: 1,
            osty_hp: 5,
            current_phase: "ready".to_owned(),
        }
    }

    fn player(&self, energy: i32, block: i32, deck_size: usize) -> (r: PlayerState)
        ensures
            r.deep_view() == mock_player(self.deep_view(), energy, block, deck_size),
    {
        PlayerState::summary(self.player_hp, self.player_max_hp, self.player_gold, energy, block, deck_size)
    }

    /// Whether the mock can take `cmd` without a counter leaving the `i32` range:
    /// see [`mock_accepts`].
    pub fn accepts(&self, cmd: &Command) -> (r: bool)
        ensures
            r == mock_accepts(self.deep_view(), cmd.deep_view()),
    {
        match cmd {
            Command::Action { action, .. } => {
                if same_text(action, "play_card") {
                    if self.enemy_hp < i32::MIN + 18 {
                        false
                    } else if self.enemy_hp - 18 <= 0 {
                        self.player_gold <= i32::MAX - 25
                    } else {
                        true
                    }
                } else if same_text(action, "select_card_reward") || same_text(action, "skip_card_reward")
                    || same_text(action, "choose_option") || same_text(action, "buy_card") || same_text(
                    action,
                    "remove_card",
                ) || same_text(action, "leave_room") {
                    self.floor < i32::MAX
                } else {
                    true
                }
            },
            _ => true,
        }
    }

    /// Answers `cmd` and moves to the next state: see [`mock_step`].
    pub fn respond(&mut self, cmd: &Command) -> (r: GameState)
        requires
            mock_accepts(old(self).deep_view(), cmd.deep_view()),
        ensures
            (final(self).deep_view(), r.deep_view()) == mock_step(old(self).deep_view(), cmd.deep_view()),
    {
        match cmd {
            Command::StartRun { .. } => {
                self.current_phase = "map_select".to_owned();
                self.floor = 1;
                let mut s = decision_state("map_select");
                s.context = Some(context_at(self.floor, "Map"));
                s.player = Some(self.player(3, 0, 10));
                let mut choices: Vec<MapChoice> = Vec::new();
                choices.push(MapChoice { col: 0, row: 1, room_type: "Monster".to_owned() });
                choices.push(MapChoice { col: 1, row: 1, room_type: "Treasure".to_owned() });
                assert(choices.deep_view() =~= seq![
                    MapChoiceModel { col: 0, row: 1, room_type: "Monster"@ },
                    MapChoiceModel { col: 1, row: 1, room_type: "Treasure"@ },
                ]);
                s.choices = Some(choices);
                s
            },
            Command::Action { action, .. } => {
                if same_text(action, "select_map_node") {
                    self.current_phase = "combat_play".to_owned();
                    self.combat_round = 1;
                    self.enemy_hp = 42;
                    let mut s = decision_state("combat_play");
                    s.round = Some(self.combat_round);
                    s.energy = Some(3);
                    s.player = Some(self.player(3, 0, 10));
                    s.osty = Some(osty(self.osty_hp));
                    s.enemies = enemies_of(cultist(self.enemy_hp));
                    s.hand = Some(opening_hand_cards());
                    s
                } else if same_text(action, "play_card") {
                    self.enemy_hp = self.enemy_hp - 18;
                    if self.enemy_hp <= 0 {
                        self.current_phase = "card_reward".to_owned();
                        self.player_gold = self.player_gold + 25;
                        let mut s = decision_state("card_reward");
                        s.player = Some(self.player(0, 0, 10));
                        let mut cards: Vec<CardInfo> = Vec::new();
                        cards.push(card(0, "Calcify", 0, "Power", false, None, None));
                        cards.push(card(1, "Strike", 0, "Attack", false, None, None));
                        assert(cards.deep_view() =~= seq![
                            card_model(0, "Calcify"@, 0, "Power"@, false, None, None),
                            card_model(1, "Strike"@, 0, "Attack"@, false, None, None),
                        ]);
                        s.cards = Some(cards);
                        s
                    } else {
                        let mut s = decision_state("combat_play");
                        s.round = Some(self.combat_round);
                        s.energy = Some(2);
                        s.player = Some(self.player(2, 5, 10));
                        s.osty = Some(osty(self.osty_hp));
                        s.enemies = enemies_of(cultist(self.enemy_hp));
                        let mut hand: Vec<CardInfo> = Vec::new();
                        hand.push(bodyguard());
                        assert(hand.deep_view() =~= seq![
                            card_model(1, "Bodyguard"@, 1, "Skill"@, true, Some("Self"@), None),
                        ]);
                        s.hand = Some(hand);
                        s
                    }
                } else if same_text(action, "select_card_reward") || same_text(action, "skip_card_reward") {
                    self.floor = self.floor + 1;
                    if self.floor >= 4 {
                        self.current_phase = "game_over".to_owned();
                        self.victory_state(11)
                    } else {
                        self.current_phase = "rest_site".to_owned();
                        let mut s = decision_state("rest_site");
                        s.player = Some(self.player(0, 0, 11));
                        s.context = Some(context_at(self.floor, "RestSite"));
                        s
                    }
                } else if same_text(action, "choose_option") {
                    self.floor = self.floor + 1;
                    self.current_phase = "shop".to_owned();
                    let mut s = decision_state("shop");
                    s.player = Some(self.player(0, 0, 11));
                    s.card_removal_cost = Some(75);
                    let mut offer = card(0, "Unleash", 50, "", false, None, None);
                    offer.is_stocked = Some(true);
                    let mut cards: Vec<CardInfo> = Vec::new();
                    cards.push(offer);
                    proof {
                        reveal_strlit("");
                    }
                    assert(""@ =~= Seq::<char>::empty());
                    assert(cards.deep_view() =~= seq![
                        CardInfoModel {
                            is_stocked: Some(true),
                            ..card_model(0, "Unleash"@, 50, Seq::empty(), false, None, None)
                        },
                    ]);
                    s.cards = Some(cards);
                    s
                } else if same_text(action, "buy_card") || same_text(action, "remove_card") || same_text(
                    action,
                    "leave_room",
                ) {
                    self.floor = self.floor + 1;
                    self.current_phase = "game_over".to_owned();
                    self.victory_state(12)
                } else {
                    decision_state("map_select")
                }
            },
            Command::Quit { .. } => GameState::bare("quit_result"),
            _ => ready_state(),
        }
    }

    fn victory_state(&self, deck_size: usize) -> (r: GameState)
        ensures
            r.deep_view() == victory_reply(self.deep_view(), deck_size),
    {
        let mut s = decision_state("game_over");
        s.victory = Some(true);
        s.player = Some(self.player(0, 0, deck_size));
        s.context = Some(context_at(self.floor, "Boss"));
        s
    }
}

impl SimulatorDriver for MockDriver {
    /// Answers as [`MockDriver::respond`] does; refuses, and stays as it was, when a
    /// counter would leave the `i32` range.
    fn send(&mut self, cmd: &Command) -> (r: Result<GameState, DriverError>)
        ensures
            r is Ok == mock_accepts(old(self).deep_view(), cmd.deep_view()),
            r matches Ok(s) ==> (final(self).deep_view(), s.deep_view()) == mock_step(
                old(self).deep_view(),
                cmd.deep_view(),
            ),
            r is Err ==> final(self).deep_view() == old(self).deep_view(),
    {
        if self.accepts(cmd) {
            Ok(self.respond(cmd))
        } else {
            Err(DriverError { message: "mock simulator counter out of range".to_owned() })
        }
    }

    /// Nothing to shut down.
    fn close(&mut self) -> (r: Result<(), DriverError>)
        ensures
            r is Ok,
            final(self).deep_view() == old(self).deep_view(),
    {
        Ok(())
    }
}

} // verus!
