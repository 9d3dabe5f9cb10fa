use sts2_rs::driver::{
    classify_reply_line, root_search_order, MockDriver, RelativeRoot, ReplyLine, RootCandidate, SimulatorDriver,
};
use sts2_rs::protocol::{Command, GameState};

fn start_run() -> Command {
    Command::StartRun { character: "Necrobinder".to_string(), ascension: 0, seed: None, lang: "en".to_string() }
}

fn decision(s: &GameState) -> &str {
    s.decision.as_deref().unwrap()
}

#[test]
fn fresh_mock() {
    let m = MockDriver::new();
    assert_eq!((m.floor, m.player_hp, m.player_max_hp, m.player_gold), (1, 75, 75, 99));
    assert_eq!((m.enemy_hp, m.combat_round, m.osty_hp), (42, 1, 5));
    assert_eq!(m.current_phase, "ready");
    let d = MockDriver::default();
    assert_eq!(d.current_phase, "ready");
}

#[test]
fn scripted_run_reaches_victory() {
    let mut m = MockDriver::new();
    let s = m.send(&start_run()).unwrap();
    assert_eq!(s.msg_type, "decision");
    assert_eq!(decision(&s), "map_select");
    assert_eq!(s.choices.as_ref().unwrap().len(), 2);
    assert_eq!(s.choices.as_ref().unwrap()[1].room_type, "Treasure");
    assert_eq!(s.context.as_ref().unwrap().room_type.as_deref(), Some("Map"));
    assert_eq!(s.player.as_ref().unwrap().energy, 3);

    let s = m.send(&Command::select_map_node(0, 1)).unwrap();
    assert_eq!(decision(&s), "combat_play");
    assert_eq!(s.hand.as_ref().unwrap().len(), 3);
    assert_eq!(s.hand.as_ref().unwrap()[0].name.as_str(), "Flatten");
    assert_eq!(s.hand.as_ref().unwrap()[0].stats.as_ref().unwrap().damage, Some(18));
    assert_eq!(s.enemies.as_ref().unwrap()[0].hp, 42);
    assert_eq!(s.osty.as_ref().unwrap().hp, 5);

    let s = m.send(&Command::play_card(0, Some(0))).unwrap();
    assert_eq!(decision(&s), "combat_play");
    assert_eq!(s.enemies.as_ref().unwrap()[0].hp, 24);
    assert_eq!(s.energy, Some(2));
    assert_eq!(s.player.as_ref().unwrap().block, 5);
    let s = m.send(&Command::play_card(0, Some(0))).unwrap();
    assert_eq!(s.enemies.as_ref().unwrap()[0].hp, 6);
    let s = m.send(&Command::play_card(0, Some(0))).unwrap();
    assert_eq!(decision(&s), "card_reward");
    assert_eq!(s.player.as_ref().unwrap().gold, 124);
    assert_eq!(s.cards.as_ref().unwrap()[0].name.as_str(), "Calcify");
    assert_eq!(m.enemy_hp, -12);

    let s = m.send(&Command::select_card_reward(0)).unwrap();
    assert_eq!(decision(&s), "rest_site");
    assert_eq!(s.context.as_ref().unwrap().floor, 2);

    let s = m.send(&Command::choose_option(0)).unwrap();
    assert_eq!(decision(&s), "shop");
    assert_eq!(s.card_removal_cost, Some(75));
    assert_eq!(s.cards.as_ref().unwrap()[0].cost, 50);
    assert_eq!(s.cards.as_ref().unwrap()[0].is_stocked, Some(true));

    let s = m.send(&Command::buy_card(0)).unwrap();
    assert_eq!(decision(&s), "game_over");
    assert_eq!(s.victory, Some(true));
    assert_eq!(s.context.as_ref().unwrap().floor, 4);
    assert_eq!(s.context.as_ref().unwrap().room_type.as_deref(), Some("Boss"));
    assert_eq!(s.player.as_ref().unwrap().deck_size, 12);
    assert_eq!(m.current_phase, "game_over");
    // hit points never change
    assert_eq!((m.player_hp, m.player_max_hp, m.osty_hp), (75, 75, 5));
}

#[test]
fn rewards_end_the_run_from_floor_three() {
    let mut m = MockDriver::new();
    m.floor = 3;
    let s = m.send(&Command::skip_card_reward()).unwrap();
    assert_eq!(decision(&s), "game_over");
    assert_eq!(s.player.as_ref().unwrap().deck_size, 11);
    assert_eq!(m.floor, 4);
}

#[test]
fn other_commands() {
    let mut m = MockDriver::new();
    let s = m.send(&Command::end_turn()).unwrap();
    assert_eq!(s.msg_type, "decision");
    assert_eq!(decision(&s), "map_select");
    assert!(s.player.is_none());
    let s = m.send(&Command::Quit { path: None }).unwrap();
    assert_eq!(s.msg_type, "quit_result");
    let s = m.send(&Command::GetMap).unwrap();
    assert_eq!(s.msg_type, "ready");
    assert_eq!(s.version.as_deref(), Some("0.2.0"));
    assert_eq!(m.current_phase, "ready");
    assert!(m.close().is_ok());
}

#[test]
fn counters_out_of_range_are_refused() {
    let mut m = MockDriver::new();
    m.enemy_hp = i32::MIN + 17;
    assert!(!m.accepts(&Command::play_card(0, None)));
    assert!(m.send(&Command::play_card(0, None)).is_err());
    assert_eq!(m.enemy_hp, i32::MIN + 17);
    m.enemy_hp = 10;
    m.player_gold = i32::MAX - 24;
    assert!(m.send(&Command::play_card(0, None)).is_err());
    m.player_gold = i32::MAX - 25;
    assert!(m.send(&Command::play_card(0, None)).is_ok());
    m.floor = i32::MAX;
    assert!(m.send(&Command::leave_room()).is_err());
    assert!(m.send(&Command::end_turn()).is_ok());
}

#[test]
fn reply_lines() {
    assert_eq!(classify_reply_line(""), ReplyLine::Blank);
    assert_eq!(classify_reply_line("{\"type\":\"ready\"}"), ReplyLine::Document);
    assert_eq!(classify_reply_line("[info] loading"), ReplyLine::Noise);
}

#[test]
fn project_root_search_order() {
    let rest = vec![
        RootCandidate::Given,
        RootCandidate::Relative(RelativeRoot::Current),
        RootCandidate::Relative(RelativeRoot::Parent),
        RootCandidate::Relative(RelativeRoot::SiblingCheckout),
    ];
    assert_eq!(root_search_order(false), rest);
    let mut with_env = vec![RootCandidate::Environment];
    with_env.extend(rest);
    assert_eq!(root_search_order(true), with_env);
    assert_eq!(RelativeRoot::Current.path(), ".");
    assert_eq!(RelativeRoot::Parent.path(), "..");
    assert_eq!(RelativeRoot::SiblingCheckout.path(), "../sts2-cli");
}
