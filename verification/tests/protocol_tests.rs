use sts2_rs::protocol::{
    default_character, default_lang, ArgValue, CardInfo, Command, GameState, LocalizedString,
    PlayerState,
};

fn action_parts(cmd: &Command) -> (String, Vec<(String, i64)>, Vec<(String, String)>) {
    match cmd {
        Command::Action { action, args } => {
            let mut ints = Vec::new();
            let mut strs = Vec::new();
            for (k, v) in args.iter().flatten() {
                match v {
                    ArgValue::Int(i) => ints.push((k.clone(), *i)),
                    ArgValue::Str(s) => strs.push((k.clone(), s.clone())),
                    ArgValue::Json(_) => panic!("unexpected raw argument"),
                }
            }
            (action.clone(), ints, strs)
        }
        _ => panic!("not an action"),
    }
}

fn no_args(cmd: &Command) -> bool {
    matches!(cmd, Command::Action { args: None, .. })
}

#[test]
fn defaults_of_start_run() {
    assert_eq!(default_character(), "Necrobinder");
    assert_eq!(default_lang(), "en");
}

#[test]
fn play_card_with_and_without_target() {
    let (name, ints, _) = action_parts(&Command::play_card(2, Some(1)));
    assert_eq!(name, "play_card");
    assert_eq!(ints, vec![("card_index".to_string(), 2), ("target_index".to_string(), 1)]);
    let (_, ints, _) = action_parts(&Command::play_card(4, None));
    assert_eq!(ints, vec![("card_index".to_string(), 4)]);
}

#[test]
fn argument_commands() {
    let (name, ints, _) = action_parts(&Command::select_map_node(3, -1));
    assert_eq!(name, "select_map_node");
    assert_eq!(ints, vec![("col".to_string(), 3), ("row".to_string(), -1)]);
    let (name, ints, _) = action_parts(&Command::select_card_reward(1));
    assert_eq!(name, "select_card_reward");
    assert_eq!(ints, vec![("card_index".to_string(), 1)]);
    let (name, ints, _) = action_parts(&Command::choose_option(0));
    assert_eq!(name, "choose_option");
    assert_eq!(ints, vec![("option_index".to_string(), 0)]);
    let (name, ints, _) = action_parts(&Command::buy_card(5));
    assert_eq!(name, "buy_card");
    assert_eq!(ints, vec![("card_index".to_string(), 5)]);
    let (name, _, strs) = action_parts(&Command::select_cards("0,2"));
    assert_eq!(name, "select_cards");
    assert_eq!(strs, vec![("indices".to_string(), "0,2".to_string())]);
}

#[test]
fn commands_without_arguments() {
    for (cmd, expected) in [
        (Command::end_turn(), "end_turn"),
        (Command::skip_card_reward(), "skip_card_reward"),
        (Command::remove_card(), "remove_card"),
        (Command::leave_room(), "leave_room"),
        (Command::proceed(), "proceed"),
        (Command::action("custom", None), "custom"),
    ] {
        assert!(no_args(&cmd));
        assert_eq!(action_parts(&cmd).0, expected);
    }
}

#[test]
fn index_beyond_i64_wraps_like_a_cast() {
    let (_, ints, _) = action_parts(&Command::buy_card(usize::MAX));
    assert_eq!(ints, vec![("card_index".to_string(), -1)]);
}

#[test]
fn localized_text_prefers_plain_then_english_then_chinese() {
    assert_eq!(LocalizedString::Plain("Strike".to_string()).as_str(), "Strike");
    let both = LocalizedString::Bilingual { en: Some("Strike".to_string()), zh: Some("打击".to_string()) };
    assert_eq!(both.as_str(), "Strike");
    let zh = LocalizedString::Bilingual { en: None, zh: Some("打击".to_string()) };
    assert_eq!(zh.as_str(), "打击");
    let none = LocalizedString::Bilingual { en: None, zh: None };
    assert_eq!(none.as_str(), "");
    assert_eq!(LocalizedString::default().as_str(), "");
}

#[test]
fn game_state_helpers() {
    let mut s = GameState::bare("ready");
    assert!(s.is_ready());
    assert!(!s.is_error());
    assert_eq!(s.decision_name(), "ready");
    s.msg_type = "error".to_string();
    assert!(s.is_error());
    assert!(!s.is_ready());
    s.msg_type = "decision".to_string();
    s.decision = Some("card_reward".to_string());
    assert_eq!(s.decision_name(), "card_reward");
    let d = GameState::default();
    assert_eq!(d.msg_type, "");
    assert!(d.decision.is_none() && d.player.is_none() && d.version.is_none());
}

#[test]
fn record_defaults() {
    let c = CardInfo::default();
    assert_eq!(c.index, 0);
    assert_eq!(c.cost, 0);
    assert_eq!(c.card_type, "");
    assert!(!c.can_play);
    assert_eq!(c.name.as_str(), "");
    let p = PlayerState::summary(10, 20, 30, 3, 4, 5);
    assert_eq!((p.hp, p.max_hp, p.gold, p.energy, p.block, p.deck_size), (10, 20, 30, 3, 4, 5));
    assert!(p.deck.is_none() && p.potions.is_none() && p.relics.is_none());
    let d = PlayerState::default();
    assert_eq!((d.hp, d.gold, d.deck_size), (0, 0, 0));
}
