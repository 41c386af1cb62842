use d2t_wizard::config::{Config, ConfigurationStage};
use d2t_wizard::wizard::{should_run_wizard, KeyEvent, Wizard, WizardAction};

fn apply_all(w: &mut Wizard, evs: &[KeyEvent]) -> WizardAction {
    let mut last = WizardAction::Continue;
    for ev in evs {
        last = w.apply_event(*ev);
    }
    last
}

#[test]
fn default_configuration_values() {
    let c = Config::default();
    assert_eq!(c.lang, "en");
    assert_eq!(c.discord_token, "");
    assert_eq!(c.telegram_token, "");
}

#[test]
fn initial_wizard_state() {
    let w = Wizard::new();
    assert_eq!(w.stage, ConfigurationStage::Language);
    assert_eq!(w.cursor, 0);
    assert_eq!(w.config.lang, "en");
    assert_eq!(w.config.discord_token, "");
    assert_eq!(w.config.telegram_token, "");
}

#[test]
fn cursor_up_saturates_at_zero() {
    let mut w = Wizard::new();
    for _ in 0..5 {
        assert_eq!(w.apply_event(KeyEvent::Up), WizardAction::Continue);
        assert_eq!(w.cursor, 0);
    }
}

#[test]
fn cursor_down_saturates_at_last_index() {
    let mut w = Wizard::new();
    assert_eq!(w.apply_event(KeyEvent::Down), WizardAction::Continue);
    assert_eq!(w.cursor, 1);
    // the upper bound is the last valid index, not the list length
    for _ in 0..5 {
        w.apply_event(KeyEvent::Down);
        assert_eq!(w.cursor, 1);
    }
    w.apply_event(KeyEvent::Up);
    assert_eq!(w.cursor, 0);
}

#[test]
fn characters_append_to_discord_token() {
    let mut w = Wizard::new();
    w.apply_event(KeyEvent::Enter);
    assert_eq!(w.stage, ConfigurationStage::DiscordToken);
    apply_all(
        &mut w,
        &[KeyEvent::Char('a'), KeyEvent::Char('b'), KeyEvent::Char('c')],
    );
    assert_eq!(w.config.discord_token, "abc");
    // no event type removes characters
    apply_all(&mut w, &[KeyEvent::Up, KeyEvent::Down, KeyEvent::Other]);
    assert_eq!(w.config.discord_token, "abc");
}

#[test]
fn characters_ignored_on_language_screen() {
    let mut w = Wizard::new();
    apply_all(&mut w, &[KeyEvent::Char('q'), KeyEvent::Char('z')]);
    assert_eq!(w.config.discord_token, "");
    assert_eq!(w.config.telegram_token, "");
    assert_eq!(w.stage, ConfigurationStage::Language);
}

#[test]
fn stages_advance_in_order() {
    let mut w = Wizard::new();
    assert_eq!(w.stage, ConfigurationStage::Language);
    assert_eq!(w.apply_event(KeyEvent::Enter), WizardAction::Continue);
    assert_eq!(w.stage, ConfigurationStage::DiscordToken);
    assert_eq!(w.apply_event(KeyEvent::Enter), WizardAction::Continue);
    assert_eq!(w.stage, ConfigurationStage::TelegramToken);
    assert_eq!(w.apply_event(KeyEvent::Enter), WizardAction::Commit);
    assert_eq!(w.stage, ConfigurationStage::Committed);
}

#[test]
fn escape_aborts_without_changing_state() {
    let mut w = Wizard::new();
    w.apply_event(KeyEvent::Enter);
    w.apply_event(KeyEvent::Char('x'));
    assert_eq!(w.apply_event(KeyEvent::Escape), WizardAction::Abort);
    assert_eq!(w.stage, ConfigurationStage::DiscordToken);
    assert_eq!(w.config.discord_token, "x");
}

#[test]
fn committed_stage_ignores_further_events() {
    let mut w = Wizard::new();
    apply_all(&mut w, &[KeyEvent::Enter, KeyEvent::Enter, KeyEvent::Enter]);
    assert_eq!(w.stage, ConfigurationStage::Committed);
    let before_lang = w.config.lang.clone();
    let evs = [
        KeyEvent::Char('x'),
        KeyEvent::Up,
        KeyEvent::Down,
        KeyEvent::Enter,
        KeyEvent::Escape,
    ];
    assert_eq!(apply_all(&mut w, &evs), WizardAction::Continue);
    assert_eq!(w.stage, ConfigurationStage::Committed);
    assert_eq!(w.config.lang, before_lang);
    assert_eq!(w.config.discord_token, "");
}

#[test]
fn end_to_end_scenario() {
    let mut w = Wizard::new();
    let evs = [
        KeyEvent::Down,
        KeyEvent::Enter,
        KeyEvent::Char('t'),
        KeyEvent::Char('o'),
        KeyEvent::Char('k'),
        KeyEvent::Enter,
        KeyEvent::Char('x'),
        KeyEvent::Char('y'),
        KeyEvent::Enter,
    ];
    let last = apply_all(&mut w, &evs);
    assert_eq!(last, WizardAction::Commit);
    assert_eq!(w.stage, ConfigurationStage::Committed);
    assert_eq!(w.config.lang, "ru");
    assert_eq!(w.config.discord_token, "tok");
    assert_eq!(w.config.telegram_token, "xy");

    let doc = w.config.to_toml_string();
    assert_eq!(
        doc,
        "lang = \"ru\"\ndiscord_token = \"tok\"\ntelegram_token = \"xy\"\n"
    );
    let table: toml::Table = doc.parse().unwrap();
    assert_eq!(table.get("lang").unwrap().as_str().unwrap(), "ru");
    assert_eq!(table.get("discord_token").unwrap().as_str().unwrap(), "tok");
    assert_eq!(table.get("telegram_token").unwrap().as_str().unwrap(), "xy");
}

#[test]
fn enter_on_first_entry_keeps_english() {
    let mut w = Wizard::new();
    w.apply_event(KeyEvent::Enter);
    assert_eq!(w.config.lang, "en");
}

#[test]
fn persisted_document_round_trips_plain_values() {
    let mut w = Wizard::new();
    let evs = [
        KeyEvent::Enter,
        KeyEvent::Char('s'),
        KeyEvent::Char('e'),
        KeyEvent::Char('c'),
        KeyEvent::Enter,
        KeyEvent::Enter,
    ];
    apply_all(&mut w, &evs);
    let doc = w.config.to_toml_string();
    let table: toml::Table = doc.parse().unwrap();
    assert_eq!(
        table.get("lang").unwrap().as_str().unwrap(),
        w.config.lang.as_str()
    );
    assert_eq!(
        table.get("discord_token").unwrap().as_str().unwrap(),
        w.config.discord_token.as_str()
    );
    assert_eq!(
        table.get("telegram_token").unwrap().as_str().unwrap(),
        w.config.telegram_token.as_str()
    );
}

#[test]
fn persisted_document_round_trips_escaped_values() {
    let mut config = Config::default();
    config.discord_token = "a\"b\\c\nd\te\rf\u{8}g\u{c}h".to_string();
    config.telegram_token = "ctrl\u{1}\u{7f}end \u{416} ok".to_string();
    let doc = config.to_toml_string();
    let table: toml::Table = doc.parse().unwrap();
    assert_eq!(
        table.get("discord_token").unwrap().as_str().unwrap(),
        config.discord_token.as_str()
    );
    assert_eq!(
        table.get("telegram_token").unwrap().as_str().unwrap(),
        config.telegram_token.as_str()
    );
}

#[test]
fn control_characters_are_escaped_as_unicode() {
    let mut config = Config::default();
    config.discord_token = "\u{1}".to_string();
    let doc = config.to_toml_string();
    assert!(doc.contains("discord_token = \"\\u0001\""));
}

#[test]
fn wizard_runs_only_without_existing_file() {
    assert!(should_run_wizard(false));
    assert!(!should_run_wizard(true));
}
