use vstd::prelude::*;

use crate::config::{push_char, Config, ConfigModel, ConfigurationStage};
use crate::config::{default_config, stage_index};

verus! {

/// A discrete key event, as the input source reports it. Everything
/// the terminal yields that the wizard does not care about arrives as
/// `Other`.
#[derive(Clone, Copy, Debug)]
pub enum KeyEvent {
    Up,
    Down,
    Char(char),
    Enter,
    Escape,
    Other,
}

/// What the host must do after one event has been applied.
#[derive(Clone, Copy, Debug, PartialEq, Eq, Structural)]
pub enum WizardAction {
    /// Keep rendering and polling.
    Continue,
    /// The operator cancelled: terminate without persisting anything.
    Abort,
    /// The final stage was confirmed: persist the configuration, then
    /// stop the loop.
    Commit,
}

/// Number of entries in the fixed language list.
pub const LANGUAGE_COUNT: usize = 2;

/// The wizard's whole state: the configuration being filled in, the
/// current stage, and the cursor into the language list.
pub struct Wizard {
    pub config: Config,
    pub stage: ConfigurationStage,
    pub cursor: usize,
}

/// Mathematical model of a [`Wizard`].
#[verifier::ext_equal]
pub struct WizardModel {
    pub config: ConfigModel,
    pub stage: ConfigurationStage,
    pub cursor: nat,
}

impl View for Wizard {
    type V = WizardModel;

    open spec fn view(&self) -> WizardModel {
        WizardModel { config: self.config@, stage: self.stage, cursor: self.cursor as nat }
    }
}

/// The state a wizard starts from: language screen, cursor on the
/// first entry, defaulted configuration.
pub open spec fn initial_wizard() -> WizardModel {
    WizardModel { config: default_config(), stage: ConfigurationStage::Language, cursor: 0 }
}

/// Effect of a typed character: while a token stage is active it is
/// appended to that token, anywhere else it is ignored.
pub open spec fn char_step(pre: WizardModel, c: char) -> WizardModel {
    match pre.stage {
        ConfigurationStage::DiscordToken => WizardModel {
            config: ConfigModel { discord_token: pre.config.discord_token.push(c), ..pre.config },
            ..pre
        },
        ConfigurationStage::TelegramToken => WizardModel {
            config: ConfigModel { telegram_token: pre.config.telegram_token.push(c), ..pre.config },
            ..pre
        },
        _ => pre,
    }
}

/// Effect of confirming the current stage: the language screen fixes
/// the language and moves on, each token screen moves on, and the last
/// confirmation asks the host to persist.
pub open spec fn enter_step(pre: WizardModel) -> (WizardModel, WizardAction) {
    match pre.stage {
        ConfigurationStage::Language => (
            WizardModel {
                config: ConfigModel {
                    lang: if pre.cursor == 1 { "ru"@ } else { pre.config.lang },
                    ..pre.config
                },
                stage: ConfigurationStage::DiscordToken,
                ..pre
            },
            WizardAction::Continue,
        ),
        ConfigurationStage::DiscordToken => (
            WizardModel { stage: ConfigurationStage::TelegramToken, ..pre },
            WizardAction::Continue,
        ),
        ConfigurationStage::TelegramToken => (
            WizardModel { stage: ConfigurationStage::Committed, ..pre },
            WizardAction::Commit,
        ),
        ConfigurationStage::Committed => (pre, WizardAction::Continue),
    }
}

/// The wizard's transition function: the new state and the action the
/// host owes, for every state and every event.
pub open spec fn step(pre: WizardModel, ev: KeyEvent) -> (WizardModel, WizardAction) {
    if pre.stage is Committed {
        (pre, WizardAction::Continue)
    } else {
        match ev {
            KeyEvent::Escape => (pre, WizardAction::Abort),
            KeyEvent::Up => (
                if pre.stage is Language && pre.cursor > 0 {
                    WizardModel { cursor: (pre.cursor - 1) as nat, ..pre }
                } else {
                    pre
                },
                WizardAction::Continue,
            ),
            KeyEvent::Down => (
                if pre.stage is Language && pre.cursor < LANGUAGE_COUNT - 1 {
                    WizardModel { cursor: pre.cursor + 1, ..pre }
                } else {
                    pre
                },
                WizardAction::Continue,
            ),
            KeyEvent::Char(c) => (char_step(pre, c), WizardAction::Continue),
            KeyEvent::Enter => enter_step(pre),
            KeyEvent::Other => (pre, WizardAction::Continue),
        }
    }
}

/// The state after a whole sequence of events has been applied.
pub open spec fn run(m: WizardModel, evs: Seq<KeyEvent>) -> WizardModel
    decreases evs.len(),
{
    if evs.len() == 0 {
        m
    } else {
        run(step(m, evs[0]).0, evs.skip(1))
    }
}

impl Wizard {
    /// A wizard ready to run, in the initial state.
    pub fn new() -> (w: Wizard)
        ensures
            w@ == initial_wizard(),
    {
        Wizard {
            config: Config::default(),
            stage: ConfigurationStage::Language,
            cursor: 0,
        }
    }

    /// Applies one key event, exactly as [`step`] describes, and
    /// returns the action the host owes.
    pub fn apply_event(&mut self, ev: KeyEvent) -> (a: WizardAction)
        ensures
            final(self)@ == step(old(self)@, ev).0,
            a == step(old(self)@, ev).1,
    {
        if self.stage == ConfigurationStage::Committed {
            return WizardAction::Continue;
        }
        match ev {
            KeyEvent::Escape => WizardAction::Abort,
            KeyEvent::Up => {
                if self.stage == ConfigurationStage::Language && self.cursor > 0 {
                    self.cursor = self.cursor - 1;
                }
                WizardAction::Continue
            },
            KeyEvent::Down => {
                if self.stage == ConfigurationStage::Language && self.cursor < LANGUAGE_COUNT - 1 {
                    self.cursor = self.cursor + 1;
                }
                WizardAction::Continue
            },
            KeyEvent::Char(c) => {
                if self.stage == ConfigurationStage::DiscordToken {
                    push_char(&mut self.config.discord_token, c);
                } else if self.stage == ConfigurationStage::TelegramToken {
                    push_char(&mut self.config.telegram_token, c);
                }
                WizardAction::Continue
            },
            KeyEvent::Enter => {
                match self.stage {
                    ConfigurationStage::Language => {
                        if self.cursor == 1 {
                            self.config.lang = "ru".to_owned();
                        }
                        self.stage = ConfigurationStage::DiscordToken;
                        WizardAction::Continue
                    },
                    ConfigurationStage::DiscordToken => {
                        self.stage = ConfigurationStage::TelegramToken;
                        WizardAction::Continue
                    },
                    ConfigurationStage::TelegramToken => {
                        self.stage = ConfigurationStage::Committed;
                        WizardAction::Commit
                    },
                    ConfigurationStage::Committed => WizardAction::Continue,
                }
            },
            KeyEvent::Other => WizardAction::Continue,
        }
    }
}

/// Law: one applied event never moves the stage backwards.
pub proof fn lemma_stage_monotonic(m: WizardModel, ev: KeyEvent)
    ensures
        stage_index(m.stage) <= stage_index(step(m, ev).0.stage),
{
}

/// Law: over any sequence of events the stage only ever moves forward
/// through `Language`, `DiscordToken`, `TelegramToken`, `Committed`.
pub proof fn lemma_stage_monotonic_run(m: WizardModel, evs: Seq<KeyEvent>)
    ensures
        stage_index(m.stage) <= stage_index(run(m, evs).stage),
    decreases evs.len(),
{
    if evs.len() > 0 {
        lemma_stage_monotonic(m, evs[0]);
        lemma_stage_monotonic_run(step(m, evs[0]).0, evs.skip(1));
    }
}

/// Law: escape at any non-terminal stage asks the host to abort at
/// once and changes nothing, so the stage cannot reach `Committed` and
/// nothing is ever persisted on that path.
pub proof fn lemma_escape_aborts(m: WizardModel)
    requires
        m.stage != ConfigurationStage::Committed,
    ensures
        step(m, KeyEvent::Escape).0 == m,
        step(m, KeyEvent::Escape).1 == WizardAction::Abort,
{
}

/// Law: the wizard asks the host to persist exactly once: when
/// `Enter` confirms the `TelegramToken` stage, and never otherwise.
pub proof fn lemma_commit_only_on_last_confirm(m: WizardModel, ev: KeyEvent)
    ensures
        step(m, ev).1 == WizardAction::Commit <==> (m.stage is TelegramToken && ev is Enter),
{
}

/// Law: a cursor inside the language list stays inside it, whatever
/// the event.
pub proof fn lemma_cursor_in_bounds(m: WizardModel, ev: KeyEvent)
    requires
        m.cursor < LANGUAGE_COUNT,
    ensures
        step(m, ev).0.cursor < LANGUAGE_COUNT,
{
}

/// Law: a cursor inside the language list is still inside it after any
/// whole sequence of events.
pub proof fn lemma_cursor_in_bounds_run(m: WizardModel, evs: Seq<KeyEvent>)
    requires
        m.cursor < LANGUAGE_COUNT,
    ensures
        run(m, evs).cursor < LANGUAGE_COUNT,
    decreases evs.len(),
{
    if evs.len() > 0 {
        lemma_cursor_in_bounds(m, evs[0]);
        lemma_cursor_in_bounds_run(step(m, evs[0]).0, evs.skip(1));
    }
}

/// Law: from the top of the list, any number of `Up` events leaves the
/// cursor at the top.
pub proof fn lemma_up_saturates(m: WizardModel, evs: Seq<KeyEvent>)
    requires
        m.cursor == 0,
        forall|i: int| 0 <= i < evs.len() ==> evs[i] is Up,
    ensures
        run(m, evs).cursor == 0,
    decreases evs.len(),
{
    if evs.len() > 0 {
        lemma_up_saturates(step(m, evs[0]).0, evs.skip(1));
    }
}

/// Law: from the last entry of the list, any number of `Down` events
/// leaves the cursor on the last entry.
pub proof fn lemma_down_saturates(m: WizardModel, evs: Seq<KeyEvent>)
    requires
        m.cursor == LANGUAGE_COUNT - 1,
        forall|i: int| 0 <= i < evs.len() ==> evs[i] is Down,
    ensures
        run(m, evs).cursor == LANGUAGE_COUNT - 1,
    decreases evs.len(),
{
    if evs.len() > 0 {
        lemma_down_saturates(step(m, evs[0]).0, evs.skip(1));
    }
}

/// Law: text entry is append-only: whatever one event does, each token
/// keeps its old contents as a prefix.
pub proof fn lemma_text_append_only(m: WizardModel, ev: KeyEvent)
    ensures
        m.config.discord_token.is_prefix_of(step(m, ev).0.config.discord_token),
        m.config.telegram_token.is_prefix_of(step(m, ev).0.config.telegram_token),
{
    let post = step(m, ev).0;
    assert(m.config.discord_token.is_prefix_of(post.config.discord_token)) by {
        lemma_prefix_of_extension(m.config.discord_token, post.config.discord_token);
    }
    assert(m.config.telegram_token.is_prefix_of(post.config.telegram_token)) by {
        lemma_prefix_of_extension(m.config.telegram_token, post.config.telegram_token);
    }
}

/// Law: text entry is append-only over any whole sequence of events.
pub proof fn lemma_text_append_only_run(m: WizardModel, evs: Seq<KeyEvent>)
    ensures
        m.config.discord_token.is_prefix_of(run(m, evs).config.discord_token),
        m.config.telegram_token.is_prefix_of(run(m, evs).config.telegram_token),
    decreases evs.len(),
{
    if evs.len() == 0 {
        lemma_prefix_of_extension(m.config.discord_token, run(m, evs).config.discord_token);
        lemma_prefix_of_extension(m.config.telegram_token, run(m, evs).config.telegram_token);
    } else {
        let mid = step(m, evs[0]).0;
        lemma_text_append_only(m, evs[0]);
        lemma_text_append_only_run(mid, evs.skip(1));
        lemma_prefix_transitive(
            m.config.discord_token,
            mid.config.discord_token,
            run(m, evs).config.discord_token,
        );
        lemma_prefix_transitive(
            m.config.telegram_token,
            mid.config.telegram_token,
            run(m, evs).config.telegram_token,
        );
    }
}

/// A sequence is a prefix of itself and of itself with one element
/// appended; those are the only shapes one wizard step produces.
proof fn lemma_prefix_of_extension(a: Seq<char>, b: Seq<char>)
    requires
        b == a || (exists|c: char| b == a.push(c)),
    ensures
        a.is_prefix_of(b),
{
    assert(a =~= b.subrange(0, a.len() as int));
}

/// Being a prefix carries over along a chain.
proof fn lemma_prefix_transitive(a: Seq<char>, b: Seq<char>, c: Seq<char>)
    requires
        a.is_prefix_of(b),
        b.is_prefix_of(c),
    ensures
        a.is_prefix_of(c),
{
    assert(a =~= c.subrange(0, a.len() as int));
}

/// The wizard runs exactly when no configuration file is present yet;
/// an existing file is loaded as it stands instead.
pub fn should_run_wizard(config_file_exists: bool) -> (run: bool)
    ensures
        run == !config_file_exists,
{
    !config_file_exists
}

} // verus!
