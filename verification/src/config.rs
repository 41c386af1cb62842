use vstd::prelude::*;

verus! {

/// The configuration the wizard collects and persists: a display
/// language and one credential for each of the two chat services.
pub struct Config {
    pub lang: String,
    pub discord_token: String,
    pub telegram_token: String,
}

/// Mathematical model of a [`Config`]: the three fields as character
/// sequences.
#[verifier::ext_equal]
pub struct ConfigModel {
    pub lang: Seq<char>,
    pub discord_token: Seq<char>,
    pub telegram_token: Seq<char>,
}

impl View for Config {
    type V = ConfigModel;

    open spec fn view(&self) -> ConfigModel {
        ConfigModel { lang: self.lang@, discord_token: self.discord_token@, telegram_token: self.telegram_token@ }
    }
}

/// The model of a freshly constructed configuration: English display
/// language, both credentials empty.
pub open spec fn default_config() -> ConfigModel {
    ConfigModel { lang: "en"@, discord_token: Seq::empty(), telegram_token: Seq::empty() }
}

impl Default for Config {
    /// A fresh configuration always starts from the same values:
    /// `lang` is `"en"` and both tokens are empty.
    fn default() -> (c: Config)
        ensures
            c@ == default_config(),
    {
        Config { lang: "en".to_owned(), discord_token: String::new(), telegram_token: String::new() }
    }
}

/// The wizard's position: one screen per value to collect, then a
/// terminal state entered once the configuration has been persisted.
#[derive(Clone, Copy, Debug, PartialEq, Eq, Structural)]
pub enum ConfigurationStage {
    Language,
    DiscordToken,
    TelegramToken,
    Committed,
}

/// Position of a stage in the wizard's fixed forward order.
pub open spec fn stage_index(s: ConfigurationStage) -> int {
    match s {
        ConfigurationStage::Language => 0,
        ConfigurationStage::DiscordToken => 1,
        ConfigurationStage::TelegramToken => 2,
        ConfigurationStage::Committed => 3,
    }
}

/// Relies on std's `String::push`: it appends the given character to
/// the end of the string.
#[verifier::external_body]
pub(crate) fn push_char(s: &mut String, c: char)
    ensures
        final(s)@ == old(s)@.push(c),
{
    s.push(c);
}

} // verus!
