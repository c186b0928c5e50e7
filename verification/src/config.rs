//! The settings that the manager runs with, and what can be wrong with them.

use crate::model::strings_view;
use crate::text::{concat, is_blank, str_is_blank};
use vstd::prelude::*;

verus! {

/// The settings: the application whose workshop is mirrored, the path of the
/// transfer agent's executable, the cache root, and the allow patterns of the
/// inclusion policy.
#[derive(Clone, Debug, PartialEq, Eq)]
pub struct Config {
    pub appid: String,
    pub steam_cmd: String,
    pub output_dir: String,
    pub whitelist: Vec<String>,
}

/// What a `Config` stands for.
pub struct ConfigView {
    pub appid: Seq<char>,
    pub steam_cmd: Seq<char>,
    pub output_dir: Seq<char>,
    pub whitelist: Seq<Seq<char>>,
}

impl View for Config {
    type V = ConfigView;

    open spec fn view(&self) -> ConfigView {
        ConfigView {
            appid: self.appid@,
            steam_cmd: self.steam_cmd@,
            output_dir: self.output_dir@,
            whitelist: strings_view(self.whitelist@),
        }
    }
}

/// A fault in the settings.
#[derive(Clone, Debug, PartialEq, Eq)]
pub enum ConfigError {
    /// The application ID is empty or blank.
    EmptyAppId,
    /// The cache root is empty or blank.
    EmptyOutputDir,
    /// The path of the transfer agent is empty or blank.
    EmptySteamCmd,
    /// An allow pattern is no valid glob; `reason` is the parser's account.
    InvalidPattern { pattern: String, reason: String },
    /// The allow patterns are valid one by one but cannot be compiled into
    /// one matcher; `reason` is the compiler's account.
    PatternSet { reason: String },
    /// The path of the transfer agent has no parent directory.
    NoParent,
}

impl ConfigError {
    /// The fault in words.
    pub fn message(&self) -> (text: String)
        ensures
            match *self {
                ConfigError::EmptyAppId => text@ == "appid must not be empty in config.toml"@,
                ConfigError::EmptyOutputDir => text@
                    == "output_dir must not be empty in config.toml"@,
                ConfigError::EmptySteamCmd => text@
                    == "steam_cmd must not be empty in config.toml"@,
                ConfigError::InvalidPattern { pattern, reason } => text@
                    == "Invalid glob pattern: "@ + pattern@ + ": "@ + reason@,
                ConfigError::PatternSet { reason } => text@ == "Invalid glob patterns: "@
                    + reason@,
                ConfigError::NoParent => text@ == "Steam CMD path has no parent directory"@,
            },
    {
        match self {
            ConfigError::EmptyAppId => String::from_str("appid must not be empty in config.toml"),
            ConfigError::EmptyOutputDir => String::from_str(
                "output_dir must not be empty in config.toml",
            ),
            ConfigError::EmptySteamCmd => String::from_str(
                "steam_cmd must not be empty in config.toml",
            ),
            ConfigError::InvalidPattern { pattern, reason } => {
                let mut text = concat("Invalid glob pattern: ", pattern.as_str());
                text.append(": ");
                text.append(reason.as_str());
                text
            },
            ConfigError::PatternSet { reason } => concat("Invalid glob patterns: ", reason.as_str()),
            ConfigError::NoParent => String::from_str("Steam CMD path has no parent directory"),
        }
    }
}

/// The first fault among the three settings that must not be blank, taken in
/// the order application ID, cache root, agent path.
pub open spec fn first_blank(config: ConfigView) -> Option<ConfigError> {
    if is_blank(config.appid) {
        Some(ConfigError::EmptyAppId)
    } else if is_blank(config.output_dir) {
        Some(ConfigError::EmptyOutputDir)
    } else if is_blank(config.steam_cmd) {
        Some(ConfigError::EmptySteamCmd)
    } else {
        None
    }
}

/// Accepts the settings if application ID, cache root and agent path each
/// hold something besides white space, and names the first that does not.
pub fn validate_config(config: &Config) -> (checked: Result<(), ConfigError>)
    ensures
        match first_blank(config@) {
            Some(fault) => checked == Err::<(), ConfigError>(fault),
            None => checked is Ok,
        },
{
    if str_is_blank(config.appid.as_str()) {
        return Err(ConfigError::EmptyAppId);
    }
    if str_is_blank(config.output_dir.as_str()) {
        return Err(ConfigError::EmptyOutputDir);
    }
    if str_is_blank(config.steam_cmd.as_str()) {
        return Err(ConfigError::EmptySteamCmd);
    }
    Ok(())
}

} // verus!
