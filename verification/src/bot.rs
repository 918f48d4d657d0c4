//! The bot's settings and the decisions of its event handler.

use vstd::prelude::*;

verus! {

/// The bot's settings.
#[derive(Debug, Clone)]
pub struct Config {
    /// Token for the Discord bot.
    pub bot_token: String,
    /// Channel id (snowflake) to send log messages to.
    pub logging_channel: String,
    /// Guild id (snowflake) to register commands on; `None` registers them
    /// globally.
    pub guild_id: Option<String>,
    /// Directory used for caching data.
    pub cache_loc: String,
}

/// The handler of gateway events.
#[derive(Debug)]
pub struct Handler;

impl Handler {
    /// The handler for these settings.
    pub fn from_config(_config: &Config) -> (h: Handler) {
        Handler
    }

    /// Whether a message from `author` is logged: every message is, except
    /// those that the bot itself (`me`, once known) sent.
    pub fn should_log(me: Option<u64>, author: u64) -> (r: bool)
        ensures
            r == (me != Some(author)),
    {
        match me {
            Some(id) => id != author,
            None => true,
        }
    }

    /// The log line written once the bot is connected as `user_name`.
    pub fn ready_message(user_name: &str) -> (m: String)
        ensures
            m@ == user_name@ + " is connected!"@,
    {
        let mut m = String::from_str(user_name);
        m.append(" is connected!");
        m
    }
}

} // verus!
