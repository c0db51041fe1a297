//! Configuration values the bot starts with: who logs in where. Reading and
//! decoding the configuration file is the surrounding program's business;
//! the library only carries the values and builds the login lines from them.

use vstd::prelude::*;

verus! {

/// The user the bot logs in as.
#[derive(Debug)]
pub struct UserConfig {
    pub nick: String,
    pub token: String,
    pub channel: String,
}

/// The server the bot connects to.
#[derive(Debug)]
pub struct ServerConfig {
    pub address: String,
}

/// Everything the bot is configured with.
#[derive(Debug)]
pub struct Config {
    pub user: UserConfig,
    pub server: ServerConfig,
}

impl UserConfig {
    /// The four protocol lines that authenticate this user, pick its nick,
    /// join its channel, and ask for message tags.
    pub fn login_lines(&self) -> (v: Vec<String>)
        ensures
            v@.len() == 4,
            v@[0]@ == "PASS oauth:"@ + self.token@,
            v@[1]@ == "NICK "@ + self.nick@,
            v@[2]@ == "JOIN #"@ + self.channel@,
            v@[3]@ == "CAP REQ :twitch.tv/tags"@,
    {
        let mut pass = String::from_str("PASS oauth:");
        pass.append(self.token.as_str());
        let mut nick = String::from_str("NICK ");
        nick.append(self.nick.as_str());
        let mut join = String::from_str("JOIN #");
        join.append(self.channel.as_str());
        let caps = String::from_str("CAP REQ :twitch.tv/tags");
        let mut v: Vec<String> = Vec::new();
        v.push(pass);
        v.push(nick);
        v.push(join);
        v.push(caps);
        v
    }
}

} // verus!
