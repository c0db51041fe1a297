//! The bot's command table: named commands activated by the first word of a
//! chat message, each producing a reply line, plus the routing decision that
//! turns one inbound protocol message into at most one reply.

use vstd::prelude::*;
use crate::irc_parser::Message;
use crate::irc_parser::MessageView;

verus! {

/// How a command's reply should be rendered as audio.
#[derive(Debug, Clone, Copy, PartialEq, Eq, Structural)]
pub enum AudioType {
    /// No audio at all.
    Silent,
    Normal,
    Echo,
    Chorus,
}

impl Default for AudioType {
    fn default() -> (r: AudioType)
        ensures
            r == AudioType::Normal,
    {
        AudioType::Normal
    }
}

/// The closed set of things a command can do with the message it was
/// activated by.
#[derive(Debug, Clone, Copy, PartialEq, Eq, Structural)]
pub enum CommandAction {
    /// Greet the sender in the message's destination channel.
    Hello,
    /// Echo the message's payload back at the sender.
    Echo,
}

/// The reply to a greeted sender.
pub open spec fn hello_reply(m: MessageView) -> Seq<char> {
    "PRIVMSG "@ + m.context.destination + " :Hello to you @"@ + m.context.sender + "!"@
}

/// The reply that echoes the payload back.
pub open spec fn echo_reply(m: MessageView) -> Seq<char> {
    "PRIVMSG "@ + m.context.destination + " :"@ + m.payload + " @"@ + m.context.sender + "!"@
}

/// What each action replies with.
pub open spec fn action_reply(a: CommandAction, m: MessageView) -> Seq<char> {
    match a {
        CommandAction::Hello => hello_reply(m),
        CommandAction::Echo => echo_reply(m),
    }
}

/// Greets the message's sender in its destination channel.
pub fn bot_cmd_hello(irc_msg: &Message) -> (r: String)
    ensures
        r@ == hello_reply(irc_msg@),
{
    let mut r = String::from_str("PRIVMSG ");
    r.append(irc_msg.context.destination.as_str());
    r.append(" :Hello to you @");
    r.append(irc_msg.context.sender.as_str());
    r.append("!");
    r
}

/// Echoes the message's payload back at its sender.
pub fn bot_cmd_echo(irc_msg: &Message) -> (r: String)
    ensures
        r@ == echo_reply(irc_msg@),
{
    let mut r = String::from_str("PRIVMSG ");
    r.append(irc_msg.context.destination.as_str());
    r.append(" :");
    r.append(irc_msg.payload.as_str());
    r.append(" @");
    r.append(irc_msg.context.sender.as_str());
    r.append("!");
    r
}

/// Mathematical value of one command.
#[verifier::ext_equal]
pub ghost struct BotCommandModel {
    pub activator: Seq<char>,
    pub action: CommandAction,
    pub audio_type: AudioType,
}

/// One command: the word that activates it, what it does, and how its reply
/// should sound.
#[derive(Debug)]
pub struct BotCommand {
    activator: String,
    action: CommandAction,
    audio_type: AudioType,
}

impl View for BotCommand {
    type V = BotCommandModel;

    closed spec fn view(&self) -> BotCommandModel {
        BotCommandModel {
            activator: self.activator@,
            action: self.action,
            audio_type: self.audio_type,
        }
    }
}

impl BotCommand {
    /// A new command, silent by default.
    pub fn new(activator: &str, action: CommandAction) -> (c: BotCommand)
        ensures
            c@ == (BotCommandModel { activator: activator@, action, audio_type: AudioType::Silent }),
    {
        BotCommand { activator: activator.to_owned(), action, audio_type: AudioType::Silent }
    }

    /// The reply this command produces for `irc_msg`.
    pub fn action(&self, irc_msg: &Message) -> (r: String)
        ensures
            r@ == action_reply(self@.action, irc_msg@),
    {
        match self.action {
            CommandAction::Hello => bot_cmd_hello(irc_msg),
            CommandAction::Echo => bot_cmd_echo(irc_msg),
        }
    }

    /// The same command with another audio rendering.
    pub fn with_audio_type(self, audio_type: AudioType) -> (c: BotCommand)
        ensures
            c@ == (BotCommandModel { audio_type, ..self@ }),
    {
        BotCommand { audio_type, ..self }
    }
}

/// The command table that a list of entries denotes: entries later in the
/// list override earlier ones with the same activation word.
spec fn commands_to_map(entries: Seq<(String, BotCommand)>) -> Map<Seq<char>, BotCommandModel>
    decreases entries.len(),
{
    if entries.len() == 0 {
        Map::empty()
    } else {
        commands_to_map(entries.drop_last()).insert(entries.last().0@, entries.last().1@)
    }
}

/// An entry that no later entry overrides decides the table's value at its
/// key.
proof fn lemma_commands_map_found(entries: Seq<(String, BotCommand)>, i: int)
    requires
        0 <= i < entries.len(),
        forall|k: int| i < k < entries.len() ==> (#[trigger] entries[k]).0@ != entries[i].0@,
    ensures
        commands_to_map(entries).dom().contains(entries[i].0@),
        commands_to_map(entries)[entries[i].0@] == entries[i].1@,
    decreases entries.len(),
{
    if i < entries.len() - 1 {
        let prefix = entries.drop_last();
        assert(forall|k: int| i < k < prefix.len() ==> (#[trigger] prefix[k]).0@ != prefix[i].0@)
            by {
            assert(forall|k: int| 0 <= k < prefix.len() ==> #[trigger] prefix[k] == entries[k]);
        }
        lemma_commands_map_found(prefix, i);
        assert(entries.last().0@ != entries[i].0@);
    }
}

/// A key under which no entry stands is absent from the table.
proof fn lemma_commands_map_absent(entries: Seq<(String, BotCommand)>, n: Seq<char>)
    requires
        forall|k: int| 0 <= k < entries.len() ==> (#[trigger] entries[k]).0@ != n,
    ensures
        !commands_to_map(entries).dom().contains(n),
    decreases entries.len(),
{
    if entries.len() > 0 {
        let prefix = entries.drop_last();
        assert(forall|k: int| 0 <= k < prefix.len() ==> (#[trigger] prefix[k]).0@ != n) by {
            assert(forall|k: int| 0 <= k < prefix.len() ==> #[trigger] prefix[k] == entries[k]);
        }
        lemma_commands_map_absent(prefix, n);
    }
}

/// The bot's command table: activation word to command.
pub struct BotCommands {
    entries: Vec<(String, BotCommand)>,
}

impl View for BotCommands {
    type V = Map<Seq<char>, BotCommandModel>;

    closed spec fn view(&self) -> Map<Seq<char>, BotCommandModel> {
        commands_to_map(self.entries@)
    }
}

impl BotCommands {
    /// An empty table.
    pub fn new() -> (t: BotCommands)
        ensures
            t@ == Map::<Seq<char>, BotCommandModel>::empty(),
    {
        BotCommands { entries: Vec::new() }
    }

    /// Adds a command under its activation word, replacing any earlier
    /// command under the same word.
    pub fn add_command(&mut self, command: &str, bot_command: BotCommand)
        ensures
            final(self)@ == old(self)@.insert(command@, bot_command@),
    {
        let ghost pre = self.entries@;
        self.entries.push((command.to_owned(), bot_command));
        proof {
            assert(self.entries@.drop_last() =~= pre);
        }
    }

    /// The command under `command`, if the table holds one.
    pub fn get_command(&self, command: &str) -> (r: Option<&BotCommand>)
        ensures
            match r {
                Some(c) => self@.dom().contains(command@) && self@[command@] == c@,
                None => !self@.dom().contains(command@),
            },
    {
        let n = self.entries.len();
        let mut k: usize = n;
        while k > 0
            invariant
                n == self.entries@.len(),
                0 <= k <= n,
                forall|j: int| k <= j < n ==> (#[trigger] self.entries@[j]).0@ != command@,
            decreases k,
        {
            k = k - 1;
            let entry = &self.entries[k];
            if crate::strutil::str_eq(entry.0.as_str(), command) {
                proof {
                    lemma_commands_map_found(self.entries@, k as int);
                }
                return Some(&entry.1);
            }
        }
        proof {
            lemma_commands_map_absent(self.entries@, command@);
        }
        None
    }
}

/// What the command processor replies to one inbound message: for a chat
/// message whose payload starts with `!`, the reply of the command its first
/// word activates (nothing if the table holds none); for a server ping, the
/// matching pong; nothing for anything else.
pub open spec fn route_spec(table: Map<Seq<char>, BotCommandModel>, m: MessageView) -> Option<
    Seq<char>,
> {
    if m.context.command == "PRIVMSG"@ {
        if m.payload.len() > 0 && m.payload[0] == '!' {
            let word = m.payload.subrange(0, crate::strutil::word_end(m.payload, 0));
            if table.dom().contains(word) {
                Some(action_reply(table[word].action, m))
            } else {
                None
            }
        } else {
            None
        }
    } else if m.context.command == "PING"@ {
        Some("PONG :tmi.twitch.tv"@)
    } else {
        None
    }
}

/// Routes one inbound message through the command table, as [`route_spec`]
/// says.
pub fn handle_irc_message(commands: &BotCommands, irc_msg: &Message) -> (r: Option<String>)
    ensures
        match r {
            Some(s) => route_spec(commands@, irc_msg@) == Some(s@),
            None => route_spec(commands@, irc_msg@) is None,
        },
{
    if crate::strutil::str_eq(irc_msg.context.command.as_str(), "PRIVMSG") {
        if crate::strutil::starts_with_char(irc_msg.payload.as_str(), '!') {
            let word = crate::strutil::first_word(irc_msg.payload.as_str());
            match commands.get_command(word.as_str()) {
                Some(c) => Some(c.action(irc_msg)),
                None => None,
            }
        } else {
            None
        }
    } else if crate::strutil::str_eq(irc_msg.context.command.as_str(), "PING") {
        Some(String::from_str("PONG :tmi.twitch.tv"))
    } else {
        None
    }
}

} // verus!
