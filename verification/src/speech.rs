//! The speech consumer's one decision: which inbound messages get read
//! aloud. Synthesis and playback are the surrounding program's business.

use vstd::prelude::*;
use crate::irc_parser::Message;

verus! {

/// The text to speak for one inbound message: the payload of a chat message
/// (command `PRIVMSG`), nothing for anything else.
pub fn speech_text(msg: &Message) -> (r: Option<String>)
    ensures
        match r {
            Some(t) => msg@.context.command == "PRIVMSG"@ && t@ == msg@.payload,
            None => msg@.context.command != "PRIVMSG"@,
        },
{
    if crate::strutil::str_eq(msg.context.command.as_str(), "PRIVMSG") {
        Some(msg.payload.clone())
    } else {
        None
    }
}

} // verus!
