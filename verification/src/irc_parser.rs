//! Parsed form of one line of the chat protocol: an optional tag list, a
//! context (sender, command, destination) and a free-form payload.

use vstd::prelude::*;

verus! {

/// Mathematical value of a [`Context`]: the three fields as character sequences.
#[verifier::ext_equal]
pub ghost struct ContextView {
    pub sender: Seq<char>,
    pub command: Seq<char>,
    pub destination: Seq<char>,
}

/// Sender, command and destination of one protocol line.
#[derive(Debug)]
pub struct Context {
    pub sender: String,
    pub command: String,
    pub destination: String,
}

impl View for Context {
    type V = ContextView;

    open spec fn view(&self) -> ContextView {
        ContextView {
            sender: self.sender@,
            command: self.command@,
            destination: self.destination@,
        }
    }
}

impl Context {
    pub fn new(sender: String, command: String, destination: String) -> (c: Context)
        ensures
            c@ == (ContextView { sender: sender@, command: command@, destination: destination@ }),
    {
        Context { sender, command, destination }
    }
}

impl Clone for Context {
    fn clone(&self) -> (res: Self)
        ensures
            res@ == self@,
    {
        Context {
            sender: self.sender.clone(),
            command: self.command.clone(),
            destination: self.destination.clone(),
        }
    }
}

impl Default for Context {
    /// An empty context: all three fields are empty strings.
    fn default() -> (c: Context)
        ensures
            c@ == (ContextView {
                sender: Seq::<char>::empty(),
                command: Seq::<char>::empty(),
                destination: Seq::<char>::empty(),
            }),
    {
        Context { sender: String::new(), command: String::new(), destination: String::new() }
    }
}

/// Mathematical value of a [`Message`].
#[verifier::ext_equal]
pub ghost struct MessageView {
    pub token: Seq<(Seq<char>, Seq<char>)>,
    pub context: ContextView,
    pub payload: Seq<char>,
}

/// One parsed protocol line: tag key/value pairs, context, payload.
#[derive(Debug)]
pub struct Message {
    pub token: Vec<(String, String)>,
    pub context: Context,
    pub payload: String,
}

/// The view of one tag pair: both halves as character sequences.
pub open spec fn pair_view(p: (String, String)) -> (Seq<char>, Seq<char>) {
    (p.0@, p.1@)
}

/// The views of a sequence of tag pairs.
pub open spec fn pairs_view(v: Seq<(String, String)>) -> Seq<(Seq<char>, Seq<char>)> {
    v.map_values(|p: (String, String)| pair_view(p))
}

impl View for Message {
    type V = MessageView;

    open spec fn view(&self) -> MessageView {
        MessageView {
            token: pairs_view(self.token@),
            context: self.context@,
            payload: self.payload@,
        }
    }
}

impl Clone for Message {
    fn clone(&self) -> (res: Self)
        ensures
            res@ == self@,
    {
        let mut token: Vec<(String, String)> = Vec::new();
        let mut i: usize = 0;
        while i < self.token.len()
            invariant
                0 <= i <= self.token@.len(),
                token@.len() == i,
                forall|k: int| 0 <= k < i ==> pair_view(#[trigger] token@[k]) == pair_view(
                    self.token@[k],
                ),
            decreases self.token@.len() - i,
        {
            let p = &self.token[i];
            token.push((p.0.clone(), p.1.clone()));
            i += 1;
        }
        assert(pairs_view(token@) =~= pairs_view(self.token@));
        Message { token, context: self.context.clone(), payload: self.payload.clone() }
    }
}

impl Message {
    pub fn new(token: Vec<(String, String)>, context: Context, payload: String) -> (m: Message)
        ensures
            m@ == (MessageView {
                token: pairs_view(token@),
                context: context@,
                payload: payload@,
            }),
    {
        Message { token, context, payload }
    }
}

/// One tag item split at its first `=`: the key before it, the value after.
/// An item without `=` is a key with an empty value.
pub open spec fn key_val_spec(item: Seq<char>) -> (Seq<char>, Seq<char>) {
    match crate::strutil::split_once_seq(item, seq!['=']) {
        Some(p) => p,
        None => (item, Seq::<char>::empty()),
    }
}

/// The tag list `t` split at `;` into items, each split into key and value.
pub open spec fn parse_token_spec(t: Seq<char>) -> Seq<(Seq<char>, Seq<char>)> {
    crate::strutil::split_seq(t, seq![';']).map_values(|item: Seq<char>| key_val_spec(item))
}

/// Splits a `;`-separated tag list into key/value pairs, each item cut at its
/// first `=`.
pub fn parse_irc_message_token(token: &str) -> (v: Vec<(String, String)>)
    ensures
        pairs_view(v@) == parse_token_spec(token@),
{
    proof {
        reveal_strlit(";");
        reveal_strlit("=");
        assert(";"@ =~= seq![';']);
        assert("="@ =~= seq!['=']);
    }
    let parts = crate::strutil::split_string(token, ";");
    let ghost spec_parts = crate::strutil::split_seq(token@, seq![';']);
    let mut v: Vec<(String, String)> = Vec::new();
    let mut idx: usize = 0;
    while idx < parts.len()
        invariant
            crate::strutil::str_views(parts@) == spec_parts,
            spec_parts == crate::strutil::split_seq(token@, seq![';']),
            0 <= idx <= parts@.len(),
            v@.len() == idx,
            forall|k: int| 0 <= k < idx ==> pair_view(#[trigger] v@[k]) == key_val_spec(
                spec_parts[k],
            ),
        decreases parts@.len() - idx,
    {
        let part = &parts[idx];
        assert(part@ == spec_parts[idx as int]);
        proof {
            reveal_strlit("=");
            assert("="@ =~= seq!['=']);
        }
        match crate::strutil::split_once(part.as_str(), "=") {
            Some(kv) => {
                let (key, val) = kv;
                v.push((key, val));
            },
            None => {
                v.push((part.clone(), String::new()));
            },
        }
        assert(pair_view(v@[idx as int]) == key_val_spec(spec_parts[idx as int]));
        idx += 1;
    }
    assert(pairs_view(v@) =~= parse_token_spec(token@));
    v
}

/// The context part of a line, split into whitespace-separated words: a single
/// word is a bare command; otherwise the first word (cut at its first `!`) is
/// the sender, the last word the destination, and the words between them,
/// joined with spaces, the command. No words at all give an empty context.
pub open spec fn parse_context_spec(c: Seq<char>) -> ContextView {
    let arr = crate::strutil::split_ws(c);
    if arr.len() == 0 {
        ContextView {
            sender: Seq::<char>::empty(),
            command: Seq::<char>::empty(),
            destination: Seq::<char>::empty(),
        }
    } else if arr.len() == 1 {
        ContextView {
            sender: Seq::<char>::empty(),
            command: arr[0],
            destination: Seq::<char>::empty(),
        }
    } else {
        let sender_full = arr[0];
        let sender = match crate::strutil::find_from(sender_full, seq!['!'], 0) {
            Some(i) => sender_full.subrange(0, i),
            None => sender_full,
        };
        ContextView {
            sender: sender,
            command: crate::strutil::join_spaces(arr.subrange(1, arr.len() - 1)),
            destination: arr[arr.len() - 1],
        }
    }
}

/// Splits the context part of a line into sender, command and destination.
pub fn parse_irc_message_context(context: &str) -> (c: Context)
    ensures
        c@ == parse_context_spec(context@),
{
    proof {
        reveal_strlit("!");
        assert("!"@ =~= seq!['!']);
    }
    let arr = crate::strutil::split_whitespace_vec(context);
    let ghost words = crate::strutil::split_ws(context@);
    let n = arr.len();
    if n == 0 {
        Context::new(String::new(), String::new(), String::new())
    } else if n == 1 {
        assert(arr@[0]@ == words[0]);
        Context::new(String::new(), arr[0].clone(), String::new())
    } else {
        let sender_full = &arr[0];
        assert(sender_full@ == words[0]);
        let sender = match crate::strutil::find_str(sender_full.as_str(), "!", 0) {
            Some(i) => {
                proof {
                    crate::strutil::lemma_find_from_bounds(sender_full@, "!"@, 0);
                }
                sender_full.as_str().substring_char(0, i).to_owned()
            },
            None => sender_full.clone(),
        };
        let command = crate::strutil::join_spaces_range(&arr, 1, n - 1);
        let destination = arr[n - 1].clone();
        assert(destination@ == words[words.len() - 1]);
        proof {
            assert(crate::strutil::str_views(arr@.subrange(1, n - 1)) =~= words.subrange(
                1,
                words.len() - 1,
            ));
        }
        Context::new(sender, command, destination)
    }
}

/// The three pieces of `s` cut at the first two occurrences of `pat`; pieces
/// past the end of the string are empty.
pub open spec fn splitn3_spec(s: Seq<char>, pat: Seq<char>) -> (Seq<char>, Seq<char>, Seq<char>) {
    match crate::strutil::split_once_seq(s, pat) {
        Some(p) => match crate::strutil::split_once_seq(p.1, pat) {
            Some(q) => (p.0, q.0, q.1),
            None => (p.0, p.1, Seq::<char>::empty()),
        },
        None => (s, Seq::<char>::empty(), Seq::<char>::empty()),
    }
}

/// How one raw line is carved up, by its first character:
/// - starting with `@`: tag list, context and payload, cut at the first two
///   `" :"` separators, the tag list stripped of leading `@`s;
/// - starting with `:`: no tags; context and payload are the second and third
///   pieces cut at the first two `:`s;
/// - anything else: no tags; context before the first `:`, payload after it.
///
/// Every piece is trimmed of surrounding whitespace.
pub open spec fn parse_message_spec(m: Seq<char>) -> MessageView {
    if m.len() > 0 && m[0] == '@' {
        let parts = splitn3_spec(m, seq![' ', ':']);
        MessageView {
            token: parse_token_spec(
                crate::strutil::trim_seq(crate::strutil::strip_leading(parts.0, '@')),
            ),
            context: parse_context_spec(crate::strutil::trim_seq(parts.1)),
            payload: crate::strutil::trim_seq(parts.2),
        }
    } else if m.len() > 0 && m[0] == ':' {
        let parts = splitn3_spec(m, seq![':']);
        MessageView {
            token: parse_token_spec(Seq::<char>::empty()),
            context: parse_context_spec(crate::strutil::trim_seq(parts.1)),
            payload: crate::strutil::trim_seq(parts.2),
        }
    } else {
        match crate::strutil::split_once_seq(m, seq![':']) {
            Some(p) => MessageView {
                token: parse_token_spec(Seq::<char>::empty()),
                context: parse_context_spec(crate::strutil::trim_seq(p.0)),
                payload: crate::strutil::trim_seq(p.1),
            },
            None => MessageView {
                token: parse_token_spec(Seq::<char>::empty()),
                context: parse_context_spec(crate::strutil::trim_seq(m)),
                payload: Seq::<char>::empty(),
            },
        }
    }
}

/// One inbound frame cut into protocol lines: every trailing line break
/// dropped, then split at each remaining line break.
pub open spec fn split_lines_spec(s: Seq<char>) -> Seq<Seq<char>> {
    crate::strutil::split_seq(
        crate::strutil::strip_trailing(s, seq!['\r', '\n']),
        seq!['\r', '\n'],
    )
}

/// Cuts one inbound frame into protocol lines, as [`split_lines_spec`] says.
pub fn split_irc_lines(frame: &str) -> (v: Vec<String>)
    ensures
        crate::strutil::str_views(v@) == split_lines_spec(frame@),
{
    proof {
        reveal_strlit("\r\n");
        assert("\r\n"@ =~= seq!['\r', '\n']);
    }
    let trimmed = crate::strutil::strip_trailing_str(frame, "\r\n");
    crate::strutil::split_string(trimmed.as_str(), "\r\n")
}

/// Parses one raw protocol line into its tag list, context and payload, as
/// [`parse_message_spec`] lays it out.
pub fn parse_message(msg: &String) -> (r: Message)
    ensures
        r@ == parse_message_spec(msg@),
{
    proof {
        reveal_strlit(" :");
        reveal_strlit(":");
        reveal_strlit("");
        assert(" :"@ =~= seq![' ', ':']);
        assert(":"@ =~= seq![':']);
        assert(""@ =~= Seq::<char>::empty());
    }
    let s = msg.as_str();
    let token_str: String;
    let context_str: String;
    let payload_str: String;
    if crate::strutil::starts_with_char(s, '@') {
        match crate::strutil::split_once(s, " :") {
            Some(p) => {
                let (p0, r1) = p;
                let stripped = crate::strutil::strip_leading_char(p0.as_str(), '@');
                token_str = crate::strutil::trim(stripped.as_str());
                match crate::strutil::split_once(r1.as_str(), " :") {
                    Some(q) => {
                        let (p1, p2) = q;
                        context_str = crate::strutil::trim(p1.as_str());
                        payload_str = crate::strutil::trim(p2.as_str());
                    },
                    None => {
                        context_str = crate::strutil::trim(r1.as_str());
                        payload_str = String::new();
                    },
                }
            },
            None => {
                let stripped = crate::strutil::strip_leading_char(s, '@');
                token_str = crate::strutil::trim(stripped.as_str());
                context_str = String::new();
                payload_str = String::new();
            },
        }
    } else if crate::strutil::starts_with_char(s, ':') {
        token_str = String::new();
        match crate::strutil::split_once(s, ":") {
            Some(p) => {
                let (_p0, r1) = p;
                match crate::strutil::split_once(r1.as_str(), ":") {
                    Some(q) => {
                        let (p1, p2) = q;
                        context_str = crate::strutil::trim(p1.as_str());
                        payload_str = crate::strutil::trim(p2.as_str());
                    },
                    None => {
                        context_str = crate::strutil::trim(r1.as_str());
                        payload_str = String::new();
                    },
                }
            },
            None => {
                context_str = crate::strutil::trim("");
                payload_str = String::new();
            },
        }
    } else {
        token_str = String::new();
        match crate::strutil::split_once(s, ":") {
            Some(p) => {
                let (p0, p1) = p;
                context_str = crate::strutil::trim(p0.as_str());
                payload_str = crate::strutil::trim(p1.as_str());
            },
            None => {
                context_str = crate::strutil::trim(s);
                payload_str = String::new();
            },
        }
    }
    let token_vec = parse_irc_message_token(token_str.as_str());
    let context = parse_irc_message_context(context_str.as_str());
    let r = Message::new(token_vec, context, payload_str);
    assert(r@ =~= parse_message_spec(msg@));
    r
}

} // verus!
