use chatbus::irc_parser::parse_irc_message_context;
use chatbus::irc_parser::parse_irc_message_token;
use chatbus::irc_parser::parse_message;
use chatbus::irc_parser::split_irc_lines;

#[test]
fn parse_privmsg_line() {
    let line = ":nick!user@host PRIVMSG #chan :hello world".to_string();
    let msg = parse_message(&line);
    assert_eq!(msg.context.sender, "nick");
    assert_eq!(msg.context.command, "PRIVMSG");
    assert_eq!(msg.context.destination, "#chan");
    assert_eq!(msg.payload, "hello world");
    assert_eq!(msg.token, vec![("".to_string(), "".to_string())]);
}

#[test]
fn parse_tagged_line() {
    let line = "@badge=1;color=blue :nick!u@h PRIVMSG #c :hi".to_string();
    let msg = parse_message(&line);
    assert_eq!(
        msg.token,
        vec![
            ("badge".to_string(), "1".to_string()),
            ("color".to_string(), "blue".to_string()),
        ]
    );
    assert_eq!(msg.context.sender, "nick");
    assert_eq!(msg.context.command, "PRIVMSG");
    assert_eq!(msg.context.destination, "#c");
    assert_eq!(msg.payload, "hi");
}

#[test]
fn parse_ping_line() {
    let line = "PING :tmi.twitch.tv".to_string();
    let msg = parse_message(&line);
    assert_eq!(msg.context.command, "PING");
    assert_eq!(msg.context.sender, "");
    assert_eq!(msg.context.destination, "");
    assert_eq!(msg.payload, "tmi.twitch.tv");
}

#[test]
fn parse_numeric_line() {
    let line = ":botonex.tmi.twitch.tv 366 botonex #zl1ght_ :End of /NAMES list".to_string();
    let msg = parse_message(&line);
    assert_eq!(msg.context.sender, "botonex.tmi.twitch.tv");
    assert_eq!(msg.context.command, "366 botonex");
    assert_eq!(msg.context.destination, "#zl1ght_");
    assert_eq!(msg.payload, "End of /NAMES list");
}

#[test]
fn token_items_split_at_first_equals() {
    let pairs = parse_irc_message_token("foo;a=b;c=d=e");
    assert_eq!(
        pairs,
        vec![
            ("foo".to_string(), "".to_string()),
            ("a".to_string(), "b".to_string()),
            ("c".to_string(), "d=e".to_string()),
        ]
    );
}

#[test]
fn empty_token_is_one_empty_pair() {
    assert_eq!(parse_irc_message_token(""), vec![("".to_string(), "".to_string())]);
}

#[test]
fn context_single_word_is_bare_command() {
    let c = parse_irc_message_context("PING");
    assert_eq!(c.sender, "");
    assert_eq!(c.command, "PING");
    assert_eq!(c.destination, "");
}

#[test]
fn context_without_words_is_empty() {
    let c = parse_irc_message_context("   ");
    assert_eq!(c.sender, "");
    assert_eq!(c.command, "");
    assert_eq!(c.destination, "");
}

#[test]
fn context_two_words_has_empty_command() {
    let c = parse_irc_message_context("sender!rest #dest");
    assert_eq!(c.sender, "sender");
    assert_eq!(c.command, "");
    assert_eq!(c.destination, "#dest");
}

#[test]
fn split_lines_drops_trailing_breaks() {
    let lines = split_irc_lines("one\r\ntwo\r\n");
    assert_eq!(lines, vec!["one".to_string(), "two".to_string()]);
}

#[test]
fn split_lines_single() {
    assert_eq!(split_irc_lines("solo"), vec!["solo".to_string()]);
}

#[test]
fn split_lines_keeps_inner_empties() {
    let lines = split_irc_lines("a\r\n\r\nb");
    assert_eq!(lines, vec!["a".to_string(), "".to_string(), "b".to_string()]);
}
