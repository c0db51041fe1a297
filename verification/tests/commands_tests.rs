use chatbus::commands::AudioType;
use chatbus::commands::BotCommand;
use chatbus::commands::BotCommands;
use chatbus::commands::CommandAction;
use chatbus::commands::bot_cmd_echo;
use chatbus::commands::bot_cmd_hello;
use chatbus::commands::handle_irc_message;
use chatbus::config::UserConfig;
use chatbus::irc_parser::parse_message;
use chatbus::speech::speech_text;

fn privmsg(payload: &str) -> chatbus::irc_parser::Message {
    parse_message(&format!(":alice!a@h PRIVMSG #chan :{}", payload))
}

fn table() -> BotCommands {
    let mut commands = BotCommands::new();
    commands.add_command("!hello", BotCommand::new("!hello", CommandAction::Hello));
    commands.add_command("!echo", BotCommand::new("!echo", CommandAction::Echo));
    commands
}

#[test]
fn hello_reply_exact() {
    let msg = privmsg("!hello");
    assert_eq!(bot_cmd_hello(&msg), "PRIVMSG #chan :Hello to you @alice!");
}

#[test]
fn echo_reply_exact() {
    let msg = privmsg("!echo something nice");
    assert_eq!(bot_cmd_echo(&msg), "PRIVMSG #chan :!echo something nice @alice!");
}

#[test]
fn route_known_command() {
    let reply = handle_irc_message(&table(), &privmsg("!hello everyone"));
    assert_eq!(reply.as_deref(), Some("PRIVMSG #chan :Hello to you @alice!"));
}

#[test]
fn route_unknown_command_is_silent() {
    assert_eq!(handle_irc_message(&table(), &privmsg("!nosuch")), None);
}

#[test]
fn route_plain_chat_is_silent() {
    assert_eq!(handle_irc_message(&table(), &privmsg("just chatting")), None);
}

#[test]
fn route_ping_answers_pong() {
    let ping = parse_message(&"PING :tmi.twitch.tv".to_string());
    assert_eq!(handle_irc_message(&table(), &ping).as_deref(), Some("PONG :tmi.twitch.tv"));
}

#[test]
fn route_other_commands_are_silent() {
    let join = parse_message(&":alice!a@h JOIN #chan".to_string());
    assert_eq!(handle_irc_message(&table(), &join), None);
}

#[test]
fn later_command_under_same_word_wins() {
    let mut commands = table();
    commands.add_command("!hello", BotCommand::new("!hello", CommandAction::Echo));
    let reply = handle_irc_message(&commands, &privmsg("!hello"));
    assert_eq!(reply.as_deref(), Some("PRIVMSG #chan :!hello @alice!"));
}

#[test]
fn command_audio_type_defaults_and_updates() {
    let c = BotCommand::new("!hello", CommandAction::Hello);
    let c = c.with_audio_type(AudioType::Chorus);
    let mut commands = BotCommands::new();
    commands.add_command("!hello", c);
    assert!(commands.get_command("!hello").is_some());
    assert!(commands.get_command("!missing").is_none());
    assert_eq!(AudioType::default(), AudioType::Normal);
}

#[test]
fn login_lines_exact() {
    let user = UserConfig {
        nick: "botonex".to_string(),
        token: "seekrit123".to_string(),
        channel: "zl1ght".to_string(),
    };
    let lines = user.login_lines();
    assert_eq!(
        lines,
        vec![
            "PASS oauth:seekrit123".to_string(),
            "NICK botonex".to_string(),
            "JOIN #zl1ght".to_string(),
            "CAP REQ :twitch.tv/tags".to_string(),
        ]
    );
}

#[test]
fn speech_text_reads_chat_only() {
    assert_eq!(speech_text(&privmsg("read me")).as_deref(), Some("read me"));
    let join = parse_message(&":alice!a@h JOIN #chan".to_string());
    assert_eq!(speech_text(&join), None);
}
