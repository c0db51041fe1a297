use chatbus::bus::Bus;
use chatbus::bus::TypedRecv;
use chatbus::envelope::BusMessageTrait;
use chatbus::mailbox::RecvOutcome;
use chatbus::mailbox::SendOutcome;

fn text(s: &str) -> chatbus::envelope::BusMessageTypeEnum {
    s.to_string().as_bus_message()
}

#[test]
fn ping_fans_out_and_pong_comes_back() {
    let mut bus = Bus::new();
    let entity = bus.add_new_entity("A");
    let mut sub1 = bus.subscribe_to_entity("A").unwrap();
    let mut sub2 = bus.subscribe_to_entity("A").unwrap();

    entity.send_to_consumer(&mut bus, text("ping")).unwrap();

    match sub1.recv_string(&bus) {
        TypedRecv::Ready(s) => assert_eq!(s, "ping"),
        _ => panic!("subscriber 1 missed the broadcast"),
    }
    match sub2.recv_string(&bus) {
        TypedRecv::Ready(s) => assert_eq!(s, "ping"),
        _ => panic!("subscriber 2 missed the broadcast"),
    }

    assert_eq!(sub1.send(&mut bus, text("pong")), SendOutcome::Sent);
    match entity.recv_from_consumer(&mut bus) {
        RecvOutcome::Ready(env) => assert_eq!(env.try_into_string().unwrap(), "pong"),
        _ => panic!("entity missed the feedback"),
    }
}

#[test]
fn transport_loop_parses_routes_and_replies() {
    // One turn of the whole pipeline: a raw frame arrives, the transport
    // publishes each parsed line, the command processor replies over
    // feedback, and the speech consumer picks its text.
    let mut bus = Bus::new();
    let transport = bus.add_new_entity("twitch");
    let mut command_sub = bus.subscribe_to_entity("twitch").unwrap();
    let mut speech_sub = bus.subscribe_to_entity("twitch").unwrap();

    let mut commands = chatbus::commands::BotCommands::new();
    commands.add_command(
        "!hello",
        chatbus::commands::BotCommand::new("!hello", chatbus::commands::CommandAction::Hello),
    );

    let frame = ":alice!a@h PRIVMSG #chan :!hello there\r\n";
    for line in chatbus::irc_parser::split_irc_lines(frame) {
        let msg = chatbus::irc_parser::parse_message(&line);
        transport.send_to_consumer(&mut bus, msg.as_bus_message()).unwrap();
    }

    let msg = match command_sub.recv_irc_message(&bus) {
        TypedRecv::Ready(m) => m,
        _ => panic!("command processor missed the line"),
    };
    let reply = chatbus::commands::handle_irc_message(&commands, &msg).unwrap();
    assert_eq!(reply, "PRIVMSG #chan :Hello to you @alice!");
    assert_eq!(command_sub.send(&mut bus, text(&reply)), SendOutcome::Sent);

    let spoken = match speech_sub.recv_irc_message(&bus) {
        TypedRecv::Ready(m) => chatbus::speech::speech_text(&m),
        _ => panic!("speech consumer missed the line"),
    };
    assert_eq!(spoken.as_deref(), Some("!hello there"));

    match transport.recv_from_consumer(&mut bus) {
        RecvOutcome::Ready(env) => {
            assert_eq!(env.try_into_string().unwrap(), "PRIVMSG #chan :Hello to you @alice!");
        },
        _ => panic!("transport missed the reply"),
    }
}
