use chatbus::envelope::BusError;
use chatbus::envelope::BusMessageTrait;
use chatbus::envelope::BusMessageTypeEnum;
use chatbus::irc_parser::Context;
use chatbus::irc_parser::Message;

fn sample_message() -> Message {
    Message::new(
        vec![("badge".to_string(), "1".to_string())],
        Context::new("alice".to_string(), "PRIVMSG".to_string(), "#chan".to_string()),
        "hello".to_string(),
    )
}

#[test]
fn round_trip_string() {
    let env = "hello world".to_string().as_bus_message();
    let back = env.try_into_string().unwrap();
    assert_eq!(back, "hello world");
}

#[test]
fn round_trip_irc_message() {
    let env = sample_message().as_bus_message();
    let back = env.try_into_irc_message().unwrap();
    let expected = sample_message();
    assert_eq!(back.payload, expected.payload);
    assert_eq!(back.token, expected.token);
    assert_eq!(back.context.sender, expected.context.sender);
    assert_eq!(back.context.command, expected.context.command);
    assert_eq!(back.context.destination, expected.context.destination);
}

#[test]
fn mismatch_string_envelope_as_irc() {
    let env = "just text".to_string().as_bus_message();
    let err = env.try_into_irc_message().unwrap_err();
    assert_eq!(err, BusError::TypeMismatch);
}

#[test]
fn mismatch_irc_envelope_as_string() {
    let env = sample_message().as_bus_message();
    let err = env.try_into_string().unwrap_err();
    assert_eq!(err, BusError::TypeMismatch);
}

#[test]
fn wrap_tags_by_payload_kind() {
    assert!(matches!("x".to_string().as_bus_message(), BusMessageTypeEnum::String(_)));
    assert!(matches!(sample_message().as_bus_message(), BusMessageTypeEnum::IrcMessage(_)));
}

#[test]
fn conversion_agrees_with_wrapping() {
    let env = BusMessageTypeEnum::from("hi".to_string());
    assert_eq!(env.try_into_string().unwrap(), "hi");
    let env: BusMessageTypeEnum = sample_message().into();
    assert!(env.try_into_irc_message().is_ok());
}
