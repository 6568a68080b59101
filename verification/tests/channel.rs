use tokio_channels_console::channel::{ChannelState, ChannelType, ParseError};

#[test]
fn state_names_are_lower_case() {
    assert_eq!(ChannelState::Active.as_str(), "active");
    assert_eq!(ChannelState::Closed.as_str(), "closed");
    assert_eq!(ChannelState::Full.as_str(), "full");
    assert_eq!(ChannelState::Notified.as_str(), "notified");
}

#[test]
fn state_to_string_is_its_name() {
    assert_eq!(ChannelState::Full.to_string(), "full");
    assert_eq!(ChannelState::Notified.name(), "Notified");
}

#[test]
fn default_state_is_active() {
    assert_eq!(ChannelState::default(), ChannelState::Active);
}

#[test]
fn only_closed_and_notified_are_terminal() {
    assert!(!ChannelState::Active.terminal());
    assert!(!ChannelState::Full.terminal());
    assert!(ChannelState::Closed.terminal());
    assert!(ChannelState::Notified.terminal());
}

#[test]
fn state_parses_from_its_name() {
    assert_eq!(ChannelState::parse("active"), Ok(ChannelState::Active));
    assert_eq!(ChannelState::parse("closed"), Ok(ChannelState::Closed));
    assert_eq!(ChannelState::parse("full"), Ok(ChannelState::Full));
    assert_eq!(ChannelState::parse("notified"), Ok(ChannelState::Notified));
}

#[test]
fn state_rejects_other_text() {
    assert_eq!(ChannelState::parse("Active"), Err(ParseError::InvalidChannelState));
    assert_eq!(ChannelState::parse(""), Err(ParseError::InvalidChannelState));
    assert_eq!(ChannelState::parse("closed "), Err(ParseError::InvalidChannelState));
}

#[test]
fn state_round_trips_through_text() {
    for state in [
        ChannelState::Active,
        ChannelState::Closed,
        ChannelState::Full,
        ChannelState::Notified,
    ] {
        assert_eq!(ChannelState::parse(state.as_str()), Ok(state));
    }
}

#[test]
fn channel_type_text_forms() {
    assert_eq!(ChannelType::Bounded(10).to_string(), "bounded[10]");
    assert_eq!(ChannelType::Bounded(0).to_string(), "bounded[0]");
    assert_eq!(ChannelType::Bounded(u32::MAX).to_string(), "bounded[4294967295]");
    assert_eq!(ChannelType::Unbounded.to_string(), "unbounded");
    assert_eq!(ChannelType::Oneshot.to_string(), "oneshot");
}

#[test]
fn channel_type_parses_from_text() {
    assert_eq!(ChannelType::parse("unbounded"), Ok(ChannelType::Unbounded));
    assert_eq!(ChannelType::parse("oneshot"), Ok(ChannelType::Oneshot));
    assert_eq!(ChannelType::parse("bounded[123]"), Ok(ChannelType::Bounded(123)));
    assert_eq!(ChannelType::parse("bounded[+7]"), Ok(ChannelType::Bounded(7)));
    assert_eq!(ChannelType::parse("bounded[007]"), Ok(ChannelType::Bounded(7)));
    assert_eq!(ChannelType::parse("bounded[4294967295]"), Ok(ChannelType::Bounded(u32::MAX)));
}

#[test]
fn channel_type_rejects_a_bad_size() {
    assert_eq!(ChannelType::parse("bounded[]"), Err(ParseError::InvalidBoundedSize));
    assert_eq!(ChannelType::parse("bounded[x]"), Err(ParseError::InvalidBoundedSize));
    assert_eq!(ChannelType::parse("bounded[-1]"), Err(ParseError::InvalidBoundedSize));
    assert_eq!(ChannelType::parse("bounded[+]"), Err(ParseError::InvalidBoundedSize));
    assert_eq!(ChannelType::parse("bounded[1 ]"), Err(ParseError::InvalidBoundedSize));
    assert_eq!(ChannelType::parse("bounded[4294967296]"), Err(ParseError::InvalidBoundedSize));
    assert_eq!(ChannelType::parse("bounded[1]]"), Err(ParseError::InvalidBoundedSize));
}

#[test]
fn channel_type_rejects_other_text() {
    assert_eq!(ChannelType::parse(""), Err(ParseError::InvalidChannelType));
    assert_eq!(ChannelType::parse("bounded"), Err(ParseError::InvalidChannelType));
    assert_eq!(ChannelType::parse("bounded["), Err(ParseError::InvalidChannelType));
    assert_eq!(ChannelType::parse("bounded[1"), Err(ParseError::InvalidChannelType));
    assert_eq!(ChannelType::parse("Bounded[1]"), Err(ParseError::InvalidChannelType));
    assert_eq!(ChannelType::parse("unbounded "), Err(ParseError::InvalidChannelType));
    assert_eq!(ChannelType::parse("one shot"), Err(ParseError::InvalidChannelType));
}

#[test]
fn channel_type_round_trips_through_text() {
    for kind in [
        ChannelType::Bounded(0),
        ChannelType::Bounded(1),
        ChannelType::Bounded(10),
        ChannelType::Bounded(99999),
        ChannelType::Bounded(u32::MAX),
        ChannelType::Unbounded,
        ChannelType::Oneshot,
    ] {
        assert_eq!(ChannelType::parse(&kind.to_string()), Ok(kind));
    }
}

#[test]
fn parse_errors_have_messages() {
    assert_eq!(ParseError::InvalidBoundedSize.message(), "invalid bounded size");
    assert_eq!(ParseError::InvalidChannelType.message(), "invalid channel type");
    assert_eq!(ParseError::InvalidChannelState.message(), "invalid channel state");
}
