//! The flavor and the lifecycle state of a channel, with the text form of each.

use vstd::prelude::*;
use crate::text::{
    chars_between, chars_eq, chars_of, chars_start_with, decimal, lemma_decimal_denotes,
    parse_number, parse_unsigned, push_decimal, push_str, string_of,
};

verus! {

/// Flavor of a channel; a bounded one carries its capacity.
#[derive(Debug, Clone, Copy, PartialEq, Eq, Structural)]
pub enum ChannelType {
    Bounded(u32),
    Unbounded,
    Oneshot,
}

/// Lifecycle state of a channel.
#[derive(Debug, Clone, Copy, PartialEq, Eq, Structural)]
pub enum ChannelState {
    Active,
    Closed,
    Full,
    Notified,
}

/// Why a text was not accepted as a channel type or a channel state.
#[derive(Debug, Clone, Copy, PartialEq, Eq, Structural)]
pub enum ParseError {
    /// The text has the bounded form, but what stands in the brackets is no capacity.
    InvalidBoundedSize,
    /// The text is no channel type.
    InvalidChannelType,
    /// The text is no channel state.
    InvalidChannelState,
}

impl ParseError {
    /// The message of this error.
    pub open spec fn text(self) -> Seq<char> {
        match self {
            ParseError::InvalidBoundedSize => "invalid bounded size"@,
            ParseError::InvalidChannelType => "invalid channel type"@,
            ParseError::InvalidChannelState => "invalid channel state"@,
        }
    }

    /// The message of this error.
    pub fn message(&self) -> (s: &'static str)
        ensures
            s@ == self.text(),
    {
        match self {
            ParseError::InvalidBoundedSize => "invalid bounded size",
            ParseError::InvalidChannelType => "invalid channel type",
            ParseError::InvalidChannelState => "invalid channel state",
        }
    }
}

impl ChannelState {
    /// The lower-case name of the state.
    pub open spec fn text(self) -> Seq<char> {
        match self {
            ChannelState::Active => "active"@,
            ChannelState::Closed => "closed"@,
            ChannelState::Full => "full"@,
            ChannelState::Notified => "notified"@,
        }
    }

    /// The name of the state with a capital letter, as it stands in log lines.
    pub open spec fn name_text(self) -> Seq<char> {
        match self {
            ChannelState::Active => "Active"@,
            ChannelState::Closed => "Closed"@,
            ChannelState::Full => "Full"@,
            ChannelState::Notified => "Notified"@,
        }
    }

    /// Whether the state is final: a channel that is closed or notified stays so.
    pub open spec fn is_terminal(self) -> bool {
        self == ChannelState::Closed || self == ChannelState::Notified
    }

    /// What a text reads as: the state of that name, or an error.
    pub open spec fn parse_spec(s: Seq<char>) -> Result<ChannelState, ParseError> {
        if s == "active"@ {
            Ok(ChannelState::Active)
        } else if s == "closed"@ {
            Ok(ChannelState::Closed)
        } else if s == "full"@ {
            Ok(ChannelState::Full)
        } else if s == "notified"@ {
            Ok(ChannelState::Notified)
        } else {
            Err(ParseError::InvalidChannelState)
        }
    }

    /// The lower-case name of the state.
    pub fn as_str(&self) -> (s: &'static str)
        ensures
            s@ == self.text(),
    {
        match self {
            ChannelState::Active => "active",
            ChannelState::Closed => "closed",
            ChannelState::Full => "full",
            ChannelState::Notified => "notified",
        }
    }

    /// The name of the state with a capital letter.
    pub fn name(&self) -> (s: &'static str)
        ensures
            s@ == self.name_text(),
    {
        match self {
            ChannelState::Active => "Active",
            ChannelState::Closed => "Closed",
            ChannelState::Full => "Full",
            ChannelState::Notified => "Notified",
        }
    }

    /// The name of the state as an owned string.
    pub fn to_string(&self) -> (s: String)
        ensures
            s@ == self.text(),
    {
        let v = chars_of(self.as_str());
        string_of(&v)
    }

    /// Whether the state is final.
    pub fn terminal(&self) -> (r: bool)
        ensures
            r == self.is_terminal(),
    {
        match self {
            ChannelState::Closed => true,
            ChannelState::Notified => true,
            _ => false,
        }
    }

    /// Reads a state from its name.
    pub fn parse(s: &str) -> (r: Result<ChannelState, ParseError>)
        ensures
            r == Self::parse_spec(s@),
    {
        let v = chars_of(s);
        if chars_eq(&v, &chars_of("active")) {
            Ok(ChannelState::Active)
        } else if chars_eq(&v, &chars_of("closed")) {
            Ok(ChannelState::Closed)
        } else if chars_eq(&v, &chars_of("full")) {
            Ok(ChannelState::Full)
        } else if chars_eq(&v, &chars_of("notified")) {
            Ok(ChannelState::Notified)
        } else {
            Err(ParseError::InvalidChannelState)
        }
    }
}

impl Default for ChannelState {
    fn default() -> (s: ChannelState)
        ensures
            s == ChannelState::Active,
    {
        ChannelState::Active
    }
}

/// Reading back the name of a state gives the state.
pub proof fn lemma_state_round_trip(state: ChannelState)
    ensures
        ChannelState::parse_spec(state.text()) == Ok::<ChannelState, ParseError>(state),
{
    reveal_strlit("active");
    reveal_strlit("closed");
    reveal_strlit("full");
    reveal_strlit("notified");
    assert("active"@[0] == 'a');
    assert("closed"@[0] == 'c');
    assert("full"@[0] == 'f');
    assert("notified"@[0] == 'n');
}

impl ChannelType {
    /// The text form: `bounded[<capacity>]`, `unbounded` or `oneshot`.
    pub open spec fn text(self) -> Seq<char> {
        match self {
            ChannelType::Bounded(n) => "bounded["@ + decimal(n as nat) + "]"@,
            ChannelType::Unbounded => "unbounded"@,
            ChannelType::Oneshot => "oneshot"@,
        }
    }

    /// What a text reads as. The two plain names read as their flavors. A text that
    /// begins with `bounded[` and, after that, ends with `]` reads as a bounded
    /// channel if what stands between is a capacity, and is an invalid size if not.
    /// Every other text is no channel type.
    pub open spec fn parse_spec(s: Seq<char>) -> Result<ChannelType, ParseError> {
        if s == "unbounded"@ {
            Ok(ChannelType::Unbounded)
        } else if s == "oneshot"@ {
            Ok(ChannelType::Oneshot)
        } else if "bounded["@.is_prefix_of(s) && s.len() > "bounded["@.len() && s.last() == ']' {
            match parse_unsigned(
                s.subrange("bounded["@.len() as int, s.len() - 1),
                u32::MAX as nat,
            ) {
                Some(n) => Ok(ChannelType::Bounded(n as u32)),
                None => Err(ParseError::InvalidBoundedSize),
            }
        } else {
            Err(ParseError::InvalidChannelType)
        }
    }

    /// The text form as an owned string.
    pub fn to_string(&self) -> (s: String)
        ensures
            s@ == self.text(),
    {
        let mut v: Vec<char> = Vec::new();
        match self {
            ChannelType::Bounded(n) => {
                push_str(&mut v, "bounded[");
                push_decimal(&mut v, *n as u128);
                push_str(&mut v, "]");
            },
            ChannelType::Unbounded => {
                push_str(&mut v, "unbounded");
            },
            ChannelType::Oneshot => {
                push_str(&mut v, "oneshot");
            },
        }
        assert(v@ =~= self.text());
        string_of(&v)
    }

    /// Reads a channel type from its text form.
    pub fn parse(s: &str) -> (r: Result<ChannelType, ParseError>)
        ensures
            r == Self::parse_spec(s@),
    {
        let v = chars_of(s);
        if chars_eq(&v, &chars_of("unbounded")) {
            return Ok(ChannelType::Unbounded);
        }
        if chars_eq(&v, &chars_of("oneshot")) {
            return Ok(ChannelType::Oneshot);
        }
        let prefix = chars_of("bounded[");
        if chars_start_with(&v, &prefix) && v.len() > prefix.len() && v[v.len() - 1] == ']' {
            let inner = chars_between(&v, prefix.len(), v.len() - 1);
            match parse_number(&inner, 4294967295) {
                Some(n) => Ok(ChannelType::Bounded(n as u32)),
                None => Err(ParseError::InvalidBoundedSize),
            }
        } else {
            Err(ParseError::InvalidChannelType)
        }
    }
}

/// Reading back the text form of a channel type gives the channel type.
pub proof fn lemma_type_round_trip(kind: ChannelType)
    ensures
        ChannelType::parse_spec(kind.text()) == Ok::<ChannelType, ParseError>(kind),
{
    reveal_strlit("bounded[");
    reveal_strlit("]");
    reveal_strlit("unbounded");
    reveal_strlit("oneshot");
    match kind {
        ChannelType::Bounded(n) => {
            let p = "bounded["@;
            let d = decimal(n as nat);
            let s = kind.text();
            lemma_decimal_denotes(n as nat);
            assert(s[0] == 'b');
            assert("unbounded"@[0] == 'u');
            assert("oneshot"@[0] == 'o');
            assert(s.subrange(0, p.len() as int) =~= p);
            assert(s.subrange(p.len() as int, s.len() - 1) =~= d);
            assert(s.last() == ']');
        },
        ChannelType::Unbounded => {},
        ChannelType::Oneshot => {
            assert("unbounded"@[0] == 'u');
            assert("oneshot"@[0] == 'o');
        },
    }
}

} // verus!
