//! The commands that the bot answers, each with what it registers and what it replies.

pub mod code;
pub mod cracktime;
pub mod license;
pub mod pswd;

use vstd::prelude::*;

verus! {

/// What a caller filled into one option of a command.
pub enum OptionValue {
    /// A text.
    Text(String),
    /// A whole number.
    Integer(i64),
    /// Anything else a transport may carry.
    Other,
}

/// The kind of value that an option of a command takes.
#[derive(Clone, Copy, Debug, PartialEq, Eq, Structural)]
pub enum OptionKind {
    /// A text.
    Text,
    /// A whole number.
    Integer,
}

/// One option of a command, as it is announced to the transport.
pub struct OptionSpec {
    pub kind: OptionKind,
    pub name: &'static str,
    pub description: &'static str,
    pub required: bool,
    /// The least and the greatest number accepted, where the option is a bounded number.
    pub int_range: Option<(u64, u64)>,
}

/// A command, as it is announced to the transport.
pub struct CommandSpec {
    pub name: &'static str,
    pub description: &'static str,
    pub options: Vec<OptionSpec>,
}

/// The strength that a command assumes where the caller names none.
pub const DEFAULT_STRENGTH: u32 = 6;

/// The number that the option at `position` carries, if it carries one.
pub open spec fn integer_at(options: Seq<OptionValue>, position: int) -> Option<i64> {
    if 0 <= position < options.len() {
        match options[position] {
            OptionValue::Integer(n) => Some(n),
            _ => None,
        }
    } else {
        None
    }
}

/// The text that the option at `position` carries, if it carries one.
pub open spec fn text_at(options: Seq<OptionValue>, position: int) -> Option<Seq<char>> {
    if 0 <= position < options.len() {
        match options[position] {
            OptionValue::Text(t) => Some(t@),
            _ => None,
        }
    } else {
        None
    }
}

/// Reads the number in the option at `position`, if there is one.
pub fn integer_option(options: &[OptionValue], position: usize) -> (number: Option<i64>)
    ensures
        number == integer_at(options@, position as int),
{
    if position < options.len() {
        match &options[position] {
            OptionValue::Integer(n) => Some(*n),
            _ => None,
        }
    } else {
        None
    }
}

/// Reads the text in the option at `position`, if there is one.
pub fn text_option(options: &[OptionValue], position: usize) -> (text: Option<&str>)
    ensures
        match text {
            Some(t) => text_at(options@, position as int) == Some(t@),
            None => text_at(options@, position as int).is_none(),
        },
{
    if position < options.len() {
        match &options[position] {
            OptionValue::Text(t) => Some(t.as_str()),
            _ => None,
        }
    } else {
        None
    }
}

} // verus!
