//! Settings that a channel or a server can change: how a value is read
//! from text, and which of the stored values counts.

use crate::services::{ChannelId, ServerId};
use crate::text::{
    byte_len, decimal, extend_chars, format_u64, parse_bounded, parse_unsigned, slice, str_eq, string_of,
    to_chars, trim_range, trimmed,
};
use vstd::prelude::*;

verus! {

/// What a setting is changed for.
#[derive(Copy, Clone, Debug, PartialEq, Eq, Structural)]
pub enum SettingContext {
    Channel(ChannelId),
    Server(ServerId),
}

/// The kinds of value that are read from text word by word.
#[derive(Copy, Clone, Debug, PartialEq, Eq, Structural)]
pub enum SettingType {
    Bool,
}

/// Why a value was not accepted.
#[derive(Clone, Debug)]
pub enum SettingError {
    /// The text does not stand for a value of the kind.
    UnexpectedInput { expected: SettingType, input: String },
    /// The text is longer than the setting allows, in bytes.
    ExceededMaxLength { max: usize, length: usize },
}

/// An error with its text as a sequence of characters.
pub enum SettingErrorView {
    UnexpectedInput { expected: SettingType, input: Seq<char> },
    ExceededMaxLength { max: usize, length: usize },
}

impl View for SettingError {
    type V = SettingErrorView;

    open spec fn view(&self) -> SettingErrorView {
        match self {
            SettingError::UnexpectedInput { expected, input } => SettingErrorView::UnexpectedInput {
                expected: *expected,
                input: input@,
            },
            SettingError::ExceededMaxLength { max, length } => SettingErrorView::ExceededMaxLength {
                max: *max,
                length: *length,
            },
        }
    }
}

/// The words of an error.
pub open spec fn setting_error_message(e: SettingErrorView) -> Seq<char> {
    match e {
        SettingErrorView::UnexpectedInput { expected, input } => "unable to parse \""@ + input
            + "\" as Bool"@,
        SettingErrorView::ExceededMaxLength { max, length } => "len "@ + decimal(length as nat)
            + " exceeded max length "@ + decimal(max as nat),
    }
}

impl SettingError {
    /// The error in words.
    pub fn message(&self) -> (r: String)
        ensures
            r@ == setting_error_message(self@),
    {
        match self {
            SettingError::UnexpectedInput { expected, input } => {
                let mut out = to_chars("unable to parse \"");
                extend_chars(&mut out, &to_chars(input.as_str()));
                extend_chars(&mut out, &to_chars("\" as Bool"));
                string_of(&out)
            },
            SettingError::ExceededMaxLength { max, length } => {
                let mut out = to_chars("len ");
                extend_chars(&mut out, &format_u64(*length as u64));
                extend_chars(&mut out, &to_chars(" exceeded max length "));
                extend_chars(&mut out, &format_u64(*max as u64));
                string_of(&out)
            },
        }
    }
}

/// A kind of value that a setting can hold.
pub trait SettingValue: Clone + Sized {
    /// What bounds the values of a setting of this kind.
    type Parameters;

    /// Whether a value is within the bounds.
    spec fn valid(value: &Self, parameters: &Self::Parameters) -> bool;

    /// Whether `value` is what the text stands for within the bounds.
    spec fn stands_for(input: Seq<char>, parameters: &Self::Parameters, value: &Self) -> bool;

    /// Whether the text stands for a value within the bounds.
    spec fn readable(input: Seq<char>, parameters: &Self::Parameters) -> bool;

    /// Holds a value against the bounds.
    fn is_valid(value: &Self, parameters: &Self::Parameters) -> (r: Result<(), SettingError>)
        ensures
            r is Ok == Self::valid(value, parameters),
    ;

    /// Reads a value from text.
    fn set_value(input: &str, parameters: &Self::Parameters) -> (r: Result<Self, SettingError>)
        ensures
            r is Ok == Self::readable(input@, parameters),
            r matches Ok(value) ==> Self::stands_for(input@, parameters, &value),
    ;
}

/// The bounds of a setting that is on or off: there are none.
#[derive(Default)]
pub struct SettingBoolParameters {}

/// What a text says of a setting that is on or off. The white space
/// around it does not count. `true` is on and `false` is off; a number
/// that fits in 32 bits is on unless it is zero.
pub open spec fn bool_of(input: Seq<char>) -> Option<bool> {
    let word = trimmed(input);
    if word == "true"@ {
        Some(true)
    } else if word == "false"@ {
        Some(false)
    } else {
        match parse_unsigned(word, u32::MAX as nat) {
            Some(n) => Some(n > 0),
            None => None,
        }
    }
}

impl SettingValue for bool {
    type Parameters = SettingBoolParameters;

    open spec fn valid(value: &bool, parameters: &SettingBoolParameters) -> bool {
        true
    }

    open spec fn stands_for(
        input: Seq<char>,
        parameters: &SettingBoolParameters,
        value: &bool,
    ) -> bool {
        bool_of(input) == Some(*value)
    }

    open spec fn readable(input: Seq<char>, parameters: &SettingBoolParameters) -> bool {
        bool_of(input) is Some
    }

    fn is_valid(_value: &bool, _parameters: &SettingBoolParameters) -> (r: Result<
        (),
        SettingError,
    >) {
        Ok(())
    }

    fn set_value(input: &str, _parameters: &SettingBoolParameters) -> (r: Result<
        bool,
        SettingError,
    >)
        ensures
            r matches Err(e) ==> e@ == (SettingErrorView::UnexpectedInput {
                expected: SettingType::Bool,
                input: input@,
            }),
    {
        let chars = to_chars(input);
        let (lo, hi) = trim_range(&chars);
        let word = slice(&chars, lo, hi);
        let text = string_of(&word);
        if str_eq(text.as_str(), "true") {
            return Ok(true);
        }
        if str_eq(text.as_str(), "false") {
            return Ok(false);
        }
        match parse_bounded(&word, 0xffff_ffff) {
            Some(n) => Ok(n > 0),
            None => Err(
                SettingError::UnexpectedInput {
                    expected: SettingType::Bool,
                    input: string_of(&chars),
                },
            ),
        }
    }
}

/// The bounds of a setting that holds a text.
#[derive(Default)]
pub struct SettingStringParameters {
    /// The most bytes that the text may take, if there is a bound.
    pub max_len: Option<usize>,
}

/// Whether a text is within the bounds.
pub open spec fn text_fits(text: Seq<char>, parameters: &SettingStringParameters) -> bool {
    match parameters.max_len {
        Some(max) => byte_len(text) <= max,
        None => true,
    }
}

fn check_len(value: &str, parameters: &SettingStringParameters) -> (r: Result<(), SettingError>)
    ensures
        r is Ok == text_fits(value@, parameters),
        r matches Err(e) ==> parameters.max_len is Some && e@
            == (SettingErrorView::ExceededMaxLength {
            max: parameters.max_len.unwrap(),
            length: byte_len(value@) as usize,
        }),
{
    match parameters.max_len {
        Some(max) => {
            let len = value.as_bytes().len();
            if len > max {
                Err(SettingError::ExceededMaxLength { max, length: len })
            } else {
                Ok(())
            }
        },
        None => Ok(()),
    }
}

impl SettingValue for String {
    type Parameters = SettingStringParameters;

    open spec fn valid(value: &String, parameters: &SettingStringParameters) -> bool {
        text_fits(value@, parameters)
    }

    open spec fn stands_for(
        input: Seq<char>,
        parameters: &SettingStringParameters,
        value: &String,
    ) -> bool {
        value@ == input
    }

    open spec fn readable(input: Seq<char>, parameters: &SettingStringParameters) -> bool {
        text_fits(input, parameters)
    }

    fn is_valid(value: &String, parameters: &SettingStringParameters) -> (r: Result<
        (),
        SettingError,
    >)
        ensures
            r matches Err(e) ==> parameters.max_len is Some && e@
                == (SettingErrorView::ExceededMaxLength {
                max: parameters.max_len.unwrap(),
                length: byte_len(value@) as usize,
            }),
    {
        check_len(value.as_str(), parameters)
    }

    fn set_value(input: &str, parameters: &SettingStringParameters) -> (r: Result<
        String,
        SettingError,
    >)
        ensures
            r matches Err(e) ==> parameters.max_len is Some && e@
                == (SettingErrorView::ExceededMaxLength {
                max: parameters.max_len.unwrap(),
                length: byte_len(input@) as usize,
            }),
    {
        match check_len(input, parameters) {
            Ok(()) => Ok(string_of(&to_chars(input))),
            Err(e) => Err(e),
        }
    }
}

/// A server's value comes before a channel's.
pub const SERVER_OVERRIDE: u8 = 1;

/// What is special about a setting, one bit each.
#[derive(Copy, Clone, Debug, PartialEq, Eq, Structural)]
pub struct SettingFlags {
    pub bits: u8,
}

impl SettingFlags {
    /// Nothing special.
    pub fn empty() -> (r: SettingFlags)
        ensures
            r.bits == 0,
    {
        SettingFlags { bits: 0 }
    }

    /// Whether every flag of `other` is set.
    pub open spec fn has(self, other: SettingFlags) -> bool {
        self.bits & other.bits == other.bits
    }

    /// Whether every flag of `other` is set.
    pub fn contains(&self, other: SettingFlags) -> (r: bool)
        ensures
            r == self.has(other),
    {
        self.bits & other.bits == other.bits
    }
}

/// Where a value of a setting is stored.
#[derive(Copy, Clone, Debug, PartialEq, Eq, Structural)]
pub enum SettingSource {
    Server,
    Channel,
}

/// Where a setting's value is looked for first: with the channel, unless
/// the setting says that the server comes first.
pub fn first_source(flags: SettingFlags) -> (r: SettingSource)
    ensures
        r == if flags.has(SettingFlags { bits: SERVER_OVERRIDE }) {
            SettingSource::Server
        } else {
            SettingSource::Channel
        },
{
    if flags.contains(SettingFlags { bits: SERVER_OVERRIDE }) {
        SettingSource::Server
    } else {
        SettingSource::Channel
    }
}

/// The value that counts: the one found first, else the one found
/// second, else the default.
pub fn resolve_value<T>(first: Option<T>, second: Option<T>, default: T) -> (r: T)
    ensures
        r == match first {
            Some(value) => value,
            None => match second {
                Some(value) => value,
                None => default,
            },
        },
{
    match first {
        Some(value) => value,
        None => match second {
            Some(value) => value,
            None => default,
        },
    }
}

/// The value that a stored text stands for; a text that stands for none
/// counts as nothing stored.
pub fn stored_value<T: SettingValue>(raw: Option<&str>, parameters: &T::Parameters) -> (r: Option<
    T,
>)
    ensures
        r is Some == (raw matches Some(text) && T::readable(text@, parameters)),
        r matches Some(value) ==> T::stands_for(raw.unwrap()@, parameters, &value),
{
    match raw {
        None => None,
        Some(text) => match T::set_value(text, parameters) {
            Ok(value) => Some(value),
            Err(_) => None,
        },
    }
}

/// The key under which a setting of a module is stored: the module's
/// name, a slash, the setting's name.
pub fn setting_key(module_id: &str, name: &str) -> (r: String)
    ensures
        r@ == module_id@ + seq!['/'] + name@,
{
    let mut out = to_chars(module_id);
    out.push('/');
    extend_chars(&mut out, &to_chars(name));
    string_of(&out)
}

/// What a script changes a setting for: the server of the message if it
/// asks for the server, else the channel of the message.
pub fn setting_context(for_server: bool, channel: ChannelId, server: ServerId) -> (r:
    SettingContext)
    ensures
        r == if for_server {
            SettingContext::Server(server)
        } else {
            SettingContext::Channel(channel)
        },
{
    if for_server {
        SettingContext::Server(server)
    } else {
        SettingContext::Channel(channel)
    }
}

} // verus!
