//! The shell module: it looks for its prefix and does nothing yet.

use crate::text::{from_chars, starts_with, string_of, strip_prefix, to_chars};
use vstd::prelude::*;

verus! {

/// The settings of the shell module as they hold for one channel.
#[derive(Clone, Debug)]
pub struct ShellModule {
    /// Whether the module is on.
    pub enable: bool,
    /// What a shell command begins with.
    pub prefix: String,
}

impl ShellModule {
    /// The module as it is when nothing was changed: on, with `$` in
    /// front of its commands.
    pub fn new() -> (r: ShellModule)
        ensures
            r.enable,
            r.prefix@ == "$"@,
    {
        ShellModule { enable: true, prefix: string_of(&to_chars("$")) }
    }

    /// Whether the module is on.
    pub fn enabled(&self) -> (r: bool)
        ensures
            r == self.enable,
    {
        self.enable
    }

    /// The command in a message: what follows the prefix, if the message
    /// opens with it.
    pub fn message(&self, content: &str) -> (r: Option<String>)
        ensures
            r is Some == strip_prefix(content@, self.prefix@) is Some,
            r matches Some(rest) ==> Some(rest@) == strip_prefix(content@, self.prefix@),
    {
        let chars = to_chars(content);
        let prefix = to_chars(self.prefix.as_str());
        if starts_with(&chars, &prefix) {
            Some(from_chars(&chars, prefix.len(), chars.len()))
        } else {
            None
        }
    }
}

} // verus!
