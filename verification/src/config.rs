//! The configuration that is saved between runs: the interface language, the
//! chosen interface and the rules.
use vstd::prelude::*;

verus! {

/// The interface language; Turkish unless the user chose English.
#[derive(Debug, Clone, Copy, PartialEq, Eq, Structural)]
pub enum Language {
    En,
    Tr,
}

impl Default for Language {
    fn default() -> (r: Self)
        ensures
            r == Language::Tr,
    {
        Language::Tr
    }
}

/// The language at a position of the language list: 1 is English, any
/// other position Turkish.
pub open spec fn language_at(index: u32) -> Language {
    if index == 1 {
        Language::En
    } else {
        Language::Tr
    }
}

/// The position of a language in the language list.
pub open spec fn language_index(l: Language) -> u32 {
    match l {
        Language::Tr => 0,
        Language::En => 1,
    }
}

impl Language {
    pub fn from_index(index: u32) -> (r: Self)
        ensures
            r == language_at(index),
    {
        match index {
            1 => Language::En,
            _ => Language::Tr,
        }
    }

    pub fn index(self) -> (r: u32)
        ensures
            r == language_index(self),
    {
        match self {
            Language::Tr => 0,
            Language::En => 1,
        }
    }
}

/// A saved rule: its target as text, whether it is a domain, and its
/// interface.
#[derive(Debug, Clone)]
pub struct PersistedRule {
    pub target_str: String,
    pub is_domain: bool,
    pub interface: String,
}

/// Everything that is saved.
#[derive(Debug)]
pub struct PersistedState {
    pub language: Language,
    pub alt_interface: Option<String>,
    pub rules: Vec<PersistedRule>,
}

impl Default for PersistedState {
    fn default() -> (r: Self)
        ensures
            r.language == Language::Tr,
            r.alt_interface is None,
            r.rules@.len() == 0,
    {
        PersistedState { language: Language::Tr, alt_interface: None, rules: Vec::new() }
    }
}

impl PersistedState {
    /// The state with the language changed and all else kept: what saving a
    /// new language writes over the loaded state.
    pub fn save_language(&mut self, language: Language)
        ensures
            final(self).language == language,
            final(self).alt_interface == old(self).alt_interface,
            final(self).rules == old(self).rules,
    {
        self.language = language;
    }
}

} // verus!
