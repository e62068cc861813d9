//! Languages and providers.
use vstd::prelude::*;
use crate::text::same_text;

verus! {

#[derive(PartialEq, Eq, Structural, Clone, Copy, Debug)]
pub enum Language {
    Chinese,
    English,
    French,
    German,
    Russian,
    Japanese,
    Korean,
    Spanish,
    Auto,
}

/// The English name of a language, as requests spell it.
pub open spec fn language_name(l: Language) -> Seq<char> {
    match l {
        Language::Chinese => "Chinese"@,
        Language::English => "English"@,
        Language::French => "French"@,
        Language::German => "German"@,
        Language::Russian => "Russian"@,
        Language::Japanese => "Japanese"@,
        Language::Korean => "Korean"@,
        Language::Spanish => "Spanish"@,
        Language::Auto => "Auto"@,
    }
}

impl Language {
    pub fn name(&self) -> (r: &'static str)
        ensures
            r@ == language_name(*self),
    {
        match self {
            Language::Chinese => "Chinese",
            Language::English => "English",
            Language::French => "French",
            Language::German => "German",
            Language::Russian => "Russian",
            Language::Japanese => "Japanese",
            Language::Korean => "Korean",
            Language::Spanish => "Spanish",
            Language::Auto => "Auto",
        }
    }
}

impl Language {
    /// The language with this English name, if any.
    pub fn from_name(name: &str) -> (r: Option<Language>)
        ensures
            r matches Some(l) ==> language_name(l) == name@,
            r is None ==> forall|l: Language| language_name(l) != name@,
    {
        if same_text(name, "Chinese") {
            Some(Language::Chinese)
        } else if same_text(name, "English") {
            Some(Language::English)
        } else if same_text(name, "French") {
            Some(Language::French)
        } else if same_text(name, "German") {
            Some(Language::German)
        } else if same_text(name, "Russian") {
            Some(Language::Russian)
        } else if same_text(name, "Japanese") {
            Some(Language::Japanese)
        } else if same_text(name, "Korean") {
            Some(Language::Korean)
        } else if same_text(name, "Spanish") {
            Some(Language::Spanish)
        } else if same_text(name, "Auto") {
            Some(Language::Auto)
        } else {
            None
        }
    }
}

#[derive(PartialEq, Eq, Structural, Clone, Copy, Debug)]
pub enum AiProvider {
    DeepSeek,
    Youdao,
    Qwen,
}

/// Whether `langs` lists `l`.
pub fn lists_language(langs: &Vec<Language>, l: Language) -> (r: bool)
    ensures
        r == langs@.contains(l),
{
    let mut i: usize = 0;
    while i < langs.len()
        invariant
            i <= langs.len(),
            forall|k: int| 0 <= k < i ==> langs@[k] != l,
        decreases langs.len() - i,
    {
        if langs[i] == l {
            return true;
        }
        i = i + 1;
    }
    false
}

} // verus!
