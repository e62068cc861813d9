//! The settings record and the key store.
use vstd::prelude::*;
use crate::lang::AiProvider;

verus! {

pub struct BackendManager {
    api_key: String,
    url: String,
}

pub struct BackendModel {
    pub api_key: Seq<char>,
    pub url: Seq<char>,
}

impl View for BackendManager {
    type V = BackendModel;

    closed spec fn view(&self) -> BackendModel {
        BackendModel { api_key: self.api_key@, url: self.url@ }
    }
}

impl BackendManager {
    pub fn new(api_key: String, url: String) -> (r: Self)
        ensures
            r@ == (BackendModel { api_key: api_key@, url: url@ }),
    {
        BackendManager { api_key, url }
    }

    pub fn get_api_key(&self) -> (r: &str)
        ensures
            r@ == self@.api_key,
    {
        self.api_key.as_str()
    }

    pub fn get_url(&self) -> (r: &str)
        ensures
            r@ == self@.url,
    {
        self.url.as_str()
    }

    /// Replaces the stored key; the address stays.
    pub fn save_api_key(&mut self, api_key: String)
        ensures
            final(self)@ == (BackendModel { api_key: api_key@, url: old(self)@.url }),
    {
        self.api_key = api_key;
    }
}

#[derive(Debug, PartialEq)]
pub struct Settings {
    pub ai_accounts: Option<AiAccounts>,
    pub appearance: Option<Appearance>,
    pub behaviour: Option<Behaviour>,
}

#[derive(Debug, PartialEq)]
pub struct AiAccounts {
    pub deepseek: Option<DeepSeek>,
    pub qwen: Option<Qwen>,
}

#[derive(Debug, PartialEq)]
pub struct DeepSeek {
    pub api_key: String,
}

#[derive(Debug, PartialEq)]
pub struct Qwen {
    pub api_key: String,
}

#[derive(Debug, PartialEq)]
pub struct Appearance {
    pub colour_theme: ColourTheme,
}

#[derive(PartialEq, Eq, Structural, Clone, Copy, Debug)]
pub enum ColourTheme {
    Light,
    Dark,
    Auto,
}

#[derive(Debug, PartialEq)]
pub struct Behaviour {
    pub auto_scroll: bool,
}

#[derive(Debug, PartialEq)]
pub struct WordTranslation {
    pub auto_translation: bool,
}

#[derive(Debug, PartialEq)]
pub struct SentenceTranslation {
    pub auto_translation: bool,
}

/// The settings written when there is no configuration yet: the theme follows the system.
pub fn default_settings() -> (r: Settings)
    ensures
        r.ai_accounts is None,
        r.behaviour is None,
        r.appearance matches Some(a) && a.colour_theme == ColourTheme::Auto,
{
    Settings {
        ai_accounts: None,
        behaviour: None,
        appearance: Some(Appearance { colour_theme: ColourTheme::Auto }),
    }
}

/// The key stored for `provider`, where the settings hold one.
pub open spec fn stored_key(s: Settings, provider: AiProvider) -> Option<Seq<char>> {
    match s.ai_accounts {
        Some(accounts) => match provider {
            AiProvider::DeepSeek => match accounts.deepseek {
                Some(d) => Some(d.api_key@),
                None => None,
            },
            AiProvider::Qwen => match accounts.qwen {
                Some(q) => Some(q.api_key@),
                None => None,
            },
            AiProvider::Youdao => None,
        },
        None => None,
    }
}

/// The API key that the settings hold for `provider`.
pub fn api_key_for(settings: &Settings, provider: AiProvider) -> (r: Option<String>)
    ensures
        match r {
            Some(k) => stored_key(*settings, provider) == Some(k@),
            None => stored_key(*settings, provider) is None,
        },
{
    match &settings.ai_accounts {
        Some(accounts) => match provider {
            AiProvider::DeepSeek => match &accounts.deepseek {
                Some(d) => Some(d.api_key.clone()),
                None => None,
            },
            AiProvider::Qwen => match &accounts.qwen {
                Some(q) => Some(q.api_key.clone()),
                None => None,
            },
            AiProvider::Youdao => None,
        },
        None => None,
    }
}

} // verus!
