//! The translators of each provider: what they send and how they read the reply.
use vstd::prelude::*;
use vstd::string::*;
use crate::codec::{Codec, lemma_field_first};
use crate::dict::{WordExplanation, WordModel, arrive_model, example_arrive_word_explanation};
use crate::error::TranslateError;
use crate::json::{Json, json_doc, json_text, member, parse_json, to_json_text};
use crate::lang::{Language, language_name, lists_language};
use crate::normalize::{
    completion_from_envelope, completion_text, entry_from_text, entry_of, generation_from_envelope,
    generation_text,
};
use crate::providers::{
    DEEPSEEK_URL, EMPTY_RESULT, MsgRole, Outgoing, QWEN_URL, SENTENCE_PROMPT, STATUS_OK,
    WORD_PROMPT, chat_body, chat_body_value, generation_body, generation_body_value, instruction,
    instruction_text, message_json, messages_json, role_text,
};
use crate::text::owned;

verus! {

/// What every translator offers besides translating.
pub trait Translator {
    spec fn key_text(&self) -> Seq<char>;

    spec fn url_text(&self) -> Seq<char>;

    /// The API key that requests carry.
    fn get_api_key(&self) -> (r: String)
        ensures
            r@ == self.key_text(),
    ;

    /// Where requests are posted.
    fn get_url(&self) -> (r: String)
        ensures
            r@ == self.url_text(),
    ;

    /// Keys are written by the settings collaborator, never by a translator, so
    /// this always refuses.
    fn save_api_key(&self) -> (r: Result<(), TranslateError>)
        ensures
            r == Err::<(), TranslateError>(TranslateError::KeyNotSaved),
    ;
}

/// The settings of a translator.
pub struct TranslatorModel {
    pub api_key: Seq<char>,
    pub web_address: Seq<char>,
    pub supported: Seq<Language>,
    pub prompt: Seq<char>,
    pub max_tokens: u32,
}

pub struct YoudaoDictionaryWordTranslator {
    api_key: String,
    web_address: String,
    supported_languages: Vec<Language>,
}

pub struct YoudaoTextSentenceTranslator {
    api_key: String,
    web_address: String,
    supported_languages: Vec<Language>,
}

pub struct DeepSeekSentenceTranslator {
    api_key: String,
    web_address: String,
    supported_languages: Vec<Language>,
    prompt: String,
    max_tokens: u32,
}

pub struct QwenWordSentenceTranslator {
    api_key: String,
    web_address: String,
    supported_languages: Vec<Language>,
    prompt: String,
    max_tokens: u32,
}

pub open spec fn deepseek_model(api_key: Seq<char>) -> TranslatorModel {
    TranslatorModel {
        api_key,
        web_address: DEEPSEEK_URL@,
        supported: seq![Language::English, Language::Chinese, Language::Russian, Language::German],
        prompt: SENTENCE_PROMPT@,
        max_tokens: 8192,
    }
}

pub open spec fn qwen_model(api_key: Seq<char>) -> TranslatorModel {
    TranslatorModel {
        api_key,
        web_address: QWEN_URL@,
        supported: seq![
            Language::English,
            Language::Chinese,
            Language::Russian,
            Language::German,
            Language::Korean,
            Language::Japanese,
        ],
        prompt: SENTENCE_PROMPT@,
        max_tokens: 8192,
    }
}

/// The first of the two languages that `supported` lacks, if any.
pub open spec fn unsupported(supported: Seq<Language>, source: Language, target: Language) -> Option<
    Language,
> {
    if !supported.contains(source) {
        Some(source)
    } else if !supported.contains(target) {
        Some(target)
    } else {
        None
    }
}

/// The answer in the body of a chat-completion reply.
pub open spec fn completion_of(body: Seq<char>) -> Option<Seq<char>> {
    match json_doc(body) {
        Some(j) => completion_text(j),
        None => None,
    }
}

/// The answer in the body of a text-generation reply.
pub open spec fn generation_of(body: Seq<char>) -> Option<Seq<char>> {
    match json_doc(body) {
        Some(j) => generation_text(j),
        None => None,
    }
}

/// The system message of a word lookup: the word prompt with the worked entry.
pub open spec fn word_system(source: Language, target: Language) -> Seq<char> {
    instruction(WORD_PROMPT@ + json_text(WordExplanation::encode(arrive_model())), source, target)
}

impl View for DeepSeekSentenceTranslator {
    type V = TranslatorModel;

    closed spec fn view(&self) -> TranslatorModel {
        TranslatorModel {
            api_key: self.api_key@,
            web_address: self.web_address@,
            supported: self.supported_languages@,
            prompt: self.prompt@,
            max_tokens: self.max_tokens,
        }
    }
}

impl View for QwenWordSentenceTranslator {
    type V = TranslatorModel;

    closed spec fn view(&self) -> TranslatorModel {
        TranslatorModel {
            api_key: self.api_key@,
            web_address: self.web_address@,
            supported: self.supported_languages@,
            prompt: self.prompt@,
            max_tokens: self.max_tokens,
        }
    }
}

fn check_languages(supported: &Vec<Language>, source: Language, target: Language) -> (r: Result<
    (),
    TranslateError,
>)
    ensures
        r is Ok <==> unsupported(supported@, source, target) is None,
        r matches Err(e) ==> unsupported(supported@, source, target) == Some(
            e->UnsupportedLanguage_0,
        ) && e is UnsupportedLanguage,
{
    if !lists_language(supported, source) {
        Err(TranslateError::UnsupportedLanguage(source))
    } else if !lists_language(supported, target) {
        Err(TranslateError::UnsupportedLanguage(target))
    } else {
        Ok(())
    }
}

/// Whether a reply carries an answer: `Ok` for status 200, and otherwise the
/// provider's error with the status and the body.
pub fn check_status(status: u16, body: &str) -> (r: Result<(), TranslateError>)
    ensures
        r is Ok <==> status == STATUS_OK,
        status != STATUS_OK ==> (r matches Err(TranslateError::ProviderError { status: s, body: b })
            && s == status && b@ == body@),
{
    if status == STATUS_OK {
        Ok(())
    } else {
        Err(provider_error(status, body))
    }
}

fn provider_error(status: u16, body: &str) -> (r: TranslateError)
    ensures
        r matches TranslateError::ProviderError { status: s, body: b } && s == status && b@ == body@,
{
    TranslateError::ProviderError { status, body: owned(body) }
}

fn malformed(body: &str, cause: &str) -> (r: TranslateError)
    ensures
        r matches TranslateError::MalformedResponse { body: b, .. } && b@ == body@,
{
    TranslateError::MalformedResponse { body: owned(body), cause: owned(cause) }
}

impl DeepSeekSentenceTranslator {
    pub fn new(api_key: String) -> (r: Self)
        ensures
            r@ == deepseek_model(api_key@),
    {
        let r = Self {
            api_key,
            web_address: owned(DEEPSEEK_URL),
            supported_languages: vec![
                Language::English,
                Language::Chinese,
                Language::Russian,
                Language::German,
            ],
            prompt: owned(SENTENCE_PROMPT),
            max_tokens: 8192,
        };
        assert(r@.supported =~= deepseek_model(api_key@).supported);
        r
    }

    /// Decides what translating `sentence` takes: the empty sentence is answered at
    /// once, a language the provider lacks is refused, and anything else becomes the
    /// body of a request (streamed or not).
    pub fn sentence_request(
        &self,
        sentence: &str,
        source: Language,
        target: Language,
        stream: bool,
    ) -> (r: Result<Outgoing<String>, TranslateError>)
        ensures
            sentence@.len() == 0 ==> (r matches Ok(Outgoing::Ready(s)) && s@ == EMPTY_RESULT@),
            sentence@.len() > 0 ==> (r is Err <==> unsupported(self@.supported, source, target) is Some),
            sentence@.len() > 0 ==> (r matches Err(e) ==> e == TranslateError::UnsupportedLanguage(
                unsupported(self@.supported, source, target)->0,
            )),
            sentence@.len() > 0 && unsupported(self@.supported, source, target) is None ==> (r matches Ok(
                Outgoing::Send(b),
            ) && b@ == json_text(
                chat_body(
                    instruction(self@.prompt, source, target),
                    sentence@,
                    self@.max_tokens,
                    stream,
                ),
            )),
    {
        if sentence.unicode_len() == 0 {
            return Ok(Outgoing::Ready(owned(EMPTY_RESULT)));
        }
        match check_languages(&self.supported_languages, source, target) {
            Err(e) => Err(e),
            Ok(()) => {
                let system = instruction_text(self.prompt.as_str(), source, target);
                let body = chat_body_value(system, owned(sentence), self.max_tokens, stream);
                Ok(Outgoing::Send(to_json_text(&body)))
            },
        }
    }

    /// Reads the reply to a sentence request.
    pub fn sentence_reply(status: u16, body: &str) -> (r: Result<String, TranslateError>)
        ensures
            r is Ok <==> status == STATUS_OK && completion_of(body@) is Some,
            r matches Ok(t) ==> completion_of(body@) == Some(t@),
            status != STATUS_OK ==> (r matches Err(TranslateError::ProviderError { status: s, body: b })
                && s == status && b@ == body@),
            status == STATUS_OK && completion_of(body@) is None ==> (r matches Err(
                TranslateError::MalformedResponse { body: b, .. },
            ) && b@ == body@),
    {
        if let Err(e) = check_status(status, body) {
            return Err(e);
        }
        match parse_json(body) {
            None => Err(malformed(body, "the body is not JSON")),
            Some(envelope) => match completion_from_envelope(&envelope) {
                Some(t) => Ok(t),
                None => Err(malformed(body, "the body is not a chat completion")),
            },
        }
    }
}

impl QwenWordSentenceTranslator {
    pub fn new(api_key: String) -> (r: Self)
        ensures
            r@ == qwen_model(api_key@),
    {
        let r = Self {
            api_key,
            web_address: owned(QWEN_URL),
            supported_languages: vec![
                Language::English,
                Language::Chinese,
                Language::Russian,
                Language::German,
                Language::Korean,
                Language::Japanese,
            ],
            prompt: owned(SENTENCE_PROMPT),
            max_tokens: 8192,
        };
        assert(r@.supported =~= qwen_model(api_key@).supported);
        r
    }

    /// Decides what looking up `word` takes: the empty word is answered at once with
    /// an entry that holds nothing, a language the provider lacks is refused, and
    /// anything else becomes the body of a request.
    pub fn word_request(&self, word: &str, source: Language, target: Language) -> (r: Result<
        Outgoing<WordExplanation>,
        TranslateError,
    >)
        ensures
            word@.len() == 0 ==> (r matches Ok(Outgoing::Ready(w)) && w@ == (WordModel {
                word: Seq::empty(),
                phonetics: None,
                part_of_speeches: None,
            })),
            word@.len() > 0 ==> (r is Err <==> unsupported(self@.supported, source, target) is Some),
            word@.len() > 0 ==> (r matches Err(e) ==> e == TranslateError::UnsupportedLanguage(
                unsupported(self@.supported, source, target)->0,
            )),
            word@.len() > 0 && unsupported(self@.supported, source, target) is None ==> (r matches Ok(
                Outgoing::Send(b),
            ) && b@ == json_text(generation_body(word_system(source, target), word@, self@.max_tokens))),
    {
        if word.unicode_len() == 0 {
            return Ok(
                Outgoing::Ready(
                    WordExplanation { word: String::new(), phonetics: None, part_of_speeches: None },
                ),
            );
        }
        match check_languages(&self.supported_languages, source, target) {
            Err(e) => Err(e),
            Ok(()) => {
                let example = example_arrive_word_explanation().to_json();
                let mut prompt = owned(WORD_PROMPT);
                let example_text = to_json_text(&example);
                prompt.append(example_text.as_str());
                let system = instruction_text(prompt.as_str(), source, target);
                let body = generation_body_value(system, owned(word), self.max_tokens);
                Ok(Outgoing::Send(to_json_text(&body)))
            },
        }
    }

    /// Reads the reply to a word lookup.
    pub fn word_reply(status: u16, body: &str) -> (r: Result<WordExplanation, TranslateError>)
        ensures
            r is Ok <==> status == STATUS_OK && generation_of(body@) is Some && entry_of(
                generation_of(body@)->0,
            ) is Some,
            r matches Ok(w) ==> entry_of(generation_of(body@)->0) == Some(w@),
            status != STATUS_OK ==> (r matches Err(TranslateError::ProviderError { status: s, body: b })
                && s == status && b@ == body@),
            status == STATUS_OK && generation_of(body@) is None ==> (r matches Err(
                TranslateError::MalformedResponse { body: b, .. },
            ) && b@ == body@),
            status == STATUS_OK && generation_of(body@) is Some && entry_of(generation_of(body@)->0) is None
                ==> (r matches Err(TranslateError::SchemaMismatch { text: t, .. }) && t@ == generation_of(
                body@,
            )->0),
    {
        if let Err(e) = check_status(status, body) {
            return Err(e);
        }
        match parse_json(body) {
            None => Err(malformed(body, "the body is not JSON")),
            Some(envelope) => match generation_from_envelope(&envelope) {
                None => Err(malformed(body, "no valid output detected")),
                Some(text) => match entry_from_text(text.as_str()) {
                    Some(w) => Ok(w),
                    None => Err(
                        TranslateError::SchemaMismatch {
                            cause: owned("the text is not a word explanation"),
                            text,
                        },
                    ),
                },
            },
        }
    }
}

impl Translator for DeepSeekSentenceTranslator {
    open spec fn key_text(&self) -> Seq<char> {
        self@.api_key
    }

    open spec fn url_text(&self) -> Seq<char> {
        self@.web_address
    }

    fn get_api_key(&self) -> (r: String) {
        self.api_key.clone()
    }

    fn get_url(&self) -> (r: String) {
        self.web_address.clone()
    }

    fn save_api_key(&self) -> (r: Result<(), TranslateError>) {
        Err(TranslateError::KeyNotSaved)
    }
}

impl Translator for QwenWordSentenceTranslator {
    open spec fn key_text(&self) -> Seq<char> {
        self@.api_key
    }

    open spec fn url_text(&self) -> Seq<char> {
        self@.web_address
    }

    fn get_api_key(&self) -> (r: String) {
        self.api_key.clone()
    }

    fn get_url(&self) -> (r: String) {
        self.web_address.clone()
    }

    fn save_api_key(&self) -> (r: Result<(), TranslateError>) {
        Err(TranslateError::KeyNotSaved)
    }
}

/// Every request body carries under `messages`, in this order, the system message
/// that names the source and the target language, and the user's text exactly as
/// given; chat requests hold `messages` at the top, text-generation requests under
/// `input`.
pub proof fn lemma_request_messages(
    prompt: Seq<char>,
    text: Seq<char>,
    max_tokens: u32,
    stream: bool,
    source: Language,
    target: Language,
)
    ensures
        ({
            let system = instruction(prompt, source, target);
            &&& system == prompt + "。请从"@ + language_name(source) + "翻译为"@ + language_name(
                target,
            ) + "。"@
            &&& member(chat_body(system, text, max_tokens, stream), "messages"@) == Some(
                messages_json(system, text),
            )
            &&& member(generation_body(system, text, max_tokens), "input"@) matches Some(input)
                && member(input, "messages"@) == Some(messages_json(system, text))
            &&& messages_json(system, text)->Array_0.len() == 2
            &&& member(messages_json(system, text)->Array_0[0], "role"@) == Some(
                Json::Str(role_text(MsgRole::System)),
            )
            &&& member(messages_json(system, text)->Array_0[0], "content"@) == Some(
                Json::Str(system),
            )
            &&& member(messages_json(system, text)->Array_0[1], "role"@) == Some(
                Json::Str(role_text(MsgRole::User)),
            )
            &&& member(messages_json(system, text)->Array_0[1], "content"@) == Some(Json::Str(text))
        }),
{
    let system = instruction(prompt, source, target);
    reveal_strlit("messages");
    reveal_strlit("model");
    reveal_strlit("input");
    reveal_strlit("content");
    reveal_strlit("role");
    lemma_field_first(chat_body(system, text, max_tokens, stream)->Object_0, "messages"@, 0);
    let g = generation_body(system, text, max_tokens)->Object_0;
    assert(g[0].0 != "input"@) by {
        assert("model"@[0] != "input"@[0]);
    }
    lemma_field_first(g, "input"@, 1);
    lemma_field_first(g[1].1->Object_0, "messages"@, 0);
    let sys = message_json(MsgRole::System, system)->Object_0;
    let user = message_json(MsgRole::User, text)->Object_0;
    assert(sys[0].0 != "role"@) by {
        assert("content"@.len() != "role"@.len());
    }
    lemma_field_first(sys, "content"@, 0);
    lemma_field_first(sys, "role"@, 1);
    lemma_field_first(user, "content"@, 0);
    lemma_field_first(user, "role"@, 1);
}

} // verus!
