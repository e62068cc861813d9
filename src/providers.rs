//! What is sent to each provider and how its reply is read.
use vstd::prelude::*;
use vstd::string::*;
use crate::json::{Json, JsonValue, jsons_of, lemma_jsons_of, lemma_members_of, members_of};
use crate::lang::{Language, language_name};
use crate::text::{decimal, owned, write_decimal};

verus! {

#[derive(PartialEq, Eq, Structural, Clone, Copy, Debug)]
pub enum MsgRole {
    System,
    User,
    Assistant,
}

pub open spec fn role_text(r: MsgRole) -> Seq<char> {
    match r {
        MsgRole::System => "system"@,
        MsgRole::User => "user"@,
        MsgRole::Assistant => "assistant"@,
    }
}

impl MsgRole {
    /// The role as the providers spell it.
    pub fn as_str(&self) -> (r: &'static str)
        ensures
            r@ == role_text(*self),
    {
        match self {
            MsgRole::System => "system",
            MsgRole::User => "user",
            MsgRole::Assistant => "assistant",
        }
    }
}

#[derive(PartialEq, Eq, Structural, Clone, Copy, Debug)]
pub enum ResponseFormatObj {
    JsonObject,
    Text,
}

pub open spec fn format_text(f: ResponseFormatObj) -> Seq<char> {
    match f {
        ResponseFormatObj::JsonObject => "json_object"@,
        ResponseFormatObj::Text => "text"@,
    }
}

impl ResponseFormatObj {
    pub fn as_str(&self) -> (r: &'static str)
        ensures
            r@ == format_text(*self),
    {
        match self {
            ResponseFormatObj::JsonObject => "json_object",
            ResponseFormatObj::Text => "text",
        }
    }
}

/// What a request comes to before anything is sent.
#[derive(Debug, PartialEq)]
pub enum Outgoing<T> {
    /// The answer is known without asking the provider.
    Ready(T),
    /// The JSON body to post to the provider.
    Send(String),
}

/// The status of a reply that carries an answer.
pub const STATUS_OK: u16 = 200;

/// The answer to an empty sentence, given without asking any provider.
pub const EMPTY_RESULT: &'static str = "empty";

pub const DEEPSEEK_URL: &'static str = "https://api.deepseek.com/chat/completions";

pub const QWEN_URL: &'static str = "https://dashscope.aliyuncs.com/api/v1/services/aigc/text-generation/generation";

pub const SENTENCE_PROMPT: &'static str = "请翻译以下句子。你只需要输出翻译结果，不要输出任何与翻译无关的内容。应注意用词应尽可能准确，不应改变原句的内容，同时恰到好处地还原原句的情感和写作风格。";

/// The head of the word prompt; the worked entry for "arrive" follows it.
pub const WORD_PROMPT: &'static str = "请你翻译以下单词或词组，给出音标、解释、搭配和例句。以json格式输出。\n若单词并不存在，你应回复一个最为接近的词语，并给出相应的解释；若没有相似的词语，按照我给定的json格式，只回复 {word: $word} 即可\n警告：你输出的内容应只包括json，诸如“```json```”等非json格式的内容会影响到结果解析。\n注：可选的词性有：[`noun`, `verb`, `adj.`, `adv.`, `pron.`, `prep.`, `conj.`, `interj.`, `other`]\n例：\nUser:\narrive\nAssistant:\n";

/// The system message: the instructions, then the pair of languages.
pub open spec fn instruction(prompt: Seq<char>, source: Language, target: Language) -> Seq<char> {
    prompt + "。请从"@ + language_name(source) + "翻译为"@ + language_name(target) + "。"@
}

pub open spec fn message_json(role: MsgRole, content: Seq<char>) -> Json {
    Json::Object(seq![("content"@, Json::Str(content)), ("role"@, Json::Str(role_text(role)))])
}

/// The system message, then the user's text.
pub open spec fn messages_json(system: Seq<char>, user: Seq<char>) -> Json {
    Json::Array(seq![message_json(MsgRole::System, system), message_json(MsgRole::User, user)])
}

/// The body of a chat-completion request.
pub open spec fn chat_body(system: Seq<char>, text: Seq<char>, max_tokens: u32, stream: bool) -> Json {
    Json::Object(
        seq![
            ("messages"@, messages_json(system, text)),
            ("model"@, Json::Str("deepseek-chat"@)),
            ("max_tokens"@, Json::Number(decimal(max_tokens as nat))),
            ("response_format"@, Json::Object(seq![("type"@, Json::Str(format_text(ResponseFormatObj::Text)))])),
            ("stream"@, Json::Bool(stream)),
            ("temperature"@, Json::Number("1.3"@)),
            ("logprobs"@, Json::Bool(false)),
        ],
    )
}

/// The sampling parameters of a text-generation request.
pub open spec fn generation_parameters(max_tokens: u32) -> Json {
    Json::Object(
        seq![
            ("temperature"@, Json::Number("1.0"@)),
            ("top_k"@, Json::Number("50"@)),
            ("enable_thinking"@, Json::Bool(false)),
            ("repetition_penalty"@, Json::Number("1.0"@)),
            ("presence_penalty"@, Json::Number("0.0"@)),
            ("max_tokens"@, Json::Number(decimal(max_tokens as nat))),
        ],
    )
}

/// The body of a text-generation request.
pub open spec fn generation_body(system: Seq<char>, text: Seq<char>, max_tokens: u32) -> Json {
    Json::Object(
        seq![
            ("model"@, Json::Str("qwen3-235b-a22b"@)),
            ("input"@, Json::Object(seq![("messages"@, messages_json(system, text))])),
            ("stream"@, Json::Bool(false)),
            ("parameters"@, generation_parameters(max_tokens)),
        ],
    )
}

fn key_value(key: &str, value: JsonValue) -> (r: (String, JsonValue))
    ensures
        r.0@ == key@,
        r.1 == value,
{
    (owned(key), value)
}

fn text_value(s: &str) -> (r: JsonValue)
    ensures
        r@ == Json::Str(s@),
{
    JsonValue::Str(owned(s))
}

fn number_value(n: u32) -> (r: JsonValue)
    ensures
        r@ == Json::Number(decimal(n as nat)),
{
    let mut s = String::new();
    write_decimal(n, &mut s);
    assert(s@ =~= decimal(n as nat));
    JsonValue::Number(s)
}

fn message_value(role: MsgRole, content: String) -> (r: JsonValue)
    ensures
        r@ == message_json(role, content@),
{
    let ms = vec![key_value("content", JsonValue::Str(content)), key_value("role", text_value(role.as_str()))];
    proof {
        lemma_members_of(ms@);
    }
    assert(members_of(ms@) =~= seq![("content"@, Json::Str(content@)), ("role"@, Json::Str(role_text(role)))]);
    JsonValue::Object(ms)
}

fn messages_value(system: String, user: String) -> (r: JsonValue)
    ensures
        r@ == messages_json(system@, user@),
{
    let items = vec![message_value(MsgRole::System, system), message_value(MsgRole::User, user)];
    proof {
        lemma_jsons_of(items@);
    }
    assert(jsons_of(items@) =~= seq![message_json(MsgRole::System, system@), message_json(MsgRole::User, user@)]);
    JsonValue::Array(items)
}

pub(crate) fn chat_body_value(system: String, text: String, max_tokens: u32, stream: bool) -> (r: JsonValue)
    ensures
        r@ == chat_body(system@, text@, max_tokens, stream),
{
    let fmt = vec![key_value("type", text_value(ResponseFormatObj::Text.as_str()))];
    proof {
        lemma_members_of(fmt@);
    }
    assert(members_of(fmt@) =~= seq![("type"@, Json::Str(format_text(ResponseFormatObj::Text)))]);
    let ms = vec![
        key_value("messages", messages_value(system, text)),
        key_value("model", text_value("deepseek-chat")),
        key_value("max_tokens", number_value(max_tokens)),
        key_value("response_format", JsonValue::Object(fmt)),
        key_value("stream", JsonValue::Bool(stream)),
        key_value("temperature", JsonValue::Number(owned("1.3"))),
        key_value("logprobs", JsonValue::Bool(false)),
    ];
    proof {
        lemma_members_of(ms@);
    }
    assert(members_of(ms@) =~= chat_body(system@, text@, max_tokens, stream)->Object_0);
    JsonValue::Object(ms)
}

pub(crate) fn generation_body_value(system: String, text: String, max_tokens: u32) -> (r: JsonValue)
    ensures
        r@ == generation_body(system@, text@, max_tokens),
{
    let input = vec![key_value("messages", messages_value(system, text))];
    proof {
        lemma_members_of(input@);
    }
    assert(members_of(input@) =~= seq![("messages"@, messages_json(system@, text@))]);
    let params = vec![
        key_value("temperature", JsonValue::Number(owned("1.0"))),
        key_value("top_k", JsonValue::Number(owned("50"))),
        key_value("enable_thinking", JsonValue::Bool(false)),
        key_value("repetition_penalty", JsonValue::Number(owned("1.0"))),
        key_value("presence_penalty", JsonValue::Number(owned("0.0"))),
        key_value("max_tokens", number_value(max_tokens)),
    ];
    proof {
        lemma_members_of(params@);
    }
    assert(members_of(params@) =~= generation_parameters(max_tokens)->Object_0);
    let ms = vec![
        key_value("model", text_value("qwen3-235b-a22b")),
        key_value("input", JsonValue::Object(input)),
        key_value("stream", JsonValue::Bool(false)),
        key_value("parameters", JsonValue::Object(params)),
    ];
    proof {
        lemma_members_of(ms@);
    }
    assert(members_of(ms@) =~= generation_body(system@, text@, max_tokens)->Object_0);
    JsonValue::Object(ms)
}

/// The system message asking for text in `source` to be put into `target`.
pub fn instruction_text(prompt: &str, source: Language, target: Language) -> (r: String)
    ensures
        r@ == instruction(prompt@, source, target),
{
    let mut r = owned(prompt);
    r.append("。请从");
    r.append(source.name());
    r.append("翻译为");
    r.append(target.name());
    r.append("。");
    r
}

/// Whether a reply with this status carries an answer.
pub fn accepts_status(status: u16) -> (r: bool)
    ensures
        r == (status == STATUS_OK),
{
    status == STATUS_OK
}

} // verus!
