use backends::add;
use backends::codec::Codec;
use backends::dict::{
    example_arrive_word_explanation, Example, Explanation, PartOfSpeech, PartOfSpeechType,
    WordExplanation,
};
use backends::error::{Error, TranslateError};
use backends::json::{parse_json, to_json_text, JsonValue};
use backends::lang::{AiProvider, Language};
use backends::normalize::{entry_from_text, read_numeral, strip_fences};
use backends::providers::{MsgRole, Outgoing, ResponseFormatObj};
use backends::relay::Mailbox;
use backends::storage::{
    api_key_for, default_settings, AiAccounts, BackendManager, ColourTheme, DeepSeek, Qwen,
    Settings,
};
use backends::stream::{replay, StreamParser};
use backends::text::{join, trim};
use backends::json::quote;
use backends::translators::{
    check_status, DeepSeekSentenceTranslator, QwenWordSentenceTranslator, Translator,
};

fn s(x: &str) -> String {
    x.to_string()
}

fn obj(members: Vec<(&str, JsonValue)>) -> JsonValue {
    JsonValue::Object(members.into_iter().map(|(k, v)| (s(k), v)).collect())
}

fn text(x: &str) -> JsonValue {
    JsonValue::Str(s(x))
}

fn member<'a>(v: &'a JsonValue, key: &str) -> &'a JsonValue {
    match v {
        JsonValue::Object(ms) => &ms.iter().find(|(k, _)| k == key).expect("member").1,
        _ => panic!("not an object"),
    }
}

fn arrive_text() -> String {
    to_json_text(&example_arrive_word_explanation().to_json())
}

#[test]
fn it_works() {
    let result = add(2, 2);
    assert_eq!(result, 4);
}

#[test]
fn part_of_speech_tags() {
    assert_eq!(PartOfSpeechType::Noun.as_str(), "noun");
    assert_eq!(PartOfSpeechType::Adjective.as_str(), "adj.");
    assert_eq!(PartOfSpeechType::Interjection.as_str(), "interj.");
    assert_eq!(PartOfSpeechType::Other.as_str(), "other");
}

#[test]
fn role_and_format_tokens() {
    assert_eq!(MsgRole::System.as_str(), "system");
    assert_eq!(MsgRole::User.as_str(), "user");
    assert_eq!(MsgRole::Assistant.as_str(), "assistant");
    assert_eq!(ResponseFormatObj::Text.as_str(), "text");
    assert_eq!(ResponseFormatObj::JsonObject.as_str(), "json_object");
    assert_eq!(Language::German.name(), "German");
}

#[test]
fn arrive_example_shape() {
    let w = example_arrive_word_explanation();
    assert_eq!(w.word, "arrive");
    let pos = w.part_of_speeches.as_ref().unwrap();
    assert_eq!(pos.len(), 1);
    assert_eq!(pos[0].part_of_speech, PartOfSpeechType::Verb);
    assert_eq!(pos[0].explanations.len(), 2);
    assert_eq!(pos[0].idioms.as_ref().unwrap()[0].idiom, "sb has arrived");
    assert_eq!(pos[0].phrasal_verbs.as_ref().unwrap()[0].phrasal_verb, "arrive at sth");
}

#[test]
fn entry_round_trip_through_text() {
    let w = example_arrive_word_explanation();
    let t = to_json_text(&w.to_json());
    let back = WordExplanation::from_json(&parse_json(&t).unwrap()).unwrap();
    assert_eq!(back, w);
}

#[test]
fn entry_round_trip_keeps_absent_fields() {
    let w = WordExplanation {
        word: s("quux"),
        phonetics: None,
        part_of_speeches: Some(vec![PartOfSpeech {
            part_of_speech: PartOfSpeechType::Noun,
            explanations: vec![Explanation {
                phonetics: None,
                abbreviation: None,
                explanation: s("说明"),
                definition: s("a \"quoted\" thing\n"),
                patterns: None,
                examples: Some(vec![]),
            }],
            idioms: None,
            phrasal_verbs: None,
        }]),
    };
    let t = to_json_text(&w.to_json());
    assert!(t.starts_with("{\"word\":\"quux\",\"phonetics\":null,"));
    let back = WordExplanation::from_json(&parse_json(&t).unwrap()).unwrap();
    assert_eq!(back, w);
}

#[test]
fn missing_word_is_a_valid_entry() {
    let w = entry_from_text("{\"word\": \"xyzzy\"}").unwrap();
    assert_eq!(w.word, "xyzzy");
    assert_eq!(w.phonetics, None);
    assert_eq!(w.part_of_speeches, None);
}

#[test]
fn entry_with_wrong_types_is_refused() {
    assert!(entry_from_text("{\"word\": 3}").is_none());
    assert!(entry_from_text("{\"phonetics\": []}").is_none());
    assert!(entry_from_text("{\"word\": \"a\", \"part_of_speeches\": [{\"part_of_speech\": \"verbish\", \"explanations\": []}]}").is_none());
    assert!(entry_from_text("not json").is_none());
}

#[test]
fn fences_are_stripped() {
    assert_eq!(strip_fences("  ```json\n{\"word\":\"a\"}\n```  "), "{\"word\":\"a\"}");
    assert_eq!(strip_fences("{\"word\":\"a\"}\n```"), "{\"word\":\"a\"}");
    let fenced = format!("```json\n{}\n```", arrive_text());
    let w = entry_from_text(&fenced).unwrap();
    assert_eq!(w, example_arrive_word_explanation());
}

#[test]
fn stripping_clean_json_changes_nothing() {
    let clean = arrive_text();
    assert_eq!(strip_fences(&clean), clean.as_str());
    assert_eq!(strip_fences(strip_fences(&clean)), clean.as_str());
    assert_eq!(strip_fences("{}"), "{}");
}

#[test]
fn trim_matches_std() {
    for x in ["", "  ", " a b ", "\u{3000}x\u{2028}", "\t\nq\r\n", "\u{85}z\u{a0}"] {
        assert_eq!(trim(x), x.trim());
    }
}

#[test]
fn join_puts_separators_between() {
    assert_eq!(join(&vec![s("a"), s("b"), s("c")], "\n"), "a\nb\nc");
    assert_eq!(join(&vec![], "-"), "");
    assert_eq!(join(&vec![s("x")], "-"), "x");
}

#[test]
fn json_text_escapes_strings() {
    assert_eq!(to_json_text(&text("a\"b\\c\n")), "\"a\\\"b\\\\c\\n\"");
    assert_eq!(to_json_text(&JsonValue::Array(vec![])), "[]");
    assert_eq!(
        to_json_text(&obj(vec![("k", JsonValue::Null), ("n", JsonValue::Number(s("12")))])),
        "{\"k\":null,\"n\":12}"
    );
}

#[test]
fn json_is_parsed_whole() {
    let v = parse_json(" [1, {\"a\": null, \"b\": [true, \"x\"]}] ").unwrap();
    assert_eq!(
        v,
        JsonValue::Array(vec![
            JsonValue::Number(s("1")),
            obj(vec![
                ("a", JsonValue::Null),
                ("b", JsonValue::Array(vec![JsonValue::Bool(true), text("x")])),
            ]),
        ])
    );
    assert_eq!(parse_json("{\"a\": }"), None);
    assert_eq!(parse_json("1.5e3").unwrap(), JsonValue::Number(s("1500.0")));
}

#[test]
fn empty_sentence_is_answered_without_a_request() {
    let t = DeepSeekSentenceTranslator::new(s("key"));
    let r = t.sentence_request("", Language::English, Language::Chinese, false);
    assert_eq!(r, Ok(Outgoing::Ready(s("empty"))));
}

#[test]
fn unsupported_language_is_refused() {
    let t = DeepSeekSentenceTranslator::new(s("key"));
    let r = t.sentence_request("Bonjour", Language::French, Language::Chinese, false);
    assert_eq!(r, Err(TranslateError::UnsupportedLanguage(Language::French)));
    let r = t.sentence_request("Hello", Language::English, Language::Spanish, true);
    assert_eq!(r, Err(TranslateError::UnsupportedLanguage(Language::Spanish)));
    let q = QwenWordSentenceTranslator::new(s("key"));
    let r = q.word_request("arrive", Language::Auto, Language::Chinese);
    assert_eq!(r, Err(TranslateError::UnsupportedLanguage(Language::Auto)));
}

#[test]
fn sentence_request_carries_languages_and_text() {
    let t = DeepSeekSentenceTranslator::new(s("key"));
    let input = "  It's raining \"cats\"\n";
    let body = match t.sentence_request(input, Language::English, Language::Chinese, true) {
        Ok(Outgoing::Send(b)) => b,
        other => panic!("{:?}", other),
    };
    let j = parse_json(&body).unwrap();
    let messages = match member(&j, "messages") {
        JsonValue::Array(m) => m,
        _ => panic!("messages"),
    };
    assert_eq!(messages.len(), 2);
    assert_eq!(member(&messages[0], "role"), &text("system"));
    match member(&messages[0], "content") {
        JsonValue::Str(c) => assert!(c.ends_with("。请从English翻译为Chinese。")),
        _ => panic!("content"),
    }
    assert_eq!(member(&messages[1], "role"), &text("user"));
    assert_eq!(member(&messages[1], "content"), &text(input));
    assert_eq!(member(&j, "stream"), &JsonValue::Bool(true));
    assert_eq!(member(&j, "max_tokens"), &JsonValue::Number(s("8192")));
    assert_eq!(member(&j, "model"), &text("deepseek-chat"));
    assert!(!body.contains("null"));
}

#[test]
fn word_request_shows_the_worked_entry() {
    let q = QwenWordSentenceTranslator::new(s("key"));
    let body = match q.word_request("arrive", Language::English, Language::Chinese) {
        Ok(Outgoing::Send(b)) => b,
        other => panic!("{:?}", other),
    };
    let j = parse_json(&body).unwrap();
    let messages = match member(member(&j, "input"), "messages") {
        JsonValue::Array(m) => m,
        _ => panic!("messages"),
    };
    match member(&messages[0], "content") {
        JsonValue::Str(c) => {
            assert!(c.contains(&arrive_text()));
            assert!(c.ends_with("请从English翻译为Chinese。"));
        }
        _ => panic!("content"),
    }
    assert_eq!(member(&messages[1], "content"), &text("arrive"));
    assert_eq!(member(member(&j, "parameters"), "top_k"), &JsonValue::Number(s("50")));
}

#[test]
fn empty_word_gives_an_empty_entry() {
    let q = QwenWordSentenceTranslator::new(s("key"));
    let r = q.word_request("", Language::English, Language::Chinese);
    assert_eq!(
        r,
        Ok(Outgoing::Ready(WordExplanation { word: s(""), phonetics: None, part_of_speeches: None }))
    );
}

#[test]
fn arrive_scenario() {
    let envelope = obj(vec![("output", obj(vec![("text", text(&arrive_text()))]))]);
    let body = to_json_text(&envelope);
    let w = QwenWordSentenceTranslator::word_reply(200, &body).unwrap();
    let pos = &w.part_of_speeches.as_ref().unwrap()[0];
    assert_eq!(pos.part_of_speech, PartOfSpeechType::Verb);
    assert_eq!(pos.explanations.len(), 2);
    assert_eq!(pos.idioms.as_ref().unwrap().len(), 1);
    assert_eq!(pos.phrasal_verbs.as_ref().unwrap().len(), 1);
}

#[test]
fn word_reply_from_choices() {
    let body = "{\"output\":{\"text\":null,\"choices\":[{\"message\":{\"role\":\"assistant\",\"content\":\"```json\\n{\\\"word\\\":\"}},{\"message\":{\"content\":\"\\\"hi\\\"}\\n```\"}}]}}";
    let w = QwenWordSentenceTranslator::word_reply(200, body).unwrap();
    assert_eq!(w.word, "hi");
}

#[test]
fn word_reply_errors() {
    match QwenWordSentenceTranslator::word_reply(200, "{\"output\":{\"text\":\"hello\"}}") {
        Err(TranslateError::SchemaMismatch { text, .. }) => assert_eq!(text, "hello"),
        other => panic!("{:?}", other),
    }
    match QwenWordSentenceTranslator::word_reply(200, "{\"output\":{}}") {
        Err(TranslateError::MalformedResponse { body, .. }) => assert_eq!(body, "{\"output\":{}}"),
        other => panic!("{:?}", other),
    }
    match QwenWordSentenceTranslator::word_reply(500, "oops") {
        Err(TranslateError::ProviderError { status, body }) => {
            assert_eq!(status, 500);
            assert_eq!(body, "oops");
        }
        other => panic!("{:?}", other),
    }
}

#[test]
fn sentence_reply_joins_choices() {
    let body = "{\"id\":\"x\",\"choices\":[{\"index\":0,\"message\":{\"role\":\"assistant\",\"content\":\"Hi\"}},{\"index\":1,\"message\":{\"content\":null}},{\"index\":2,\"message\":{\"content\":\"there\"}}]}";
    assert_eq!(DeepSeekSentenceTranslator::sentence_reply(200, body), Ok(s("Hi\n\nthere")));
}

#[test]
fn sentence_reply_malformed() {
    match DeepSeekSentenceTranslator::sentence_reply(200, "<html>") {
        Err(TranslateError::MalformedResponse { body, .. }) => assert_eq!(body, "<html>"),
        other => panic!("{:?}", other),
    }
    match DeepSeekSentenceTranslator::sentence_reply(200, "{\"choices\":[{\"message\":3}]}") {
        Err(TranslateError::MalformedResponse { .. }) => {}
        other => panic!("{:?}", other),
    }
}

#[test]
fn too_many_requests_is_relayed_as_provider_error() {
    let body = "{\"error\":\"rate limited\"}";
    let r = DeepSeekSentenceTranslator::sentence_reply(429, body);
    assert_eq!(r, Err(TranslateError::ProviderError { status: 429, body: s(body) }));
    let mut mailbox: Mailbox<Result<String, TranslateError>> = Mailbox::new();
    let ticket = mailbox.open_channel();
    assert!(mailbox.send(ticket, r));
    assert_eq!(
        mailbox.poll(),
        Some(Err(TranslateError::ProviderError { status: 429, body: s(body) }))
    );
    assert_eq!(mailbox.poll(), None);
}

#[test]
fn stream_scenario() {
    let mut p = StreamParser::new();
    assert_eq!(p.feed_line("data: {\"choices\":[{\"delta\":{\"content\":\"He\"}}]}\n"), Some(s("He")));
    assert_eq!(p.feed_line("data: {\"choices\":[{\"delta\":{\"content\":\"llo\"}}]}\n"), Some(s("Hello")));
    assert_eq!(p.feed_line("data: [DONE]\n"), None);
    assert!(p.is_closed());
    assert_eq!(p.feed_line("data: {\"choices\":[{\"delta\":{\"content\":\"!\"}}]}"), None);
    assert_eq!(p.content(), "Hello");
}

#[test]
fn stream_skips_other_lines_and_reports_bad_frames() {
    let mut p = StreamParser::new();
    assert_eq!(p.feed_line("\n"), None);
    assert_eq!(p.feed_line(": keep-alive\n"), None);
    assert_eq!(p.feed_line("data: {not json}\n"), Some(s("Error parsing JSON response.\nReceived: {not json}")));
    assert_eq!(p.feed_line("data: {\"choices\":[{\"delta\":{\"role\":\"assistant\"}}]}"), Some(s("")));
    assert_eq!(p.feed_line("data:{\"choices\":[{\"delta\":{\"content\":\"ok\"}}]}"), Some(s("ok")));
    assert!(!p.is_closed());
}

#[test]
fn stream_replay_gives_the_same_text() {
    let lines = vec![
        s("data: {\"choices\":[{\"delta\":{\"content\":\"a\"}}]}"),
        s(""),
        s("data: {\"choices\":[{\"delta\":{\"content\":\"b\"}}]}"),
        s("data: [DONE]"),
    ];
    assert_eq!(replay(&lines), "ab");
    assert_eq!(replay(&lines), replay(&lines));
    let mut p = StreamParser::new();
    for l in lines.iter().chain(lines.iter()) {
        p.feed_line(l);
    }
    assert_eq!(p.content(), "ab");
}

#[test]
fn stream_emissions_grow() {
    let mut p = StreamParser::new();
    let mut last = 0;
    for piece in ["x", "", "yz", "\u{4f60}\u{597d}"] {
        let line = format!("data: {{\"choices\":[{{\"delta\":{{\"content\":\"{}\"}}}}]}}", piece);
        let e = p.feed_line(&line).unwrap();
        assert!(e.chars().count() >= last);
        last = e.chars().count();
    }
    assert_eq!(p.content(), "xyz\u{4f60}\u{597d}");
}

#[test]
fn mailbox_drops_older_channels() {
    let mut m: Mailbox<String> = Mailbox::new();
    let first = m.open_channel();
    assert!(m.send(first, s("old 1")));
    let second = m.open_channel();
    assert!(second > first);
    assert!(!m.send(first, s("old 2")));
    assert!(m.send(second, s("new 1")));
    assert!(m.send(second, s("new 2")));
    assert_eq!(m.poll(), Some(s("new 1")));
    assert_eq!(m.poll(), Some(s("new 2")));
    assert_eq!(m.poll(), None);
    assert_eq!(m.current(), second);
    assert!(m.can_open());
}

#[test]
fn error_messages() {
    assert_eq!(Error::new_config_dir_is_file(s("/c")).message(), "Config directory '/c' is a file");
    assert_eq!(Error::new_config_file_is_dir(s("/f")).message(), "Config file '/f' is a directory");
    assert_eq!(
        Error::new_config_file_bad_format(s("/f"), s("line 3")).message(),
        "Config file '/f' has a bad format: line 3"
    );
    assert_eq!(
        TranslateError::UnsupportedLanguage(Language::Korean).message(),
        "Unsupported language: Korean"
    );
    assert_eq!(
        TranslateError::ProviderError { status: 429, body: s("slow down") }.message(),
        "API request failed with status 429: slow down"
    );
}

#[test]
fn settings_keys() {
    let mut settings = default_settings();
    assert_eq!(settings.appearance.as_ref().unwrap().colour_theme, ColourTheme::Auto);
    assert_eq!(api_key_for(&settings, AiProvider::DeepSeek), None);
    settings.ai_accounts = Some(AiAccounts {
        deepseek: Some(DeepSeek { api_key: s("d-key") }),
        qwen: Some(Qwen { api_key: s("q-key") }),
    });
    assert_eq!(api_key_for(&settings, AiProvider::DeepSeek), Some(s("d-key")));
    assert_eq!(api_key_for(&settings, AiProvider::Qwen), Some(s("q-key")));
    assert_eq!(api_key_for(&settings, AiProvider::Youdao), None);
    let _unused: Settings = settings;
}

#[test]
fn backend_manager_keeps_key() {
    let mut m = BackendManager::new(s("a"), s("https://example.org"));
    assert_eq!(m.get_api_key(), "a");
    m.save_api_key(s("b"));
    assert_eq!(m.get_api_key(), "b");
    assert_eq!(m.get_url(), "https://example.org");
}

#[test]
fn translators_report_key_and_url() {
    let t = DeepSeekSentenceTranslator::new(s("k1"));
    assert_eq!(t.get_api_key(), "k1");
    assert_eq!(t.get_url(), "https://api.deepseek.com/chat/completions");
    let q = QwenWordSentenceTranslator::new(s("k2"));
    assert_eq!(q.get_api_key(), "k2");
    assert!(q.get_url().starts_with("https://dashscope.aliyuncs.com/"));
}

#[test]
fn examples_pair_text_and_translation() {
    let e = Example { example: s("a"), translation: s("b") };
    assert_eq!(to_json_text(&e.to_json()), "{\"example\":\"a\",\"translation\":\"b\"}");
}

#[test]
fn sentence_reply_follows_choice_indices() {
    let body = "{\"choices\":[{\"index\":1,\"message\":{\"content\":\"second\"}},{\"index\":0,\"message\":{\"content\":\"first\"}}]}";
    assert_eq!(DeepSeekSentenceTranslator::sentence_reply(200, body), Ok(s("first\nsecond")));
    let repeated = "{\"choices\":[{\"index\":0,\"message\":{\"content\":\"a\"}},{\"index\":0,\"message\":{\"content\":\"b\"}}]}";
    match DeepSeekSentenceTranslator::sentence_reply(200, repeated) {
        Err(TranslateError::MalformedResponse { .. }) => {}
        other => panic!("{:?}", other),
    }
    let unindexed = "{\"choices\":[{\"message\":{\"content\":\"a\"}},{\"message\":{\"content\":\"b\"}}]}";
    assert_eq!(DeepSeekSentenceTranslator::sentence_reply(200, unindexed), Ok(s("a\nb")));
    let mixed = "{\"choices\":[{\"index\":0,\"message\":{\"content\":\"a\"}},{\"message\":{\"content\":\"b\"}}]}";
    match DeepSeekSentenceTranslator::sentence_reply(200, mixed) {
        Err(TranslateError::MalformedResponse { .. }) => {}
        other => panic!("{:?}", other),
    }
}

#[test]
fn numerals_are_read_below_a_bound() {
    assert_eq!(read_numeral("0", 3), Some(0));
    assert_eq!(read_numeral("12", 13), Some(12));
    assert_eq!(read_numeral("12", 12), None);
    assert_eq!(read_numeral("1.0", 5), None);
    assert_eq!(read_numeral("", 5), None);
    assert_eq!(read_numeral("99999999999999999999999999", usize::MAX), None);
}

#[test]
fn generation_choices_follow_indices() {
    let body = r#"{"output":{"choices":[{"index":1,"message":{"content":"b\"}"}},{"index":0,"message":{"content":"{\"word\":\"a"}}]}}"#;
    let w = QwenWordSentenceTranslator::word_reply(200, body).unwrap();
    assert_eq!(w.word, "ab");
}

#[test]
fn quoting_matches_serde_json() {
    for x in ["", "plain", "q\"b\\s", "\u{8}\t\n\u{c}\r", "\u{0}\u{1f}\u{7f}", "\u{4f60}\u{1F600}/"] {
        assert_eq!(quote(x), serde_json::Value::String(x.to_string()).to_string());
    }
}

#[test]
fn status_check() {
    assert_eq!(check_status(200, "x"), Ok(()));
    assert_eq!(check_status(503, "busy"), Err(TranslateError::ProviderError { status: 503, body: s("busy") }));
}

#[test]
fn stream_ends_with_the_body() {
    let mut p = StreamParser::new();
    assert_eq!(p.feed_line("data: {\"choices\":[{\"delta\":{\"content\":\"x\"}}]}"), Some(s("x")));
    p.end_of_body();
    assert!(p.is_closed());
    assert_eq!(p.feed_line("data: {\"choices\":[{\"delta\":{\"content\":\"y\"}}]}"), None);
    assert_eq!(p.content(), "x");
}

#[test]
fn translators_do_not_save_keys() {
    let t = DeepSeekSentenceTranslator::new(s("k"));
    assert_eq!(t.save_api_key(), Err(TranslateError::KeyNotSaved));
    let q = QwenWordSentenceTranslator::new(s("k"));
    assert_eq!(q.save_api_key(), Err(TranslateError::KeyNotSaved));
}
