//! How dictionary entries are written as JSON and read back.
//!
//! Each type states its model, the JSON that stands for a model, and what it
//! reads from a JSON value; every type proves that reading what it wrote gives
//! the model back. A member that is absent reads as `null`, and an optional
//! field that is `None` is written as `null`.
use vstd::prelude::*;
use vstd::string::*;
use crate::dict::{
    Example, ExampleModel, Explanation, ExplanationModel, Idiom, IdiomModel, PartOfSpeech,
    PartOfSpeechModel, PartOfSpeechType, PhrasalVerb, PhrasalVerbModel, WordExplanation,
    WordModel, tag_text,
};
use crate::json::{
    Json, JsonValue, field, get_member, jsons_of, lemma_jsons_of, lemma_members_of, member,
    members_of, opt_ref,
};
use crate::text::{owned, same_text};

verus! {

pub trait Codec: Sized {
    type Model;

    spec fn model(&self) -> Self::Model;

    /// The JSON written for a value with this model.
    spec fn encode(m: Self::Model) -> Json;

    /// The model read from a JSON value, or `None` where it does not fit.
    spec fn decode(j: Json) -> Option<Self::Model>;

    /// Reading what was written gives the model back; nothing is written as `null`.
    proof fn lemma_round_trip(m: Self::Model)
        ensures
            Self::decode(Self::encode(m)) == Some(m),
            !(Self::encode(m) is Null),
    ;

    fn to_json(&self) -> (r: JsonValue)
        ensures
            r@ == Self::encode(self.model()),
    ;

    fn from_json(j: &JsonValue) -> (r: Option<Self>)
        ensures
            r is Some <==> Self::decode(j@) is Some,
            r matches Some(x) ==> Self::decode(j@) == Some(x.model()),
    ;
}

/// `null` where a member is absent.
pub open spec fn nullable(o: Option<Json>) -> Json {
    match o {
        Some(j) => j,
        None => Json::Null,
    }
}

pub open spec fn opt_model<T: Codec>(o: Option<T>) -> Option<T::Model> {
    match o {
        Some(x) => Some(x.model()),
        None => None,
    }
}

pub open spec fn opt_encode<T: Codec>(o: Option<T::Model>) -> Json {
    match o {
        Some(m) => T::encode(m),
        None => Json::Null,
    }
}

pub open spec fn opt_decode<T: Codec>(j: Json) -> Option<Option<T::Model>> {
    match j {
        Json::Null => Some(None),
        _ => match T::decode(j) {
            Some(m) => Some(Some(m)),
            None => None,
        },
    }
}

/// The required member `key` of `j`.
pub open spec fn req<T: Codec>(j: Json, key: Seq<char>) -> Option<T::Model> {
    T::decode(nullable(member(j, key)))
}

/// The optional member `key` of `j`.
pub open spec fn opt<T: Codec>(j: Json, key: Seq<char>) -> Option<Option<T::Model>> {
    opt_decode::<T>(nullable(member(j, key)))
}

pub proof fn lemma_opt_round_trip<T: Codec>(o: Option<T::Model>)
    ensures
        opt_decode::<T>(opt_encode::<T>(o)) == Some(o),
{
    if let Some(m) = o {
        T::lemma_round_trip(m);
    }
}

/// The first member with a given key is the one found.
pub proof fn lemma_field_first(ms: Seq<(Seq<char>, Json)>, key: Seq<char>, i: int)
    requires
        0 <= i < ms.len(),
        ms[i].0 == key,
        forall|k: int| 0 <= k < i ==> ms[k].0 != key,
    ensures
        field(ms, key) == Some(ms[i].1),
    decreases ms.len(),
{
    if i < ms.len() - 1 {
        let pre = ms.subrange(0, ms.len() - 1);
        lemma_field_first(pre, key, i);
    } else {
        lemma_field_none(ms.subrange(0, ms.len() - 1), key);
    }
}

pub proof fn lemma_field_none(ms: Seq<(Seq<char>, Json)>, key: Seq<char>)
    requires
        forall|k: int| 0 <= k < ms.len() ==> ms[k].0 != key,
    ensures
        field(ms, key) is None,
    decreases ms.len(),
{
    if ms.len() > 0 {
        lemma_field_none(ms.subrange(0, ms.len() - 1), key);
    }
}

pub fn opt_to_json<T: Codec>(o: &Option<T>) -> (r: JsonValue)
    ensures
        r@ == opt_encode::<T>(opt_model(*o)),
{
    match o {
        Some(x) => x.to_json(),
        None => JsonValue::Null,
    }
}

pub fn opt_from_json<T: Codec>(j: &JsonValue) -> (r: Option<Option<T>>)
    ensures
        r is Some <==> opt_decode::<T>(j@) is Some,
        r matches Some(o) ==> opt_decode::<T>(j@) == Some(opt_model(o)),
{
    match j {
        JsonValue::Null => Some(None),
        _ => match T::from_json(j) {
            Some(x) => Some(Some(x)),
            None => None,
        },
    }
}

/// Reads the required member `key` of `j`.
pub fn req_field<T: Codec>(j: &JsonValue, key: &str) -> (r: Option<T>)
    ensures
        r is Some <==> req::<T>(j@, key@) is Some,
        r matches Some(x) ==> req::<T>(j@, key@) == Some(x.model()),
{
    match get_member(j, key) {
        Some(v) => T::from_json(v),
        None => {
            let null = JsonValue::Null;
            T::from_json(&null)
        },
    }
}

/// Reads the optional member `key` of `j`.
pub fn opt_field<T: Codec>(j: &JsonValue, key: &str) -> (r: Option<Option<T>>)
    ensures
        r is Some <==> opt::<T>(j@, key@) is Some,
        r matches Some(o) ==> opt::<T>(j@, key@) == Some(opt_model(o)),
{
    match get_member(j, key) {
        Some(v) => opt_from_json(v),
        None => {
            let null = JsonValue::Null;
            opt_from_json(&null)
        },
    }
}

impl Codec for String {
    type Model = Seq<char>;

    open spec fn model(&self) -> Seq<char> {
        self@
    }

    open spec fn encode(m: Seq<char>) -> Json {
        Json::Str(m)
    }

    open spec fn decode(j: Json) -> Option<Seq<char>> {
        match j {
            Json::Str(s) => Some(s),
            _ => None,
        }
    }

    proof fn lemma_round_trip(m: Seq<char>) {
    }

    fn to_json(&self) -> (r: JsonValue) {
        JsonValue::Str(self.clone())
    }

    fn from_json(j: &JsonValue) -> (r: Option<String>) {
        match j {
            JsonValue::Str(s) => Some(s.clone()),
            _ => None,
        }
    }
}

impl<T: Codec> Codec for Vec<T> {
    type Model = Seq<T::Model>;

    open spec fn model(&self) -> Seq<T::Model> {
        self@.map_values(|x: T| x.model())
    }

    open spec fn encode(m: Seq<T::Model>) -> Json {
        Json::Array(m.map_values(|x: T::Model| T::encode(x)))
    }

    open spec fn decode(j: Json) -> Option<Seq<T::Model>> {
        match j {
            Json::Array(items) => if forall|i: int|
                0 <= i < items.len() ==> (#[trigger] T::decode(items[i])) is Some {
                Some(items.map_values(|x: Json| T::decode(x)->0))
            } else {
                None
            },
            _ => None,
        }
    }

    proof fn lemma_round_trip(m: Seq<T::Model>) {
        let items = m.map_values(|x: T::Model| T::encode(x));
        assert forall|i: int| 0 <= i < items.len() implies (#[trigger] T::decode(items[i])) is Some
            && T::decode(items[i])->0 == m[i] by {
            T::lemma_round_trip(m[i]);
        }
        assert(items.map_values(|x: Json| T::decode(x)->0) =~= m);
    }

    fn to_json(&self) -> (r: JsonValue) {
        let mut items: Vec<JsonValue> = Vec::new();
        let mut i: usize = 0;
        while i < self.len()
            invariant
                i <= self.len(),
                items@.len() == i,
                forall|k: int| 0 <= k < i ==> #[trigger] items@[k]@ == T::encode(self@[k].model()),
            decreases self.len() - i,
        {
            let x = self[i].to_json();
            items.push(x);
            i = i + 1;
        }
        proof {
            lemma_jsons_of(items@);
        }
        assert(jsons_of(items@) =~= self.model().map_values(|x: T::Model| T::encode(x)));
        JsonValue::Array(items)
    }

    fn from_json(j: &JsonValue) -> (r: Option<Vec<T>>) {
        match j {
            JsonValue::Array(items) => {
                proof {
                    lemma_jsons_of(items@);
                }
                let ghost js = jsons_of(items@);
                let mut out: Vec<T> = Vec::new();
                let mut i: usize = 0;
                while i < items.len()
                    invariant
                        i <= items.len(),
                        out@.len() == i,
                        j@ == Json::Array(js),
                        js.len() == items@.len(),
                        forall|k: int| 0 <= k < items@.len() ==> #[trigger] js[k] == items@[k]@,
                        forall|k: int|
                            0 <= k < i ==> T::decode(js[k]) == Some(#[trigger] out@[k].model()),
                    decreases items.len() - i,
                {
                    match T::from_json(&items[i]) {
                        None => {
                            assert(!(T::decode(js[i as int]) is Some));
                            return None;
                        },
                        Some(x) => {
                            out.push(x);
                        },
                    }
                    i = i + 1;
                }
                assert forall|k: int| 0 <= k < js.len() implies (#[trigger] T::decode(js[k])) is Some by {
                    assert(T::decode(js[k]) == Some(out@[k].model()));
                }
                assert(out.model() =~= js.map_values(|x: Json| T::decode(x)->0));
                Some(out)
            },
            _ => None,
        }
    }
}

/// The part of speech that a tag stands for.
pub open spec fn tag_of(s: Seq<char>) -> Option<PartOfSpeechType> {
    if s == "noun"@ {
        Some(PartOfSpeechType::Noun)
    } else if s == "verb"@ {
        Some(PartOfSpeechType::Verb)
    } else if s == "adj."@ {
        Some(PartOfSpeechType::Adjective)
    } else if s == "adv."@ {
        Some(PartOfSpeechType::Adverb)
    } else if s == "pron."@ {
        Some(PartOfSpeechType::Pronoun)
    } else if s == "prep."@ {
        Some(PartOfSpeechType::Preposition)
    } else if s == "conj."@ {
        Some(PartOfSpeechType::Conjunction)
    } else if s == "interj."@ {
        Some(PartOfSpeechType::Interjection)
    } else if s == "other"@ {
        Some(PartOfSpeechType::Other)
    } else {
        None
    }
}

fn parse_tag(s: &str) -> (r: Option<PartOfSpeechType>)
    ensures
        r == tag_of(s@),
{
    if same_text(s, "noun") {
        Some(PartOfSpeechType::Noun)
    } else if same_text(s, "verb") {
        Some(PartOfSpeechType::Verb)
    } else if same_text(s, "adj.") {
        Some(PartOfSpeechType::Adjective)
    } else if same_text(s, "adv.") {
        Some(PartOfSpeechType::Adverb)
    } else if same_text(s, "pron.") {
        Some(PartOfSpeechType::Pronoun)
    } else if same_text(s, "prep.") {
        Some(PartOfSpeechType::Preposition)
    } else if same_text(s, "conj.") {
        Some(PartOfSpeechType::Conjunction)
    } else if same_text(s, "interj.") {
        Some(PartOfSpeechType::Interjection)
    } else if same_text(s, "other") {
        Some(PartOfSpeechType::Other)
    } else {
        None
    }
}

impl Codec for PartOfSpeechType {
    type Model = PartOfSpeechType;

    open spec fn model(&self) -> PartOfSpeechType {
        *self
    }

    open spec fn encode(m: PartOfSpeechType) -> Json {
        Json::Str(tag_text(m))
    }

    open spec fn decode(j: Json) -> Option<PartOfSpeechType> {
        match j {
            Json::Str(s) => tag_of(s),
            _ => None,
        }
    }

    proof fn lemma_round_trip(m: PartOfSpeechType) {
        reveal_strlit("noun");
        reveal_strlit("verb");
        reveal_strlit("adj.");
        reveal_strlit("adv.");
        reveal_strlit("pron.");
        reveal_strlit("prep.");
        reveal_strlit("conj.");
        reveal_strlit("interj.");
        reveal_strlit("other");
        assert("noun"@ != "verb"@) by {
            assert("noun"@[0] != "verb"@[0]);
        }
        assert("noun"@ != "adj."@) by {
            assert("noun"@[0] != "adj."@[0]);
        }
        assert("verb"@ != "adj."@) by {
            assert("verb"@[0] != "adj."@[0]);
        }
        assert("noun"@ != "adv."@) by {
            assert("noun"@[0] != "adv."@[0]);
        }
        assert("verb"@ != "adv."@) by {
            assert("verb"@[0] != "adv."@[0]);
        }
        assert("adj."@ != "adv."@) by {
            assert("adj."@[2] != "adv."@[2]);
        }
        assert("noun"@ != "pron."@) by {
            assert("noun"@.len() != "pron."@.len());
        }
        assert("verb"@ != "pron."@) by {
            assert("verb"@.len() != "pron."@.len());
        }
        assert("adj."@ != "pron."@) by {
            assert("adj."@.len() != "pron."@.len());
        }
        assert("adv."@ != "pron."@) by {
            assert("adv."@.len() != "pron."@.len());
        }
        assert("noun"@ != "prep."@) by {
            assert("noun"@.len() != "prep."@.len());
        }
        assert("verb"@ != "prep."@) by {
            assert("verb"@.len() != "prep."@.len());
        }
        assert("adj."@ != "prep."@) by {
            assert("adj."@.len() != "prep."@.len());
        }
        assert("adv."@ != "prep."@) by {
            assert("adv."@.len() != "prep."@.len());
        }
        assert("pron."@ != "prep."@) by {
            assert("pron."@[2] != "prep."@[2]);
        }
        assert("noun"@ != "conj."@) by {
            assert("noun"@.len() != "conj."@.len());
        }
        assert("verb"@ != "conj."@) by {
            assert("verb"@.len() != "conj."@.len());
        }
        assert("adj."@ != "conj."@) by {
            assert("adj."@.len() != "conj."@.len());
        }
        assert("adv."@ != "conj."@) by {
            assert("adv."@.len() != "conj."@.len());
        }
        assert("pron."@ != "conj."@) by {
            assert("pron."@[0] != "conj."@[0]);
        }
        assert("prep."@ != "conj."@) by {
            assert("prep."@[0] != "conj."@[0]);
        }
        assert("noun"@ != "interj."@) by {
            assert("noun"@.len() != "interj."@.len());
        }
        assert("verb"@ != "interj."@) by {
            assert("verb"@.len() != "interj."@.len());
        }
        assert("adj."@ != "interj."@) by {
            assert("adj."@.len() != "interj."@.len());
        }
        assert("adv."@ != "interj."@) by {
            assert("adv."@.len() != "interj."@.len());
        }
        assert("pron."@ != "interj."@) by {
            assert("pron."@.len() != "interj."@.len());
        }
        assert("prep."@ != "interj."@) by {
            assert("prep."@.len() != "interj."@.len());
        }
        assert("conj."@ != "interj."@) by {
            assert("conj."@.len() != "interj."@.len());
        }
        assert("noun"@ != "other"@) by {
            assert("noun"@.len() != "other"@.len());
        }
        assert("verb"@ != "other"@) by {
            assert("verb"@.len() != "other"@.len());
        }
        assert("adj."@ != "other"@) by {
            assert("adj."@.len() != "other"@.len());
        }
        assert("adv."@ != "other"@) by {
            assert("adv."@.len() != "other"@.len());
        }
        assert("pron."@ != "other"@) by {
            assert("pron."@[0] != "other"@[0]);
        }
        assert("prep."@ != "other"@) by {
            assert("prep."@[0] != "other"@[0]);
        }
        assert("conj."@ != "other"@) by {
            assert("conj."@[0] != "other"@[0]);
        }
        assert("interj."@ != "other"@) by {
            assert("interj."@.len() != "other"@.len());
        }
    }

    fn to_json(&self) -> (r: JsonValue) {
        JsonValue::Str(owned(self.as_str()))
    }

    fn from_json(j: &JsonValue) -> (r: Option<PartOfSpeechType>) {
        match j {
            JsonValue::Str(s) => parse_tag(s.as_str()),
            _ => None,
        }
    }
}

impl Codec for Example {
    type Model = ExampleModel;

    open spec fn model(&self) -> ExampleModel {
        self@
    }

    open spec fn encode(m: ExampleModel) -> Json {
        Json::Object(
            seq![
                ("example"@, <String as Codec>::encode(m.example)),
                ("translation"@, <String as Codec>::encode(m.translation)),
            ],
        )
    }

    open spec fn decode(j: Json) -> Option<ExampleModel> {
        match (
            req::<String>(j, "example"@),
            req::<String>(j, "translation"@),
        ) {
            (Some(example), Some(translation)) => Some(ExampleModel { example: example, translation: translation }),
            _ => None,
        }
    }

    proof fn lemma_round_trip(m: ExampleModel) {
        reveal_strlit("example");
        reveal_strlit("translation");
        <String as Codec>::lemma_round_trip(m.example);
        <String as Codec>::lemma_round_trip(m.translation);
        let ms = seq![
            ("example"@, <String as Codec>::encode(m.example)),
                ("translation"@, <String as Codec>::encode(m.translation)),
        ];
        lemma_field_first(ms, "example"@, 0);
        assert(ms[0].0 != "translation"@) by {
            assert("example"@.len() != "translation"@.len());
        }
        lemma_field_first(ms, "translation"@, 1);
    }

    fn to_json(&self) -> (r: JsonValue) {
        let ms = vec![
            (owned("example"), self.example.to_json()),
            (owned("translation"), self.translation.to_json()),
        ];
        proof {
            lemma_members_of(ms@);
        }
        assert(members_of(ms@) =~= seq![
            ("example"@, <String as Codec>::encode(self@.example)),
                ("translation"@, <String as Codec>::encode(self@.translation)),
        ]);
        JsonValue::Object(ms)
    }

    fn from_json(j: &JsonValue) -> (r: Option<Example>) {
        let example = req_field::<String>(j, "example");
        let translation = req_field::<String>(j, "translation");
        match (example, translation) {
            (Some(example), Some(translation)) => Some(Example { example: example, translation: translation }),
            _ => None,
        }
    }
}

impl Codec for Explanation {
    type Model = ExplanationModel;

    open spec fn model(&self) -> ExplanationModel {
        self@
    }

    open spec fn encode(m: ExplanationModel) -> Json {
        Json::Object(
            seq![
                ("phonetics"@, opt_encode::<Vec<String>>(m.phonetics)),
                ("abbreviation"@, opt_encode::<String>(m.abbreviation)),
                ("explanation"@, <String as Codec>::encode(m.explanation)),
                ("definition"@, <String as Codec>::encode(m.definition)),
                ("patterns"@, opt_encode::<Vec<String>>(m.patterns)),
                ("examples"@, opt_encode::<Vec<Example>>(m.examples)),
            ],
        )
    }

    open spec fn decode(j: Json) -> Option<ExplanationModel> {
        match (
            opt::<Vec<String>>(j, "phonetics"@),
            opt::<String>(j, "abbreviation"@),
            req::<String>(j, "explanation"@),
            req::<String>(j, "definition"@),
            opt::<Vec<String>>(j, "patterns"@),
            opt::<Vec<Example>>(j, "examples"@),
        ) {
            (Some(phonetics), Some(abbreviation), Some(explanation), Some(definition), Some(patterns), Some(examples)) => Some(ExplanationModel { phonetics: phonetics, abbreviation: abbreviation, explanation: explanation, definition: definition, patterns: patterns, examples: examples }),
            _ => None,
        }
    }

    proof fn lemma_round_trip(m: ExplanationModel) {
        reveal_strlit("phonetics");
        reveal_strlit("abbreviation");
        reveal_strlit("explanation");
        reveal_strlit("definition");
        reveal_strlit("patterns");
        reveal_strlit("examples");
        lemma_opt_round_trip::<Vec<String>>(m.phonetics);
        lemma_opt_round_trip::<String>(m.abbreviation);
        <String as Codec>::lemma_round_trip(m.explanation);
        <String as Codec>::lemma_round_trip(m.definition);
        lemma_opt_round_trip::<Vec<String>>(m.patterns);
        lemma_opt_round_trip::<Vec<Example>>(m.examples);
        let ms = seq![
            ("phonetics"@, opt_encode::<Vec<String>>(m.phonetics)),
                ("abbreviation"@, opt_encode::<String>(m.abbreviation)),
                ("explanation"@, <String as Codec>::encode(m.explanation)),
                ("definition"@, <String as Codec>::encode(m.definition)),
                ("patterns"@, opt_encode::<Vec<String>>(m.patterns)),
                ("examples"@, opt_encode::<Vec<Example>>(m.examples)),
        ];
        lemma_field_first(ms, "phonetics"@, 0);
        assert(ms[0].0 != "abbreviation"@) by {
            assert("phonetics"@.len() != "abbreviation"@.len());
        }
        lemma_field_first(ms, "abbreviation"@, 1);
        assert(ms[0].0 != "explanation"@) by {
            assert("phonetics"@.len() != "explanation"@.len());
        }
        assert(ms[1].0 != "explanation"@) by {
            assert("abbreviation"@.len() != "explanation"@.len());
        }
        lemma_field_first(ms, "explanation"@, 2);
        assert(ms[0].0 != "definition"@) by {
            assert("phonetics"@.len() != "definition"@.len());
        }
        assert(ms[1].0 != "definition"@) by {
            assert("abbreviation"@.len() != "definition"@.len());
        }
        assert(ms[2].0 != "definition"@) by {
            assert("explanation"@.len() != "definition"@.len());
        }
        lemma_field_first(ms, "definition"@, 3);
        assert(ms[0].0 != "patterns"@) by {
            assert("phonetics"@.len() != "patterns"@.len());
        }
        assert(ms[1].0 != "patterns"@) by {
            assert("abbreviation"@.len() != "patterns"@.len());
        }
        assert(ms[2].0 != "patterns"@) by {
            assert("explanation"@.len() != "patterns"@.len());
        }
        assert(ms[3].0 != "patterns"@) by {
            assert("definition"@.len() != "patterns"@.len());
        }
        lemma_field_first(ms, "patterns"@, 4);
        assert(ms[0].0 != "examples"@) by {
            assert("phonetics"@.len() != "examples"@.len());
        }
        assert(ms[1].0 != "examples"@) by {
            assert("abbreviation"@.len() != "examples"@.len());
        }
        assert(ms[2].0 != "examples"@) by {
            assert("explanation"@.len() != "examples"@.len());
        }
        assert(ms[3].0 != "examples"@) by {
            assert("definition"@.len() != "examples"@.len());
        }
        assert(ms[4].0 != "examples"@) by {
            assert("patterns"@[0] != "examples"@[0]);
        }
        lemma_field_first(ms, "examples"@, 5);
    }

    fn to_json(&self) -> (r: JsonValue) {
        let ms = vec![
            (owned("phonetics"), opt_to_json(&self.phonetics)),
            (owned("abbreviation"), opt_to_json(&self.abbreviation)),
            (owned("explanation"), self.explanation.to_json()),
            (owned("definition"), self.definition.to_json()),
            (owned("patterns"), opt_to_json(&self.patterns)),
            (owned("examples"), opt_to_json(&self.examples)),
        ];
        proof {
            lemma_members_of(ms@);
        }
        assert(members_of(ms@) =~= seq![
            ("phonetics"@, opt_encode::<Vec<String>>(self@.phonetics)),
                ("abbreviation"@, opt_encode::<String>(self@.abbreviation)),
                ("explanation"@, <String as Codec>::encode(self@.explanation)),
                ("definition"@, <String as Codec>::encode(self@.definition)),
                ("patterns"@, opt_encode::<Vec<String>>(self@.patterns)),
                ("examples"@, opt_encode::<Vec<Example>>(self@.examples)),
        ]);
        JsonValue::Object(ms)
    }

    fn from_json(j: &JsonValue) -> (r: Option<Explanation>) {
        let phonetics = opt_field::<Vec<String>>(j, "phonetics");
        let abbreviation = opt_field::<String>(j, "abbreviation");
        let explanation = req_field::<String>(j, "explanation");
        let definition = req_field::<String>(j, "definition");
        let patterns = opt_field::<Vec<String>>(j, "patterns");
        let examples = opt_field::<Vec<Example>>(j, "examples");
        match (phonetics, abbreviation, explanation, definition, patterns, examples) {
            (Some(phonetics), Some(abbreviation), Some(explanation), Some(definition), Some(patterns), Some(examples)) => Some(Explanation { phonetics: phonetics, abbreviation: abbreviation, explanation: explanation, definition: definition, patterns: patterns, examples: examples }),
            _ => None,
        }
    }
}

impl Codec for Idiom {
    type Model = IdiomModel;

    open spec fn model(&self) -> IdiomModel {
        self@
    }

    open spec fn encode(m: IdiomModel) -> Json {
        Json::Object(
            seq![
                ("idiom"@, <String as Codec>::encode(m.idiom)),
                ("explanation"@, <String as Codec>::encode(m.explanation)),
                ("definition"@, <String as Codec>::encode(m.definition)),
                ("example"@, opt_encode::<Vec<Example>>(m.example)),
            ],
        )
    }

    open spec fn decode(j: Json) -> Option<IdiomModel> {
        match (
            req::<String>(j, "idiom"@),
            req::<String>(j, "explanation"@),
            req::<String>(j, "definition"@),
            opt::<Vec<Example>>(j, "example"@),
        ) {
            (Some(idiom), Some(explanation), Some(definition), Some(example)) => Some(IdiomModel { idiom: idiom, explanation: explanation, definition: definition, example: example }),
            _ => None,
        }
    }

    proof fn lemma_round_trip(m: IdiomModel) {
        reveal_strlit("idiom");
        reveal_strlit("explanation");
        reveal_strlit("definition");
        reveal_strlit("example");
        <String as Codec>::lemma_round_trip(m.idiom);
        <String as Codec>::lemma_round_trip(m.explanation);
        <String as Codec>::lemma_round_trip(m.definition);
        lemma_opt_round_trip::<Vec<Example>>(m.example);
        let ms = seq![
            ("idiom"@, <String as Codec>::encode(m.idiom)),
                ("explanation"@, <String as Codec>::encode(m.explanation)),
                ("definition"@, <String as Codec>::encode(m.definition)),
                ("example"@, opt_encode::<Vec<Example>>(m.example)),
        ];
        lemma_field_first(ms, "idiom"@, 0);
        assert(ms[0].0 != "explanation"@) by {
            assert("idiom"@.len() != "explanation"@.len());
        }
        lemma_field_first(ms, "explanation"@, 1);
        assert(ms[0].0 != "definition"@) by {
            assert("idiom"@.len() != "definition"@.len());
        }
        assert(ms[1].0 != "definition"@) by {
            assert("explanation"@.len() != "definition"@.len());
        }
        lemma_field_first(ms, "definition"@, 2);
        assert(ms[0].0 != "example"@) by {
            assert("idiom"@.len() != "example"@.len());
        }
        assert(ms[1].0 != "example"@) by {
            assert("explanation"@.len() != "example"@.len());
        }
        assert(ms[2].0 != "example"@) by {
            assert("definition"@.len() != "example"@.len());
        }
        lemma_field_first(ms, "example"@, 3);
    }

    fn to_json(&self) -> (r: JsonValue) {
        let ms = vec![
            (owned("idiom"), self.idiom.to_json()),
            (owned("explanation"), self.explanation.to_json()),
            (owned("definition"), self.definition.to_json()),
            (owned("example"), opt_to_json(&self.example)),
        ];
        proof {
            lemma_members_of(ms@);
        }
        assert(members_of(ms@) =~= seq![
            ("idiom"@, <String as Codec>::encode(self@.idiom)),
                ("explanation"@, <String as Codec>::encode(self@.explanation)),
                ("definition"@, <String as Codec>::encode(self@.definition)),
                ("example"@, opt_encode::<Vec<Example>>(self@.example)),
        ]);
        JsonValue::Object(ms)
    }

    fn from_json(j: &JsonValue) -> (r: Option<Idiom>) {
        let idiom = req_field::<String>(j, "idiom");
        let explanation = req_field::<String>(j, "explanation");
        let definition = req_field::<String>(j, "definition");
        let example = opt_field::<Vec<Example>>(j, "example");
        match (idiom, explanation, definition, example) {
            (Some(idiom), Some(explanation), Some(definition), Some(example)) => Some(Idiom { idiom: idiom, explanation: explanation, definition: definition, example: example }),
            _ => None,
        }
    }
}

impl Codec for PhrasalVerb {
    type Model = PhrasalVerbModel;

    open spec fn model(&self) -> PhrasalVerbModel {
        self@
    }

    open spec fn encode(m: PhrasalVerbModel) -> Json {
        Json::Object(
            seq![
                ("phrasal_verb"@, <String as Codec>::encode(m.phrasal_verb)),
                ("explanation"@, <String as Codec>::encode(m.explanation)),
                ("definition"@, <String as Codec>::encode(m.definition)),
                ("example"@, opt_encode::<Vec<Example>>(m.example)),
            ],
        )
    }

    open spec fn decode(j: Json) -> Option<PhrasalVerbModel> {
        match (
            req::<String>(j, "phrasal_verb"@),
            req::<String>(j, "explanation"@),
            req::<String>(j, "definition"@),
            opt::<Vec<Example>>(j, "example"@),
        ) {
            (Some(phrasal_verb), Some(explanation), Some(definition), Some(example)) => Some(PhrasalVerbModel { phrasal_verb: phrasal_verb, explanation: explanation, definition: definition, example: example }),
            _ => None,
        }
    }

    proof fn lemma_round_trip(m: PhrasalVerbModel) {
        reveal_strlit("phrasal_verb");
        reveal_strlit("explanation");
        reveal_strlit("definition");
        reveal_strlit("example");
        <String as Codec>::lemma_round_trip(m.phrasal_verb);
        <String as Codec>::lemma_round_trip(m.explanation);
        <String as Codec>::lemma_round_trip(m.definition);
        lemma_opt_round_trip::<Vec<Example>>(m.example);
        let ms = seq![
            ("phrasal_verb"@, <String as Codec>::encode(m.phrasal_verb)),
                ("explanation"@, <String as Codec>::encode(m.explanation)),
                ("definition"@, <String as Codec>::encode(m.definition)),
                ("example"@, opt_encode::<Vec<Example>>(m.example)),
        ];
        lemma_field_first(ms, "phrasal_verb"@, 0);
        assert(ms[0].0 != "explanation"@) by {
            assert("phrasal_verb"@.len() != "explanation"@.len());
        }
        lemma_field_first(ms, "explanation"@, 1);
        assert(ms[0].0 != "definition"@) by {
            assert("phrasal_verb"@.len() != "definition"@.len());
        }
        assert(ms[1].0 != "definition"@) by {
            assert("explanation"@.len() != "definition"@.len());
        }
        lemma_field_first(ms, "definition"@, 2);
        assert(ms[0].0 != "example"@) by {
            assert("phrasal_verb"@.len() != "example"@.len());
        }
        assert(ms[1].0 != "example"@) by {
            assert("explanation"@.len() != "example"@.len());
        }
        assert(ms[2].0 != "example"@) by {
            assert("definition"@.len() != "example"@.len());
        }
        lemma_field_first(ms, "example"@, 3);
    }

    fn to_json(&self) -> (r: JsonValue) {
        let ms = vec![
            (owned("phrasal_verb"), self.phrasal_verb.to_json()),
            (owned("explanation"), self.explanation.to_json()),
            (owned("definition"), self.definition.to_json()),
            (owned("example"), opt_to_json(&self.example)),
        ];
        proof {
            lemma_members_of(ms@);
        }
        assert(members_of(ms@) =~= seq![
            ("phrasal_verb"@, <String as Codec>::encode(self@.phrasal_verb)),
                ("explanation"@, <String as Codec>::encode(self@.explanation)),
                ("definition"@, <String as Codec>::encode(self@.definition)),
                ("example"@, opt_encode::<Vec<Example>>(self@.example)),
        ]);
        JsonValue::Object(ms)
    }

    fn from_json(j: &JsonValue) -> (r: Option<PhrasalVerb>) {
        let phrasal_verb = req_field::<String>(j, "phrasal_verb");
        let explanation = req_field::<String>(j, "explanation");
        let definition = req_field::<String>(j, "definition");
        let example = opt_field::<Vec<Example>>(j, "example");
        match (phrasal_verb, explanation, definition, example) {
            (Some(phrasal_verb), Some(explanation), Some(definition), Some(example)) => Some(PhrasalVerb { phrasal_verb: phrasal_verb, explanation: explanation, definition: definition, example: example }),
            _ => None,
        }
    }
}

impl Codec for PartOfSpeech {
    type Model = PartOfSpeechModel;

    open spec fn model(&self) -> PartOfSpeechModel {
        self@
    }

    open spec fn encode(m: PartOfSpeechModel) -> Json {
        Json::Object(
            seq![
                ("part_of_speech"@, <PartOfSpeechType as Codec>::encode(m.part_of_speech)),
                ("explanations"@, <Vec<Explanation> as Codec>::encode(m.explanations)),
                ("idioms"@, opt_encode::<Vec<Idiom>>(m.idioms)),
                ("phrasal_verbs"@, opt_encode::<Vec<PhrasalVerb>>(m.phrasal_verbs)),
            ],
        )
    }

    open spec fn decode(j: Json) -> Option<PartOfSpeechModel> {
        match (
            req::<PartOfSpeechType>(j, "part_of_speech"@),
            req::<Vec<Explanation>>(j, "explanations"@),
            opt::<Vec<Idiom>>(j, "idioms"@),
            opt::<Vec<PhrasalVerb>>(j, "phrasal_verbs"@),
        ) {
            (Some(part_of_speech), Some(explanations), Some(idioms), Some(phrasal_verbs)) => Some(PartOfSpeechModel { part_of_speech: part_of_speech, explanations: explanations, idioms: idioms, phrasal_verbs: phrasal_verbs }),
            _ => None,
        }
    }

    proof fn lemma_round_trip(m: PartOfSpeechModel) {
        reveal_strlit("part_of_speech");
        reveal_strlit("explanations");
        reveal_strlit("idioms");
        reveal_strlit("phrasal_verbs");
        <PartOfSpeechType as Codec>::lemma_round_trip(m.part_of_speech);
        <Vec<Explanation> as Codec>::lemma_round_trip(m.explanations);
        lemma_opt_round_trip::<Vec<Idiom>>(m.idioms);
        lemma_opt_round_trip::<Vec<PhrasalVerb>>(m.phrasal_verbs);
        let ms = seq![
            ("part_of_speech"@, <PartOfSpeechType as Codec>::encode(m.part_of_speech)),
                ("explanations"@, <Vec<Explanation> as Codec>::encode(m.explanations)),
                ("idioms"@, opt_encode::<Vec<Idiom>>(m.idioms)),
                ("phrasal_verbs"@, opt_encode::<Vec<PhrasalVerb>>(m.phrasal_verbs)),
        ];
        lemma_field_first(ms, "part_of_speech"@, 0);
        assert(ms[0].0 != "explanations"@) by {
            assert("part_of_speech"@.len() != "explanations"@.len());
        }
        lemma_field_first(ms, "explanations"@, 1);
        assert(ms[0].0 != "idioms"@) by {
            assert("part_of_speech"@.len() != "idioms"@.len());
        }
        assert(ms[1].0 != "idioms"@) by {
            assert("explanations"@.len() != "idioms"@.len());
        }
        lemma_field_first(ms, "idioms"@, 2);
        assert(ms[0].0 != "phrasal_verbs"@) by {
            assert("part_of_speech"@.len() != "phrasal_verbs"@.len());
        }
        assert(ms[1].0 != "phrasal_verbs"@) by {
            assert("explanations"@.len() != "phrasal_verbs"@.len());
        }
        assert(ms[2].0 != "phrasal_verbs"@) by {
            assert("idioms"@.len() != "phrasal_verbs"@.len());
        }
        lemma_field_first(ms, "phrasal_verbs"@, 3);
    }

    fn to_json(&self) -> (r: JsonValue) {
        let ms = vec![
            (owned("part_of_speech"), self.part_of_speech.to_json()),
            (owned("explanations"), self.explanations.to_json()),
            (owned("idioms"), opt_to_json(&self.idioms)),
            (owned("phrasal_verbs"), opt_to_json(&self.phrasal_verbs)),
        ];
        proof {
            lemma_members_of(ms@);
        }
        assert(members_of(ms@) =~= seq![
            ("part_of_speech"@, <PartOfSpeechType as Codec>::encode(self@.part_of_speech)),
                ("explanations"@, <Vec<Explanation> as Codec>::encode(self@.explanations)),
                ("idioms"@, opt_encode::<Vec<Idiom>>(self@.idioms)),
                ("phrasal_verbs"@, opt_encode::<Vec<PhrasalVerb>>(self@.phrasal_verbs)),
        ]);
        JsonValue::Object(ms)
    }

    fn from_json(j: &JsonValue) -> (r: Option<PartOfSpeech>) {
        let part_of_speech = req_field::<PartOfSpeechType>(j, "part_of_speech");
        let explanations = req_field::<Vec<Explanation>>(j, "explanations");
        let idioms = opt_field::<Vec<Idiom>>(j, "idioms");
        let phrasal_verbs = opt_field::<Vec<PhrasalVerb>>(j, "phrasal_verbs");
        match (part_of_speech, explanations, idioms, phrasal_verbs) {
            (Some(part_of_speech), Some(explanations), Some(idioms), Some(phrasal_verbs)) => Some(PartOfSpeech { part_of_speech: part_of_speech, explanations: explanations, idioms: idioms, phrasal_verbs: phrasal_verbs }),
            _ => None,
        }
    }
}

impl Codec for WordExplanation {
    type Model = WordModel;

    open spec fn model(&self) -> WordModel {
        self@
    }

    open spec fn encode(m: WordModel) -> Json {
        Json::Object(
            seq![
                ("word"@, <String as Codec>::encode(m.word)),
                ("phonetics"@, opt_encode::<Vec<String>>(m.phonetics)),
                ("part_of_speeches"@, opt_encode::<Vec<PartOfSpeech>>(m.part_of_speeches)),
            ],
        )
    }

    open spec fn decode(j: Json) -> Option<WordModel> {
        match (
            req::<String>(j, "word"@),
            opt::<Vec<String>>(j, "phonetics"@),
            opt::<Vec<PartOfSpeech>>(j, "part_of_speeches"@),
        ) {
            (Some(word), Some(phonetics), Some(part_of_speeches)) => Some(WordModel { word: word, phonetics: phonetics, part_of_speeches: part_of_speeches }),
            _ => None,
        }
    }

    proof fn lemma_round_trip(m: WordModel) {
        reveal_strlit("word");
        reveal_strlit("phonetics");
        reveal_strlit("part_of_speeches");
        <String as Codec>::lemma_round_trip(m.word);
        lemma_opt_round_trip::<Vec<String>>(m.phonetics);
        lemma_opt_round_trip::<Vec<PartOfSpeech>>(m.part_of_speeches);
        let ms = seq![
            ("word"@, <String as Codec>::encode(m.word)),
                ("phonetics"@, opt_encode::<Vec<String>>(m.phonetics)),
                ("part_of_speeches"@, opt_encode::<Vec<PartOfSpeech>>(m.part_of_speeches)),
        ];
        lemma_field_first(ms, "word"@, 0);
        assert(ms[0].0 != "phonetics"@) by {
            assert("word"@.len() != "phonetics"@.len());
        }
        lemma_field_first(ms, "phonetics"@, 1);
        assert(ms[0].0 != "part_of_speeches"@) by {
            assert("word"@.len() != "part_of_speeches"@.len());
        }
        assert(ms[1].0 != "part_of_speeches"@) by {
            assert("phonetics"@.len() != "part_of_speeches"@.len());
        }
        lemma_field_first(ms, "part_of_speeches"@, 2);
    }

    fn to_json(&self) -> (r: JsonValue) {
        let ms = vec![
            (owned("word"), self.word.to_json()),
            (owned("phonetics"), opt_to_json(&self.phonetics)),
            (owned("part_of_speeches"), opt_to_json(&self.part_of_speeches)),
        ];
        proof {
            lemma_members_of(ms@);
        }
        assert(members_of(ms@) =~= seq![
            ("word"@, <String as Codec>::encode(self@.word)),
                ("phonetics"@, opt_encode::<Vec<String>>(self@.phonetics)),
                ("part_of_speeches"@, opt_encode::<Vec<PartOfSpeech>>(self@.part_of_speeches)),
        ]);
        JsonValue::Object(ms)
    }

    fn from_json(j: &JsonValue) -> (r: Option<WordExplanation>) {
        let word = req_field::<String>(j, "word");
        let phonetics = opt_field::<Vec<String>>(j, "phonetics");
        let part_of_speeches = opt_field::<Vec<PartOfSpeech>>(j, "part_of_speeches");
        match (word, phonetics, part_of_speeches) {
            (Some(word), Some(phonetics), Some(part_of_speeches)) => Some(WordExplanation { word: word, phonetics: phonetics, part_of_speeches: part_of_speeches }),
            _ => None,
        }
    }
}

/// Reading back the JSON written for a dictionary entry gives the same entry,
/// field for field, with every absent field still absent.
pub proof fn lemma_entry_round_trip(m: WordModel)
    ensures
        WordExplanation::decode(WordExplanation::encode(m)) == Some(m),
{
    WordExplanation::lemma_round_trip(m);
}

} // verus!
