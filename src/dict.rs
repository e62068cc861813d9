//! The dictionary entry that word lookups produce, and its model.
use vstd::prelude::*;
use vstd::string::*;
use crate::codec::{Codec, opt_model};
use crate::text::owned;

verus! {

/// The part of speech an entry is filed under.
#[derive(PartialEq, Eq, Structural, Clone, Copy, Debug)]
pub enum PartOfSpeechType {
    Noun,
    Verb,
    Adjective,
    Adverb,
    Pronoun,
    Preposition,
    Conjunction,
    Interjection,
    Other,
}

/// The tag that stands for a part of speech in an entry's JSON.
pub open spec fn tag_text(t: PartOfSpeechType) -> Seq<char> {
    match t {
        PartOfSpeechType::Noun => "noun"@,
        PartOfSpeechType::Verb => "verb"@,
        PartOfSpeechType::Adjective => "adj."@,
        PartOfSpeechType::Adverb => "adv."@,
        PartOfSpeechType::Pronoun => "pron."@,
        PartOfSpeechType::Preposition => "prep."@,
        PartOfSpeechType::Conjunction => "conj."@,
        PartOfSpeechType::Interjection => "interj."@,
        PartOfSpeechType::Other => "other"@,
    }
}

impl PartOfSpeechType {
    /// The tag of this part of speech.
    pub fn as_str(&self) -> (r: &'static str)
        ensures
            r@ == tag_text(*self),
    {
        match self {
            PartOfSpeechType::Noun => "noun",
            PartOfSpeechType::Verb => "verb",
            PartOfSpeechType::Adjective => "adj.",
            PartOfSpeechType::Adverb => "adv.",
            PartOfSpeechType::Pronoun => "pron.",
            PartOfSpeechType::Preposition => "prep.",
            PartOfSpeechType::Conjunction => "conj.",
            PartOfSpeechType::Interjection => "interj.",
            PartOfSpeechType::Other => "other",
        }
    }
}

/// A sentence that uses the word, with its translation.
#[derive(Debug, PartialEq)]
pub struct Example {
    pub example: String,
    pub translation: String,
}

pub struct ExampleModel {
    pub example: Seq<char>,
    pub translation: Seq<char>,
}

/// One sense of the word.
#[derive(Debug, PartialEq)]
pub struct Explanation {
    pub phonetics: Option<Vec<String>>,
    pub abbreviation: Option<String>,
    pub explanation: String,
    pub definition: String,
    pub patterns: Option<Vec<String>>,
    pub examples: Option<Vec<Example>>,
}

pub struct ExplanationModel {
    pub phonetics: Option<Seq<Seq<char>>>,
    pub abbreviation: Option<Seq<char>>,
    pub explanation: Seq<char>,
    pub definition: Seq<char>,
    pub patterns: Option<Seq<Seq<char>>>,
    pub examples: Option<Seq<ExampleModel>>,
}

/// An idiom built on the word.
#[derive(Debug, PartialEq)]
pub struct Idiom {
    pub idiom: String,
    pub explanation: String,
    pub definition: String,
    pub example: Option<Vec<Example>>,
}

pub struct IdiomModel {
    pub idiom: Seq<char>,
    pub explanation: Seq<char>,
    pub definition: Seq<char>,
    pub example: Option<Seq<ExampleModel>>,
}

/// A phrasal verb built on the word.
#[derive(Debug, PartialEq)]
pub struct PhrasalVerb {
    pub phrasal_verb: String,
    pub explanation: String,
    pub definition: String,
    pub example: Option<Vec<Example>>,
}

pub struct PhrasalVerbModel {
    pub phrasal_verb: Seq<char>,
    pub explanation: Seq<char>,
    pub definition: Seq<char>,
    pub example: Option<Seq<ExampleModel>>,
}

/// The senses, idioms and phrasal verbs of the word under one part of speech.
#[derive(Debug, PartialEq)]
pub struct PartOfSpeech {
    pub part_of_speech: PartOfSpeechType,
    pub explanations: Vec<Explanation>,
    pub idioms: Option<Vec<Idiom>>,
    pub phrasal_verbs: Option<Vec<PhrasalVerb>>,
}

pub struct PartOfSpeechModel {
    pub part_of_speech: PartOfSpeechType,
    pub explanations: Seq<ExplanationModel>,
    pub idioms: Option<Seq<IdiomModel>>,
    pub phrasal_verbs: Option<Seq<PhrasalVerbModel>>,
}

/// A dictionary entry. A field that is `None` was not supplied.
#[derive(Debug, PartialEq)]
pub struct WordExplanation {
    pub word: String,
    pub phonetics: Option<Vec<String>>,
    pub part_of_speeches: Option<Vec<PartOfSpeech>>,
}

pub struct WordModel {
    pub word: Seq<char>,
    pub phonetics: Option<Seq<Seq<char>>>,
    pub part_of_speeches: Option<Seq<PartOfSpeechModel>>,
}

impl View for Example {
    type V = ExampleModel;

    open spec fn view(&self) -> ExampleModel {
        ExampleModel { example: self.example@, translation: self.translation@ }
    }
}

impl View for Explanation {
    type V = ExplanationModel;

    open spec fn view(&self) -> ExplanationModel {
        ExplanationModel {
            phonetics: opt_model(self.phonetics),
            abbreviation: opt_model(self.abbreviation),
            explanation: self.explanation@,
            definition: self.definition@,
            patterns: opt_model(self.patterns),
            examples: opt_model(self.examples),
        }
    }
}

impl View for Idiom {
    type V = IdiomModel;

    open spec fn view(&self) -> IdiomModel {
        IdiomModel {
            idiom: self.idiom@,
            explanation: self.explanation@,
            definition: self.definition@,
            example: opt_model(self.example),
        }
    }
}

impl View for PhrasalVerb {
    type V = PhrasalVerbModel;

    open spec fn view(&self) -> PhrasalVerbModel {
        PhrasalVerbModel {
            phrasal_verb: self.phrasal_verb@,
            explanation: self.explanation@,
            definition: self.definition@,
            example: opt_model(self.example),
        }
    }
}

impl View for PartOfSpeech {
    type V = PartOfSpeechModel;

    open spec fn view(&self) -> PartOfSpeechModel {
        PartOfSpeechModel {
            part_of_speech: self.part_of_speech,
            explanations: self.explanations.model(),
            idioms: opt_model(self.idioms),
            phrasal_verbs: opt_model(self.phrasal_verbs),
        }
    }
}

impl View for WordExplanation {
    type V = WordModel;

    open spec fn view(&self) -> WordModel {
        WordModel {
            word: self.word@,
            phonetics: opt_model(self.phonetics),
            part_of_speeches: opt_model(self.part_of_speeches),
        }
    }
}

fn example(e: &str, t: &str) -> (r: Example)
    ensures
        r@ == (ExampleModel { example: e@, translation: t@ }),
{
    Example { example: owned(e), translation: owned(t) }
}

/// The entry for "arrive" that word lookups show the model as the expected answer.
pub open spec fn arrive_model() -> WordModel {
    WordModel {
        word: "arrive"@,
        phonetics: Some(seq!["/əˈraɪv/"@]),
        part_of_speeches: Some(
            seq![
                PartOfSpeechModel {
                    part_of_speech: PartOfSpeechType::Verb,
                    explanations: seq![
                        ExplanationModel {
                            phonetics: None,
                            abbreviation: Some("arr."@),
                            explanation: "到达，抵达"@,
                            definition: "to get to a place, especially at the end of a journey"@,
                            patterns: Some(seq!["~/(at/in/on ...)"@]),
                            examples: Some(
                                seq![
                                    ExampleModel {
                                        example: "The train will arrive on time."@,
                                        translation: "火车将准时到达。"@,
                                    },
                                    ExampleModel {
                                        example: "By the time I *arrived on the scene*, it was all over."@,
                                        translation: "我来到现场时，一切都结束了。"@,
                                    },
                                ],
                            ),
                        },
                        ExplanationModel {
                            phonetics: None,
                            abbreviation: None,
                            explanation: "（东西）送达；寄到"@,
                            definition: "(of things) to be brought to sb"@,
                            patterns: None,
                            examples: Some(
                                seq![
                                    ExampleModel {
                                        example: "A letter arrived for you this morning"@,
                                        translation: "今天早上来了一封给你的信"@,
                                    },
                                    ExampleModel {
                                        example: "Send your application to arrive by 31 October"@,
                                        translation: "申请信要在 10 月 31 日前寄到"@,
                                    },
                                ],
                            ),
                        },
                    ],
                    idioms: Some(
                        seq![
                            IdiomModel {
                                idiom: "sb has arrived"@,
                                explanation: "某人成功了"@,
                                definition: "(informal) somebody has become successful"@,
                                example: Some(
                                    seq![
                                        ExampleModel {
                                            example: "He knew he had arrived when he waws shortlisted for the Booker prize"@,
                                            translation: "被列入布克小说作品奖决选名单后，他知道自己成功了"@,
                                        },
                                    ],
                                ),
                            },
                        ],
                    ),
                    phrasal_verbs: Some(
                        seq![
                            PhrasalVerbModel {
                                phrasal_verb: "arrive at sth"@,
                                explanation: "达成（协议）；作出（决议等）；得出（结论等）"@,
                                definition: "to decide on or find sth, expecially after discussion and thought"@,
                                example: Some(
                                    seq![
                                        ExampleModel {
                                            example: "to arrive at an agreement/a decision/a conclusion"@,
                                            translation: "达成协议；作出决定；得出结论"@,
                                        },
                                    ],
                                ),
                            },
                        ],
                    ),
                },
            ],
        ),
    }
}

/// The worked entry for "arrive": one verb sense group with two explanations,
/// one idiom and one phrasal verb.
pub fn example_arrive_word_explanation() -> (r: WordExplanation)
    ensures
        r@ == arrive_model(),
{
    let first = Explanation {
        abbreviation: Some(owned("arr.")),
        phonetics: None,
        explanation: owned("到达，抵达"),
        definition: owned("to get to a place, especially at the end of a journey"),
        patterns: Some(vec![owned("~/(at/in/on ...)")]),
        examples: Some(
            vec![
                example("The train will arrive on time.", "火车将准时到达。"),
                example(
                    "By the time I *arrived on the scene*, it was all over.",
                    "我来到现场时，一切都结束了。",
                ),
            ],
        ),
    };
    let second = Explanation {
        abbreviation: None,
        phonetics: None,
        explanation: owned("（东西）送达；寄到"),
        definition: owned("(of things) to be brought to sb"),
        patterns: None,
        examples: Some(
            vec![
                example("A letter arrived for you this morning", "今天早上来了一封给你的信"),
                example(
                    "Send your application to arrive by 31 October",
                    "申请信要在 10 月 31 日前寄到",
                ),
            ],
        ),
    };
    let idiom = Idiom {
        idiom: owned("sb has arrived"),
        definition: owned("(informal) somebody has become successful"),
        explanation: owned("某人成功了"),
        example: Some(
            vec![
                example(
                    "He knew he had arrived when he waws shortlisted for the Booker prize",
                    "被列入布克小说作品奖决选名单后，他知道自己成功了",
                ),
            ],
        ),
    };
    let phrasal = PhrasalVerb {
        phrasal_verb: owned("arrive at sth"),
        explanation: owned("达成（协议）；作出（决议等）；得出（结论等）"),
        definition: owned("to decide on or find sth, expecially after discussion and thought"),
        example: Some(
            vec![
                example(
                    "to arrive at an agreement/a decision/a conclusion",
                    "达成协议；作出决定；得出结论",
                ),
            ],
        ),
    };
    let ghost m = arrive_model().part_of_speeches->0[0];
    assert(first@.examples->0 =~= m.explanations[0].examples->0);
    assert(first@.patterns->0 =~= m.explanations[0].patterns->0);
    assert(first@ == m.explanations[0]);
    assert(second@.examples->0 =~= m.explanations[1].examples->0);
    assert(second@ == m.explanations[1]);
    assert(idiom@.example->0 =~= m.idioms->0[0].example->0);
    assert(idiom@ == m.idioms->0[0]);
    assert(phrasal@.example->0 =~= m.phrasal_verbs->0[0].example->0);
    assert(phrasal@ == m.phrasal_verbs->0[0]);
    let verb = PartOfSpeech {
        part_of_speech: PartOfSpeechType::Verb,
        explanations: vec![first, second],
        idioms: Some(vec![idiom]),
        phrasal_verbs: Some(vec![phrasal]),
    };
    assert(verb@.explanations =~= m.explanations);
    assert(verb@.idioms->0 =~= m.idioms->0);
    assert(verb@.phrasal_verbs->0 =~= m.phrasal_verbs->0);
    assert(verb@ == m);
    let r = WordExplanation {
        word: owned("arrive"),
        phonetics: Some(vec![owned("/əˈraɪv/")]),
        part_of_speeches: Some(vec![verb]),
    };
    assert(r@.part_of_speeches->0 =~= arrive_model().part_of_speeches->0);
    assert(r@.phonetics->0 =~= arrive_model().phonetics->0);
    r
}

} // verus!
