//! JSON documents: a tree type with a mathematical model, parsed through
//! `serde_json` and written back out as compact JSON text.
use vstd::prelude::*;
use vstd::string::*;
use crate::text::{same_text, texts};

verus! {

/// The model of a JSON document.
pub enum Json {
    Null,
    Bool(bool),
    /// A number, as the digits of its compact JSON form.
    Number(Seq<char>),
    Str(Seq<char>),
    Array(Seq<Json>),
    /// Members, in the order the parser hands them over.
    Object(Seq<(Seq<char>, Json)>),
}

/// A JSON document.
#[derive(Debug, PartialEq)]
pub enum JsonValue {
    Null,
    Bool(bool),
    Number(String),
    Str(String),
    Array(Vec<JsonValue>),
    Object(Vec<(String, JsonValue)>),
}

pub open spec fn json_of(v: JsonValue) -> Json
    decreases v,
{
    match v {
        JsonValue::Null => Json::Null,
        JsonValue::Bool(b) => Json::Bool(b),
        JsonValue::Number(n) => Json::Number(n@),
        JsonValue::Str(s) => Json::Str(s@),
        JsonValue::Array(items) => Json::Array(jsons_of(items@)),
        JsonValue::Object(ms) => Json::Object(members_of(ms@)),
    }
}

pub open spec fn jsons_of(s: Seq<JsonValue>) -> Seq<Json>
    decreases s,
{
    if s.len() == 0 {
        Seq::empty()
    } else {
        jsons_of(s.subrange(0, s.len() - 1)).push(json_of(s[s.len() - 1]))
    }
}

pub open spec fn members_of(s: Seq<(String, JsonValue)>) -> Seq<(Seq<char>, Json)>
    decreases s,
{
    if s.len() == 0 {
        Seq::empty()
    } else {
        members_of(s.subrange(0, s.len() - 1)).push(
            (s[s.len() - 1].0@, json_of(s[s.len() - 1].1)),
        )
    }
}

impl View for JsonValue {
    type V = Json;

    open spec fn view(&self) -> Json {
        json_of(*self)
    }
}

pub open spec fn opt_json(r: Option<JsonValue>) -> Option<Json> {
    match r {
        Some(v) => Some(v@),
        None => None,
    }
}

pub open spec fn opt_ref(r: Option<&JsonValue>) -> Option<Json> {
    match r {
        Some(v) => Some(v@),
        None => None,
    }
}

pub proof fn lemma_jsons_of(s: Seq<JsonValue>)
    ensures
        jsons_of(s).len() == s.len(),
        forall|i: int| 0 <= i < s.len() ==> #[trigger] jsons_of(s)[i] == s[i]@,
    decreases s.len(),
{
    if s.len() > 0 {
        lemma_jsons_of(s.subrange(0, s.len() - 1));
    }
}

pub proof fn lemma_members_of(s: Seq<(String, JsonValue)>)
    ensures
        members_of(s).len() == s.len(),
        forall|i: int|
            0 <= i < s.len() ==> #[trigger] members_of(s)[i] == (s[i].0@, s[i].1@),
    decreases s.len(),
{
    if s.len() > 0 {
        lemma_members_of(s.subrange(0, s.len() - 1));
    }
}

/// The value of the first member named `key`.
pub open spec fn field(ms: Seq<(Seq<char>, Json)>, key: Seq<char>) -> Option<Json>
    decreases ms.len(),
{
    if ms.len() == 0 {
        None
    } else {
        match field(ms.subrange(0, ms.len() - 1), key) {
            Some(v) => Some(v),
            None => if ms[ms.len() - 1].0 == key {
                Some(ms[ms.len() - 1].1)
            } else {
                None
            },
        }
    }
}

/// The member `key` of an object; `None` for anything but an object.
pub open spec fn member(j: Json, key: Seq<char>) -> Option<Json> {
    match j {
        Json::Object(ms) => field(ms, key),
        _ => None,
    }
}

/// The value of the first member named `key`, if there is one.
pub fn get_field<'a>(ms: &'a Vec<(String, JsonValue)>, key: &str) -> (r: Option<&'a JsonValue>)
    ensures
        opt_ref(r) == field(members_of(ms@), key@),
{
    proof {
        lemma_members_of(ms@);
    }
    let mut i: usize = 0;
    while i < ms.len()
        invariant
            i <= ms.len(),
            members_of(ms@).len() == ms@.len(),
            field(members_of(ms@).subrange(0, i as int), key@) is None,
        decreases ms.len() - i,
    {
        let ghost pre = members_of(ms@).subrange(0, i as int);
        let ghost next = members_of(ms@).subrange(0, i + 1);
        assert(next.subrange(0, i as int) =~= pre);
        proof {
            lemma_members_of(ms@);
            assert(next[i as int] == members_of(ms@)[i as int]);
        }
        if same_text(ms[i].0.as_str(), key) {
            proof {
                lemma_members_of(ms@);
                assert(next[i as int] == members_of(ms@)[i as int]);
                assert(field(next, key@) == Some(ms@[i as int].1@));
                lemma_field_prefix(members_of(ms@), key@, i + 1);
            }
            return Some(&ms[i].1);
        }
        i = i + 1;
    }
    assert(members_of(ms@).subrange(0, ms@.len() as int) =~= members_of(ms@));
    None
}

/// The member `key` of an object, if `v` is an object that has one.
pub fn get_member<'a>(v: &'a JsonValue, key: &str) -> (r: Option<&'a JsonValue>)
    ensures
        opt_ref(r) == member(v@, key@),
{
    match v {
        JsonValue::Object(ms) => get_field(ms, key),
        _ => None,
    }
}

/// A field found in a prefix is the field of the whole.
proof fn lemma_field_prefix(ms: Seq<(Seq<char>, Json)>, key: Seq<char>, k: int)
    requires
        0 <= k <= ms.len(),
        field(ms.subrange(0, k), key) is Some,
    ensures
        field(ms, key) == field(ms.subrange(0, k), key),
    decreases ms.len() - k,
{
    if k < ms.len() {
        assert(ms.subrange(0, k + 1).subrange(0, k) =~= ms.subrange(0, k));
        lemma_field_prefix(ms, key, k + 1);
    } else {
        assert(ms.subrange(0, k) =~= ms);
    }
}

/// Nesting deeper than this is refused by `serde_json`'s parser.
pub const MAX_DEPTH: usize = 128;

/// One level of a parsed JSON document: scalars as they are; the elements and
/// member values of an array or object as their own JSON text.
pub enum Level {
    Null,
    Bool(bool),
    Number(Seq<char>),
    Str(Seq<char>),
    Array(Seq<Seq<char>>),
    Object(Seq<(Seq<char>, Seq<char>)>),
}

pub enum JsonLevel {
    Null,
    Bool(bool),
    Number(String),
    Str(String),
    Array(Vec<String>),
    Object(Vec<(String, String)>),
}

pub open spec fn pair_texts(m: (String, String)) -> (Seq<char>, Seq<char>) {
    (m.0@, m.1@)
}

impl View for JsonLevel {
    type V = Level;

    open spec fn view(&self) -> Level {
        match self {
            JsonLevel::Null => Level::Null,
            JsonLevel::Bool(b) => Level::Bool(*b),
            JsonLevel::Number(n) => Level::Number(n@),
            JsonLevel::Str(s) => Level::Str(s@),
            JsonLevel::Array(cs) => Level::Array(texts(cs@)),
            JsonLevel::Object(ms) => Level::Object(ms@.map_values(|m: (String, String)| pair_texts(m))),
        }
    }
}

/// What `serde_json` reads from `text`, one level deep; `None` where it is not JSON.
pub uninterp spec fn json_level_of(text: Seq<char>) -> Option<Level>;

/// Relies on `serde_json::from_str::<serde_json::Value>` to parse `text` as one JSON
/// document; each element and member value of the top level is handed back as the
/// compact text that `Value`'s `Display` impl writes for it.
#[verifier::external_body]
fn parse_level(text: &str) -> (r: Option<JsonLevel>)
    ensures
        r is None <==> json_level_of(text@) is None,
        r matches Some(l) ==> json_level_of(text@) == Some(l@),
{
    match serde_json::from_str::<serde_json::Value>(text) {
        Err(_) => None,
        Ok(serde_json::Value::Null) => Some(JsonLevel::Null),
        Ok(serde_json::Value::Bool(b)) => Some(JsonLevel::Bool(b)),
        Ok(serde_json::Value::Number(n)) => Some(JsonLevel::Number(n.to_string())),
        Ok(serde_json::Value::String(s)) => Some(JsonLevel::Str(s)),
        Ok(serde_json::Value::Array(a)) => Some(JsonLevel::Array(a.iter().map(|x| x.to_string()).collect())),
        Ok(serde_json::Value::Object(m)) => Some(JsonLevel::Object(m.into_iter().map(|(k, x)| (k, x.to_string())).collect())),
    }
}

/// The document that `text` holds, reading at most `depth` levels of arrays and objects.
pub open spec fn tree_of(text: Seq<char>, depth: nat) -> Option<Json>
    decreases depth, 0nat,
{
    match json_level_of(text) {
        None => None,
        Some(Level::Null) => Some(Json::Null),
        Some(Level::Bool(b)) => Some(Json::Bool(b)),
        Some(Level::Number(n)) => Some(Json::Number(n)),
        Some(Level::Str(s)) => Some(Json::Str(s)),
        Some(Level::Array(cs)) => if depth == 0 {
            None
        } else {
            match trees_of(cs, (depth - 1) as nat) {
                Some(js) => Some(Json::Array(js)),
                None => None,
            }
        },
        Some(Level::Object(ms)) => if depth == 0 {
            None
        } else {
            match member_trees_of(ms, (depth - 1) as nat) {
                Some(js) => Some(Json::Object(js)),
                None => None,
            }
        },
    }
}

pub open spec fn trees_of(cs: Seq<Seq<char>>, depth: nat) -> Option<Seq<Json>>
    decreases depth, cs.len(),
{
    if cs.len() == 0 {
        Some(Seq::empty())
    } else {
        match (trees_of(cs.subrange(0, cs.len() - 1), depth), tree_of(cs[cs.len() - 1], depth)) {
            (Some(a), Some(j)) => Some(a.push(j)),
            _ => None,
        }
    }
}

pub open spec fn member_trees_of(ms: Seq<(Seq<char>, Seq<char>)>, depth: nat) -> Option<
    Seq<(Seq<char>, Json)>,
>
    decreases depth, ms.len(),
{
    if ms.len() == 0 {
        Some(Seq::empty())
    } else {
        match (
            member_trees_of(ms.subrange(0, ms.len() - 1), depth),
            tree_of(ms[ms.len() - 1].1, depth),
        ) {
            (Some(a), Some(j)) => Some(a.push((ms[ms.len() - 1].0, j))),
            _ => None,
        }
    }
}

/// The document that `text` holds, or `None` where it is not JSON.
pub open spec fn json_doc(text: Seq<char>) -> Option<Json> {
    tree_of(text, MAX_DEPTH as nat)
}

proof fn lemma_trees_prefix_none(cs: Seq<Seq<char>>, depth: nat, k: int)
    requires
        0 <= k <= cs.len(),
        trees_of(cs.subrange(0, k), depth) is None,
    ensures
        trees_of(cs, depth) is None,
    decreases cs.len() - k,
{
    if k < cs.len() {
        assert(cs.subrange(0, k + 1).subrange(0, k) =~= cs.subrange(0, k));
        lemma_trees_prefix_none(cs, depth, k + 1);
    } else {
        assert(cs.subrange(0, k) =~= cs);
    }
}

proof fn lemma_member_trees_prefix_none(ms: Seq<(Seq<char>, Seq<char>)>, depth: nat, k: int)
    requires
        0 <= k <= ms.len(),
        member_trees_of(ms.subrange(0, k), depth) is None,
    ensures
        member_trees_of(ms, depth) is None,
    decreases ms.len() - k,
{
    if k < ms.len() {
        assert(ms.subrange(0, k + 1).subrange(0, k) =~= ms.subrange(0, k));
        lemma_member_trees_prefix_none(ms, depth, k + 1);
    } else {
        assert(ms.subrange(0, k) =~= ms);
    }
}

fn parse_tree(text: &str, depth: usize) -> (r: Option<JsonValue>)
    ensures
        opt_json(r) == tree_of(text@, depth as nat),
    decreases depth,
{
    let level = parse_level(text);
    match level {
        None => None,
        Some(JsonLevel::Null) => Some(JsonValue::Null),
        Some(JsonLevel::Bool(b)) => Some(JsonValue::Bool(b)),
        Some(JsonLevel::Number(n)) => Some(JsonValue::Number(n)),
        Some(JsonLevel::Str(s)) => Some(JsonValue::Str(s)),
        Some(JsonLevel::Array(cs)) => {
            if depth == 0 {
                return None;
            }
            let ghost d = (depth - 1) as nat;
            let mut items: Vec<JsonValue> = Vec::new();
            let mut i: usize = 0;
            while i < cs.len()
                invariant
                    i <= cs.len(),
                    depth > 0,
                    d == depth - 1,
                    json_level_of(text@) == Some(Level::Array(texts(cs@))),
                    trees_of(texts(cs@).subrange(0, i as int), d) == Some(jsons_of(items@)),
                decreases cs.len() - i,
            {
                let ghost pre = texts(cs@).subrange(0, i as int);
                let ghost next = texts(cs@).subrange(0, i + 1);
                assert(next.subrange(0, i as int) =~= pre);
                assert(next[i as int] == cs@[i as int]@);
                match parse_tree(cs[i].as_str(), depth - 1) {
                    None => {
                        proof {
                            lemma_trees_prefix_none(texts(cs@), d, i + 1);
                        }
                        return None;
                    },
                    Some(x) => {
                        let ghost old_items = items@;
                        items.push(x);
                        assert(items@.subrange(0, items@.len() - 1) =~= old_items);
                    },
                }
                i = i + 1;
            }
            assert(texts(cs@).subrange(0, cs@.len() as int) =~= texts(cs@));
            Some(JsonValue::Array(items))
        },
        Some(JsonLevel::Object(ms)) => {
            if depth == 0 {
                return None;
            }
            let ghost d = (depth - 1) as nat;
            let ghost mts = ms@.map_values(|m: (String, String)| pair_texts(m));
            let mut members: Vec<(String, JsonValue)> = Vec::new();
            let mut i: usize = 0;
            while i < ms.len()
                invariant
                    i <= ms.len(),
                    depth > 0,
                    d == depth - 1,
                    mts == ms@.map_values(|m: (String, String)| pair_texts(m)),
                    json_level_of(text@) == Some(Level::Object(mts)),
                    member_trees_of(mts.subrange(0, i as int), d) == Some(members_of(members@)),
                decreases ms.len() - i,
            {
                let ghost pre = mts.subrange(0, i as int);
                let ghost next = mts.subrange(0, i + 1);
                assert(next.subrange(0, i as int) =~= pre);
                assert(next[i as int] == pair_texts(ms@[i as int]));
                match parse_tree(ms[i].1.as_str(), depth - 1) {
                    None => {
                        proof {
                            lemma_member_trees_prefix_none(mts, d, i + 1);
                        }
                        return None;
                    },
                    Some(x) => {
                        let ghost old_members = members@;
                        let key = ms[i].0.clone();
                        members.push((key, x));
                        assert(members@.subrange(0, members@.len() - 1) =~= old_members);
                    },
                }
                i = i + 1;
            }
            assert(mts.subrange(0, ms@.len() as int) =~= mts);
            Some(JsonValue::Object(members))
        },
    }
}

/// Parses `text` as a JSON document.
pub fn parse_json(text: &str) -> (r: Option<JsonValue>)
    ensures
        opt_json(r) == json_doc(text@),
{
    parse_tree(text, MAX_DEPTH)
}

/// The lowercase hexadecimal digits.
pub const HEX_DIGITS: &'static str = "0123456789abcdef";

/// How one character is written inside a JSON string: quote, backslash and the
/// control characters below U+0020 are escaped, the short forms where JSON has
/// them and `\u00xx` with lowercase hex otherwise; anything else stands as it is.
pub open spec fn escaped_char(c: char) -> Seq<char> {
    let u = c as u32;
    if c == '"' {
        "\\\""@
    } else if c == '\\' {
        "\\\\"@
    } else if u == 0x8 {
        "\\b"@
    } else if u == 0x9 {
        "\\t"@
    } else if u == 0xa {
        "\\n"@
    } else if u == 0xc {
        "\\f"@
    } else if u == 0xd {
        "\\r"@
    } else if u < 0x20 {
        "\\u00"@ + seq![HEX_DIGITS@[(u / 16) as int], HEX_DIGITS@[(u % 16) as int]]
    } else {
        seq![c]
    }
}

/// The characters of `s`, each written as inside a JSON string.
pub open spec fn escaped(s: Seq<char>) -> Seq<char>
    decreases s.len(),
{
    if s.len() == 0 {
        Seq::empty()
    } else {
        escaped(s.subrange(0, s.len() - 1)) + escaped_char(s[s.len() - 1])
    }
}

/// The JSON string literal that stands for `s`, written as `serde_json` writes it.
pub open spec fn quoted(s: Seq<char>) -> Seq<char> {
    "\""@ + escaped(s) + "\""@
}

fn write_escaped_char(s: &str, n: usize, i: usize, out: &mut String)
    requires
        n == s@.len(),
        i < n,
    ensures
        final(out)@ == old(out)@ + escaped_char(s@[i as int]),
{
    let c = s.get_char(i);
    let u = c as u32;
    if c == '"' {
        out.append("\\\"");
    } else if c == '\\' {
        out.append("\\\\");
    } else if u == 0x8 {
        out.append("\\b");
    } else if u == 0x9 {
        out.append("\\t");
    } else if u == 0xa {
        out.append("\\n");
    } else if u == 0xc {
        out.append("\\f");
    } else if u == 0xd {
        out.append("\\r");
    } else if u < 0x20 {
        proof {
            reveal_strlit("0123456789abcdef");
        }
        let hi = (u / 16) as usize;
        let lo = (u % 16) as usize;
        out.append("\\u00");
        out.append(HEX_DIGITS.substring_char(hi, hi + 1));
        out.append(HEX_DIGITS.substring_char(lo, lo + 1));
        assert(HEX_DIGITS@.subrange(hi as int, hi + 1) =~= seq![HEX_DIGITS@[hi as int]]);
        assert(HEX_DIGITS@.subrange(lo as int, lo + 1) =~= seq![HEX_DIGITS@[lo as int]]);
        assert(final(out)@ =~= old(out)@ + escaped_char(c));
    } else {
        out.append(s.substring_char(i, i + 1));
        assert(s@.subrange(i as int, i + 1) =~= seq![c]);
    }
}

/// The JSON string literal that stands for `s`.
pub fn quote(s: &str) -> (r: String)
    ensures
        r@ == quoted(s@),
{
    let n = s.unicode_len();
    let mut out = String::new();
    out.append("\"");
    let ghost start = out@;
    let mut i: usize = 0;
    while i < n
        invariant
            i <= n,
            n == s@.len(),
            start == "\""@,
            out@ == start + escaped(s@.subrange(0, i as int)),
        decreases n - i,
    {
        write_escaped_char(s, n, i, &mut out);
        assert(s@.subrange(0, i + 1).subrange(0, i as int) =~= s@.subrange(0, i as int));
        assert(out@ =~= start + escaped(s@.subrange(0, i + 1)));
        i = i + 1;
    }
    assert(s@.subrange(0, n as int) =~= s@);
    out.append("\"");
    assert(out@ =~= quoted(s@));
    out
}

/// The compact JSON text of a document.
pub open spec fn json_text(j: Json) -> Seq<char>
    decreases j,
{
    match j {
        Json::Null => "null"@,
        Json::Bool(b) => if b {
            "true"@
        } else {
            "false"@
        },
        Json::Number(n) => n,
        Json::Str(s) => quoted(s),
        Json::Array(items) => "["@ + items_text(items) + "]"@,
        Json::Object(ms) => "{"@ + members_text(ms) + "}"@,
    }
}

pub open spec fn items_text(items: Seq<Json>) -> Seq<char>
    decreases items,
{
    if items.len() == 0 {
        Seq::empty()
    } else if items.len() == 1 {
        json_text(items[0])
    } else {
        items_text(items.subrange(0, items.len() - 1)) + ","@ + json_text(items[items.len() - 1])
    }
}

pub open spec fn member_text(m: (Seq<char>, Json)) -> Seq<char>
    decreases m,
{
    quoted(m.0) + ":"@ + json_text(m.1)
}

pub open spec fn members_text(ms: Seq<(Seq<char>, Json)>) -> Seq<char>
    decreases ms,
{
    if ms.len() == 0 {
        Seq::empty()
    } else if ms.len() == 1 {
        member_text(ms[0])
    } else {
        members_text(ms.subrange(0, ms.len() - 1)) + ","@ + member_text(ms[ms.len() - 1])
    }
}

fn write_json(v: &JsonValue, out: &mut String)
    ensures
        final(out)@ == old(out)@ + json_text(v@),
    decreases v@,
{
    match v {
        JsonValue::Null => out.append("null"),
        JsonValue::Bool(b) => {
            if *b {
                out.append("true");
            } else {
                out.append("false");
            }
        },
        JsonValue::Number(n) => out.append(n.as_str()),
        JsonValue::Str(s) => {
            let q = quote(s.as_str());
            out.append(q.as_str());
        },
        JsonValue::Array(items) => {
            proof {
                lemma_jsons_of(items@);
            }
            let ghost js = jsons_of(items@);
            out.append("[");
            let ghost start = out@;
            let mut i: usize = 0;
            while i < items.len()
                invariant
                    i <= items.len(),
                    js == jsons_of(items@),
                    v@ == Json::Array(js),
                    js.len() == items@.len(),
                    forall|k: int| 0 <= k < items@.len() ==> #[trigger] js[k] == items@[k]@,
                    out@ == start + items_text(js.subrange(0, i as int)),
                decreases items.len() - i,
            {
                let ghost pre = js.subrange(0, i as int);
                let ghost next = js.subrange(0, i + 1);
                assert(next.subrange(0, i as int) =~= pre);
                assert(next[i as int] == items@[i as int]@);
                if i > 0 {
                    out.append(",");
                }
                assert(decreases_to!(v@ => v@->Array_0));
                assert(decreases_to!(js => js[i as int]));
                assert(decreases_to!(v@ => js[i as int]));
                write_json(&items[i], out);
                assert(out@ =~= start + items_text(next));
                i = i + 1;
            }
            assert(js.subrange(0, items@.len() as int) =~= js);
            out.append("]");
            assert(out@ =~= old(out)@ + json_text(v@));
        },
        JsonValue::Object(ms) => {
            proof {
                lemma_members_of(ms@);
            }
            let ghost js = members_of(ms@);
            out.append("{");
            let ghost start = out@;
            let mut i: usize = 0;
            while i < ms.len()
                invariant
                    i <= ms.len(),
                    js == members_of(ms@),
                    v@ == Json::Object(js),
                    js.len() == ms@.len(),
                    forall|k: int| 0 <= k < ms@.len() ==> #[trigger] js[k] == (ms@[k].0@, ms@[k].1@),
                    out@ == start + members_text(js.subrange(0, i as int)),
                decreases ms.len() - i,
            {
                let ghost pre = js.subrange(0, i as int);
                let ghost next = js.subrange(0, i + 1);
                assert(next.subrange(0, i as int) =~= pre);
                assert(next[i as int] == (ms@[i as int].0@, ms@[i as int].1@));
                if i > 0 {
                    out.append(",");
                }
                let ghost mid = out@;
                let q = quote(ms[i].0.as_str());
                out.append(q.as_str());
                out.append(":");
                assert(decreases_to!(v@ => v@->Object_0));
                assert(decreases_to!(js => js[i as int]));
                assert(decreases_to!(js[i as int] => js[i as int].1));
                assert(decreases_to!(v@ => js[i as int].1));
                write_json(&ms[i].1, out);
                assert(out@ =~= mid + member_text(next[i as int]));
                assert(out@ =~= start + members_text(next));
                i = i + 1;
            }
            assert(js.subrange(0, ms@.len() as int) =~= js);
            out.append("}");
            assert(out@ =~= old(out)@ + json_text(v@));
        },
    }
}

/// The compact JSON text of `v`.
pub fn to_json_text(v: &JsonValue) -> (r: String)
    ensures
        r@ == json_text(v@),
{
    let mut out = String::new();
    write_json(v, &mut out);
    assert(out@ =~= json_text(v@));
    out
}

} // verus!
