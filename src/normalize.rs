//! Turns the providers' reply envelopes into plain text, and that text into
//! dictionary entries.
use vstd::prelude::*;
use vstd::string::*;
use crate::codec::{Codec, nullable};
use crate::dict::{WordExplanation, WordModel};
use crate::json::{Json, JsonValue, get_member, json_doc, jsons_of, lemma_jsons_of, member, parse_json};
use crate::text::{
    has_prefix, has_suffix, join, joined, lemma_trimmed_idempotent, strip_prefix, strip_suffix, texts,
    trim, trimmed,
};

verus! {

/// `text` without surrounding white space, a leading ```` ```json ```` fence and a
/// trailing ```` ``` ```` fence, trimmed again after each fence goes.
pub open spec fn unfenced(text: Seq<char>) -> Seq<char> {
    let t = trimmed(text);
    let t = if has_prefix(t, "```json"@) {
        trimmed(t.subrange("```json"@.len() as int, t.len() as int))
    } else {
        t
    };
    if has_suffix(t, "```"@) {
        trimmed(t.subrange(0, t.len() - "```"@.len()))
    } else {
        t
    }
}

/// Removes the markdown fences that models put round JSON.
pub fn strip_fences(text: &str) -> (r: &str)
    ensures
        r@ == unfenced(text@),
{
    let t = trim(text);
    let t = match strip_prefix(t, "```json") {
        Some(rest) => trim(rest),
        None => t,
    };
    match strip_suffix(t, "```") {
        Some(rest) => trim(rest),
        None => t,
    }
}

/// Stripping fences from JSON that has none, and no white space round it, changes nothing.
pub proof fn lemma_unfenced_clean(text: Seq<char>)
    requires
        trimmed(text) == text,
        !has_prefix(text, "```json"@),
        !has_suffix(text, "```"@),
    ensures
        unfenced(text) == text,
{
}

/// Stripping fences twice is stripping them once, wherever the first pass leaves
/// no fence behind.
pub proof fn lemma_unfenced_idempotent(text: Seq<char>)
    requires
        !has_prefix(unfenced(text), "```json"@),
        !has_suffix(unfenced(text), "```"@),
    ensures
        unfenced(unfenced(text)) == unfenced(text),
{
    let t0 = trimmed(text);
    lemma_trimmed_idempotent(text);
    let t1 = if has_prefix(t0, "```json"@) {
        trimmed(t0.subrange("```json"@.len() as int, t0.len() as int))
    } else {
        t0
    };
    if has_prefix(t0, "```json"@) {
        lemma_trimmed_idempotent(t0.subrange("```json"@.len() as int, t0.len() as int));
    }
    if has_suffix(t1, "```"@) {
        lemma_trimmed_idempotent(t1.subrange(0, t1.len() - "```"@.len()));
    }
    lemma_unfenced_clean(unfenced(text));
}

/// The text of one choice: the `content` of its member `key` (`"message"` or
/// `"delta"`), empty where that content is absent or `null`.
pub open spec fn choice_content(choice: Json, key: Seq<char>) -> Option<Seq<char>> {
    match member(choice, key) {
        Some(Json::Object(ms)) => match nullable(member(Json::Object(ms), "content"@)) {
            Json::Null => Some(Seq::empty()),
            Json::Str(s) => Some(s),
            _ => None,
        },
        _ => None,
    }
}

/// The texts of all choices, in order; `None` where one does not fit.
pub open spec fn choice_contents(items: Seq<Json>, key: Seq<char>) -> Option<Seq<Seq<char>>> {
    if forall|i: int| 0 <= i < items.len() ==> (#[trigger] choice_content(items[i], key)) is Some {
        Some(items.map_values(|c: Json| choice_content(c, key)->0))
    } else {
        None
    }
}

/// The texts of the `choices` of an envelope, each read under `key`.
pub open spec fn choices_text(j: Json, key: Seq<char>) -> Option<Seq<Seq<char>>> {
    match member(j, "choices"@) {
        Some(Json::Array(items)) => choice_contents(items, key),
        _ => None,
    }
}

/// Whether `c` is one of the digits 0 to 9.
pub open spec fn is_digit(c: char) -> bool {
    48 <= (c as u32) && (c as u32) <= 57
}

pub open spec fn digit_value(c: char) -> nat {
    ((c as u32) - 48) as nat
}

/// The value of a numeral of decimal digits; `None` for anything else.
pub open spec fn numeral(t: Seq<char>) -> Option<nat>
    decreases t.len(),
{
    if t.len() == 0 || !is_digit(t[t.len() - 1]) {
        None
    } else if t.len() == 1 {
        Some(digit_value(t[0]))
    } else {
        match numeral(t.subrange(0, t.len() - 1)) {
            Some(v) => Some(v * 10 + digit_value(t[t.len() - 1])),
            None => None,
        }
    }
}

/// The `index` member of a choice, where it is a whole number.
pub open spec fn choice_index(c: Json) -> Option<nat> {
    match member(c, "index"@) {
        Some(Json::Number(t)) => numeral(t),
        _ => None,
    }
}

/// The indices of all choices; `None` where one lacks a whole-number index.
pub open spec fn choice_indices(items: Seq<Json>) -> Option<Seq<nat>> {
    if forall|i: int| 0 <= i < items.len() ==> (#[trigger] choice_index(items[i])) is Some {
        Some(items.map_values(|c: Json| choice_index(c)->0))
    } else {
        None
    }
}

/// The indices are 0 to n - 1, each once.
pub open spec fn is_index_order(idx: Seq<nat>) -> bool {
    &&& forall|i: int| 0 <= i < idx.len() ==> idx[i] < idx.len()
    &&& forall|i: int, j: int| 0 <= i < j < idx.len() ==> idx[i] != idx[j]
    &&& forall|k: nat| k < idx.len() ==> #[trigger] has_index(idx, k)
}

/// Some text has index `k`.
pub open spec fn has_index(idx: Seq<nat>, k: nat) -> bool {
    exists|i: int| 0 <= i < idx.len() && idx[i] == k
}

/// The texts placed by their indices: the text with index `k` at `k`.
pub open spec fn by_index(idx: Seq<nat>, cs: Seq<Seq<char>>) -> Option<Seq<Seq<char>>> {
    if idx.len() == cs.len() && is_index_order(idx) {
        Some(Seq::new(cs.len(), |k: int| cs[choose|i: int| 0 <= i < idx.len() && idx[i] == k]))
    } else {
        None
    }
}

/// No choice carries an `index` (each is absent or `null`).
pub open spec fn unindexed(items: Seq<Json>) -> bool {
    forall|i: int| 0 <= i < items.len() ==> (#[trigger] nullable(member(items[i], "index"@))) is Null
}

/// The texts of the `choices` of `j`, each read under `key`, in the order of their
/// indices; in the order given where no choice carries an index.
pub open spec fn ordered_choices(j: Json, key: Seq<char>) -> Option<Seq<Seq<char>>> {
    match member(j, "choices"@) {
        Some(Json::Array(items)) => match choice_contents(items, key) {
            Some(cs) => if unindexed(items) {
                Some(cs)
            } else {
                match choice_indices(items) {
                    Some(idx) => by_index(idx, cs),
                    None => None,
                }
            },
            None => None,
        },
        _ => None,
    }
}

/// The answer in a chat-completion envelope: the messages of all choices in
/// index order, one per line.
pub open spec fn completion_text(j: Json) -> Option<Seq<char>> {
    match ordered_choices(j, "message"@) {
        Some(o) => Some(joined(o, "\n"@)),
        None => None,
    }
}

/// The increment that one stream frame carries: the deltas of all its choices.
pub open spec fn frame_delta(j: Json) -> Option<Seq<char>> {
    match choices_text(j, "delta"@) {
        Some(cs) => Some(joined(cs, ""@)),
        None => None,
    }
}

/// The answer in a text-generation envelope: `output.text` where present,
/// else the messages of `output.choices` in index order, joined with nothing between.
pub open spec fn generation_text(j: Json) -> Option<Seq<char>> {
    match member(j, "output"@) {
        Some(Json::Object(ms)) => {
            let out = Json::Object(ms);
            match nullable(member(out, "text"@)) {
                Json::Str(t) => Some(t),
                Json::Null => match ordered_choices(out, "message"@) {
                    Some(cs) => Some(joined(cs, ""@)),
                    None => None,
                },
                _ => None,
            }
        },
        _ => None,
    }
}

pub open spec fn opt_text(r: Option<String>) -> Option<Seq<char>> {
    match r {
        Some(s) => Some(s@),
        None => None,
    }
}

fn read_choice(choice: &JsonValue, key: &str) -> (r: Option<String>)
    ensures
        opt_text(r) == choice_content(choice@, key@),
{
    match get_member(choice, key) {
        Some(msg) => match msg {
            JsonValue::Object(_) => match get_member(msg, "content") {
                None => Some(String::new()),
                Some(JsonValue::Null) => Some(String::new()),
                Some(JsonValue::Str(s)) => Some(s.clone()),
                Some(_) => None,
            },
            _ => None,
        },
        None => None,
    }
}

fn read_choices(j: &JsonValue, key: &str) -> (r: Option<Vec<String>>)
    ensures
        r is Some <==> choices_text(j@, key@) is Some,
        r matches Some(v) ==> choices_text(j@, key@) == Some(texts(v@)),
{
    match get_member(j, "choices") {
        Some(JsonValue::Array(items)) => {
            proof {
                lemma_jsons_of(items@);
            }
            let ghost js = jsons_of(items@);
            let mut out: Vec<String> = Vec::new();
            let mut i: usize = 0;
            while i < items.len()
                invariant
                    i <= items.len(),
                    out@.len() == i,
                    member(j@, "choices"@) == Some(Json::Array(js)),
                    js.len() == items@.len(),
                    forall|k: int| 0 <= k < items@.len() ==> #[trigger] js[k] == items@[k]@,
                    forall|k: int|
                        0 <= k < i ==> choice_content(js[k], key@) == Some(#[trigger] out@[k]@),
                decreases items.len() - i,
            {
                match read_choice(&items[i], key) {
                    None => {
                        assert(!(choice_content(js[i as int], key@) is Some));
                        return None;
                    },
                    Some(s) => out.push(s),
                }
                i = i + 1;
            }
            assert forall|k: int| 0 <= k < js.len() implies (#[trigger] choice_content(
                js[k],
                key@,
            )) is Some by {
                assert(choice_content(js[k], key@) == Some(out@[k]@));
            }
            assert(texts(out@) =~= js.map_values(|c: Json| choice_content(c, key@)->0));
            Some(out)
        },
        _ => None,
    }
}

/// A numeral that does not read is not made to read by more characters, and one
/// that reads has a value no smaller than any of its heads.
proof fn lemma_numeral_head(t: Seq<char>, k: int)
    requires
        0 < k <= t.len(),
    ensures
        numeral(t.subrange(0, k)) is None ==> numeral(t) is None,
        numeral(t) matches Some(v) ==> (numeral(t.subrange(0, k)) matches Some(u) && u <= v),
    decreases t.len(),
{
    if k == t.len() {
        assert(t.subrange(0, k) =~= t);
    } else {
        let head = t.subrange(0, t.len() - 1);
        assert(head.subrange(0, k) =~= t.subrange(0, k));
        lemma_numeral_head(head, k);
    }
}

/// The value of the numeral `t` where it is below `bound`.
pub fn read_numeral(t: &str, bound: usize) -> (r: Option<usize>)
    ensures
        r == match numeral(t@) {
            Some(v) => if v < bound {
                Some(v as usize)
            } else {
                None::<usize>
            },
            None => None::<usize>,
        },
{
    let n = t.unicode_len();
    if n == 0 {
        return None;
    }
    let mut v: usize = 0;
    let mut i: usize = 0;
    while i < n
        invariant
            i <= n,
            n == t@.len(),
            n > 0,
            i == 0 ==> v == 0,
            i > 0 ==> numeral(t@.subrange(0, i as int)) == Some(v as nat),
            v < bound || i == 0,
        decreases n - i,
    {
        let c = t.get_char(i);
        let ghost head = t@.subrange(0, i + 1);
        assert(head.subrange(0, i as int) =~= t@.subrange(0, i as int));
        assert(head[i as int] == c);
        if !(48 <= (c as u32) && (c as u32) <= 57) {
            proof {
                lemma_numeral_head(t@, i + 1);
            }
            return None;
        }
        let next: u128 = (v as u128) * 10 + ((c as u32) - 48) as u128;
        if next >= bound as u128 {
            proof {
                lemma_numeral_head(t@, i + 1);
            }
            return None;
        }
        v = next as usize;
        i = i + 1;
    }
    assert(t@.subrange(0, n as int) =~= t@);
    Some(v)
}

pub open spec fn nats(v: Seq<usize>) -> Seq<nat> {
    v.map_values(|x: usize| x as nat)
}

fn read_indices(items: &Vec<JsonValue>) -> (r: Option<Vec<usize>>)
    ensures
        match r {
            Some(v) => choice_indices(jsons_of(items@)) == Some(nats(v@)) && forall|i: int|
                0 <= i < v@.len() ==> v@[i] < items@.len(),
            None => choice_indices(jsons_of(items@)) is None || !(forall|i: int|
                0 <= i < items@.len() ==> #[trigger] choice_index(jsons_of(items@)[i])->0 < items@.len()),
        },
{
    proof {
        lemma_jsons_of(items@);
    }
    let ghost js = jsons_of(items@);
    let n = items.len();
    let mut out: Vec<usize> = Vec::new();
    let mut i: usize = 0;
    while i < n
        invariant
            i <= n,
            n == items@.len(),
            js == jsons_of(items@),
            js.len() == n,
            forall|k: int| 0 <= k < n ==> #[trigger] js[k] == items@[k]@,
            out@.len() == i,
            forall|k: int| 0 <= k < i ==> choice_index(js[k]) == Some(#[trigger] out@[k] as nat),
            forall|k: int| 0 <= k < i ==> #[trigger] out@[k] < n,
        decreases n - i,
    {
        let read = match get_member(&items[i], "index") {
            Some(JsonValue::Number(t)) => read_numeral(t.as_str(), n),
            _ => None,
        };
        match read {
            Some(k) => out.push(k),
            None => {
                assert(!(choice_index(js[i as int]) is Some) || choice_index(js[i as int])->0 >= n);
                return None;
            },
        }
        i = i + 1;
    }
    assert forall|k: int| 0 <= k < n implies (#[trigger] choice_index(js[k])) is Some by {
        assert(choice_index(js[k]) == Some(out@[k] as nat));
    }
    assert(nats(out@) =~= js.map_values(|c: Json| choice_index(c)->0));
    Some(out)
}

/// Places each text at its index; `None` where the indices are not 0 to n - 1,
/// each once.
pub fn order_by_index(idx: &Vec<usize>, cs: &Vec<String>) -> (r: Option<Vec<String>>)
    requires
        idx@.len() == cs@.len(),
        forall|i: int| 0 <= i < idx@.len() ==> idx@[i] < idx@.len(),
    ensures
        match r {
            Some(o) => by_index(nats(idx@), texts(cs@)) == Some(texts(o@)),
            None => by_index(nats(idx@), texts(cs@)) is None,
        },
{
    let n = idx.len();
    let ghost ni = nats(idx@);
    let mut slots: Vec<Option<String>> = Vec::new();
    let mut k: usize = 0;
    while k < n
        invariant
            k <= n,
            slots@.len() == k,
            forall|m: int| 0 <= m < k ==> slots@[m] is None,
        decreases n - k,
    {
        slots.push(None);
        k = k + 1;
    }
    let mut i: usize = 0;
    while i < n
        invariant
            i <= n,
            n == idx@.len(),
            n == cs@.len(),
            ni == nats(idx@),
            slots@.len() == n,
            forall|a: int| 0 <= a < n ==> idx@[a] < n,
            forall|a: int, b: int| 0 <= a < b < i ==> idx@[a] != idx@[b],
            forall|a: int| 0 <= a < i ==> ((#[trigger] slots@[idx@[a] as int]) matches Some(s) && s@ == cs@[a]@),
            forall|m: int|
                0 <= m < n && (#[trigger] slots@[m]) is Some ==> exists|a: int|
                    0 <= a < i && idx@[a] == m,
        decreases n - i,
    {
        let at = idx[i];
        if slots[at].is_some() {
            proof {
                let a = choose|a: int| 0 <= a < i && idx@[a] == at;
                assert(ni[a] == ni[i as int]);
            }
            return None;
        }
        let ghost before = slots@;
        slots.set(at, Some(cs[i].clone()));
        proof {
            assert forall|m: int|
                0 <= m < n && (#[trigger] slots@[m]) is Some implies exists|a: int|
                0 <= a < i + 1 && idx@[a] == m by {
                if m != at {
                    assert(before[m] is Some);
                    let a = choose|a: int| 0 <= a < i && idx@[a] == m;
                    assert(0 <= a < i + 1 && idx@[a] == m);
                } else {
                    assert(idx@[i as int] == m);
                }
            }
            assert forall|a: int| 0 <= a < i + 1 implies (#[trigger] slots@[idx@[a] as int]) matches Some(
                s,
            ) && s@ == cs@[a]@ by {
                if a < i {
                    assert(idx@[a] != idx@[i as int]);
                    assert(slots@[idx@[a] as int] == before[idx@[a] as int]);
                }
            }
        }
        i = i + 1;
    }
    let mut out: Vec<String> = Vec::new();
    let mut k: usize = 0;
    while k < n
        invariant
            k <= n,
            n == idx@.len(),
            n == cs@.len(),
            ni == nats(idx@),
            slots@.len() == n,
            forall|a: int| 0 <= a < n ==> idx@[a] < n,
            forall|a: int, b: int| 0 <= a < b < n ==> idx@[a] != idx@[b],
            forall|a: int| 0 <= a < n ==> ((#[trigger] slots@[idx@[a] as int]) matches Some(s) && s@ == cs@[a]@),
            forall|m: int|
                0 <= m < n && (#[trigger] slots@[m]) is Some ==> exists|a: int|
                    0 <= a < n && idx@[a] == m,
            out@.len() == k,
            forall|m: int| 0 <= m < k ==> (#[trigger] slots@[m]) is Some,
            forall|m: int| 0 <= m < k ==> (#[trigger] out@[m])@ == slots@[m]->0@,
        decreases n - k,
    {
        match &slots[k] {
            Some(s) => {
                let ghost before = out@;
                let c = s.clone();
                out.push(c);
                assert(out@[k as int]@ == slots@[k as int]->0@);
                assert(forall|m: int| 0 <= m < k ==> out@[m] == before[m]);
            },
            None => {
                proof {
                    if exists|a: int| 0 <= a < n && ni[a] == k as nat {
                        let a = choose|a: int| 0 <= a < n && ni[a] == k as nat;
                        assert(idx@[a] == k);
                        assert(slots@[idx@[a] as int] is Some);
                    }
                    assert(!has_index(ni, k as nat));
                }
                return None;
            },
        }
        k = k + 1;
    }
    proof {
        assert forall|a: int| 0 <= a < ni.len() implies ni[a] < ni.len() by {}
        assert forall|a: int, b: int| 0 <= a < b < ni.len() implies ni[a] != ni[b] by {}
        assert forall|m: nat| m < ni.len() implies #[trigger] has_index(ni, m) by {
            assert(slots@[m as int] is Some);
            let a = choose|a: int| 0 <= a < n && idx@[a] == m;
            assert(ni[a] == m);
        }
        let cts = texts(cs@);
        let expect = Seq::new(cts.len(), |m: int| cts[choose|a: int| 0 <= a < ni.len() && ni[a] == m]);
        assert forall|m: int| 0 <= m < n implies #[trigger] expect[m] == texts(out@)[m] by {
            assert(has_index(ni, m as nat));
            let a = choose|a: int| 0 <= a < ni.len() && ni[a] == m;
            assert(idx@[a] == m);
            assert((slots@[idx@[a] as int]) matches Some(s) && s@ == cs@[a]@);
            assert(out@[m]@ == slots@[m]->0@);
        }
        assert(expect =~= texts(out@));
    }
    Some(out)
}

fn has_no_index(items: &Vec<JsonValue>) -> (r: bool)
    ensures
        r == unindexed(jsons_of(items@)),
{
    proof {
        lemma_jsons_of(items@);
    }
    let ghost js = jsons_of(items@);
    let mut i: usize = 0;
    while i < items.len()
        invariant
            i <= items.len(),
            js == jsons_of(items@),
            js.len() == items@.len(),
            forall|k: int| 0 <= k < items@.len() ==> #[trigger] js[k] == items@[k]@,
            forall|k: int| 0 <= k < i ==> (#[trigger] nullable(member(js[k], "index"@))) is Null,
        decreases items.len() - i,
    {
        match get_member(&items[i], "index") {
            None => {},
            Some(JsonValue::Null) => {},
            Some(_) => {
                assert(!(nullable(member(js[i as int], "index"@)) is Null));
                return false;
            },
        }
        i = i + 1;
    }
    true
}

/// The texts of the `choices` of `j` read under `key`, in index order; in the
/// order given where no choice carries an index.
pub fn read_ordered_choices(j: &JsonValue, key: &str) -> (r: Option<Vec<String>>)
    ensures
        match r {
            Some(v) => ordered_choices(j@, key@) == Some(texts(v@)),
            None => ordered_choices(j@, key@) is None,
        },
{
    let parts = match read_choices(j, key) {
        Some(parts) => parts,
        None => return None,
    };
    match get_member(j, "choices") {
        Some(JsonValue::Array(items)) => {
            proof {
                lemma_jsons_of(items@);
                assert(member(j@, "choices"@) == Some(Json::Array(jsons_of(items@))));
                assert(texts(parts@).len() == parts@.len());
            }
            if has_no_index(items) {
                return Some(parts);
            }
            match read_indices(items) {
                Some(idx) => order_by_index(&idx, &parts),
                None => {
                    proof {
                        let js = jsons_of(items@);
                        if let Some(ids) = choice_indices(js) {
                            let i = choose|i: int|
                                0 <= i < items@.len() && !(choice_index(js[i])->0 < items@.len());
                            assert(ids[i] == choice_index(js[i])->0);
                            assert(!is_index_order(ids));
                        }
                    }
                    None
                },
            }
        },
        _ => None,
    }
}

/// The answer in a chat-completion envelope, or `None` where `envelope` is not one.
pub fn completion_from_envelope(envelope: &JsonValue) -> (r: Option<String>)
    ensures
        opt_text(r) == completion_text(envelope@),
{
    match read_ordered_choices(envelope, "message") {
        Some(ordered) => Some(join(&ordered, "\n")),
        None => None,
    }
}

/// The increment that a stream frame carries, or `None` where `frame` is not one.
pub fn delta_from_frame(frame: &JsonValue) -> (r: Option<String>)
    ensures
        opt_text(r) == frame_delta(frame@),
{
    match read_choices(frame, "delta") {
        Some(parts) => Some(join(&parts, "")),
        None => None,
    }
}

/// The answer in a text-generation envelope, or `None` where `envelope` is not one.
pub fn generation_from_envelope(envelope: &JsonValue) -> (r: Option<String>)
    ensures
        opt_text(r) == generation_text(envelope@),
{
    match get_member(envelope, "output") {
        Some(out) => match out {
            JsonValue::Object(_) => match get_member(out, "text") {
                Some(JsonValue::Str(t)) => Some(t.clone()),
                Some(JsonValue::Null) | None => match read_ordered_choices(out, "message") {
                    Some(parts) => Some(join(&parts, "")),
                    None => None,
                },
                Some(_) => None,
            },
            _ => None,
        },
        None => None,
    }
}

/// The dictionary entry that a model's answer holds, read after its fences are stripped.
pub open spec fn entry_of(text: Seq<char>) -> Option<WordModel> {
    match json_doc(unfenced(text)) {
        Some(j) => WordExplanation::decode(j),
        None => None,
    }
}

/// Reads a dictionary entry from a model's answer.
pub fn entry_from_text(text: &str) -> (r: Option<WordExplanation>)
    ensures
        r is Some <==> entry_of(text@) is Some,
        r matches Some(w) ==> entry_of(text@) == Some(w@),
{
    let clean = strip_fences(text);
    match parse_json(clean) {
        Some(j) => WordExplanation::from_json(&j),
        None => None,
    }
}

} // verus!
