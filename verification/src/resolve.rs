//! Specifier resolution: the metadata snapshot, the precedence table that
//! decides what a specifier name means, and the formatting of resolved
//! values.  Live property fetches themselves are the caller's business;
//! everything decidable from the name and the snapshot is decided here.

use vstd::prelude::*;
use crate::digits::{dec_nat, dec_u64};
use crate::error::Error;
use crate::json::{
    json_text, lower_of, lowercase, object_entries, value_as_text, value_is_null, value_model,
    value_text, JsonData,
};
use crate::text::{
    chars_eq, chars_eq_str, chars_string, extend_chars, find_char, str_chars, subrange_chars,
};

verus! {

// ---------------------------------------------------------------------------
// The metadata snapshot: lower-cased attribute names to JSON values.
// ---------------------------------------------------------------------------

struct MetaPair {
    key: Vec<char>,
    value: serde_json::Value,
}

pub struct Metadata {
    pairs: Vec<MetaPair>,
}

/// First-match lookup in an association list.
pub open spec fn assoc_lookup(entries: Seq<(Seq<char>, JsonData)>, k: Seq<char>) -> Option<
    JsonData,
>
    decreases entries.len(),
{
    if entries.len() == 0 {
        None
    } else if entries[0].0 == k {
        Some(entries[0].1)
    } else {
        assoc_lookup(entries.drop_first(), k)
    }
}

/// The entry restates one attribute of the object `m`, under its
/// lower-cased name.
pub open spec fn entry_from(m: Map<Seq<char>, JsonData>, e: (Seq<char>, JsonData)) -> bool {
    exists|k: Seq<char>| #[trigger] m.dom().contains(k) && e == (lower_of(k), m[k])
}

/// Some entry carries the given key.
pub open spec fn has_key(es: Seq<(Seq<char>, JsonData)>, lk: Seq<char>) -> bool {
    exists|i: int| 0 <= i < es.len() && (#[trigger] es[i]).0 == lk
}

impl Metadata {
    pub closed spec fn entries(&self) -> Seq<(Seq<char>, JsonData)> {
        self.pairs@.map_values(|p: MetaPair| (p.key@, value_model(p.value)))
    }

    pub fn empty() -> (r: Metadata)
        ensures
            r.entries() == Seq::<(Seq<char>, JsonData)>::empty(),
    {
        let r = Metadata { pairs: Vec::new() };
        proof {
            assert(r.entries() =~= Seq::<(Seq<char>, JsonData)>::empty());
        }
        r
    }

    /// Builds the snapshot from the value of the `metadata` property: each
    /// attribute appears under its lower-cased name.  Anything but a JSON
    /// object is rejected.
    pub fn from_value(v: &serde_json::Value) -> (r: Result<Metadata, Error>)
        ensures
            match r {
                Ok(md) => value_model(*v) matches JsonData::Obj(m) && {
                    &&& forall|i: int|
                        0 <= i < md.entries().len() ==> entry_from(
                            m,
                            #[trigger] md.entries()[i],
                        )
                    &&& forall|k: Seq<char>|
                        #[trigger] m.dom().contains(k) ==> has_key(md.entries(), lower_of(k))
                },
                Err(e) => e == Error::UnexpectedValue && !(value_model(*v) is Obj),
            },
    {
        let raw = match object_entries(v) {
            Some(raw) => raw,
            None => {
                return Err(Error::UnexpectedValue);
            },
        };
        let ghost m = value_model(*v)->Obj_0;
        let mut pairs: Vec<MetaPair> = Vec::new();
        let mut i: usize = 0;
        while i < raw.len()
            invariant
                i <= raw@.len(),
                value_model(*v) matches JsonData::Obj(mm) && mm == m,
                forall|j: int|
                    0 <= j < raw@.len() ==> m.dom().contains((#[trigger] raw@[j]).0@)
                        && m[raw@[j].0@] == value_model(raw@[j].1),
                pairs@.len() == i,
                forall|j: int|
                    0 <= j < i ==> (#[trigger] pairs@[j]).key@ == lower_of(raw@[j].0@)
                        && value_model(pairs@[j].value) == m[raw@[j].0@],
            decreases raw@.len() - i,
        {
            let low = lowercase(raw[i].0.as_str());
            let key = str_chars(low.as_str());
            let value = crate::json::value_clone(&raw[i].1);
            pairs.push(MetaPair { key, value });
            i += 1;
        }
        let md = Metadata { pairs };
        proof {
            assert(md.entries().len() == raw@.len());
            assert forall|j: int| 0 <= j < md.entries().len() implies entry_from(
                m,
                #[trigger] md.entries()[j],
            ) by {
                let k = raw@[j].0@;
                assert(md.entries()[j] == (md.pairs@[j].key@, value_model(md.pairs@[j].value)));
                assert(m.dom().contains(k));
                assert(md.entries()[j] == (lower_of(k), m[k]));
            }
            assert forall|k: Seq<char>| #[trigger] m.dom().contains(k) implies has_key(
                md.entries(),
                lower_of(k),
            ) by {
                let j = choose|j: int| 0 <= j < raw@.len() && (#[trigger] raw@[j]).0@ == k;
                assert(md.entries()[j] == (md.pairs@[j].key@, value_model(md.pairs@[j].value)));
                assert(md.entries()[j].0 == lower_of(k));
            }
        }
        Ok(md)
    }

    /// First value stored under the key, if any.
    pub fn get(&self, key: &Vec<char>) -> (r: Option<&serde_json::Value>)
        ensures
            match r {
                Some(v) => assoc_lookup(self.entries(), key@) == Some(value_model(*v)),
                None => assoc_lookup(self.entries(), key@) is None,
            },
    {
        proof {
            assert(self.entries().skip(0) =~= self.entries());
        }
        let mut i: usize = 0;
        while i < self.pairs.len()
            invariant
                i <= self.pairs@.len(),
                assoc_lookup(self.entries(), key@) == assoc_lookup(
                    self.entries().skip(i as int),
                    key@,
                ),
            decreases self.pairs@.len() - i,
        {
            proof {
                assert(self.entries().skip(i as int)[0] == self.entries()[i as int]);
                assert(self.entries().skip(i as int).drop_first() =~= self.entries().skip(
                    i + 1 as int,
                ));
            }
            if chars_eq(&self.pairs[i].key, key) {
                return Some(&self.pairs[i].value);
            }
            i += 1;
        }
        proof {
            assert(self.entries().skip(self.pairs@.len() as int).len() == 0);
        }
        None
    }
}

// ---------------------------------------------------------------------------
// Stringification of fetched values.
// ---------------------------------------------------------------------------

/// How a fetched JSON value reads as template text: strings verbatim,
/// null is no value, and everything else is its JSON text.
pub open spec fn stringified(d: JsonData) -> Option<Seq<char>> {
    match d {
        JsonData::Null => None,
        JsonData::Text(s) => Some(s),
        _ => Some(json_text(d)),
    }
}

/// Renders a fetched value as display text, as `stringified` describes;
/// null is a missing value.
pub fn value_to_string(v: &serde_json::Value) -> (r: Result<String, Error>)
    ensures
        match r {
            Ok(s) => stringified(value_model(*v)) == Some(s@),
            Err(e) => e == Error::MissingValue && value_model(*v) is Null,
        },
{
    if value_is_null(v) {
        return Err(Error::MissingValue);
    }
    match value_as_text(v) {
        Some(s) => Ok(s),
        None => Ok(value_text(v)),
    }
}

// ---------------------------------------------------------------------------
// Clock-style and numeric formatting.
// ---------------------------------------------------------------------------

/// At least two digits.
pub open spec fn pad2(n: nat) -> Seq<char> {
    if n < 10 {
        seq!['0'] + dec_nat(n)
    } else {
        dec_nat(n)
    }
}

/// Seconds as `MM:SS`, or `HH:MM:SS` once there is a nonzero hour.
pub open spec fn clock_text(d: nat) -> Seq<char> {
    let s = d % 60;
    let m = (d / 60) % 60;
    let h = d / 3600;
    if h == 0 {
        pad2(m) + seq![':'] + pad2(s)
    } else {
        pad2(h) + seq![':'] + pad2(m) + seq![':'] + pad2(s)
    }
}

fn pad2_exec(n: u64) -> (r: Vec<char>)
    ensures
        r@ == pad2(n as nat),
{
    let mut v: Vec<char> = Vec::new();
    if n < 10 {
        v.push('0');
    }
    let digits = dec_u64(n);
    extend_chars(&mut v, &digits);
    proof {
        if n < 10 {
            assert(v@ =~= seq!['0'] + dec_nat(n as nat));
        } else {
            assert(v@ =~= dec_nat(n as nat));
        }
    }
    v
}

/// Whole seconds as clock text, exactly as `clock_text` describes.
pub fn format_duration(d: u64) -> (r: String)
    ensures
        r@ == clock_text(d as nat),
{
    let s: u64 = d % 60;
    let m: u64 = (d / 60) % 60;
    let h: u64 = d / 3600;
    let mut out: Vec<char> = Vec::new();
    if h > 0 {
        let hc = pad2_exec(h);
        extend_chars(&mut out, &hc);
        out.push(':');
    }
    let mc = pad2_exec(m);
    extend_chars(&mut out, &mc);
    out.push(':');
    let sc = pad2_exec(s);
    extend_chars(&mut out, &sc);
    proof {
        if h > 0 {
            assert(out@ =~= pad2(h as nat) + seq![':'] + pad2(m as nat) + seq![':'] + pad2(
                s as nat,
            ));
        } else {
            assert(out@ =~= pad2(m as nat) + seq![':'] + pad2(s as nat));
        }
    }
    chars_string(&out)
}

/// A whole number as decimal text.
pub fn u64_text(n: u64) -> (r: String)
    ensures
        r@ == dec_nat(n as nat),
{
    let v = dec_u64(n);
    chars_string(&v)
}

// ---------------------------------------------------------------------------
// The specifier table.
// ---------------------------------------------------------------------------

/// What a specifier name asks for, in precedence order: an escape or a
/// metadata hit resolves immediately; the `Need` plans ask the caller to
/// fetch a live property and say how its value becomes text.
pub enum SpecPlan {
    /// Resolved already; this text.
    Immediate(Vec<char>),
    /// Failed already.
    Unresolved,
    /// Fetch the property; only a string value resolves, verbatim.
    NeedText(Vec<char>),
    /// Fetch the numeric property; whole seconds read as clock text.
    NeedClock(Vec<char>),
    /// Fetch the numeric property; it reads as a whole number.
    NeedWhole(Vec<char>),
    /// Fetch the integer property; it reads as a whole number.
    NeedIndex(Vec<char>),
    /// Fetch the boolean property and pick a branch (see `ternary_result`).
    NeedFlag(Vec<char>, Vec<char>, Vec<char>),
    /// Fetch the property; it reads as `stringified` describes.
    NeedAny(Vec<char>),
}

#[verifier::ext_equal]
pub enum PlanSpec {
    Immediate(Seq<char>),
    Unresolved,
    NeedText(Seq<char>),
    NeedClock(Seq<char>),
    NeedWhole(Seq<char>),
    NeedIndex(Seq<char>),
    NeedFlag(Seq<char>, Seq<char>, Seq<char>),
    NeedAny(Seq<char>),
}

pub open spec fn plan_view(p: SpecPlan) -> PlanSpec {
    match p {
        SpecPlan::Immediate(v) => PlanSpec::Immediate(v@),
        SpecPlan::Unresolved => PlanSpec::Unresolved,
        SpecPlan::NeedText(v) => PlanSpec::NeedText(v@),
        SpecPlan::NeedClock(v) => PlanSpec::NeedClock(v@),
        SpecPlan::NeedWhole(v) => PlanSpec::NeedWhole(v@),
        SpecPlan::NeedIndex(v) => PlanSpec::NeedIndex(v@),
        SpecPlan::NeedFlag(a, b, c) => PlanSpec::NeedFlag(a@, b@, c@),
        SpecPlan::NeedAny(v) => PlanSpec::NeedAny(v@),
    }
}

pub open spec fn first_index_from(s: Seq<char>, from: int, c: char) -> Option<int>
    decreases s.len() - from,
    when 0 <= from <= s.len()
{
    if from >= s.len() {
        None
    } else if s[from] == c {
        Some(from)
    } else {
        first_index_from(s, from + 1, c)
    }
}

proof fn lemma_first_index_some(s: Seq<char>, from: int, c: char, i: int)
    requires
        0 <= from <= i < s.len(),
        s[i] == c,
        forall|j: int| from <= j < i ==> s[j] != c,
    ensures
        first_index_from(s, from, c) == Some(i),
    decreases i - from,
{
    if from < i {
        lemma_first_index_some(s, from + 1, c, i);
    }
}

proof fn lemma_first_index_none(s: Seq<char>, from: int, c: char)
    requires
        0 <= from <= s.len(),
        forall|j: int| from <= j < s.len() ==> s[j] != c,
    ensures
        first_index_from(s, from, c) is None,
    decreases s.len() - from,
{
    if from < s.len() {
        lemma_first_index_none(s, from + 1, c);
    }
}

/// The tag attributes that resolve from the metadata snapshot alone: a
/// miss is a failure, with no live fetch behind it.
pub open spec fn metadata_backed(name: Seq<char>) -> bool {
    ||| name == "artist"@
    ||| name == "album"@
    ||| name == "album_artist"@
    ||| name == "date"@
    ||| name == "track"@
    ||| name == "genre"@
    ||| name == "composer"@
    ||| name == "comment"@
    ||| name == "disc"@
}

/// The resolution table, in precedence order: escapes, `title` with its
/// media-title fallback, the snapshot-only tag attributes, the clock and
/// counter specifiers, `property?then:else` ternaries, then metadata, then
/// any property.
pub open spec fn plan_of(name: Seq<char>, entries: Seq<(Seq<char>, JsonData)>) -> PlanSpec {
    if name == Seq::<char>::empty() {
        PlanSpec::Immediate(seq!['%'])
    } else if name == "n"@ {
        PlanSpec::Immediate(seq!['\n'])
    } else if name == "["@ || name == "]"@ {
        PlanSpec::Immediate(name)
    } else if name == "title"@ {
        match assoc_lookup(entries, "title"@) {
            Some(d) => match d {
                JsonData::Text(t) => PlanSpec::Immediate(t),
                _ => PlanSpec::Unresolved,
            },
            None => PlanSpec::NeedText("media-title"@),
        }
    } else if metadata_backed(name) {
        match assoc_lookup(entries, name) {
            Some(d) => match stringified(d) {
                Some(s) => PlanSpec::Immediate(s),
                None => PlanSpec::Unresolved,
            },
            None => PlanSpec::Unresolved,
        }
    } else if name == "time"@ {
        PlanSpec::NeedClock("time-pos"@)
    } else if name == "duration"@ {
        PlanSpec::NeedClock("duration"@)
    } else if name == "percentage"@ {
        PlanSpec::NeedWhole("percent-pos"@)
    } else if name == "position"@ {
        PlanSpec::NeedIndex("playlist-pos-1"@)
    } else {
        match first_index_from(name, 0, '?') {
            Some(i) => match first_index_from(name, i + 1, ':') {
                Some(j) => PlanSpec::NeedFlag(
                    name.subrange(0, i),
                    name.subrange(i + 1, j),
                    name.subrange(j + 1, name.len() as int),
                ),
                None => PlanSpec::Unresolved,
            },
            None => match assoc_lookup(entries, name) {
                Some(d) => match stringified(d) {
                    Some(s) => PlanSpec::Immediate(s),
                    None => PlanSpec::Unresolved,
                },
                None => PlanSpec::NeedAny(name),
            },
        }
    }
}

fn is_metadata_backed(name: &Vec<char>) -> (r: bool)
    ensures
        r == metadata_backed(name@),
{
    chars_eq_str(name, "artist") || chars_eq_str(name, "album") || chars_eq_str(
        name,
        "album_artist",
    ) || chars_eq_str(name, "date") || chars_eq_str(name, "track") || chars_eq_str(name, "genre")
        || chars_eq_str(name, "composer") || chars_eq_str(name, "comment") || chars_eq_str(
        name,
        "disc",
    )
}

/// Decides a specifier name against the snapshot, exactly as `plan_of`
/// describes.
pub fn plan_specifier(name: &Vec<char>, md: &Metadata) -> (r: SpecPlan)
    ensures
        plan_view(r) == plan_of(name@, md.entries()),
{
    if name.len() == 0 {
        proof {
            assert(name@ =~= Seq::<char>::empty());
        }
        let mut v: Vec<char> = Vec::new();
        v.push('%');
        proof {
            assert(v@ =~= seq!['%']);
        }
        return SpecPlan::Immediate(v);
    }
    if chars_eq_str(name, "n") {
        let mut v: Vec<char> = Vec::new();
        v.push('\n');
        proof {
            assert(v@ =~= seq!['\n']);
        }
        return SpecPlan::Immediate(v);
    }
    if chars_eq_str(name, "[") || chars_eq_str(name, "]") {
        return SpecPlan::Immediate(subrange_chars(name, 0, name.len()));
    }
    if chars_eq_str(name, "title") {
        let title_key = str_chars("title");
        let looked = md.get(&title_key);
        match looked {
            Some(v) => {
                match value_as_text(v) {
                    Some(t) => {
                        return SpecPlan::Immediate(str_chars(t.as_str()));
                    },
                    None => {
                        return SpecPlan::Unresolved;
                    },
                }
            },
            None => {
                return SpecPlan::NeedText(str_chars("media-title"));
            },
        }
    }
    if is_metadata_backed(name) {
        let looked = md.get(name);
        match looked {
            Some(v) => {
                match value_to_string(v) {
                    Ok(s) => {
                        return SpecPlan::Immediate(str_chars(s.as_str()));
                    },
                    Err(_) => {
                        return SpecPlan::Unresolved;
                    },
                }
            },
            None => {
                return SpecPlan::Unresolved;
            },
        }
    }
    if chars_eq_str(name, "time") {
        return SpecPlan::NeedClock(str_chars("time-pos"));
    }
    if chars_eq_str(name, "duration") {
        return SpecPlan::NeedClock(str_chars("duration"));
    }
    if chars_eq_str(name, "percentage") {
        return SpecPlan::NeedWhole(str_chars("percent-pos"));
    }
    if chars_eq_str(name, "position") {
        return SpecPlan::NeedIndex(str_chars("playlist-pos-1"));
    }
    match find_char(name, 0, '?') {
        Some(i) => {
            proof {
                lemma_first_index_some(name@, 0, '?', i as int);
            }
            match find_char(name, i + 1, ':') {
                Some(j) => {
                    proof {
                        lemma_first_index_some(name@, i + 1 as int, ':', j as int);
                    }
                    let prop = subrange_chars(name, 0, i);
                    let thenb = subrange_chars(name, i + 1, j);
                    let elseb = subrange_chars(name, j + 1, name.len());
                    SpecPlan::NeedFlag(prop, thenb, elseb)
                },
                None => {
                    proof {
                        lemma_first_index_none(name@, i + 1 as int, ':');
                    }
                    SpecPlan::Unresolved
                },
            }
        },
        None => {
            proof {
                lemma_first_index_none(name@, 0, '?');
            }
            match md.get(name) {
                Some(v) => {
                    match value_to_string(v) {
                        Ok(s) => SpecPlan::Immediate(str_chars(s.as_str())),
                        Err(_) => SpecPlan::Unresolved,
                    }
                },
                None => SpecPlan::NeedAny(subrange_chars(name, 0, name.len())),
            }
        },
    }
}

/// Picks the ternary branch for a fetched boolean property; a missing or
/// non-boolean value resolves nothing.
pub fn ternary_result(value: Option<bool>, when_true: &Vec<char>, when_false: &Vec<char>) -> (r:
    Option<Vec<char>>)
    ensures
        match value {
            Some(b) => r matches Some(s) && s@ == (if b {
                when_true@
            } else {
                when_false@
            }),
            None => r is None,
        },
{
    match value {
        Some(true) => Some(subrange_chars(when_true, 0, when_true.len())),
        Some(false) => Some(subrange_chars(when_false, 0, when_false.len())),
        None => None,
    }
}

} // verus!
