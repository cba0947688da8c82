//! Command-side vocabulary: the option enums that select a wire argument,
//! the playlist model, and the small decisions behind the toggle-style
//! commands.

use vstd::prelude::*;
use crate::error::Error;
use crate::json::{value_as_bool, value_as_text, value_field, value_model, JsonData};
use crate::text::{chars_eq_str, str_chars};

verus! {

#[derive(Clone, Copy)]
pub enum NumberChangeOptions {
    Absolute,
    Increase,
    Decrease,
}

#[derive(Clone, Copy)]
pub enum SeekOptions {
    Relative,
    Absolute,
    RelativePercent,
    AbsolutePercent,
}

#[derive(Clone, Copy)]
pub enum PlaylistAddOptions {
    Replace,
    Append,
    AppendPlay,
}

#[derive(Clone, Copy)]
pub enum Switch {
    On,
    Off,
    Toggle,
}

impl SeekOptions {
    /// The mode argument the `seek` command takes on the wire.
    pub fn to_arg(&self) -> (r: &'static str)
        ensures
            r@ == match *self {
                SeekOptions::Relative => "relative"@,
                SeekOptions::Absolute => "absolute"@,
                SeekOptions::RelativePercent => "relative-percent"@,
                SeekOptions::AbsolutePercent => "absolute-percent"@,
            },
    {
        match self {
            SeekOptions::Relative => "relative",
            SeekOptions::Absolute => "absolute",
            SeekOptions::RelativePercent => "relative-percent",
            SeekOptions::AbsolutePercent => "absolute-percent",
        }
    }
}

impl PlaylistAddOptions {
    /// The mode argument the `loadfile` command takes on the wire.
    pub fn to_arg(&self) -> (r: &'static str)
        ensures
            r@ == match *self {
                PlaylistAddOptions::Replace => "replace"@,
                PlaylistAddOptions::Append => "append"@,
                PlaylistAddOptions::AppendPlay => "append-play"@,
            },
    {
        match self {
            PlaylistAddOptions::Replace => "replace",
            PlaylistAddOptions::Append => "append",
            PlaylistAddOptions::AppendPlay => "append-play",
        }
    }
}

/// The enabled state a loop property should be set to: `Toggle` flips on
/// exactly when the property's current value reads "false"; without a
/// current value it cannot decide.
pub fn loop_enabled(option: &Switch, current: Option<&String>) -> (r: Option<bool>)
    ensures
        match *option {
            Switch::On => r == Some(true),
            Switch::Off => r == Some(false),
            Switch::Toggle => match current {
                Some(s) => r == Some(s@ == "false"@),
                None => r is None,
            },
        },
{
    match option {
        Switch::On => Some(true),
        Switch::Off => Some(false),
        Switch::Toggle => match current {
            Some(s) => {
                let sc = str_chars(s.as_str());
                Some(chars_eq_str(&sc, "false"))
            },
            None => None,
        },
    }
}

/// The muted state to set: `Toggle` negates the current state.
pub fn mute_enabled(option: &Switch, current: Option<bool>) -> (r: Option<bool>)
    ensures
        match *option {
            Switch::On => r == Some(true),
            Switch::Off => r == Some(false),
            Switch::Toggle => match current {
                Some(b) => r == Some(!b),
                None => r is None,
            },
        },
{
    match option {
        Switch::On => Some(true),
        Switch::Off => Some(false),
        Switch::Toggle => match current {
            Some(b) => Some(!b),
            None => None,
        },
    }
}

#[derive(Debug, Clone, PartialEq)]
pub struct PlaylistEntry {
    pub id: usize,
    pub filename: String,
    pub title: String,
    pub current: bool,
}

pub struct Playlist {
    pub socket: String,
    pub entries: Vec<PlaylistEntry>,
}

/// The text of a string field of a playlist entry object, empty when the
/// field is missing or of another shape.
pub open spec fn entry_field_text(d: JsonData, key: Seq<char>) -> Seq<char> {
    match d {
        JsonData::Obj(m) => if m.dom().contains(key) && m[key] is Text {
            m[key]->Text_0
        } else {
            Seq::empty()
        },
        _ => Seq::empty(),
    }
}

/// Whether a boolean field of a playlist entry object is present and true.
pub open spec fn entry_field_flag(d: JsonData, key: Seq<char>) -> bool {
    d matches JsonData::Obj(m) && m.dom().contains(key) && m[key] == JsonData::Bool(true)
}

fn entry_text(v: &serde_json::Value, key: &str) -> (r: String)
    ensures
        r@ == entry_field_text(value_model(*v), key@),
{
    match value_field(v, key) {
        Some(f) => match value_as_text(f) {
            Some(s) => s,
            None => String::new(),
        },
        None => String::new(),
    }
}

fn entry_flag(v: &serde_json::Value, key: &str) -> (r: bool)
    ensures
        r == entry_field_flag(value_model(*v), key@),
{
    match value_field(v, key) {
        Some(f) => match value_as_bool(f) {
            Some(b) => b,
            None => false,
        },
        None => false,
    }
}

/// Reads the value of the `playlist` property into entries: positions
/// become identifiers, string fields default to empty, `current` defaults
/// to false.  Anything but a JSON array is rejected.
pub fn playlist_from_value(v: &serde_json::Value) -> (r: Result<Vec<PlaylistEntry>, Error>)
    ensures
        match r {
            Ok(es) => value_model(*v) matches JsonData::Arr(a) && es@.len() == a.len()
                && forall|i: int|
                0 <= i < a.len() ==> {
                    let e = #[trigger] es@[i];
                    &&& e.id == i
                    &&& e.filename@ == entry_field_text(a[i], "filename"@)
                    &&& e.title@ == entry_field_text(a[i], "title"@)
                    &&& e.current == entry_field_flag(a[i], "current"@)
                },
            Err(e) => e == Error::UnexpectedValue && !(value_model(*v) is Arr),
        },
{
    let elems = match crate::json::array_elems(v) {
        Some(elems) => elems,
        None => {
            return Err(Error::UnexpectedValue);
        },
    };
    let ghost a = value_model(*v)->Arr_0;
    let mut es: Vec<PlaylistEntry> = Vec::new();
    let mut i: usize = 0;
    while i < elems.len()
        invariant
            i <= elems@.len(),
            elems@.len() == a.len(),
            forall|j: int| 0 <= j < a.len() ==> value_model(#[trigger] elems@[j]) == a[j],
            es@.len() == i,
            forall|j: int|
                0 <= j < i ==> {
                    let e = #[trigger] es@[j];
                    &&& e.id == j
                    &&& e.filename@ == entry_field_text(a[j], "filename"@)
                    &&& e.title@ == entry_field_text(a[j], "title"@)
                    &&& e.current == entry_field_flag(a[j], "current"@)
                },
        decreases elems@.len() - i,
    {
        let filename = entry_text(&elems[i], "filename");
        let title = entry_text(&elems[i], "title");
        let current = entry_flag(&elems[i], "current");
        es.push(PlaylistEntry { id: i, filename, title, current });
        i += 1;
    }
    Ok(es)
}

impl Playlist {
    /// The identifier of the first entry marked current, if any.
    pub fn current_id(&self) -> (r: Option<usize>)
        ensures
            match r {
                Some(id) => exists|i: int|
                    0 <= i < self.entries@.len() && (#[trigger] self.entries@[i]).current
                        && self.entries@[i].id == id && forall|j: int|
                        0 <= j < i ==> !(#[trigger] self.entries@[j]).current,
                None => forall|i: int|
                    0 <= i < self.entries@.len() ==> !(#[trigger] self.entries@[i]).current,
            },
    {
        let mut i: usize = 0;
        while i < self.entries.len()
            invariant
                i <= self.entries@.len(),
                forall|j: int| 0 <= j < i ==> !(#[trigger] self.entries@[j]).current,
            decreases self.entries@.len() - i,
        {
            if self.entries[i].current {
                return Some(self.entries[i].id);
            }
            i += 1;
        }
        None
    }
}

} // verus!
