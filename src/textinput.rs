//! The text input plugin: the client being edited, its editing state, and the
//! editing operations that keyboard input drives.
use vstd::prelude::*;
use vstd::string::{StrSliceExecFns, StringExecFns};
use crate::channel::{Channel, ChannelModel, channel_views};
use crate::codec::{CodecTypes, MethodCall};
use crate::input::EditCommand;
use crate::plugins::Plugin;
use crate::codec::{MethodCallResult, ResultModel};
use crate::text::str_eq;
use crate::value::{Value, ValueModel, lemma_models_of, lemma_pair_models_of};

verus! {

/// What the text field being edited holds. Offsets count characters.
#[derive(Debug)]
pub struct TextEditingState {
    pub composing_base: i64,
    pub composing_extent: i64,
    pub selection_affinity: String,
    pub selection_base: i64,
    pub selection_extent: i64,
    pub selection_is_directional: bool,
    pub text: String,
}

pub struct EditingModel {
    pub composing_base: i64,
    pub composing_extent: i64,
    pub affinity: Seq<char>,
    pub base: int,
    pub extent: int,
    pub directional: bool,
    pub text: Seq<char>,
}

impl View for TextEditingState {
    type V = EditingModel;

    open spec fn view(&self) -> EditingModel {
        EditingModel {
            composing_base: self.composing_base,
            composing_extent: self.composing_extent,
            affinity: self.selection_affinity@,
            base: self.selection_base as int,
            extent: self.selection_extent as int,
            directional: self.selection_is_directional,
            text: self.text@,
        }
    }
}

/// Both ends of the selection lie in the text, and offsets fit an `i64`.
pub open spec fn editing_wf(m: EditingModel) -> bool {
    &&& 0 <= m.base <= m.text.len()
    &&& 0 <= m.extent <= m.text.len()
    &&& m.text.len() <= i64::MAX
}

pub open spec fn lo(m: EditingModel) -> int {
    if m.base <= m.extent {
        m.base
    } else {
        m.extent
    }
}

pub open spec fn hi(m: EditingModel) -> int {
    if m.base <= m.extent {
        m.extent
    } else {
        m.base
    }
}

/// `t` with the characters from `from` to `to` replaced by `ins`.
pub open spec fn spliced(t: Seq<char>, from: int, to: int, ins: Seq<char>) -> Seq<char> {
    t.subrange(0, from) + ins + t.subrange(to, t.len() as int)
}

/// The selected text removed, the caret where it started.
pub open spec fn spec_remove_selection(m: EditingModel) -> EditingModel {
    if m.base != m.extent {
        EditingModel {
            text: spliced(m.text, lo(m), hi(m), Seq::empty()),
            base: lo(m),
            extent: lo(m),
            directional: false,
            ..m
        }
    } else {
        m
    }
}

/// The selection replaced by `c`, the caret after it.
pub open spec fn spec_add_chars(m: EditingModel, c: Seq<char>) -> EditingModel {
    let r = spec_remove_selection(m);
    EditingModel {
        text: spliced(r.text, r.base, r.base, c),
        base: r.base + c.len(),
        extent: r.base + c.len(),
        ..r
    }
}

pub open spec fn spec_select_all(m: EditingModel) -> EditingModel {
    EditingModel { base: 0, extent: m.text.len() as int, directional: true, ..m }
}

/// The selection removed, or else the character before the caret.
pub open spec fn spec_backspace(m: EditingModel) -> EditingModel {
    if m.base != m.extent {
        spec_remove_selection(m)
    } else if m.base > 0 {
        EditingModel {
            text: spliced(m.text, m.base - 1, m.base, Seq::empty()),
            base: m.base - 1,
            extent: m.base - 1,
            directional: false,
            ..m
        }
    } else {
        m
    }
}

/// The selection removed, or else the character after the caret.
pub open spec fn spec_delete(m: EditingModel) -> EditingModel {
    if m.base != m.extent {
        spec_remove_selection(m)
    } else if m.base < m.text.len() {
        EditingModel {
            text: spliced(m.text, m.base, m.base + 1, Seq::empty()),
            directional: false,
            ..m
        }
    } else {
        m
    }
}

pub open spec fn spec_move_left(m: EditingModel, extend: bool) -> EditingModel {
    if extend {
        EditingModel {
            directional: true,
            extent: if m.extent > 0 {
                m.extent - 1
            } else {
                0
            },
            ..m
        }
    } else if m.base != m.extent {
        EditingModel { base: lo(m), extent: lo(m), directional: false, ..m }
    } else {
        let e = if lo(m) > 0 {
            lo(m) - 1
        } else {
            0
        };
        EditingModel { base: e, extent: e, directional: false, ..m }
    }
}

pub open spec fn spec_move_right(m: EditingModel, extend: bool) -> EditingModel {
    if extend {
        EditingModel {
            directional: true,
            extent: if m.extent < m.text.len() {
                m.extent + 1
            } else {
                m.text.len() as int
            },
            ..m
        }
    } else if m.base != m.extent {
        EditingModel { base: hi(m), extent: hi(m), directional: false, ..m }
    } else {
        let e = if hi(m) < m.text.len() {
            hi(m) + 1
        } else {
            m.text.len() as int
        };
        EditingModel { base: e, extent: e, directional: false, ..m }
    }
}

pub open spec fn spec_move_home(m: EditingModel, extend: bool) -> EditingModel {
    if extend {
        EditingModel { directional: true, extent: 0, ..m }
    } else {
        EditingModel { base: 0, extent: 0, directional: false, ..m }
    }
}

pub open spec fn spec_move_end(m: EditingModel, extend: bool) -> EditingModel {
    let n = m.text.len() as int;
    if extend {
        EditingModel { directional: true, extent: n, ..m }
    } else {
        EditingModel { base: n, extent: n, directional: false, ..m }
    }
}

pub open spec fn spec_selected_text(m: EditingModel) -> Seq<char> {
    if m.base == m.extent {
        Seq::empty()
    } else {
        m.text.subrange(lo(m), hi(m))
    }
}

/// `text` with the characters from `from` to `to` replaced by `ins`.
fn splice(text: &String, from: usize, to: usize, ins: &str) -> (r: String)
    requires
        from <= to <= text@.len(),
    ensures
        r@ == spliced(text@, from as int, to as int, ins@),
{
    let t = text.as_str();
    let n = t.unicode_len();
    let mut r = String::from_str(t.substring_char(0, from));
    r.append(ins);
    r.append(t.substring_char(to, n));
    r
}

impl TextEditingState {
    pub open spec fn wf(&self) -> bool {
        editing_wf(self@)
    }

    /// Whether both ends of the selection lie in the text.
    pub fn is_valid(&self) -> (r: bool)
        ensures
            r == self.wf(),
    {
        let n = self.text.as_str().unicode_len();
        n as u64 <= i64::MAX as u64 && 0 <= self.selection_base && self.selection_base as u64
            <= n as u64 && 0 <= self.selection_extent && self.selection_extent as u64 <= n as u64
    }

    fn text_len(&self) -> (r: i64)
        requires
            self.wf(),
        ensures
            r == self@.text.len(),
    {
        self.text.as_str().unicode_len() as i64
    }

    /// Removes the selected text, if any; returns whether something was removed.
    pub fn remove_selected_text(&mut self) -> (r: bool)
        requires
            old(self).wf(),
        ensures
            final(self).wf(),
            final(self)@ == spec_remove_selection(old(self)@),
            r == (old(self)@.base != old(self)@.extent),
    {
        if self.selection_base == self.selection_extent {
            return false;
        }
        let _n = self.text.as_str().unicode_len();
        let (l, h) = if self.selection_base <= self.selection_extent {
            (self.selection_base, self.selection_extent)
        } else {
            (self.selection_extent, self.selection_base)
        };
        self.text = splice(&self.text, l as usize, h as usize, "");
        proof {
            reveal_strlit("");
        }
        self.selection_base = l;
        self.selection_extent = l;
        self.selection_is_directional = false;
        true
    }

    /// Replaces the selection by `c` and puts the caret after it. Nothing
    /// changes where the text would outgrow an `i64` offset.
    pub fn add_chars(&mut self, c: &str) -> (r: bool)
        requires
            old(self).wf(),
        ensures
            final(self).wf(),
            r == (old(self)@.text.len() + c@.len() <= i64::MAX),
            r ==> final(self)@ == spec_add_chars(old(self)@, c@),
            !r ==> final(self)@ == old(self)@,
    {
        let n = self.text_len();
        let k = c.unicode_len();
        if k as u64 > (i64::MAX - n) as u64 {
            return false;
        }
        self.remove_selected_text();
        let _m = self.text.as_str().unicode_len();
        let b = self.selection_base;
        self.text = splice(&self.text, b as usize, b as usize, c);
        self.selection_base = b + k as i64;
        self.selection_extent = self.selection_base;
        true
    }

    /// Selects the whole text.
    pub fn select_all(&mut self)
        requires
            old(self).wf(),
        ensures
            final(self).wf(),
            final(self)@ == spec_select_all(old(self)@),
    {
        self.selection_base = 0;
        self.selection_extent = self.text_len();
        self.selection_is_directional = true;
    }

    /// Deletes the selection, or else the character before the caret.
    pub fn backspace(&mut self)
        requires
            old(self).wf(),
        ensures
            final(self).wf(),
            final(self)@ == spec_backspace(old(self)@),
    {
        if !self.remove_selected_text() && self.selection_base > 0 {
            let _n = self.text.as_str().unicode_len();
            let b = self.selection_base;
            self.text = splice(&self.text, (b - 1) as usize, b as usize, "");
            proof {
                reveal_strlit("");
            }
            self.selection_base = b - 1;
            self.selection_extent = b - 1;
            self.selection_is_directional = false;
        }
    }

    /// Deletes the selection, or else the character after the caret.
    pub fn delete(&mut self)
        requires
            old(self).wf(),
        ensures
            final(self).wf(),
            final(self)@ == spec_delete(old(self)@),
    {
        if !self.remove_selected_text() && self.selection_base < self.text_len() {
            let _n = self.text.as_str().unicode_len();
            let b = self.selection_base;
            self.text = splice(&self.text, b as usize, (b + 1) as usize, "");
            proof {
                reveal_strlit("");
            }
            self.selection_is_directional = false;
        }
    }

    /// One character left: the selection's moving end when `extend`, else the
    /// caret (collapsing a selection to its start).
    pub fn move_cursor_left(&mut self, extend: bool)
        requires
            old(self).wf(),
        ensures
            final(self).wf(),
            final(self)@ == spec_move_left(old(self)@, extend),
    {
        let l = if self.selection_base <= self.selection_extent {
            self.selection_base
        } else {
            self.selection_extent
        };
        if extend {
            self.selection_is_directional = true;
            self.selection_extent = if self.selection_extent > 0 {
                self.selection_extent - 1
            } else {
                0
            };
        } else if self.selection_base != self.selection_extent {
            self.selection_base = l;
            self.selection_extent = l;
            self.selection_is_directional = false;
        } else {
            self.selection_extent = if l > 0 {
                l - 1
            } else {
                0
            };
            self.selection_base = self.selection_extent;
            self.selection_is_directional = false;
        }
    }

    /// One character right: the selection's moving end when `extend`, else
    /// the caret (collapsing a selection to its end).
    pub fn move_cursor_right(&mut self, extend: bool)
        requires
            old(self).wf(),
        ensures
            final(self).wf(),
            final(self)@ == spec_move_right(old(self)@, extend),
    {
        let n = self.text_len();
        let h = if self.selection_base <= self.selection_extent {
            self.selection_extent
        } else {
            self.selection_base
        };
        if extend {
            self.selection_is_directional = true;
            self.selection_extent = if self.selection_extent < n {
                self.selection_extent + 1
            } else {
                n
            };
        } else if self.selection_base != self.selection_extent {
            self.selection_base = h;
            self.selection_extent = h;
            self.selection_is_directional = false;
        } else {
            self.selection_extent = if h < n {
                h + 1
            } else {
                n
            };
            self.selection_base = self.selection_extent;
            self.selection_is_directional = false;
        }
    }

    /// To the start of the text.
    pub fn move_cursor_home(&mut self, extend: bool)
        requires
            old(self).wf(),
        ensures
            final(self).wf(),
            final(self)@ == spec_move_home(old(self)@, extend),
    {
        if extend {
            self.selection_is_directional = true;
        } else {
            self.selection_base = 0;
            self.selection_is_directional = false;
        }
        self.selection_extent = 0;
    }

    /// To the end of the text.
    pub fn move_cursor_end(&mut self, extend: bool)
        requires
            old(self).wf(),
        ensures
            final(self).wf(),
            final(self)@ == spec_move_end(old(self)@, extend),
    {
        let n = self.text_len();
        if extend {
            self.selection_is_directional = true;
        } else {
            self.selection_base = n;
            self.selection_is_directional = false;
        }
        self.selection_extent = n;
    }

    /// The selected text; empty when nothing is selected.
    pub fn selected_text(&self) -> (r: String)
        requires
            self.wf(),
        ensures
            r@ == spec_selected_text(self@),
    {
        if self.selection_base == self.selection_extent {
            return String::new();
        }
        let _n = self.text.as_str().unicode_len();
        let (l, h) = if self.selection_base <= self.selection_extent {
            (self.selection_base, self.selection_extent)
        } else {
            (self.selection_extent, self.selection_base)
        };
        String::from_str(self.text.as_str().substring_char(l as usize, h as usize))
    }
}

/// `c` typed over the selection, unless the text would outgrow an `i64` offset.
pub open spec fn spec_type(m: EditingModel, c: Seq<char>) -> EditingModel {
    if m.text.len() + c.len() <= i64::MAX {
        spec_add_chars(m, c)
    } else {
        m
    }
}

/// The state after `cmd`, with `pasted` the clipboard's text if it holds any.
pub open spec fn spec_apply(m: EditingModel, cmd: EditCommand, pasted: Option<Seq<char>>) -> EditingModel {
    match cmd {
        EditCommand::Newline => spec_type(m, "\n"@),
        EditCommand::Backspace => spec_backspace(m),
        EditCommand::Delete => spec_delete(m),
        EditCommand::MoveLeft { extend } => spec_move_left(m, extend),
        EditCommand::MoveRight { extend } => spec_move_right(m, extend),
        EditCommand::MoveHome { extend } => spec_move_home(m, extend),
        EditCommand::MoveEnd { extend } => spec_move_end(m, extend),
        EditCommand::SelectAll => spec_select_all(m),
        EditCommand::Cut => spec_remove_selection(m),
        EditCommand::Copy => m,
        EditCommand::Paste => match pasted {
            Some(t) => spec_type(m, t),
            None => m,
        },
    }
}

/// The value of the first entry of `m` whose key is the string `key`.
pub open spec fn lookup(m: Seq<(ValueModel, ValueModel)>, key: Seq<char>) -> Option<ValueModel>
    decreases m.len(),
{
    if m.len() == 0 {
        None
    } else if m[0].0 == ValueModel::Str(key) {
        Some(m[0].1)
    } else {
        lookup(m.subrange(1, m.len() as int), key)
    }
}

/// An integer of either width.
pub open spec fn int_of(v: Option<ValueModel>) -> Option<i64> {
    match v {
        Some(ValueModel::I32(x)) => Some(x as i64),
        Some(ValueModel::I64(x)) => Some(x),
        _ => None,
    }
}

pub open spec fn str_of(v: Option<ValueModel>) -> Option<Seq<char>> {
    match v {
        Some(ValueModel::Str(s)) => Some(s),
        _ => None,
    }
}

pub open spec fn bool_of(v: Option<ValueModel>) -> Option<bool> {
    match v {
        Some(ValueModel::Boolean(b)) => Some(b),
        _ => None,
    }
}

/// The editing state that a map of the other side's field names holds, when
/// every field is there with the right type.
pub open spec fn state_of(v: ValueModel) -> Option<EditingModel> {
    match v {
        ValueModel::Dict(m) => {
            let cb = int_of(lookup(m, "composingBase"@));
            let ce = int_of(lookup(m, "composingExtent"@));
            let af = str_of(lookup(m, "selectionAffinity"@));
            let sb = int_of(lookup(m, "selectionBase"@));
            let se = int_of(lookup(m, "selectionExtent"@));
            let dir = bool_of(lookup(m, "selectionIsDirectional"@));
            let tx = str_of(lookup(m, "text"@));
            if cb is Some && ce is Some && af is Some && sb is Some && se is Some && dir is Some
                && tx is Some {
                Some(
                    EditingModel {
                        composing_base: cb->0,
                        composing_extent: ce->0,
                        affinity: af->0,
                        base: sb->0 as int,
                        extent: se->0 as int,
                        directional: dir->0,
                        text: tx->0,
                    },
                )
            } else {
                None
            }
        },
        _ => None,
    }
}

/// The value under `key` in the entries `m`.
fn find_field<'a>(m: &'a Vec<(Value, Value)>, key: &str) -> (r: Option<&'a Value>)
    ensures
        match lookup(crate::value::pair_models_of(m@), key@) {
            None => r is None,
            Some(v) => r matches Some(x) && x@ == v,
        },
{
    let ghost ms = crate::value::pair_models_of(m@);
    proof {
        lemma_pair_models_of(m@);
        assert(ms.subrange(0, ms.len() as int) =~= ms);
    }
    let mut i: usize = 0;
    while i < m.len()
        invariant
            i <= m@.len(),
            ms == crate::value::pair_models_of(m@),
            ms.len() == m@.len(),
            forall|j: int| 0 <= j < m@.len() ==> #[trigger] ms[j] == (m@[j].0@, m@[j].1@),
            lookup(ms, key@) == lookup(ms.subrange(i as int, ms.len() as int), key@),
        decreases m@.len() - i,
    {
        let ghost rest = ms.subrange(i as int, ms.len() as int);
        assert(rest[0] == ms[i as int]);
        assert(rest.subrange(1, rest.len() as int) =~= ms.subrange(i + 1, ms.len() as int));
        let entry = &m[i];
        let hit = match &entry.0 {
            Value::String(k) => str_eq(k.as_str(), key),
            _ => false,
        };
        if hit {
            return Some(&entry.1);
        }
        i = i + 1;
    }
    None
}

fn int_field(v: Option<&Value>) -> (r: Option<i64>)
    ensures
        r == int_of(
            match v {
                Some(x) => Some(x@),
                None => None,
            },
        ),
{
    match v {
        Some(Value::I32(x)) => Some(*x as i64),
        Some(Value::I64(x)) => Some(*x),
        _ => None,
    }
}

fn str_field(v: Option<&Value>) -> (r: Option<String>)
    ensures
        match r {
            Some(s) => str_of(
                match v {
                    Some(x) => Some(x@),
                    None => None,
                },
            ) == Some(s@),
            None => str_of(
                match v {
                    Some(x) => Some(x@),
                    None => None,
                },
            ) is None,
        },
{
    match v {
        Some(Value::String(s)) => Some(s.clone()),
        _ => None,
    }
}

fn bool_field(v: Option<&Value>) -> (r: Option<bool>)
    ensures
        r == bool_of(
            match v {
                Some(x) => Some(x@),
                None => None,
            },
        ),
{
    match v {
        Some(Value::Boolean(b)) => Some(*b),
        _ => None,
    }
}

impl TextEditingState {
    /// The editing state held by `v`, a map from the other side's field
    /// names; `None` when a field is missing or has the wrong type.
    pub fn from_value(v: &Value) -> (r: Option<TextEditingState>)
        ensures
            match state_of(v@) {
                None => r is None,
                Some(m) => r matches Some(s) && s@ == m,
            },
    {
        let m = match v {
            Value::Dict(m) => m,
            _ => {
                return None;
            },
        };
        let cb = int_field(find_field(m, "composingBase"));
        let ce = int_field(find_field(m, "composingExtent"));
        let af = str_field(find_field(m, "selectionAffinity"));
        let sb = int_field(find_field(m, "selectionBase"));
        let se = int_field(find_field(m, "selectionExtent"));
        let dir = bool_field(find_field(m, "selectionIsDirectional"));
        let tx = str_field(find_field(m, "text"));
        match (cb, ce, af, sb, se, dir, tx) {
            (Some(cb), Some(ce), Some(af), Some(sb), Some(se), Some(dir), Some(tx)) => Some(
                TextEditingState {
                    composing_base: cb,
                    composing_extent: ce,
                    selection_affinity: af,
                    selection_base: sb,
                    selection_extent: se,
                    selection_is_directional: dir,
                    text: tx,
                },
            ),
            _ => None,
        }
    }
}

/// The client id that `TextInput.setClient` carries first in its arguments.
pub open spec fn first_int(args: ValueModel) -> Option<i64> {
    match args {
        ValueModel::List(v) => if v.len() > 0 {
            int_of(Some(v[0]))
        } else {
            None
        },
        _ => None,
    }
}

pub open spec fn set_client_method() -> Seq<char> {
    "TextInput.setClient"@
}

pub open spec fn clear_client_method() -> Seq<char> {
    "TextInput.clearClient"@
}

pub open spec fn set_state_method() -> Seq<char> {
    "TextInput.setEditingState"@
}

pub open spec fn show_method() -> Seq<char> {
    "TextInput.show"@
}

pub open spec fn hide_method() -> Seq<char> {
    "TextInput.hide"@
}

pub open spec fn text_input_name() -> Seq<char> {
    "textinput"@
}

pub open spec fn text_input_channel() -> Seq<char> {
    "flutter/textinput"@
}

pub open spec fn update_method() -> Seq<char> {
    "TextInputClient.updateEditingState"@
}

pub open spec fn action_method() -> Seq<char> {
    "TextInputClient.performAction"@
}

pub open spec fn client_value(client: Option<i64>) -> ValueModel {
    match client {
        Some(id) => ValueModel::I64(id),
        None => ValueModel::Null,
    }
}

/// The editing state as the other side reads it.
pub open spec fn state_value(m: EditingModel) -> ValueModel {
    ValueModel::Dict(
        seq![
            (ValueModel::Str("composingBase"@), ValueModel::I64(m.composing_base)),
            (ValueModel::Str("composingExtent"@), ValueModel::I64(m.composing_extent)),
            (ValueModel::Str("selectionAffinity"@), ValueModel::Str(m.affinity)),
            (ValueModel::Str("selectionBase"@), ValueModel::I64(m.base as i64)),
            (ValueModel::Str("selectionExtent"@), ValueModel::I64(m.extent as i64)),
            (ValueModel::Str("selectionIsDirectional"@), ValueModel::Boolean(m.directional)),
            (ValueModel::Str("text"@), ValueModel::Str(m.text)),
        ],
    )
}

/// `call` tells the other side that the client's state is now `m`.
pub open spec fn is_update(call: MethodCall, client: Option<i64>, m: EditingModel) -> bool {
    &&& call.method@ == update_method()
    &&& call.args@ == ValueModel::List(seq![client_value(client), state_value(m)])
}

fn client_arg(client: Option<i64>) -> (r: Value)
    ensures
        r@ == client_value(client),
{
    match client {
        Some(id) => Value::I64(id),
        None => Value::Null,
    }
}

fn key(k: &str) -> (r: Value)
    ensures
        r@ == ValueModel::Str(k@),
{
    Value::String(String::from_str(k))
}

/// The call that tells the other side the client's editing state.
fn update_call(client: Option<i64>, s: &TextEditingState) -> (r: MethodCall)
    ensures
        is_update(r, client, s@),
{
    let entries = vec![
        (key("composingBase"), Value::I64(s.composing_base)),
        (key("composingExtent"), Value::I64(s.composing_extent)),
        (key("selectionAffinity"), Value::String(s.selection_affinity.clone())),
        (key("selectionBase"), Value::I64(s.selection_base)),
        (key("selectionExtent"), Value::I64(s.selection_extent)),
        (key("selectionIsDirectional"), Value::Boolean(s.selection_is_directional)),
        (key("text"), Value::String(s.text.clone())),
    ];
    proof {
        lemma_pair_models_of(entries@);
        assert(crate::value::pair_models_of(entries@) =~= state_value(s@)->Dict_0);
    }
    let state = Value::Dict(entries);
    let args = vec![client_arg(client), state];
    proof {
        lemma_models_of(args@);
        assert(crate::value::models_of(args@) =~= seq![client_value(client), state_value(s@)]);
    }
    MethodCall { method: String::from_str("TextInputClient.updateEditingState"), args: Value::List(args) }
}

/// The plugin behind the `flutter/textinput` channel: which client is being
/// edited, and its editing state.
#[derive(Debug)]
pub struct TextInputPlugin {
    client_id: Option<i64>,
    editing_state: Option<TextEditingState>,
}

impl TextInputPlugin {
    pub closed spec fn client(&self) -> Option<i64> {
        self.client_id
    }

    pub closed spec fn state(&self) -> Option<EditingModel> {
        match self.editing_state {
            Some(s) => Some(s@),
            None => None,
        }
    }

    pub closed spec fn wf(&self) -> bool {
        self.editing_state matches Some(s) ==> s.wf()
    }

    /// No client, no editing state.
    pub fn new() -> (r: TextInputPlugin)
        ensures
            r.wf(),
            r.client() is None,
            r.state() is None,
    {
        TextInputPlugin { client_id: None, editing_state: None }
    }

    pub fn client_id(&self) -> (r: Option<i64>)
        ensures
            r == self.client(),
    {
        self.client_id
    }

    pub fn has_editing_state(&self) -> (r: bool)
        ensures
            r == self.state() is Some,
    {
        self.editing_state.is_some()
    }

    /// The editing state, if a client has set one.
    pub fn editing_state(&self) -> (r: &Option<TextEditingState>)
        ensures
            r is Some == self.state() is Some,
            r matches Some(s) ==> self.state() == Some(s@),
    {
        &self.editing_state
    }

    /// `TextInput.setClient`: the client with this id is now being edited.
    pub fn set_client(&mut self, id: i64)
        requires
            old(self).wf(),
        ensures
            final(self).wf(),
            final(self).client() == Some(id),
            final(self).state() == old(self).state(),
    {
        self.client_id = Some(id);
    }

    /// `TextInput.clearClient`: no client, and its state is forgotten.
    pub fn clear_client(&mut self)
        ensures
            final(self).wf(),
            final(self).client() is None,
            final(self).state() is None,
    {
        self.client_id = None;
        self.editing_state = None;
    }

    /// `TextInput.setEditingState`: kept only while a client is set and when
    /// its selection lies in its text; returns whether it was kept.
    pub fn set_editing_state(&mut self, state: TextEditingState) -> (r: bool)
        requires
            old(self).wf(),
        ensures
            final(self).wf(),
            r == (old(self).client() is Some && state.wf()),
            final(self).client() == old(self).client(),
            r ==> final(self).state() == Some(state@),
            !r ==> final(self).state() == old(self).state(),
    {
        if self.client_id.is_some() && state.is_valid() {
            self.editing_state = Some(state);
            true
        } else {
            false
        }
    }

    /// Answers a call on the text input channel. Unknown methods are declined.
    /// While a client is set, `TextInput.setEditingState` replaces the state
    /// with the one its argument holds, or with none when the argument holds
    /// no state whose selection lies in its text.
    pub fn handle_call(&mut self, call: &MethodCall) -> (r: MethodCallResult)
        requires
            old(self).wf(),
        ensures
            final(self).wf(),
            call.method@ == set_client_method() ==> {
                &&& r@ == ResultModel::Success(ValueModel::Null)
                &&& final(self).client() == match first_int(call.args@) {
                    Some(n) => Some(n),
                    None => old(self).client(),
                }
                &&& final(self).state() == old(self).state()
            },
            call.method@ == clear_client_method() ==> {
                &&& r@ == ResultModel::Success(ValueModel::Null)
                &&& final(self).client() is None
                &&& final(self).state() is None
            },
            call.method@ == set_state_method() ==> {
                &&& r@ == ResultModel::Success(ValueModel::Null)
                &&& final(self).client() == old(self).client()
                &&& final(self).state() == if old(self).client() is None {
                    old(self).state()
                } else {
                    match state_of(call.args@) {
                        Some(m) => if editing_wf(m) {
                            Some(m)
                        } else {
                            None
                        },
                        None => None,
                    }
                }
            },
            call.method@ == show_method() || call.method@ == hide_method() ==> {
                &&& r@ == ResultModel::Success(ValueModel::Null)
                &&& final(self).client() == old(self).client()
                &&& final(self).state() == old(self).state()
            },
            !(call.method@ == set_client_method() || call.method@ == clear_client_method()
                || call.method@ == set_state_method() || call.method@ == show_method()
                || call.method@ == hide_method()) ==> {
                &&& r@ == ResultModel::NotImplemented
                &&& final(self).client() == old(self).client()
                &&& final(self).state() == old(self).state()
            },
    {
        proof {
            reveal_strlit("TextInput.setClient");
            reveal_strlit("TextInput.clearClient");
            reveal_strlit("TextInput.setEditingState");
            reveal_strlit("TextInput.show");
            reveal_strlit("TextInput.hide");
            assert(set_client_method().len() != clear_client_method().len());
            assert(set_client_method().len() != set_state_method().len());
            assert(set_client_method().len() != show_method().len());
            assert(clear_client_method().len() != set_state_method().len());
            assert(clear_client_method().len() != show_method().len());
            assert(set_state_method().len() != show_method().len());
            assert(show_method()[10] != hide_method()[10]);
        }
        let m = call.method.as_str();
        if str_eq(m, "TextInput.setClient") {
            if let Value::List(v) = &call.args {
                if v.len() > 0 {
                    proof {
                        lemma_models_of(v@);
                    }
                    if let Some(n) = int_field(Some(&v[0])) {
                        self.set_client(n);
                    }
                }
            }
            MethodCallResult::Success(Value::Null)
        } else if str_eq(m, "TextInput.clearClient") {
            self.clear_client();
            MethodCallResult::Success(Value::Null)
        } else if str_eq(m, "TextInput.setEditingState") {
            if self.client_id.is_some() {
                self.editing_state = match TextEditingState::from_value(&call.args) {
                    Some(s) => if s.is_valid() {
                        Some(s)
                    } else {
                        None
                    },
                    None => None,
                };
            }
            MethodCallResult::Success(Value::Null)
        } else if str_eq(m, "TextInput.show") || str_eq(m, "TextInput.hide") {
            MethodCallResult::Success(Value::Null)
        } else {
            MethodCallResult::NotImplemented
        }
    }

    /// The call that tells the other side the current editing state.
    pub fn editing_update(&self) -> (r: Option<MethodCall>)
        ensures
            r is Some <==> self.state() is Some,
            r matches Some(call) ==> is_update(call, self.client(), self.state()->0),
    {
        match &self.editing_state {
            None => None,
            Some(s) => Some(update_call(self.client_id, s)),
        }
    }

    /// Asks the other side to perform `action` (`TextInputAction.<action>`).
    pub fn perform_action(&self, action: &str) -> (r: MethodCall)
        ensures
            r.method@ == action_method(),
            r.args@ == ValueModel::List(
                seq![client_value(self.client()), ValueModel::Str("TextInputAction."@ + action@)],
            ),
    {
        let mut name = String::from_str("TextInputAction.");
        name.append(action);
        let args = vec![client_arg(self.client_id), Value::String(name)];
        proof {
            lemma_models_of(args@);
            assert(crate::value::models_of(args@) =~= seq![
                client_value(self.client()),
                ValueModel::Str("TextInputAction."@ + action@),
            ]);
        }
        MethodCall { method: String::from_str("TextInputClient.performAction"), args: Value::List(args) }
    }

    /// Types `c` over the selection; returns the update to send, if a state
    /// is being edited.
    pub fn add_chars(&mut self, c: &str) -> (r: Option<MethodCall>)
        requires
            old(self).wf(),
        ensures
            final(self).wf(),
            final(self).client() == old(self).client(),
            match old(self).state() {
                None => final(self).state() is None,
                Some(m) => final(self).state() == Some(
                    if m.text.len() + c@.len() <= i64::MAX {
                        spec_add_chars(m, c@)
                    } else {
                        m
                    },
                ),
            },
            r is Some <==> old(self).state() is Some,
            r matches Some(call) ==> is_update(call, final(self).client(), final(self).state()->0),
    {
        match self.editing_state.take() {
            None => None,
            Some(mut s) => {
                s.add_chars(c);
                let call = update_call(self.client_id, &s);
                self.editing_state = Some(s);
                Some(call)
            },
        }
    }

    /// Removes the selected text; returns the update to send when something
    /// was removed.
    pub fn remove_selected_text(&mut self) -> (r: Option<MethodCall>)
        requires
            old(self).wf(),
        ensures
            final(self).wf(),
            final(self).client() == old(self).client(),
            match old(self).state() {
                None => final(self).state() is None && r is None,
                Some(m) => final(self).state() == Some(spec_remove_selection(m)) && (r is Some
                    <==> m.base != m.extent),
            },
            r matches Some(call) ==> is_update(call, final(self).client(), final(self).state()->0),
    {
        match self.editing_state.take() {
            None => None,
            Some(mut s) => {
                let removed = s.remove_selected_text();
                let call = update_call(self.client_id, &s);
                self.editing_state = Some(s);
                if removed {
                    Some(call)
                } else {
                    None
                }
            },
        }
    }

    /// Carries out `cmd` on the state being edited, `pasted` being the
    /// clipboard's text if it holds any. Returns the update to send, and for
    /// a cut or a copy the text for the clipboard.
    pub fn apply_command(&mut self, cmd: EditCommand, pasted: Option<&str>) -> (r: (
        Option<MethodCall>,
        Option<String>,
    ))
        requires
            old(self).wf(),
        ensures
            final(self).wf(),
            final(self).client() == old(self).client(),
            match old(self).state() {
                None => final(self).state() is None && r.0 is None && r.1 is None,
                Some(m) => {
                    &&& final(self).state() == Some(
                        spec_apply(
                            m,
                            cmd,
                            match pasted {
                                Some(t) => Some(t@),
                                None => None,
                            },
                        ),
                    )
                    &&& r.0 matches Some(call) && is_update(call, final(self).client(), final(self).state()->0)
                    &&& (cmd == EditCommand::Cut || cmd == EditCommand::Copy) ==> (r.1 matches Some(t)
                        && t@ == spec_selected_text(m))
                    &&& !(cmd == EditCommand::Cut || cmd == EditCommand::Copy) ==> r.1 is None
                },
            },
    {
        match self.editing_state.take() {
            None => (None, None),
            Some(mut s) => {
                let clip = match cmd {
                    EditCommand::Cut | EditCommand::Copy => Some(s.selected_text()),
                    _ => None,
                };
                match cmd {
                    EditCommand::Newline => {
                        s.add_chars("\n");
                    },
                    EditCommand::Backspace => s.backspace(),
                    EditCommand::Delete => s.delete(),
                    EditCommand::MoveLeft { extend } => s.move_cursor_left(extend),
                    EditCommand::MoveRight { extend } => s.move_cursor_right(extend),
                    EditCommand::MoveHome { extend } => s.move_cursor_home(extend),
                    EditCommand::MoveEnd { extend } => s.move_cursor_end(extend),
                    EditCommand::SelectAll => s.select_all(),
                    EditCommand::Cut => {
                        s.remove_selected_text();
                    },
                    EditCommand::Copy => {},
                    EditCommand::Paste => {
                        if let Some(t) = pasted {
                            s.add_chars(t);
                        }
                    },
                }
                let call = update_call(self.client_id, &s);
                self.editing_state = Some(s);
                (Some(call), clip)
            },
        }
    }

    /// Moves to the start of the text; no update is sent for it.
    pub fn move_cursor_home(&mut self, extend: bool)
        requires
            old(self).wf(),
        ensures
            final(self).wf(),
            final(self).client() == old(self).client(),
            match old(self).state() {
                None => final(self).state() is None,
                Some(m) => final(self).state() == Some(spec_move_home(m, extend)),
            },
    {
        if let Some(mut s) = self.editing_state.take() {
            s.move_cursor_home(extend);
            self.editing_state = Some(s);
        }
    }

    /// Moves to the end of the text; no update is sent for it.
    pub fn move_cursor_end(&mut self, extend: bool)
        requires
            old(self).wf(),
        ensures
            final(self).wf(),
            final(self).client() == old(self).client(),
            match old(self).state() {
                None => final(self).state() is None,
                Some(m) => final(self).state() == Some(spec_move_end(m, extend)),
            },
    {
        if let Some(mut s) = self.editing_state.take() {
            s.move_cursor_end(extend);
            self.editing_state = Some(s);
        }
    }

    /// The selected text; empty without an editing state.
    pub fn get_selected_text(&self) -> (r: String)
        requires
            self.wf(),
        ensures
            match self.state() {
                None => r@.len() == 0,
                Some(m) => r@ == spec_selected_text(m),
            },
    {
        match &self.editing_state {
            None => String::new(),
            Some(s) => s.selected_text(),
        }
    }

    /// Deletes the selection, or else the character before the caret. Returns the update to send, if a state is being edited.
    pub fn backspace(&mut self) -> (r: Option<MethodCall>)
        requires
            old(self).wf(),
        ensures
            final(self).wf(),
            final(self).client() == old(self).client(),
            match old(self).state() {
                None => final(self).state() is None,
                Some(m) => final(self).state() == Some(spec_backspace(m)),
            },
            r is Some <==> old(self).state() is Some,
            r matches Some(call) ==> is_update(call, final(self).client(), final(self).state()->0),
    {
        match self.editing_state.take() {
            None => None,
            Some(mut s) => {
                s.backspace();
                let call = update_call(self.client_id, &s);
                self.editing_state = Some(s);
                Some(call)
            },
        }
    }

    /// Deletes the selection, or else the character after the caret. Returns the update to send, if a state is being edited.
    pub fn delete(&mut self) -> (r: Option<MethodCall>)
        requires
            old(self).wf(),
        ensures
            final(self).wf(),
            final(self).client() == old(self).client(),
            match old(self).state() {
                None => final(self).state() is None,
                Some(m) => final(self).state() == Some(spec_delete(m)),
            },
            r is Some <==> old(self).state() is Some,
            r matches Some(call) ==> is_update(call, final(self).client(), final(self).state()->0),
    {
        match self.editing_state.take() {
            None => None,
            Some(mut s) => {
                s.delete();
                let call = update_call(self.client_id, &s);
                self.editing_state = Some(s);
                Some(call)
            },
        }
    }

    /// Selects the whole text. Returns the update to send, if a state is being edited.
    pub fn select_all(&mut self) -> (r: Option<MethodCall>)
        requires
            old(self).wf(),
        ensures
            final(self).wf(),
            final(self).client() == old(self).client(),
            match old(self).state() {
                None => final(self).state() is None,
                Some(m) => final(self).state() == Some(spec_select_all(m)),
            },
            r is Some <==> old(self).state() is Some,
            r matches Some(call) ==> is_update(call, final(self).client(), final(self).state()->0),
    {
        match self.editing_state.take() {
            None => None,
            Some(mut s) => {
                s.select_all();
                let call = update_call(self.client_id, &s);
                self.editing_state = Some(s);
                Some(call)
            },
        }
    }

    /// Moves left one character (see `TextEditingState::move_cursor_left`). Returns the update to send, if a state is being edited.
    pub fn move_cursor_left(&mut self, extend: bool) -> (r: Option<MethodCall>)
        requires
            old(self).wf(),
        ensures
            final(self).wf(),
            final(self).client() == old(self).client(),
            match old(self).state() {
                None => final(self).state() is None,
                Some(m) => final(self).state() == Some(spec_move_left(m, extend)),
            },
            r is Some <==> old(self).state() is Some,
            r matches Some(call) ==> is_update(call, final(self).client(), final(self).state()->0),
    {
        match self.editing_state.take() {
            None => None,
            Some(mut s) => {
                s.move_cursor_left(extend);
                let call = update_call(self.client_id, &s);
                self.editing_state = Some(s);
                Some(call)
            },
        }
    }

    /// Moves right one character (see `TextEditingState::move_cursor_right`). Returns the update to send, if a state is being edited.
    pub fn move_cursor_right(&mut self, extend: bool) -> (r: Option<MethodCall>)
        requires
            old(self).wf(),
        ensures
            final(self).wf(),
            final(self).client() == old(self).client(),
            match old(self).state() {
                None => final(self).state() is None,
                Some(m) => final(self).state() == Some(spec_move_right(m, extend)),
            },
            r is Some <==> old(self).state() is Some,
            r matches Some(call) ==> is_update(call, final(self).client(), final(self).state()->0),
    {
        match self.editing_state.take() {
            None => None,
            Some(mut s) => {
                s.move_cursor_right(extend);
                let call = update_call(self.client_id, &s);
                self.editing_state = Some(s);
                Some(call)
            },
        }
    }
}

impl Plugin for TextInputPlugin {
    open spec fn name_view(&self) -> Seq<char> {
        text_input_name()
    }

    open spec fn channels_view(&self) -> Seq<ChannelModel> {
        seq![
            ChannelModel {
                name: text_input_channel(),
                codec: CodecTypes::JsonMessageCodec,
                handler_attached: false,
            },
        ]
    }

    fn plugin_name(&self) -> (r: String) {
        String::from_str("textinput")
    }

    fn init_channels(&self) -> (r: Vec<Channel>) {
        let c = Channel::new(String::from_str("flutter/textinput"), CodecTypes::JsonMessageCodec);
        let v = vec![c];
        assert(channel_views(v@) =~= self.channels_view());
        v
    }
}

} // verus!
