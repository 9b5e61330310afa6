//! The state of the guest's immediate-mode widgets: checkbox, slider and
//! text-field values kept by widget id across frames, and the buttons
//! clicked since the last frame.
//!
//! A guest declares its widgets anew every frame and passes each one an
//! initial value; the host keeps the value from the first declaration and
//! changes it only when the user acts on the widget.

use vstd::prelude::*;
use std::collections::{HashMap, HashSet};
use crate::text::{append_str, chars_eq_str, chars_of, string_of};

verus! {

broadcast use vstd::std_specs::hash::group_hash_axioms;

/// A widget's value. A slider's value is held as the bit pattern of its
/// `f32` (`f32::to_bits`).
#[derive(Clone, Debug)]
pub enum WidgetValue {
    Bool(bool),
    FloatBits(u32),
    Text(String),
}

/// A widget's value as a plain value.
pub enum WidgetState {
    Bool(bool),
    FloatBits(u32),
    Text(Seq<char>),
}

pub open spec fn state_of(v: WidgetValue) -> WidgetState {
    match v {
        WidgetValue::Bool(b) => WidgetState::Bool(b),
        WidgetValue::FloatBits(f) => WidgetState::FloatBits(f),
        WidgetValue::Text(t) => WidgetState::Text(t@),
    }
}

spec fn states_view(m: Map<u32, WidgetValue>) -> Map<u32, WidgetState> {
    Map::new(|k: u32| m.contains_key(k), |k: u32| state_of(m[k]))
}

proof fn lemma_states_insert(m: Map<u32, WidgetValue>, k: u32, v: WidgetValue)
    ensures
        states_view(m.insert(k, v)) == states_view(m).insert(k, state_of(v)),
{
    assert(states_view(m.insert(k, v)) =~= states_view(m).insert(k, state_of(v)));
}

/// Whether a checkbox shows as checked: its stored flag, else unchecked.
pub open spec fn checked_in(s: Map<u32, WidgetState>, id: u32) -> bool {
    s.contains_key(id) && (s[id] matches WidgetState::Bool(b) && b)
}

/// A text field's contents: its stored text, else empty.
pub open spec fn text_in(s: Map<u32, WidgetState>, id: u32) -> Seq<char> {
    if s.contains_key(id) && s[id] is Text {
        s[id]->Text_0
    } else {
        Seq::empty()
    }
}

/// Widget values by id, and the ids of the buttons clicked since the last
/// frame.
pub struct Widgets {
    values: HashMap<u32, WidgetValue>,
    clicked: HashSet<u32>,
}

impl Widgets {
    pub closed spec fn states(&self) -> Map<u32, WidgetState> {
        states_view(self.values@)
    }

    pub closed spec fn clicked(&self) -> Set<u32> {
        self.clicked@
    }

    pub fn new() -> (r: Self)
        ensures
            r.states() == Map::<u32, WidgetState>::empty(),
            r.clicked() == Set::<u32>::empty(),
    {
        let r = Widgets { values: HashMap::new(), clicked: HashSet::new() };
        proof {
            assert(r.states() =~= Map::<u32, WidgetState>::empty());
        }
        r
    }

    /// A new page starts: every widget value and click is forgotten.
    pub fn clear(&mut self)
        ensures
            final(self).states() == Map::<u32, WidgetState>::empty(),
            final(self).clicked() == Set::<u32>::empty(),
    {
        self.values.clear();
        self.clicked.clear();
        proof {
            assert(self.states() =~= Map::<u32, WidgetState>::empty());
        }
    }

    fn store(&mut self, id: u32, v: WidgetValue)
        ensures
            final(self).states() == old(self).states().insert(id, state_of(v)),
            final(self).clicked() == old(self).clicked(),
    {
        proof {
            lemma_states_insert(self.values@, id, v);
        }
        self.values.insert(id, v);
    }

    /// A guest declares button `id`: whether it was clicked since the last
    /// frame.
    pub fn button(&self, id: u32) -> (r: bool)
        ensures
            r == self.clicked().contains(id),
    {
        self.clicked.contains(&id)
    }

    /// The user clicked button `id`.
    pub fn click(&mut self, id: u32)
        ensures
            final(self).clicked() == old(self).clicked().insert(id),
            final(self).states() == old(self).states(),
    {
        self.clicked.insert(id);
    }

    /// A frame was drawn: the clicks were seen.
    pub fn end_frame(&mut self)
        ensures
            final(self).clicked() == Set::<u32>::empty(),
            final(self).states() == old(self).states(),
    {
        self.clicked.clear();
    }

    /// A guest declares checkbox `id` with `initial`: a new checkbox takes
    /// `initial`; a known one keeps its state (`initial` when the id holds
    /// another kind of widget).
    pub fn checkbox(&mut self, id: u32, initial: bool) -> (checked: bool)
        ensures
            final(self).clicked() == old(self).clicked(),
            old(self).states().contains_key(id) ==> final(self).states() == old(self).states()
                && checked == (match old(self).states()[id] {
                WidgetState::Bool(b) => b,
                _ => initial,
            }),
            !old(self).states().contains_key(id) ==> final(self).states() == old(
                self,
            ).states().insert(id, WidgetState::Bool(initial)) && checked == initial,
    {
        match self.values.get(&id) {
            Some(WidgetValue::Bool(b)) => *b,
            Some(_) => initial,
            None => {
                self.store(id, WidgetValue::Bool(initial));
                initial
            },
        }
    }

    /// A guest declares slider `id` with the value `initial_bits`: as for a
    /// checkbox, a known slider keeps its value.
    pub fn slider(&mut self, id: u32, initial_bits: u32) -> (value_bits: u32)
        ensures
            final(self).clicked() == old(self).clicked(),
            old(self).states().contains_key(id) ==> final(self).states() == old(self).states()
                && value_bits == (match old(self).states()[id] {
                WidgetState::FloatBits(f) => f,
                _ => initial_bits,
            }),
            !old(self).states().contains_key(id) ==> final(self).states() == old(
                self,
            ).states().insert(id, WidgetState::FloatBits(initial_bits)) && value_bits
                == initial_bits,
    {
        match self.values.get(&id) {
            Some(WidgetValue::FloatBits(f)) => *f,
            Some(_) => initial_bits,
            None => {
                self.store(id, WidgetValue::FloatBits(initial_bits));
                initial_bits
            },
        }
    }

    /// A guest declares text field `id` with `initial` contents: a new field
    /// takes them; a known one keeps its text (empty when the id holds
    /// another kind of widget).
    pub fn text_input(&mut self, id: u32, initial: String) -> (text: String)
        ensures
            final(self).clicked() == old(self).clicked(),
            old(self).states().contains_key(id) ==> final(self).states() == old(self).states()
                && text@ == text_in(old(self).states(), id),
            !old(self).states().contains_key(id) ==> final(self).states() == old(
                self,
            ).states().insert(id, WidgetState::Text(initial@)) && text@ == initial@,
    {
        match self.values.get(&id) {
            Some(WidgetValue::Text(t)) => t.clone(),
            Some(_) => String::new(),
            None => {
                let t = initial.clone();
                self.store(id, WidgetValue::Text(initial));
                t
            },
        }
    }

    /// Whether checkbox `id` shows as checked.
    pub fn is_checked(&self, id: u32) -> (r: bool)
        ensures
            r == checked_in(self.states(), id),
    {
        match self.values.get(&id) {
            Some(WidgetValue::Bool(b)) => *b,
            _ => false,
        }
    }

    /// The contents of text field `id`.
    pub fn text(&self, id: u32) -> (r: String)
        ensures
            r@ == text_in(self.states(), id),
    {
        match self.values.get(&id) {
            Some(WidgetValue::Text(t)) => t.clone(),
            _ => String::new(),
        }
    }

    /// The user clicked checkbox `id`: it flips.
    pub fn toggle(&mut self, id: u32)
        ensures
            final(self).states() == old(self).states().insert(
                id,
                WidgetState::Bool(!checked_in(old(self).states(), id)),
            ),
            final(self).clicked() == old(self).clicked(),
    {
        let cur = self.is_checked(id);
        self.store(id, WidgetValue::Bool(!cur));
    }

    /// The user moved slider `id` to the value with bits `value_bits`.
    pub fn set_slider(&mut self, id: u32, value_bits: u32)
        ensures
            final(self).states() == old(self).states().insert(id, WidgetState::FloatBits(value_bits)),
            final(self).clicked() == old(self).clicked(),
    {
        self.store(id, WidgetValue::FloatBits(value_bits));
    }

    /// The user typed or pasted `s` into text field `id`.
    pub fn type_text(&mut self, id: u32, s: &str)
        ensures
            final(self).states() == old(self).states().insert(
                id,
                WidgetState::Text(text_in(old(self).states(), id) + s@),
            ),
            final(self).clicked() == old(self).clicked(),
    {
        let t = self.text(id);
        let mut c = chars_of(t.as_str());
        append_str(&mut c, s);
        self.store(id, WidgetValue::Text(string_of(c.as_slice())));
    }

    /// The user pressed backspace in text field `id`: its last character
    /// goes.
    pub fn backspace(&mut self, id: u32)
        ensures
            final(self).states() == old(self).states().insert(
                id,
                WidgetState::Text(
                    if text_in(old(self).states(), id).len() == 0 {
                        Seq::empty()
                    } else {
                        text_in(old(self).states(), id).drop_last()
                    },
                ),
            ),
            final(self).clicked() == old(self).clicked(),
    {
        let t = self.text(id);
        let mut c = chars_of(t.as_str());
        if c.len() > 0 {
            c.pop();
        }
        proof {
            if text_in(old(self).states(), id).len() == 0 {
                assert(c@ =~= Seq::<char>::empty());
            }
        }
        self.store(id, WidgetValue::Text(string_of(c.as_slice())));
    }

    /// The user cut the contents of text field `id`: they are returned (for
    /// the clipboard) and the field is emptied.
    pub fn cut(&mut self, id: u32) -> (r: String)
        ensures
            r@ == text_in(old(self).states(), id),
            final(self).states() == old(self).states().insert(id, WidgetState::Text(Seq::empty())),
            final(self).clicked() == old(self).clicked(),
    {
        let t = self.text(id);
        self.store(id, WidgetValue::Text(String::new()));
        t
    }
}

/// What a key press does to the focused text field.
#[derive(Clone, Debug, PartialEq, Eq)]
pub enum TextFieldAction {
    /// Copy the contents to the clipboard.
    Copy,
    /// Append the clipboard's text.
    Paste,
    /// Copy the contents to the clipboard and empty the field.
    Cut,
    /// Remove the last character.
    Backspace,
    /// Append the typed text.
    Insert(String),
    /// Nothing changes.
    Nothing,
}

/// The action of a key press on the focused text field: with the
/// platform's command modifier, `c`, `v` and `x` copy, paste and cut;
/// otherwise `backspace` deletes and typed text is inserted.
pub fn text_field_action(command: bool, key: &str, typed: Option<String>) -> (r: TextFieldAction)
    ensures
        command ==> r == (if key@ == "c"@ {
            TextFieldAction::Copy
        } else if key@ == "v"@ {
            TextFieldAction::Paste
        } else if key@ == "x"@ {
            TextFieldAction::Cut
        } else {
            TextFieldAction::Nothing
        }),
        !command && key@ == "backspace"@ ==> r == TextFieldAction::Backspace,
        !command && key@ != "backspace"@ ==> r == match typed {
            Some(t) => TextFieldAction::Insert(t),
            None => TextFieldAction::Nothing,
        },
{
    let k = chars_of(key);
    if command {
        if chars_eq_str(k.as_slice(), "c") {
            TextFieldAction::Copy
        } else if chars_eq_str(k.as_slice(), "v") {
            TextFieldAction::Paste
        } else if chars_eq_str(k.as_slice(), "x") {
            TextFieldAction::Cut
        } else {
            TextFieldAction::Nothing
        }
    } else if chars_eq_str(k.as_slice(), "backspace") {
        TextFieldAction::Backspace
    } else {
        match typed {
            Some(t) => TextFieldAction::Insert(t),
            None => TextFieldAction::Nothing,
        }
    }
}

/// Clicking a checkbox twice leaves it as it was shown.
pub proof fn law_toggle_twice(s: Map<u32, WidgetState>, id: u32)
    ensures
        checked_in(
            s.insert(id, WidgetState::Bool(!checked_in(s, id))).insert(
                id,
                WidgetState::Bool(!checked_in(s.insert(id, WidgetState::Bool(!checked_in(s, id))), id)),
            ),
            id,
        ) == checked_in(s, id),
{
}

/// Typing a character into a field and pressing backspace restores its
/// text.
pub proof fn law_type_then_backspace(s: Map<u32, WidgetState>, id: u32, c: char)
    ensures
        ({
            let typed = s.insert(id, WidgetState::Text(text_in(s, id) + seq![c]));
            text_in(typed, id).drop_last() == text_in(s, id)
        }),
{
    assert((text_in(s, id) + seq![c]).drop_last() =~= text_in(s, id));
}

} // verus!
