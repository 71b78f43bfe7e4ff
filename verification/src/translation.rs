//! The shape of a finished table: six categories of entries, each text held
//! as a terminated code-unit buffer that is shared and never written.

use vstd::prelude::*;
use crate::utf16::{decode_terminated, decode_utf16, terminated_units};

verus! {

/// A read-only view of a buffer of UTF-16 code units that ends in a zero
/// unit.
pub struct Utf16String {
    pub data: &'static [u16],
}

impl Utf16String {
    /// The buffer is the code-unit encoding of `text`.
    pub open spec fn encodes(&self, text: Seq<char>) -> bool {
        self.data@ == terminated_units(text)
    }

    /// The text that the buffer stands for, if it is well-formed.
    pub open spec fn text(&self) -> Option<Seq<char>> {
        decode_terminated(self.data@)
    }

    /// The code units, terminator included. The buffer is shared: it can be
    /// read through the result and never written.
    pub fn as_slice(&self) -> (units: &'static [u16])
        ensures
            units@ == self.data@,
    {
        self.data
    }

    /// Decodes the buffer. Nothing is returned where the terminator is
    /// missing or a surrogate stands alone.
    pub fn to_text(&self) -> (text: Option<String>)
        ensures
            match self.text() {
                Some(t) => text matches Some(s) && s@ == t,
                None => text is None,
            },
    {
        decode_utf16(self.data)
    }

    /// A buffer that encodes a text decodes to that text.
    pub proof fn lemma_encoded_text(&self, text: Seq<char>)
        requires
            self.encodes(text),
        ensures
            self.text() == Some(text),
    {
        crate::utf16::lemma_code_units_round_trip(text);
    }
}

/// One location name.
pub struct LocationEntry {
    pub id: u32,
    pub text: Utf16String,
}

/// One item: its name, its short information and its description.
pub struct GoodsEntry {
    pub id: u32,
    pub name: Utf16String,
    pub info: Utf16String,
    pub description: Utf16String,
}

/// One menu label.
pub struct MenuEntry {
    pub id: u32,
    pub text: Utf16String,
}

/// One button caption.
pub struct ActionButtonsEntry {
    pub id: u32,
    pub text: Utf16String,
}

/// The button captions of a language, in the order of its source.
pub struct ActionButtons {
    pub entries: &'static [ActionButtonsEntry],
}

/// One event text.
pub struct EventTextEntry {
    pub id: u32,
    pub text: Utf16String,
}

/// The event texts of a language, in the order of its source.
pub struct EventText {
    pub entries: &'static [EventTextEntry],
}

/// One system message.
pub struct SystemEntry {
    pub id: u32,
    pub text: Utf16String,
}

/// The system messages of a language, in the order of its source.
pub struct System {
    pub entries: &'static [SystemEntry],
}

/// The menu labels of a language, in the order of its source.
pub struct Menu {
    pub entries: &'static [MenuEntry],
}

/// The location names of a language, in the order of its source.
pub struct Location {
    pub entries: &'static [LocationEntry],
}

/// The items of a language, in the order of its source.
pub struct Goods {
    pub entries: &'static [GoodsEntry],
}

/// The tables of one language: six categories, each an ordered sequence of
/// entries. Identifiers are kept as the source gives them: they need not be
/// sorted, and one may occur twice.
pub struct Translation {
    pub location: Location,
    pub goods: Goods,
    pub menu: Menu,
    pub action_buttons: ActionButtons,
    pub event_text: EventText,
    pub system: System,
}

} // verus!
