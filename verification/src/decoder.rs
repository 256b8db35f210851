//! The keystroke decoder: from raw keycodes to keysyms and text.
//!
//! Raw keycodes follow the numbering of the device drivers. Keymaps follow
//! the older numbering in which every code is larger by a fixed offset, so a
//! raw keycode is looked up at the position that lies that offset above it.
//!
//! The decoder follows no modifiers: it decodes a keycode to what the keymap
//! binds to the key while no modifier is active, and to the same every time.
use crate::keymap::{BindingModel, KeyBinding, KeymapModel, SymbolicKeymap};
use vstd::prelude::*;
use vstd::string::StringExecFns;

verus! {

/// Distance between a raw keycode and its position in a keymap.
pub const KEYCODE_OFFSET: u32 = 8;

/// The keymap position at which a raw keycode is looked up.
pub open spec fn keymap_position(raw_keycode: u32) -> int {
    raw_keycode + KEYCODE_OFFSET
}

/// No keymap could be compiled for a layout.
#[derive(Debug, PartialEq, Eq)]
pub struct DecoderInitError {
    /// The layout identifier that could not be compiled.
    pub layout: String,
}

impl DecoderInitError {
    /// What to tell the operator: that the keymap could not be compiled,
    /// and for which layout.
    pub fn message(&self) -> (message: String)
        ensures
            message@ == "Failed to compile the keymap of layout "@ + self.layout@,
    {
        String::from_str("Failed to compile the keymap of layout ").concat(self.layout.as_str())
    }
}

/// Decodes raw keycodes against the keymap of one layout.
#[derive(Debug)]
pub struct KeystrokeDecoder {
    keymap: SymbolicKeymap,
}

impl KeystrokeDecoder {
    /// The keymap that the decoder looks keycodes up in.
    pub closed spec fn keymap(&self) -> KeymapModel {
        self.keymap@
    }

    /// The keysyms that `raw_keycode` decodes to.
    pub open spec fn keysyms_of(&self, raw_keycode: u32) -> Seq<u32> {
        self.keymap().keysyms_at(keymap_position(raw_keycode))
    }

    /// The characters that `raw_keycode` decodes to.
    pub open spec fn chars_of(&self, raw_keycode: u32) -> Seq<char> {
        self.keymap().text_at(keymap_position(raw_keycode))
    }

    /// A decoder for `layout` from what the keymap compiler returned: the
    /// table of bindings by position, or `None` where it could not compile
    /// the layout. Without a keymap there is no decoder, and the error names
    /// the layout.
    pub fn new(
        layout: String,
        compiled: Option<Vec<KeyBinding>>,
    ) -> (decoder: Result<KeystrokeDecoder, DecoderInitError>)
        ensures
            match decoder {
                Ok(d) => compiled is Some && d.keymap() == (KeymapModel {
                    layout: layout@,
                    bindings: compiled->0@.map_values(|b: KeyBinding| b@),
                }),
                Err(e) => compiled is None && e.layout@ == layout@,
            },
    {
        match compiled {
            Some(bindings) => Ok(
                KeystrokeDecoder { keymap: SymbolicKeymap::from_bindings(layout, bindings) },
            ),
            None => Err(DecoderInitError { layout }),
        }
    }

    /// A decoder that owns `keymap`.
    pub fn with_keymap(keymap: SymbolicKeymap) -> (decoder: KeystrokeDecoder)
        ensures
            decoder.keymap() == keymap@,
    {
        KeystrokeDecoder { keymap }
    }

    /// The layout that the decoder was made for.
    pub fn layout(&self) -> (layout: &str)
        ensures
            layout@ == self.keymap().layout,
    {
        self.keymap.layout()
    }

    /// The keysyms bound to `raw_keycode`: those that the keymap holds at
    /// the position `raw_keycode + KEYCODE_OFFSET`, in the keymap's order.
    /// The slice borrows from the decoder.
    pub fn decode_as_keysym(&self, raw_keycode: u32) -> (keysyms: &[u32])
        ensures
            keysyms@ == self.keymap().keysyms_at(raw_keycode + KEYCODE_OFFSET),
    {
        self.keymap.keysyms(raw_keycode as u64 + KEYCODE_OFFSET as u64)
    }

    /// The characters that `raw_keycode` produces: the text that the keymap
    /// holds at the position `raw_keycode + KEYCODE_OFFSET`; none for a key
    /// that prints nothing.
    pub fn decode_as_chars(&self, raw_keycode: u32) -> (chars: Vec<char>)
        ensures
            chars@ == self.keymap().text_at(raw_keycode + KEYCODE_OFFSET),
    {
        let text = self.keymap.text(raw_keycode as u64 + KEYCODE_OFFSET as u64);
        let mut chars: Vec<char> = Vec::new();
        let mut i: usize = 0;
        while i < text.len()
            invariant
                i <= text.len(),
                chars@ == text@.take(i as int),
            decreases text.len() - i,
        {
            chars.push(text[i]);
            assert(text@.take(i + 1) =~= text@.take(i as int).push(text@[i as int]));
            i += 1;
        }
        assert(text@.take(text.len() as int) =~= text@);
        chars
    }
}

/// Decoding is a function of the keymap and the keycode alone: decoders
/// over the same keymap decode every keycode alike, and so does one decoder
/// that is asked twice.
pub proof fn lemma_decoding_is_deterministic(
    first: KeystrokeDecoder,
    second: KeystrokeDecoder,
    raw_keycode: u32,
)
    requires
        first.keymap() == second.keymap(),
    ensures
        first.keysyms_of(raw_keycode) == second.keysyms_of(raw_keycode),
        first.chars_of(raw_keycode) == second.chars_of(raw_keycode),
{
}

/// A raw keycode is looked up exactly 8 positions above itself: it decodes
/// to what the keymap holds there, and two keycodes never share a position.
pub proof fn lemma_offset_is_exact(decoder: KeystrokeDecoder, raw_keycode: u32, other: u32)
    ensures
        decoder.keysyms_of(raw_keycode) == decoder.keymap().keysyms_at(raw_keycode + 8),
        decoder.chars_of(raw_keycode) == decoder.keymap().text_at(raw_keycode + 8),
        other != raw_keycode ==> keymap_position(other) != keymap_position(raw_keycode),
{
}

/// Binding the position 8 above a raw keycode decides what that keycode
/// decodes to, and leaves every other keycode as it was.
pub proof fn lemma_binding_decodes_at_offset(
    keymap: KeymapModel,
    raw_keycode: u32,
    binding: BindingModel,
    other: u32,
)
    ensures
        keymap.bound(raw_keycode + 8, binding).binding_at(keymap_position(raw_keycode))
            == binding,
        other != raw_keycode ==> keymap.bound(raw_keycode + 8, binding).binding_at(
            keymap_position(other),
        ) == keymap.binding_at(keymap_position(other)),
{
}

} // verus!
