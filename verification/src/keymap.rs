//! The symbolic keymap: what each key position of a layout is bound to.
//!
//! A keymap is the compiled form of one layout. It is a table over key
//! positions; a position holds the keysyms bound there and the text that the
//! key produces. Positions beyond the table are bound to nothing.
use vstd::prelude::*;

verus! {

/// What one key position is bound to.
#[derive(Debug, PartialEq, Eq)]
pub struct KeyBinding {
    /// The keysyms bound at the position, in the keymap's order.
    pub keysyms: Vec<u32>,
    /// The text that the key produces; empty for a key that prints nothing.
    pub text: Vec<char>,
}

/// A binding as a mathematical value.
pub struct BindingModel {
    pub keysyms: Seq<u32>,
    pub text: Seq<char>,
}

impl View for KeyBinding {
    type V = BindingModel;

    open spec fn view(&self) -> BindingModel {
        BindingModel { keysyms: self.keysyms@, text: self.text@ }
    }
}

impl BindingModel {
    /// The binding of a position that is bound to nothing.
    pub open spec fn unbound() -> BindingModel {
        BindingModel { keysyms: Seq::empty(), text: Seq::empty() }
    }
}

impl KeyBinding {
    /// A binding of the given keysyms and text.
    pub fn new(keysyms: Vec<u32>, text: Vec<char>) -> (binding: KeyBinding)
        ensures
            binding@ == (BindingModel { keysyms: keysyms@, text: text@ }),
    {
        KeyBinding { keysyms, text }
    }

    /// The binding of a position that is bound to nothing.
    pub fn unbound() -> (binding: KeyBinding)
        ensures
            binding@ == BindingModel::unbound(),
    {
        KeyBinding { keysyms: Vec::new(), text: Vec::new() }
    }
}

/// A keymap as a mathematical value: the layout it was compiled for and the
/// bindings of the positions `0`, `1`, ... of its table.
pub struct KeymapModel {
    pub layout: Seq<char>,
    pub bindings: Seq<BindingModel>,
}

impl KeymapModel {
    /// The binding at `position`; unbound outside the table.
    pub open spec fn binding_at(self, position: int) -> BindingModel {
        if 0 <= position < self.bindings.len() {
            self.bindings[position]
        } else {
            BindingModel::unbound()
        }
    }

    /// The keysyms bound at `position`.
    pub open spec fn keysyms_at(self, position: int) -> Seq<u32> {
        self.binding_at(position).keysyms
    }

    /// The text produced at `position`.
    pub open spec fn text_at(self, position: int) -> Seq<char> {
        self.binding_at(position).text
    }

    /// The keymap of `layout` in which no position is bound.
    pub open spec fn blank(layout: Seq<char>) -> KeymapModel {
        KeymapModel { layout, bindings: Seq::empty() }
    }

    /// This keymap with `position` bound to `binding` and every other
    /// position as before.
    pub open spec fn bound(self, position: int, binding: BindingModel) -> KeymapModel
        recommends
            0 <= position,
    {
        let span = if position < self.bindings.len() {
            self.bindings.len() as int
        } else {
            position + 1
        };
        KeymapModel {
            layout: self.layout,
            bindings: Seq::new(
                span as nat,
                |p: int|
                    if p == position {
                        binding
                    } else {
                        self.binding_at(p)
                    },
            ),
        }
    }
}

/// The compiled keymap of one layout.
#[derive(Debug)]
pub struct SymbolicKeymap {
    layout: String,
    bindings: Vec<KeyBinding>,
}

impl View for SymbolicKeymap {
    type V = KeymapModel;

    closed spec fn view(&self) -> KeymapModel {
        KeymapModel {
            layout: self.layout@,
            bindings: self.bindings@.map_values(|b: KeyBinding| b@),
        }
    }
}

impl SymbolicKeymap {
    /// The keymap of `layout` in which no position is bound yet.
    pub fn new(layout: String) -> (keymap: SymbolicKeymap)
        ensures
            keymap@ == KeymapModel::blank(layout@),
    {
        let keymap = SymbolicKeymap { layout, bindings: Vec::new() };
        assert(keymap@.bindings =~= Seq::empty());
        keymap
    }

    /// The keymap of `layout` whose table is `bindings`: the binding of
    /// position `p` stands at index `p`.
    pub fn from_bindings(layout: String, bindings: Vec<KeyBinding>) -> (keymap: SymbolicKeymap)
        ensures
            keymap@ == (KeymapModel {
                layout: layout@,
                bindings: bindings@.map_values(|b: KeyBinding| b@),
            }),
    {
        SymbolicKeymap { layout, bindings }
    }

    /// Binds `position` to `binding`; every other position stays as it was.
    pub fn bind(&mut self, position: u32, binding: KeyBinding)
        requires
            position < usize::MAX,
        ensures
            final(self)@ == old(self)@.bound(position as int, binding@),
    {
        let at: usize = position as usize;
        while self.bindings.len() <= at
            invariant
                at == position < usize::MAX,
                self.layout == old(self).layout,
                old(self).bindings.len() <= self.bindings.len(),
                self.bindings.len() <= old(self).bindings.len() || self.bindings.len() <= at + 1,
                forall|p: int| 0 <= p < self.bindings.len() ==> #[trigger] self.bindings[p]@ == old(
                    self,
                )@.binding_at(p),
            decreases at + 1 - self.bindings.len(),
        {
            self.bindings.push(KeyBinding::unbound());
        }
        self.bindings[at] = binding;
        assert(self@.bindings =~= old(self)@.bound(position as int, binding@).bindings);
    }

    /// The layout that the keymap was compiled for.
    pub fn layout(&self) -> (layout: &str)
        ensures
            layout@ == self@.layout,
    {
        self.layout.as_str()
    }

    /// The keysyms bound at `position`.
    pub fn keysyms(&self, position: u64) -> (keysyms: &[u32])
        ensures
            keysyms@ == self@.keysyms_at(position as int),
    {
        if position < self.bindings.len() as u64 {
            self.bindings[position as usize].keysyms.as_slice()
        } else {
            let none: &[u32] = &[];
            none
        }
    }

    /// The text produced at `position`.
    pub fn text(&self, position: u64) -> (text: &[char])
        ensures
            text@ == self@.text_at(position as int),
    {
        if position < self.bindings.len() as u64 {
            self.bindings[position as usize].text.as_slice()
        } else {
            let none: &[char] = &[];
            none
        }
    }
}

/// Binding a position changes what that position holds and nothing else.
pub proof fn lemma_bound_changes_one_position(
    keymap: KeymapModel,
    position: int,
    binding: BindingModel,
    other: int,
)
    requires
        0 <= position,
    ensures
        keymap.bound(position, binding).layout == keymap.layout,
        keymap.bound(position, binding).binding_at(position) == binding,
        other != position ==> keymap.bound(position, binding).binding_at(other)
            == keymap.binding_at(other),
{
}

} // verus!
