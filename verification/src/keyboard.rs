use vstd::prelude::*;

verus! {

/// The sixteen-key hexadecimal keypad, one slot per key value `0x0`..`0xF`.
///
/// A slot is `true` while the interpreter considers that key pressed.  An
/// input listener sets slots with [`Keyboard::toggle`]; the cycle scheduler
/// takes a snapshot with [`Keyboard::read`] and wipes the slots with
/// [`Keyboard::clear_state`] once a non-blocked cycle completes, so a key
/// event acts as a one-cycle pulse.
pub struct Keyboard {
    pad: [bool; 16],
}

impl Keyboard {
    /// A fresh keypad with no key pressed.
    pub fn new() -> (kb: Keyboard)
        ensures
            forall|k: int| 0 <= k < 16 ==> !kb@[k],
    {
        Keyboard { pad: [false; 16] }
    }

    /// The live slots, read in place; `read` returns the snapshot copy.
    pub closed spec fn view(&self) -> Seq<bool> {
        self.pad@
    }

    /// Reset every slot to "not pressed".
    pub fn clear_state(&mut self)
        ensures
            final(self)@.len() == 16,
            forall|k: int| 0 <= k < 16 ==> !final(self)@[k],
    {
        self.pad = [false; 16];
    }

    /// Alias kept for callers that know the keypad by its short name.
    pub fn clear(&mut self)
        ensures
            final(self)@.len() == 16,
            forall|k: int| 0 <= k < 16 ==> !final(self)@[k],
    {
        self.clear_state();
    }

    /// Record a key-down pulse for `key`; no slot is ever cleared here.
    pub fn toggle(&mut self, key: u8)
        requires
            key < 16,
        ensures
            final(self)@ == old(self)@.update(key as int, true),
    {
        self.pad[key as usize] = true;
    }

    /// Snapshot of all sixteen slots for one interpreter step.
    pub fn read(&self) -> (snapshot: [bool; 16])
        ensures
            snapshot@ == self@,
    {
        self.pad
    }
}

} // verus!
