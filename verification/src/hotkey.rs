//! The global hotkey registration table.

use vstd::prelude::*;

use crate::error::CaptureError;

verus! {

/// One registered global hotkey: its opaque id, the modifier bitmask
/// and virtual key code it is bound to, and whether it is enabled.
#[derive(Debug, Clone, Copy, PartialEq, Eq, Structural)]
pub struct HotkeyBinding {
    pub id: u32,
    pub modifiers: u32,
    pub key: u32,
    pub enabled: bool,
}

/// Whether some binding in the table holds this combination.
pub open spec fn spec_bound(bs: Seq<HotkeyBinding>, modifiers: u32, key: u32) -> bool {
    exists|i: int| 0 <= i < bs.len() && bs[i].modifiers == modifiers && bs[i].key == key
}

/// The registration table of global hotkeys, owned exclusively by the
/// background context that listens for them.  The platform call that
/// binds a combination system-wide is the application's; the table
/// decides which registrations are accepted and which ids are live.
#[derive(Debug, Clone, PartialEq, Eq)]
pub struct HotkeyManager {
    pub bindings: Vec<HotkeyBinding>,
}

impl HotkeyManager {
    /// An empty table.
    pub fn new() -> (m: HotkeyManager)
        ensures
            m.bindings@.len() == 0,
    {
        HotkeyManager { bindings: Vec::new() }
    }

    /// Whether the combination is already bound.
    pub fn is_bound(&self, modifiers: u32, key: u32) -> (r: bool)
        ensures
            r == spec_bound(self.bindings@, modifiers, key),
    {
        let mut i: usize = 0;
        while i < self.bindings.len()
            invariant
                i <= self.bindings@.len(),
                forall|j: int|
                    0 <= j < i ==> !((#[trigger] self.bindings@[j]).modifiers == modifiers
                        && self.bindings@[j].key == key),
            decreases self.bindings@.len() - i,
        {
            let b = self.bindings[i];
            if b.modifiers == modifiers && b.key == key {
                return true;
            }
            i += 1;
        }
        false
    }

    /// Register a combination under an id, enabled.  Fails with
    /// `HotkeyConflictError` exactly when the combination is already
    /// bound, leaving the table unchanged; the failure is fatal only to
    /// this hotkey's startup, not to the process.
    pub fn register_hotkey(&mut self, id: u32, modifiers: u32, key: u32) -> (r: Result<
        (),
        CaptureError,
    >)
        ensures
            r is Ok <==> !spec_bound(old(self).bindings@, modifiers, key),
            r is Ok ==> final(self).bindings@ == old(self).bindings@.push(
                HotkeyBinding { id, modifiers, key, enabled: true },
            ),
            r is Err ==> r == Err::<(), CaptureError>(CaptureError::HotkeyConflict) && *final(self)
                == *old(self),
    {
        if self.is_bound(modifiers, key) {
            return Err(CaptureError::HotkeyConflict);
        }
        self.bindings.push(HotkeyBinding { id, modifiers, key, enabled: true });
        Ok(())
    }

    /// Whether a delivered hotkey id belongs to an enabled binding.
    pub fn is_enabled(&self, id: u32) -> (r: bool)
        ensures
            r == (exists|i: int|
                0 <= i < self.bindings@.len() && (#[trigger] self.bindings@[i]).id == id
                    && self.bindings@[i].enabled),
    {
        let mut i: usize = 0;
        while i < self.bindings.len()
            invariant
                i <= self.bindings@.len(),
                forall|j: int|
                    0 <= j < i ==> !((#[trigger] self.bindings@[j]).id == id
                        && self.bindings@[j].enabled),
            decreases self.bindings@.len() - i,
        {
            let b = self.bindings[i];
            if b.id == id && b.enabled {
                return true;
            }
            i += 1;
        }
        false
    }

    /// Tear the table down, as the shutdown signal does: every hotkey is
    /// unregistered and the listener has nothing left to match.
    pub fn stop_listening(&mut self)
        ensures
            final(self).bindings@.len() == 0,
    {
        self.bindings.clear();
    }
}

/// Split the packed word a platform hotkey message carries: the low 16
/// bits are the modifier bitmask, the next 16 the virtual key code.
pub fn decode_hotkey_message(lparam: u32) -> (r: (u32, u32))
    ensures
        r.0 == lparam & 0xFFFF,
        r.1 == (lparam >> 16) & 0xFFFF,
{
    (lparam & 0xFFFF, (lparam >> 16) & 0xFFFF)
}

} // verus!
