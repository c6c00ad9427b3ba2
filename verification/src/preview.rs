//! Live preview: which keyword requests a change sends, what is recorded to
//! undo it, and how a revert replays the record.
use vstd::prelude::*;

use crate::ipc::IpcError;
use crate::undo::{UndoEntry, UndoStack};

verus! {

broadcast use {vstd::seq::group_seq_axioms, vstd::string::group_string_axioms};

/// Why a request to Hyprland could not be made.
#[derive(Debug)]
pub enum PreviewError {
    NotConnected,
    Ipc(IpcError),
}

/// The preview state: whether Hyprland's socket is connected, and the
/// changes previewed since the last save or revert.
pub struct PreviewEngine {
    pub connected: bool,
    pub undo_stack: UndoStack,
}

impl PreviewEngine {
    /// A preview with nothing recorded.
    pub fn new(connected: bool) -> (p: Self)
        ensures
            p.connected == connected,
            p.undo_stack@.len() == 0,
    {
        PreviewEngine { connected, undo_stack: UndoStack::new() }
    }

    /// Previews a change of `key` in `section` from `old_value` to `value`:
    /// the old value is recorded under `section:key`, and the keyword request
    /// to send (when connected) is returned.  A field without a Hyprland
    /// section has no keyword: nothing is recorded or sent.
    pub fn apply_preview(&mut self, section: Option<&str>, key: &str, value: &str, old_value: &str) -> (r: Option<(String, String)>)
        ensures
            final(self).connected == old(self).connected,
            match section {
                Some(s) => {
                    &&& final(self).undo_stack@ == old(self).undo_stack@.push((s@ + ":"@ + key@, old_value@))
                    &&& if old(self).connected {
                        r matches Some((k, v)) && k@ == s@ + ":"@ + key@ && v@ == value@
                    } else {
                        r is None
                    }
                },
                None => r is None && final(self).undo_stack@ == old(self).undo_stack@,
            },
    {
        match section {
            Some(s) => {
                let mut ipc_key = s.to_string();
                ipc_key.append(":");
                ipc_key.append(key);
                let request = if self.connected {
                    Some((ipc_key.clone(), value.to_string()))
                } else {
                    None
                };
                self.undo_stack.push(UndoEntry { key: ipc_key, old_value: old_value.to_string() });
                request
            },
            None => None,
        }
    }

    /// Reverts every previewed change: the keyword requests that restore the
    /// recorded old values, most recent first (none when not connected), and
    /// the record is cleared.
    pub fn revert_all(&mut self) -> (r: Vec<(String, String)>)
        ensures
            final(self).undo_stack@.len() == 0,
            final(self).connected == old(self).connected,
            old(self).connected ==> r@.map_values(|p: (String, String)| (p.0@, p.1@))
                == old(self).undo_stack@.reverse(),
            !old(self).connected ==> r@.len() == 0,
    {
        let mut out: Vec<(String, String)> = Vec::new();
        if self.connected {
            let entries = self.undo_stack.rollback_iter();
            let mut i: usize = 0;
            while i < entries.len()
                invariant
                    entries@.len() == self.undo_stack@.len(),
                    forall|j: int| 0 <= j < entries@.len() ==> (#[trigger] entries@[j]).view_entry()
                        == self.undo_stack@.reverse()[j],
                    i <= entries@.len(),
                    out@.map_values(|p: (String, String)| (p.0@, p.1@)) == self.undo_stack@.reverse().take(i as int),
                decreases entries@.len() - i,
            {
                let e = entries[i];
                assert(e.view_entry() == self.undo_stack@.reverse()[i as int]);
                let ghost before = out@;
                let k = e.key.clone();
                let o = e.old_value.clone();
                assert((k@, o@) == e.view_entry());
                out.push((k, o));
                assert(out@.map_values(|p: (String, String)| (p.0@, p.1@)) =~= before.map_values(|p: (String, String)| (p.0@, p.1@)).push((k@, o@)));
                assert(out@.map_values(|p: (String, String)| (p.0@, p.1@)) =~= self.undo_stack@.reverse().take(i + 1));
                i = i + 1;
            }
            assert(self.undo_stack@.reverse().take(entries@.len() as int) =~= self.undo_stack@.reverse());
        }
        self.undo_stack.clear();
        out
    }

    /// Forgets the record after a save.
    pub fn commit(&mut self)
        ensures
            final(self).undo_stack@.len() == 0,
            final(self).connected == old(self).connected,
    {
        self.undo_stack.clear();
    }

    /// Whether changes were previewed since the last save or revert.
    pub fn is_dirty(&self) -> (r: bool)
        ensures
            r == (self.undo_stack@.len() > 0),
    {
        self.undo_stack.is_dirty()
    }

    /// Whether a reload can be requested: only over a connected socket.
    pub fn reload_hyprland(&self) -> (r: Result<(), PreviewError>)
        ensures
            r is Ok <==> self.connected,
            r matches Err(e) ==> e is NotConnected,
    {
        if self.connected {
            Ok(())
        } else {
            Err(PreviewError::NotConnected)
        }
    }
}

} // verus!
