use vstd::prelude::*;

verus! {

broadcast use vstd::string::group_string_axioms;

/// Join a Hyprland section path and a key into an IPC keyword path
/// (`section:key`).
pub fn panel_key_to_ipc_keyword(section: &str, key: &str) -> (res: String)
    ensures
        res@ == section@ + seq![':'] + key@,
{
    let mut s = section.to_string();
    proof { reveal_strlit(":"); }
    s.append(":");
    s.append(key);
    s
}

} // verus!
