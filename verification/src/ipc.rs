//! Hyprland's command socket: where it is and what is sent through it.
use vstd::prelude::*;

use crate::panels::ExIoError;

verus! {

broadcast use {vstd::seq::group_seq_axioms, vstd::string::group_string_axioms};

#[verifier::external_type_specification]
#[verifier::external_body]
pub struct ExPathBuf(std::path::PathBuf);

#[verifier::external_type_specification]
#[verifier::external_body]
pub struct ExJsonError(serde_json::Error);

/// Why talking to Hyprland failed.
#[derive(Debug)]
pub enum IpcError {
    EnvMissing(String),
    SocketNotFound(std::path::PathBuf),
    Io(std::io::Error),
    Json(serde_json::Error),
}

/// Hyprland IPC client communicating over Unix sockets.
pub struct HyprlandIpc {
    pub socket_path: std::path::PathBuf,
}

/// Which environment variable is missing, if any, for finding the socket:
/// `XDG_RUNTIME_DIR` is looked at first, then `HYPRLAND_INSTANCE_SIGNATURE`.
pub fn missing_socket_variable(runtime_dir_set: bool, instance_set: bool) -> (r: Option<IpcError>)
    ensures
        !runtime_dir_set ==> (r matches Some(IpcError::EnvMissing(v)) && v@ == "XDG_RUNTIME_DIR"@),
        runtime_dir_set && !instance_set ==> (r matches Some(IpcError::EnvMissing(v)) && v@
            == "HYPRLAND_INSTANCE_SIGNATURE"@),
        runtime_dir_set && instance_set ==> r is None,
{
    if !runtime_dir_set {
        Some(IpcError::EnvMissing("XDG_RUNTIME_DIR".to_string()))
    } else if !instance_set {
        Some(IpcError::EnvMissing("HYPRLAND_INSTANCE_SIGNATURE".to_string()))
    } else {
        None
    }
}

/// The request that sets a keyword: `keyword KEY VALUE`.
pub fn keyword_request(key: &str, value: &str) -> (r: String)
    ensures
        r@ == "keyword "@ + key@ + " "@ + value@,
{
    let mut s = "keyword ".to_string();
    s.append(key);
    s.append(" ");
    s.append(value);
    s
}

/// The request for a JSON reply: `j/ENDPOINT`.
pub fn json_request(endpoint: &str) -> (r: String)
    ensures
        r@ == "j/"@ + endpoint@,
{
    let mut s = "j/".to_string();
    s.append(endpoint);
    s
}

/// The JSON request for an option's value: `j/getoption NAME`.
pub fn get_option_request(name: &str) -> (r: String)
    ensures
        r@ == "j/getoption "@ + name@,
{
    let mut s = "j/getoption ".to_string();
    s.append(name);
    s
}

/// The request that dispatches a command: `dispatch CMD`.
pub fn dispatch_request(cmd: &str) -> (r: String)
    ensures
        r@ == "dispatch "@ + cmd@,
{
    let mut s = "dispatch ".to_string();
    s.append(cmd);
    s
}

/// The message that sums up Hyprland's configuration errors: the string
/// entries of a non-empty error list joined by `"; "`; none for an empty
/// list or a reply that is no list.
pub fn config_errors_message(reply: Option<Vec<Option<String>>>) -> (r: Option<String>)
    ensures
        match reply {
            Some(items) if items@.len() > 0 => r matches Some(m) && m@ == crate::text::join_with(
                string_entries(items@),
                "; "@,
            ),
            _ => r is None,
        },
{
    match reply {
        Some(items) => {
            if items.len() == 0 {
                return None;
            }
            let mut msgs: Vec<String> = Vec::new();
            let mut i: usize = 0;
            assert(items@.take(0) =~= Seq::<Option<String>>::empty());
            while i < items.len()
                invariant
                    i <= items@.len(),
                    msgs@.map_values(|s: String| s@) == string_entries(items@.take(i as int)),
                decreases items@.len() - i,
            {
                proof {
                    assert(items@.take(i + 1).drop_last() =~= items@.take(i as int));
                    assert(items@.take(i + 1).last() == items@[i as int]);
                }
                match &items[i] {
                    Some(s) => {
                        let ghost before = msgs@;
                        msgs.push(s.clone());
                        assert(msgs@.map_values(|s: String| s@) =~= before.map_values(|s: String| s@).push(s@));
                    },
                    None => {},
                }
                i = i + 1;
            }
            assert(items@.take(items@.len() as int) =~= items@);
            Some(crate::text::join_strings(&msgs, "; "))
        },
        None => None,
    }
}

/// The string entries of a list, in order.
pub open spec fn string_entries(items: Seq<Option<String>>) -> Seq<Seq<char>>
    decreases items.len(),
{
    if items.len() == 0 {
        seq![]
    } else {
        match items.last() {
            Some(s) => string_entries(items.drop_last()).push(s@),
            None => string_entries(items.drop_last()),
        }
    }
}

} // verus!
