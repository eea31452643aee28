use vstd::prelude::*;
use vstd::utf8::encode_utf8;
use crate::text::{chars_eq, chars_of};

verus! {

/// Commands the async main loop sends to the Wayland thread.
#[derive(Debug)]
pub enum WaylandCmd {
    SetClipboard { mime: String, content: Vec<u8> },
    Shutdown,
}

/// Events the Wayland thread sends back to the async main loop.
#[derive(Debug)]
pub enum WaylandEvent {
    Content { mime: String, data: Vec<u8> },
    Error(String),
}

/// What the Wayland thread does with a global the compositor announces.
#[derive(Debug, Clone, Copy, PartialEq, Eq)]
pub enum RegistryAction {
    /// Bind `zwlr_data_control_manager_v1` at this version.
    BindManager { version: u32 },
    /// Bind the seat at this version and create a data-control device on it.
    BindSeat { version: u32 },
    /// Nothing to do.
    Ignore,
}

/// The data-control manager is bound at version 2 at most, the seat at 7 at
/// most; a seat is only used once the manager is bound.
pub open spec fn registry_decision(interface: Seq<char>, version: u32, manager_bound: bool) -> RegistryAction {
    if interface == "zwlr_data_control_manager_v1"@ {
        RegistryAction::BindManager { version: if version < 2 { version } else { 2 } }
    } else if interface == "wl_seat"@ && manager_bound {
        RegistryAction::BindSeat { version: if version < 7 { version } else { 7 } }
    } else {
        RegistryAction::Ignore
    }
}

/// Decide what to do with an announced global.
pub fn registry_action(interface: &str, version: u32, manager_bound: bool) -> (r: RegistryAction)
    ensures
        r == registry_decision(interface@, version, manager_bound),
{
    let name = chars_of(interface);
    let manager = chars_of("zwlr_data_control_manager_v1");
    let seat = chars_of("wl_seat");
    if chars_eq(&name, &manager) {
        RegistryAction::BindManager { version: if version < 2 { version } else { 2 } }
    } else if chars_eq(&name, &seat) && manager_bound {
        RegistryAction::BindSeat { version: if version < 7 { version } else { 7 } }
    } else {
        RegistryAction::Ignore
    }
}

/// The event a received clipboard offer produces: none for an empty payload,
/// otherwise the payload with the MIME type it was read as.
pub fn content_event(mime: String, data: Vec<u8>) -> (r: Option<WaylandEvent>)
    ensures
        match r {
            Some(WaylandEvent::Content { mime: m, data: d }) => data@.len() > 0 && m@ == mime@ && d@ == data@,
            Some(WaylandEvent::Error(_)) => false,
            None => data@.len() == 0,
        },
{
    if data.len() == 0 {
        None
    } else {
        Some(WaylandEvent::Content { mime, data })
    }
}

/// The command that puts a stored entry back on the clipboard: its MIME type
/// and the UTF-8 bytes of its text (empty when it has none).
pub fn set_clipboard_command(mime: String, content: Option<String>) -> (r: WaylandCmd)
    ensures
        match r {
            WaylandCmd::SetClipboard { mime: m, content: c } => m@ == mime@ && c@ == match content {
                Some(s) => encode_utf8(s@),
                None => Seq::<u8>::empty(),
            },
            WaylandCmd::Shutdown => false,
        },
{
    let bytes = match content {
        Some(s) => s.as_str().as_bytes_vec(),
        None => Vec::new(),
    };
    WaylandCmd::SetClipboard { mime, content: bytes }
}

} // verus!
