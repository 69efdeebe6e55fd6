//! Plain configuration records used by the surrounding application:
//! capture sources, capture parameters, hotkeys, and the assistant proxy.
//! They carry data only; the subsystems that act on them are external
//! collaborators.

use vstd::prelude::*;

verus! {

/// Settings of the assistant proxy.
#[derive(Debug)]
pub struct AIConfig {
    pub api_key: String,
    pub preferred_model: String,
    pub enabled: bool,
}

/// One screen available for recording.
#[derive(Clone, Debug)]
pub struct ScreenSource {
    pub id: String,
    pub name: String,
    pub width: u32,
    pub height: u32,
    pub is_primary: bool,
}

/// Parameters of a capture session.
#[derive(Clone, Copy, Debug, PartialEq, Eq, Structural)]
pub struct CaptureConfig {
    pub monitor_index: usize,
    pub fps: u32,
    pub width: u32,
    pub height: u32,
}

/// The four global shortcuts, as accelerator strings.
#[derive(Clone, Debug)]
pub struct HotkeyConfig {
    pub toggle_recording: String,
    pub stop_recording: String,
    pub toggle_pause: String,
    pub toggle_zoom: String,
}

impl Default for HotkeyConfig {
    /// The stock bindings.
    fn default() -> (r: HotkeyConfig)
        ensures
            r.toggle_recording@ =~= "CmdOrCtrl+Shift+R"@,
            r.stop_recording@ =~= "CmdOrCtrl+Shift+S"@,
            r.toggle_pause@ =~= "CmdOrCtrl+Shift+P"@,
            r.toggle_zoom@ =~= "CmdOrCtrl+Shift+Z"@,
    {
        let mut toggle_recording: String = String::new();
        toggle_recording.append("CmdOrCtrl+Shift+R");
        let mut stop_recording: String = String::new();
        stop_recording.append("CmdOrCtrl+Shift+S");
        let mut toggle_pause: String = String::new();
        toggle_pause.append("CmdOrCtrl+Shift+P");
        let mut toggle_zoom: String = String::new();
        toggle_zoom.append("CmdOrCtrl+Shift+Z");
        HotkeyConfig { toggle_recording, stop_recording, toggle_pause, toggle_zoom }
    }
}

} // verus!
