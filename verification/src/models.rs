//! Records for the features that accessories report or accept.

use vstd::prelude::*;

verus! {

/// Noise-control modes, in the order of their wire values 0 to 3.
#[derive(Debug, Clone, Copy, PartialEq, Eq, Structural)]
pub enum AncMode {
    Off,
    Active,
    Transparency,
    Adaptive,
}

/// Which buds sit in an ear.
#[derive(Debug, Clone, Copy, PartialEq, Eq, Structural)]
pub enum EarDetectionState {
    Unknown,
    LeftEarIn,
    RightEarIn,
    BothEarsIn,
    BothEarsOut,
}

#[derive(Debug, Clone, Copy, PartialEq, Eq, Structural)]
pub enum ConversationAwarenessState {
    Inactive,
    Active,
    Speaking,
}

#[derive(Debug, Clone, Copy, PartialEq, Eq, Structural)]
pub struct SpatialAudioConfig {
    pub enabled: bool,
    pub head_tracking: bool,
    pub dynamic_head_tracking: bool,
}

#[derive(Debug, Clone)]
pub struct HearingAidConfig {
    pub enabled: bool,
    pub amplification_level: u8,
    pub frequency_response: Vec<u8>,
}

#[derive(Debug, Clone)]
pub struct RenameRequest {
    pub device_id: String,
    pub new_name: String,
}

#[derive(Debug, Clone)]
pub struct MultipointInfo {
    pub enabled: bool,
    pub connected_devices: Vec<String>,
    pub active_device: Option<String>,
}

#[derive(Debug, Clone, Copy, PartialEq, Eq, Structural)]
pub struct HeartRateMeasurement {
    pub bpm: u16,
    pub confidence: u8,
    pub timestamp: u64,
}

/// What a long press on the stem does.
#[derive(Debug, Clone, Copy, PartialEq, Eq, Structural)]
pub enum LongPressAction {
    Siri,
    PlayPause,
    NextTrack,
    PreviousTrack,
    VolumeUp,
    VolumeDown,
}

#[derive(Debug, Clone, Copy, PartialEq, Eq, Structural)]
pub struct CustomTransparencyConfig {
    pub enabled: bool,
    pub ambient_mix_level: u8,
    pub voice_focus: bool,
}

#[derive(Debug, Clone, Copy, PartialEq, Eq, Structural)]
pub struct HeadGestureConfig {
    pub double_tap_enabled: bool,
    pub double_tap_action: Option<LongPressAction>,
}

} // verus!
