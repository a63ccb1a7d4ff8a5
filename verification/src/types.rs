//! The shared configuration and the envelopes of the wire protocol.

use vstd::prelude::*;
use crate::devices::{AudioDevice, AudioFormat};
use crate::sample::{Sample, SILENCE_THRESHOLD_BITS};
use crate::whisper::{WhisperParams, WhisperToggles};
use crate::window::{RolloverPolicy, WindowSettings, DEFAULT_SEGMENT_SECS, MIN_WINDOW_SAMPLES};

verus! {

/// Milliseconds the transcription loop waits between two cycles unless
/// configured otherwise.
pub const DEFAULT_AUDIO_STEP_SIZE: u64 = 500;

/// How the overlay looks.
#[derive(Debug, PartialEq, Eq)]
pub struct OverlayConfig {
    pub name: String,
    pub id: String,
    pub text_alignment: String,
    pub background_color: String,
    pub transparency: i32,
    pub font_size: i32,
}

impl Clone for OverlayConfig {
    fn clone(&self) -> (copy: Self)
        ensures
            copy == *self,
    {
        OverlayConfig {
            name: self.name.clone(),
            id: self.id.clone(),
            text_alignment: self.text_alignment.clone(),
            background_color: self.background_color.clone(),
            transparency: self.transparency,
            font_size: self.font_size,
        }
    }
}

impl Default for OverlayConfig {
    fn default() -> (overlay: Self)
        ensures
            overlay.name@ == "default"@,
            overlay.id@ == Seq::<char>::empty(),
            overlay.text_alignment@ == "center"@,
            overlay.background_color@ == "#030712"@,
            overlay.transparency == 75,
            overlay.font_size == 16,
    {
        OverlayConfig {
            name: "default".to_owned(),
            id: String::new(),
            text_alignment: "center".to_owned(),
            background_color: "#030712".to_owned(),
            transparency: 75,
            font_size: 16,
        }
    }
}

/// The settings of the segment window beyond its duration.
#[derive(Clone, Copy, Debug, PartialEq, Eq, Structural)]
pub struct AdvancedSettings {
    /// What becomes of the window's audio when a segment is sealed.
    pub rollover_policy: RolloverPolicy,
    /// Level below which the ends of a captured block are cut away.
    pub silence_threshold: Sample,
    /// The window has to hold more samples than this for the engine to run.
    pub min_window_samples: usize,
}

impl Default for AdvancedSettings {
    fn default() -> (settings: Self)
        ensures
            settings == (AdvancedSettings {
                rollover_policy: RolloverPolicy::Discard,
                silence_threshold: Sample { bits: SILENCE_THRESHOLD_BITS },
                min_window_samples: MIN_WINDOW_SAMPLES,
            }),
    {
        AdvancedSettings {
            rollover_policy: RolloverPolicy::Discard,
            silence_threshold: Sample::silence_threshold(),
            min_window_samples: MIN_WINDOW_SAMPLES,
        }
    }
}

/// The shared configuration.
#[derive(Debug, PartialEq, Eq)]
pub struct AppState {
    pub current_device: AudioDevice,
    pub audio_format: AudioFormat,
    pub model_path: String,
    pub audio_segment_size: u64,
    pub overlay_config: OverlayConfig,
    pub whisper_params: WhisperParams,
    pub advanced_settings: AdvancedSettings,
}

impl Clone for AppState {
    fn clone(&self) -> (copy: Self)
        ensures
            copy == *self,
    {
        AppState {
            current_device: self.current_device.clone(),
            audio_format: self.audio_format.clone(),
            model_path: self.model_path.clone(),
            audio_segment_size: self.audio_segment_size,
            overlay_config: self.overlay_config.clone(),
            whisper_params: self.whisper_params.clone(),
            advanced_settings: self.advanced_settings,
        }
    }
}

impl Default for AppState {
    fn default() -> (state: Self)
        ensures
            state.current_device.name@ == "default"@,
            state.current_device.id@ == Seq::<char>::empty(),
            state.audio_format.name@ == Seq::<char>::empty(),
            state.audio_format.id@ == Seq::<char>::empty(),
            state.model_path@ == Seq::<char>::empty(),
            state.audio_segment_size == DEFAULT_SEGMENT_SECS,
            state.overlay_config.name@ == "default"@,
            state.overlay_config.id@ == Seq::<char>::empty(),
            state.overlay_config.text_alignment@ == "center"@,
            state.overlay_config.background_color@ == "#030712"@,
            state.overlay_config.transparency == 75,
            state.overlay_config.font_size == 16,
            state.whisper_params.toggles == WhisperToggles::default_spec(),
            state.whisper_params.language@ == "auto"@,
            state.advanced_settings == (AdvancedSettings {
                rollover_policy: RolloverPolicy::Discard,
                silence_threshold: Sample { bits: SILENCE_THRESHOLD_BITS },
                min_window_samples: MIN_WINDOW_SAMPLES,
            }),
    {
        AppState {
            current_device: AudioDevice::default(),
            audio_format: AudioFormat::default(),
            model_path: String::new(),
            audio_segment_size: DEFAULT_SEGMENT_SECS,
            overlay_config: OverlayConfig::default(),
            whisper_params: WhisperParams::default(),
            advanced_settings: AdvancedSettings::default(),
        }
    }
}

impl AppState {
    /// The settings of the segment window as the configuration has them:
    /// the duration of a segment, and the policy, threshold and minimum of
    /// the advanced settings.
    pub fn window_settings(&self) -> (settings: WindowSettings)
        ensures
            settings == (WindowSettings {
                segment_secs: self.audio_segment_size,
                min_samples: self.advanced_settings.min_window_samples,
                threshold: self.advanced_settings.silence_threshold,
                policy: self.advanced_settings.rollover_policy,
            }),
    {
        WindowSettings {
            segment_secs: self.audio_segment_size,
            min_samples: self.advanced_settings.min_window_samples,
            threshold: self.advanced_settings.silence_threshold,
            policy: self.advanced_settings.rollover_policy,
        }
    }
}

/// The run-state flags that travel with the configuration.
#[derive(Debug, PartialEq, Eq)]
pub struct InternalState {
    pub transcribe_running: bool,
    pub audio_step_size: u64,
    pub version: String,
    pub name: String,
}

impl Clone for InternalState {
    fn clone(&self) -> (copy: Self)
        ensures
            copy == *self,
    {
        InternalState {
            transcribe_running: self.transcribe_running,
            audio_step_size: self.audio_step_size,
            version: self.version.clone(),
            name: self.name.clone(),
        }
    }
}

impl Default for InternalState {
    fn default() -> (state: Self)
        ensures
            !state.transcribe_running,
            state.audio_step_size == DEFAULT_AUDIO_STEP_SIZE,
            state.version@ == Seq::<char>::empty(),
            state.name@ == Seq::<char>::empty(),
    {
        InternalState {
            transcribe_running: false,
            audio_step_size: DEFAULT_AUDIO_STEP_SIZE,
            version: String::new(),
            name: String::new(),
        }
    }
}

/// A request as a subscriber sends it.
#[derive(Debug, PartialEq, Eq)]
pub struct WebsocketRequest {
    pub kind: String,
    pub data: String,
}

impl Default for WebsocketRequest {
    fn default() -> (request: Self)
        ensures
            request.kind@ == Seq::<char>::empty(),
            request.data@ == Seq::<char>::empty(),
    {
        WebsocketRequest { kind: String::new(), data: String::new() }
    }
}

/// An envelope as it is sent to a subscriber.
#[derive(Debug, PartialEq, Eq)]
pub struct WebsocketResponse {
    pub kind: String,
    pub data: String,
    pub is_error: bool,
}

impl Clone for WebsocketResponse {
    fn clone(&self) -> (copy: Self)
        ensures
            copy == *self,
    {
        WebsocketResponse {
            kind: self.kind.clone(),
            data: self.data.clone(),
            is_error: self.is_error,
        }
    }
}

impl Default for WebsocketResponse {
    fn default() -> (response: Self)
        ensures
            response.kind@ == Seq::<char>::empty(),
            response.data@ == Seq::<char>::empty(),
            !response.is_error,
    {
        WebsocketResponse { kind: String::new(), data: String::new(), is_error: false }
    }
}

} // verus!
