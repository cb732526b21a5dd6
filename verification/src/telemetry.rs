//! Telemetry as text: the line that stands for an event, and the choice of
//! a sink from the settings in the environment. Emitting is the caller's
//! part.

use vstd::prelude::*;
use crate::inference::{ModelKind, PlatformTarget, TelemetryEvent, TelemetryEventType};
use crate::text::{ascii_lower, is_blank, is_blank_text, text_eq, to_ascii_lowercase, trim, trimmed};

verus! {

/// An event with its three tags as text.
#[derive(Debug)]
pub struct TelemetryEnvelope {
    pub event_type: String,
    pub model: String,
    pub platform: String,
    pub duration_ms: Option<u64>,
    pub detail: Option<String>,
}

pub open spec fn event_type_text(event_type: TelemetryEventType) -> Seq<char> {
    match event_type {
        TelemetryEventType::LoadStart => "LoadStart"@,
        TelemetryEventType::LoadSuccess => "LoadSuccess"@,
        TelemetryEventType::LoadError => "LoadError"@,
        TelemetryEventType::InferenceStart => "InferenceStart"@,
        TelemetryEventType::InferenceSuccess => "InferenceSuccess"@,
        TelemetryEventType::InferenceError => "InferenceError"@,
    }
}

pub open spec fn model_tag_text(model: ModelKind) -> Seq<char> {
    match model {
        ModelKind::Auto => "Auto"@,
        ModelKind::Rmbg14 => "Rmbg14"@,
        ModelKind::Rmbg20 => "Rmbg20"@,
    }
}

pub open spec fn platform_text(platform: PlatformTarget) -> Seq<char> {
    match platform {
        PlatformTarget::Cli => "Cli"@,
        PlatformTarget::Tauri => "Tauri"@,
        PlatformTarget::Android => "Android"@,
        PlatformTarget::Ios => "Ios"@,
    }
}

/// The envelope of an event: its tags by name, the rest as it is.
pub fn envelope(event: &TelemetryEvent) -> (e: TelemetryEnvelope)
    ensures
        e.event_type@ == event_type_text(event.event_type),
        e.model@ == model_tag_text(event.model),
        e.platform@ == platform_text(event.platform),
        e.duration_ms == event.duration_ms,
        e.detail == event.detail,
{
    TelemetryEnvelope {
        event_type: match event.event_type {
            TelemetryEventType::LoadStart => "LoadStart".to_string(),
            TelemetryEventType::LoadSuccess => "LoadSuccess".to_string(),
            TelemetryEventType::LoadError => "LoadError".to_string(),
            TelemetryEventType::InferenceStart => "InferenceStart".to_string(),
            TelemetryEventType::InferenceSuccess => "InferenceSuccess".to_string(),
            TelemetryEventType::InferenceError => "InferenceError".to_string(),
        },
        model: match event.model {
            ModelKind::Auto => "Auto".to_string(),
            ModelKind::Rmbg14 => "Rmbg14".to_string(),
            ModelKind::Rmbg20 => "Rmbg20".to_string(),
        },
        platform: match event.platform {
            PlatformTarget::Cli => "Cli".to_string(),
            PlatformTarget::Tauri => "Tauri".to_string(),
            PlatformTarget::Android => "Android".to_string(),
            PlatformTarget::Ios => "Ios".to_string(),
        },
        duration_ms: event.duration_ms,
        detail: event.detail.clone(),
    }
}

/// Where events go.
#[derive(Debug)]
pub enum SinkChoice {
    Stdout,
    File(String),
    Http(String),
}

/// A setting that is set to more than white space.
pub open spec fn given(setting: Option<String>) -> bool {
    setting is Some && !is_blank_text(setting->0@)
}

/// The sink that the settings ask for: by the mode, in any ASCII case and
/// with any white space around it, standard output, a file, or an endpoint;
/// the last two only where the file or the endpoint is given. No sink where
/// the mode is not set or names none of the three.
pub fn choose_sink(mode: &Option<String>, file: &Option<String>, endpoint: &Option<String>) -> (r:
    Option<SinkChoice>)
    ensures
        match r {
            None => mode is None || {
                let name = ascii_lower(trimmed(mode->0@));
                ||| (name != "stdout"@ && name != "file"@ && name != "http"@)
                ||| (name == "file"@ && !given(*file))
                ||| (name == "http"@ && !given(*endpoint))
            },
            Some(SinkChoice::Stdout) => mode is Some && ascii_lower(trimmed(mode->0@))
                == "stdout"@,
            Some(SinkChoice::File(path)) => mode is Some && ascii_lower(trimmed(mode->0@))
                == "file"@ && given(*file) && path == file->0,
            Some(SinkChoice::Http(url)) => mode is Some && ascii_lower(trimmed(mode->0@))
                == "http"@ && given(*endpoint) && url == endpoint->0,
        },
{
    let raw: &String = match mode {
        Some(raw) => raw,
        None => {
            return None;
        },
    };
    let stripped: String = trim(raw.as_str());
    let name: String = to_ascii_lowercase(stripped.as_str());
    proof {
        reveal_strlit("stdout");
        reveal_strlit("file");
        reveal_strlit("http");
        assert("stdout"@.len() == 6 && "file"@.len() == 4 && "http"@.len() == 4);
        assert("file"@[0] != "http"@[0]);
    }
    if text_eq(name.as_str(), "stdout") {
        Some(SinkChoice::Stdout)
    } else if text_eq(name.as_str(), "file") {
        match file {
            Some(path) => {
                if is_blank(path.as_str()) {
                    None
                } else {
                    Some(SinkChoice::File(path.clone()))
                }
            },
            None => None,
        }
    } else if text_eq(name.as_str(), "http") {
        match endpoint {
            Some(url) => {
                if is_blank(url.as_str()) {
                    None
                } else {
                    Some(SinkChoice::Http(url.clone()))
                }
            },
            None => None,
        }
    } else {
        None
    }
}

} // verus!
