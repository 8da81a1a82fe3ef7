//! The app's errors and the messages they show.
use vstd::prelude::*;

use crate::models::strs;
use crate::scanner::{join_spec, join_strings};
use crate::text::{concat2, concat3};

verus! {

/// What went wrong with the app's settings. Each underlying error is kept
/// as its text.
#[derive(Debug)]
pub enum AppError {
    /// The settings folder could not be found.
    SettingsDirectory(String),
    /// The settings folder at `path` could not be created.
    CreateSettingsDirectory { path: String, source: String },
    /// The settings file at `path` could not be read.
    ReadSettings { path: String, source: String },
    /// The settings file at `path` is not valid JSON.
    ParseSettings { path: String, source: String },
    /// The settings file at `path` could not be written.
    WriteSettings { path: String, source: String },
    /// The settings could not be serialized.
    SerializeSettings(String),
    /// The settings name paths that cannot be used; one message each.
    InvalidSettings(Vec<String>),
}

/// The message shown for an error.
pub open spec fn app_error_message(e: AppError) -> Seq<char> {
    match e {
        AppError::SettingsDirectory(_) => "ModelHub could not find a safe location for its settings."@,
        AppError::CreateSettingsDirectory { path, .. } => "ModelHub could not create the settings folder at "@
            + path@ + "."@,
        AppError::ReadSettings { path, .. } => "ModelHub could not read settings from "@ + path@ + "."@,
        AppError::ParseSettings { path, .. } => "ModelHub settings at "@ + path@
            + " are not valid JSON. Fix or remove the file, then try again."@,
        AppError::WriteSettings { path, .. } => "ModelHub could not save settings to "@ + path@ + "."@,
        AppError::SerializeSettings(_) => "ModelHub could not prepare settings for saving."@,
        AppError::InvalidSettings(messages) => "ModelHub could not save settings because "@ + join_spec(
            strs(messages@),
            " "@,
        ),
    }
}

impl AppError {
    /// The message shown to the user for this error.
    pub fn user_message(&self) -> (r: String)
        ensures
            r@ == app_error_message(*self),
    {
        match self {
            AppError::SettingsDirectory(_) => "ModelHub could not find a safe location for its settings.".to_owned(),
            AppError::CreateSettingsDirectory { path, .. } => concat3(
                "ModelHub could not create the settings folder at ",
                path.as_str(),
                ".",
            ),
            AppError::ReadSettings { path, .. } => concat3(
                "ModelHub could not read settings from ",
                path.as_str(),
                ".",
            ),
            AppError::ParseSettings { path, .. } => concat3(
                "ModelHub settings at ",
                path.as_str(),
                " are not valid JSON. Fix or remove the file, then try again.",
            ),
            AppError::WriteSettings { path, .. } => concat3(
                "ModelHub could not save settings to ",
                path.as_str(),
                ".",
            ),
            AppError::SerializeSettings(_) => "ModelHub could not prepare settings for saving.".to_owned(),
            AppError::InvalidSettings(messages) => {
                let joined = join_strings(messages, " ");
                concat2("ModelHub could not save settings because ", joined.as_str())
            },
        }
    }
}

/// The message a command answers with for an error.
pub fn into_command_error(error: AppError) -> (r: String)
    ensures
        r@ == app_error_message(error),
{
    error.user_message()
}

} // verus!
