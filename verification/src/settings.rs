//! The application's settings.

use vstd::prelude::*;
use vstd::string::StringExecFns;

verus! {

/// The model that is used when the settings name none.
pub const DEFAULT_MODEL: &'static str = "gemini-2.5-pro";

/// What the user has configured.
#[derive(Clone)]
pub struct AppSettings {
    pub watch_folder: Option<String>,
    pub model: Option<String>,
    pub code_watch_folder: Option<String>,
    pub code_review_enabled: bool,
}

impl Default for AppSettings {
    fn default() -> (r: Self)
        ensures
            r.watch_folder is None,
            r.model is None,
            r.code_watch_folder is None,
            !r.code_review_enabled,
    {
        AppSettings {
            watch_folder: None,
            model: None,
            code_watch_folder: None,
            code_review_enabled: false,
        }
    }
}

/// The model to use: the configured one, or the default.
pub fn effective_model(settings: &AppSettings) -> (r: String)
    ensures
        r@ == match settings.model {
            Some(m) => m@,
            None => DEFAULT_MODEL@,
        },
{
    match &settings.model {
        Some(m) => m.clone(),
        None => String::from_str(DEFAULT_MODEL),
    }
}

/// The settings with another model.
pub fn with_model(settings: AppSettings, model: String) -> (r: AppSettings)
    ensures
        r.model == Some(model),
        r.watch_folder == settings.watch_folder,
        r.code_watch_folder == settings.code_watch_folder,
        r.code_review_enabled == settings.code_review_enabled,
{
    AppSettings {
        watch_folder: settings.watch_folder,
        model: Some(model),
        code_watch_folder: settings.code_watch_folder,
        code_review_enabled: settings.code_review_enabled,
    }
}

} // verus!
