use vstd::prelude::*;

verus! {

/// Configuration for the application.
#[derive(Debug)]
pub struct AppConfig {
    pub button_count: usize,
    pub companion_signature: String,
    pub default_hold_threshold_ms: u64,
}

impl Default for AppConfig {
    fn default() -> (r: Self)
        ensures
            r.button_count == 3,
            r.companion_signature@ == "--x-elgato-pedal-companion-notification"@,
            r.default_hold_threshold_ms == 666,
    {
        AppConfig {
            button_count: 3,
            companion_signature: "--x-elgato-pedal-companion-notification".to_owned(),
            default_hold_threshold_ms: 666,
        }
    }
}

} // verus!
