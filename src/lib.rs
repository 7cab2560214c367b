use vstd::prelude::*;

pub mod button_types;
pub mod token_based_config;
pub mod button_state_machine;
pub mod hold_intent_state_machine;
pub mod hold_intent_parser;
pub mod episode;
pub mod app_config;
pub mod service_manager;

verus! {

} // verus!
