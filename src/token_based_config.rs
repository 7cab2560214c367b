use vstd::prelude::*;

use crate::button_types::ButtonEventType;

verus! {

/// The physical buttons of the pedal.
#[derive(Debug, Clone, Copy, PartialEq, Eq, Hash, Structural)]
pub enum PhysicalButtonName {
    Button0,
    Button1,
    Button2,
}

impl PhysicalButtonName {
    /// The key of this button in the configuration file.
    pub open spec fn spec_name(self) -> Seq<char> {
        match self {
            PhysicalButtonName::Button0 => "button_0"@,
            PhysicalButtonName::Button1 => "button_1"@,
            PhysicalButtonName::Button2 => "button_2"@,
        }
    }

    pub fn as_str(&self) -> (r: &str)
        ensures
            r@ == self.spec_name(),
    {
        match self {
            PhysicalButtonName::Button0 => "button_0",
            PhysicalButtonName::Button1 => "button_1",
            PhysicalButtonName::Button2 => "button_2",
        }
    }
}

/// Device-wide settings.
#[derive(Debug, Clone, Copy, PartialEq, Eq, Structural)]
pub struct DeviceSettings {
    pub hold_threshold_time_ms: Option<u64>,
}

/// Settings of one button.
#[derive(Debug, Clone, Copy, PartialEq, Eq, Structural)]
pub struct ButtonSettings {
    pub hold_threshold_time_ms: Option<u64>,
}

/// What the configuration holds for one button: for which events an action
/// list is present, and the button's own settings.
#[derive(Debug, Clone, Copy, PartialEq, Eq, Structural)]
pub struct ButtonProfile {
    pub has_pressed: bool,
    pub has_held: bool,
    pub has_releasing: bool,
    pub settings: Option<ButtonSettings>,
}

/// The configuration that the intent classifier consults: a profile for each
/// configured button and the device-wide settings.
#[derive(Debug, Clone, Copy, PartialEq, Eq, Structural)]
pub struct ActionConfig {
    pub button_0: Option<ButtonProfile>,
    pub button_1: Option<ButtonProfile>,
    pub button_2: Option<ButtonProfile>,
    pub settings: Option<DeviceSettings>,
}

impl ActionConfig {
    pub open spec fn spec_profile(self, button_name: PhysicalButtonName) -> Option<ButtonProfile> {
        match button_name {
            PhysicalButtonName::Button0 => self.button_0,
            PhysicalButtonName::Button1 => self.button_1,
            PhysicalButtonName::Button2 => self.button_2,
        }
    }

    /// Whether an action list is configured for `event_type` on the button.
    pub open spec fn spec_has_action(
        self,
        button_name: PhysicalButtonName,
        event_type: ButtonEventType,
    ) -> bool {
        match self.spec_profile(button_name) {
            None => false,
            Some(p) => match event_type {
                ButtonEventType::PRESSED => p.has_pressed,
                ButtonEventType::HELD => p.has_held,
                ButtonEventType::RELEASING => p.has_releasing,
            },
        }
    }

    /// The hold threshold of a button: its own setting, else the device's,
    /// else `global_default`.
    pub open spec fn spec_hold_threshold_ms(
        self,
        button_name: PhysicalButtonName,
        global_default: u64,
    ) -> u64 {
        let own = match self.spec_profile(button_name) {
            Some(p) => match p.settings {
                Some(s) => s.hold_threshold_time_ms,
                None => None,
            },
            None => None,
        };
        let device = match self.settings {
            Some(s) => s.hold_threshold_time_ms,
            None => None,
        };
        match own {
            Some(t) => t,
            None => match device {
                Some(t) => t,
                None => global_default,
            },
        }
    }

    /// The profile of a button, if it is configured.
    pub fn profile(&self, button_name: PhysicalButtonName) -> (r: Option<ButtonProfile>)
        ensures
            r == self.spec_profile(button_name),
    {
        match button_name {
            PhysicalButtonName::Button0 => self.button_0,
            PhysicalButtonName::Button1 => self.button_1,
            PhysicalButtonName::Button2 => self.button_2,
        }
    }

    /// Whether an action list is configured for `event_type` on the button.
    pub fn has_action(&self, button_name: PhysicalButtonName, event_type: ButtonEventType) -> (r:
        bool)
        ensures
            r == self.spec_has_action(button_name, event_type),
    {
        match self.profile(button_name) {
            None => false,
            Some(p) => match event_type {
                ButtonEventType::PRESSED => p.has_pressed,
                ButtonEventType::HELD => p.has_held,
                ButtonEventType::RELEASING => p.has_releasing,
            },
        }
    }

    /// Resolves the hold threshold of a button: per-button setting first,
    /// then the device-level setting, then `global_default`.
    pub fn get_hold_threshold_ms(&self, button_name: PhysicalButtonName, global_default: u64) -> (r:
        u64)
        ensures
            r == self.spec_hold_threshold_ms(button_name, global_default),
    {
        if let Some(p) = self.profile(button_name) {
            if let Some(s) = p.settings {
                if let Some(threshold) = s.hold_threshold_time_ms {
                    return threshold;
                }
            }
        }
        if let Some(s) = self.settings {
            if let Some(threshold) = s.hold_threshold_time_ms {
                return threshold;
            }
        }
        global_default
    }
}

} // verus!
