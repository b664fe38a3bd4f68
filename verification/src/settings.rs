//! The configuration handed to the engine for one evaluation: a flat set of
//! named override values. An empty value means "no override requested".

use vstd::prelude::*;

verus! {

/// Mathematical view of the configuration.
pub struct SettingsV {
    pub controller_image: Seq<char>,
    pub agent_image: Seq<char>,
}

/// The override values for one evaluation. Both fields default to the empty
/// string, and an empty field asks for no rewrite of the matching resource.
pub struct Settings {
    pub controller_image: String,
    pub agent_image: String,
}

impl View for Settings {
    type V = SettingsV;

    open spec fn view(&self) -> SettingsV {
        SettingsV {
            controller_image: self.controller_image@,
            agent_image: self.agent_image@,
        }
    }
}

impl Default for Settings {
    /// Both overrides start out empty, which requests no rewrite at all.
    fn default() -> (s: Settings)
        ensures
            s@.controller_image.len() == 0,
            s@.agent_image.len() == 0,
    {
        Settings { controller_image: String::new(), agent_image: String::new() }
    }
}

impl Settings {
    /// Any pair of override strings is acceptable, so validation always
    /// succeeds.
    pub fn validate(&self) -> (r: Result<(), String>)
        ensures
            r is Ok,
    {
        Ok(())
    }
}

} // verus!
