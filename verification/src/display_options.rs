//! Display options shared across the collection commands, as built from
//! command-line flags.

use vstd::prelude::*;
use crate::output_options::OutputOptions;

verus! {

/// Which optional fields a command surfaces, and in what overall shape.
#[derive(Debug, Clone, Copy)]
pub struct DisplayOptions {
    pub long_format: bool,
    pub show_id: bool,
    pub show_status: bool,
    pub show_platform: bool,
    pub show_location: bool,
    pub show_activity: bool,
    pub json: bool,
}

impl DisplayOptions {
    /// The same options in the renderers' shape, as a value.
    pub open spec fn as_output_options(&self) -> OutputOptions {
        OutputOptions {
            json: self.json,
            long_format: self.long_format,
            show_id: self.show_id,
            show_status: self.show_status,
            show_platform: self.show_platform,
            show_location: self.show_location,
            show_activity: self.show_activity,
        }
    }

    /// Minimal display: names only.
    pub fn minimal() -> (r: DisplayOptions)
        ensures
            !r.long_format && !r.show_id && !r.show_status && !r.show_platform
                && !r.show_location && !r.show_activity && !r.json,
    {
        DisplayOptions {
            long_format: false,
            show_id: false,
            show_status: false,
            show_platform: false,
            show_location: false,
            show_activity: false,
            json: false,
        }
    }

    /// Detailed display: every field, as a table.
    pub fn detailed() -> (r: DisplayOptions)
        ensures
            r.long_format && r.show_id && r.show_status && r.show_platform && r.show_location
                && r.show_activity && !r.json,
    {
        DisplayOptions {
            long_format: true,
            show_id: true,
            show_status: true,
            show_platform: true,
            show_location: true,
            show_activity: true,
            json: false,
        }
    }

    /// JSON output with every optional field requested.
    pub fn json() -> (r: DisplayOptions)
        ensures
            !r.long_format && r.show_id && r.show_status && r.show_platform && r.show_location
                && r.show_activity && r.json,
    {
        DisplayOptions {
            long_format: false,
            show_id: true,
            show_status: true,
            show_platform: true,
            show_location: true,
            show_activity: true,
            json: true,
        }
    }

    /// The same options in the renderers' shape.
    pub fn to_output_options(&self) -> (r: OutputOptions)
        ensures
            r == self.as_output_options(),
    {
        OutputOptions {
            json: self.json,
            long_format: self.long_format,
            show_id: self.show_id,
            show_status: self.show_status,
            show_platform: self.show_platform,
            show_location: self.show_location,
            show_activity: self.show_activity,
        }
    }

    /// Build the options from individual command-line flags.
    pub fn from_flags(
        long_format: bool,
        show_id: bool,
        show_status: bool,
        show_platform: bool,
        show_location: bool,
        show_activity: bool,
        json: bool,
    ) -> (r: DisplayOptions)
        ensures
            r.long_format == long_format && r.show_id == show_id && r.show_status == show_status
                && r.show_platform == show_platform && r.show_location == show_location
                && r.show_activity == show_activity && r.json == json,
    {
        DisplayOptions {
            long_format,
            show_id,
            show_status,
            show_platform,
            show_location,
            show_activity,
            json,
        }
    }
}

} // verus!
