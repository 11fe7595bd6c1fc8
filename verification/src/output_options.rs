//! Generic output format options shared by every collection command.

use vstd::prelude::*;

verus! {

/// Options controlling which optional fields the renderers surface.
#[derive(Debug, Clone, Copy)]
pub struct OutputOptions {
    pub json: bool,
    pub long_format: bool,
    pub show_id: bool,
    pub show_status: bool,
    pub show_platform: bool,
    pub show_location: bool,
    pub show_activity: bool,
}

impl OutputOptions {
    /// Minimal output: names only.
    pub fn minimal() -> (r: OutputOptions)
        ensures
            !r.json && !r.long_format && !r.show_id && !r.show_status && !r.show_platform
                && !r.show_location && !r.show_activity,
    {
        OutputOptions {
            json: false,
            long_format: false,
            show_id: false,
            show_status: false,
            show_platform: false,
            show_location: false,
            show_activity: false,
        }
    }

    /// Detailed output: every column shown, as a table.
    pub fn detailed() -> (r: OutputOptions)
        ensures
            !r.json && r.long_format && r.show_id && r.show_status && r.show_platform
                && r.show_location && r.show_activity,
    {
        OutputOptions {
            json: false,
            long_format: true,
            show_id: true,
            show_status: true,
            show_platform: true,
            show_location: true,
            show_activity: true,
        }
    }

    /// JSON output with every optional field requested.
    pub fn json() -> (r: OutputOptions)
        ensures
            r.json && r.long_format && r.show_id && r.show_status && r.show_platform
                && r.show_location && r.show_activity,
    {
        OutputOptions {
            json: true,
            long_format: true,
            show_id: true,
            show_status: true,
            show_platform: true,
            show_location: true,
            show_activity: true,
        }
    }
}

} // verus!
