//! Result handling shared by the collection commands, and the user
//! identifier value the user commands resolve.

use vstd::prelude::*;
use crate::display_options::DisplayOptions;
use crate::formatter::{is_simple_mode, json_views, spec_simple_list, GenericFormatter};
use crate::json::spec_render_array;
use crate::table::{spec_table_output, TableDisplayable};
use crate::text::{chars_to_string, to_chars};
use crate::utils::spec_is_valid_user_id;

verus! {

/// What an empty result renders as: `[]` under JSON, the given message
/// otherwise — never an error.
pub fn handle_empty_results(display_options: &DisplayOptions, context_message: &str) -> (r:
    String)
    ensures
        display_options.json ==> r@ == seq!['[', ']', '\n'],
        !display_options.json ==> r@ == context_message@ + seq!['\n'],
{
    if display_options.json {
        let mut out: Vec<char> = Vec::new();
        out.push('[');
        out.push(']');
        out.push('\n');
        proof {
            assert(out@ =~= seq!['[', ']', '\n']);
        }
        chars_to_string(&out)
    } else {
        let mut out = to_chars(context_message);
        out.push('\n');
        chars_to_string(&out)
    }
}

/// Render a collection with the common formatter, with a caller-supplied
/// line for the empty case.
pub fn display_results<T: TableDisplayable>(
    items: &Vec<T>,
    display_options: &DisplayOptions,
    empty_message: &str,
) -> (r: String)
    ensures
        items@.len() == 0 && display_options.json ==> r@ == seq!['[', ']', '\n'],
        items@.len() == 0 && !display_options.json ==> r@ == empty_message@ + seq!['\n'],
        ({
            let opts = display_options.as_output_options();
            &&& items@.len() > 0 && opts.json ==> r@ == spec_render_array(
                json_views(items@, opts),
            ) + seq!['\n']
            &&& items@.len() > 0 && is_simple_mode(opts) ==> r@ == spec_simple_list(items@)
            &&& items@.len() > 0 && !opts.json && !is_simple_mode(opts) ==> spec_table_output(
                items@,
                opts,
                r@,
            )
        }),
{
    if items.len() == 0 {
        return handle_empty_results(display_options, empty_message);
    }
    let output_options = display_options.to_output_options();
    GenericFormatter::format(items, &output_options)
}

/// A user identifier as given on the command line, with a flag that
/// forces treating it as an id.
#[derive(Debug, Clone)]
pub struct UserIdentifier {
    pub value: String,
    pub force_as_id: bool,
}

impl UserIdentifier {
    /// Wrap a raw identifier.
    pub fn new(value: String, force_as_id: bool) -> (r: UserIdentifier)
        ensures
            r.value == value && r.force_as_id == force_as_id,
    {
        UserIdentifier { value, force_as_id }
    }

    /// Whether this identifier should be treated as a user id rather than
    /// a display name.
    pub fn is_user_id(&self) -> (r: bool)
        ensures
            r == (self.force_as_id || spec_is_valid_user_id(self.value@)),
    {
        self.force_as_id || crate::utils::is_valid_user_id(self.value.as_str())
    }
}

} // verus!
