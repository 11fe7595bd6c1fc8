//! The renderer: one entry point that selects the JSON document, the plain
//! name list, or the aligned table, and renders an empty collection as a
//! friendly terminal state rather than an error.

use vstd::prelude::*;
use crate::json::{doc_view, render_json_array, spec_render_array, JsonObject, JsonValV};
use crate::output_options::OutputOptions;
use crate::table::{format_table, spec_table_output, TableDisplayable};
use crate::text::{chars_to_string, to_chars};

verus! {

/// The JSON view of every item in the collection.
pub open spec fn json_views<T: TableDisplayable>(items: Seq<T>, opts: OutputOptions) -> Seq<
    Seq<(Seq<char>, JsonValV)>,
> {
    items.map_values(|it: T| it.sp_json_fields(opts))
}

/// Whether the options ask for the bare name list: no JSON, no long
/// format, and no optional column at all.
pub open spec fn is_simple_mode(o: OutputOptions) -> bool {
    !o.json && !o.long_format && !o.show_id && !o.show_status && !o.show_platform
        && !o.show_location && !o.show_activity
}

/// The plain list: one display name per line, empty names silently
/// skipped.
pub open spec fn spec_simple_list<T: TableDisplayable>(items: Seq<T>) -> Seq<char>
    decreases items.len(),
{
    if items.len() == 0 {
        Seq::<char>::empty()
    } else {
        spec_simple_list(items.drop_last()) + (if items.last().sp_name().len() == 0 {
            Seq::<char>::empty()
        } else {
            items.last().sp_name() + seq!['\n']
        })
    }
}

/// The generic formatter over every displayable collection type.
pub struct GenericFormatter;

impl GenericFormatter {
    /// The collection as a JSON document, one object per item, each field
    /// present only when its toggle asks for it.
    pub fn format_json<T: TableDisplayable>(items: &Vec<T>, options: &OutputOptions) -> (r:
        String)
        ensures
            r@ == spec_render_array(json_views(items@, *options)) + seq!['\n'],
    {
        let mut objs: Vec<JsonObject> = Vec::new();
        let n = items.len();
        for i in 0..n
            invariant
                n == items@.len(),
                doc_view(objs@) =~= json_views(items@.take(i as int), *options),
        {
            let obj = items[i].to_json_object(options);
            let ghost pre = objs@;
            objs.push(obj);
            proof {
                let lhs = doc_view(objs@);
                let rhs = json_views(items@.take(i + 1), *options);
                assert(objs@.len() == pre.len() + 1);
                assert(doc_view(pre).len() == pre.len());
                assert(json_views(items@.take(i as int), *options).len() == i);
                assert(pre.len() == i);
                assert(lhs.len() == i + 1);
                assert(items@.take(i + 1).len() == i + 1);
                assert(rhs.len() == i + 1);
                assert forall|j: int| 0 <= j < lhs.len() implies lhs[j] == rhs[j] by {
                    if j < i {
                        assert(objs@[j] == pre[j]);
                        assert(doc_view(pre)[j] == json_views(items@.take(i as int), *options)[j]);
                        assert(items@.take(i as int)[j] == items@[j]);
                        assert(items@.take(i + 1)[j] == items@[j]);
                    } else {
                        assert(objs@[j] == obj);
                        assert(items@.take(i + 1)[j] == items@[i as int]);
                    }
                }
                assert(lhs =~= rhs);
            }
        }
        proof {
            assert(items@.take(n as int) =~= items@);
        }
        let body = render_json_array(&objs);
        let mut out = to_chars(body.as_str());
        out.push('\n');
        proof {
            assert(out@ =~= spec_render_array(json_views(items@, *options)) + seq!['\n']);
        }
        chars_to_string(&out)
    }

    /// The collection as a plain list of names, one per line; items with
    /// an empty name are skipped silently.
    pub fn format_simple_list<T: TableDisplayable>(items: &Vec<T>) -> (r: String)
        ensures
            r@ == spec_simple_list(items@),
    {
        let mut out: Vec<char> = Vec::new();
        let n = items.len();
        for i in 0..n
            invariant
                n == items@.len(),
                out@ =~= spec_simple_list(items@.take(i as int)),
        {
            let name = items[i].display_name();
            let ghost pre = out@;
            if !name.is_empty() {
                let mut nv = to_chars(name);
                out.append(&mut nv);
                out.push('\n');
                proof {
                    assert(out@ =~= pre + (items@[i as int].sp_name() + seq!['\n']));
                }
            }
            proof {
                assert(items@.take(i + 1).drop_last() =~= items@.take(i as int));
                assert(items@.take(i + 1).last() == items@[i as int]);
                assert(out@ =~= spec_simple_list(items@.take(i + 1)));
            }
        }
        proof {
            assert(items@.take(n as int) =~= items@);
        }
        chars_to_string(&out)
    }

    /// The collection as an aligned table.
    pub fn format_table<T: TableDisplayable>(items: &Vec<T>, options: &OutputOptions) -> (r:
        String)
        ensures
            items@.len() == 0 ==> r@ == Seq::<char>::empty(),
            items@.len() > 0 ==> spec_table_output(items@, *options, r@),
    {
        format_table(items, options)
    }

    /// Format the collection in the mode the options select.  An empty
    /// collection is never an error: it renders as `[]` under JSON and as
    /// a single human-readable line otherwise.
    pub fn format<T: TableDisplayable>(items: &Vec<T>, options: &OutputOptions) -> (r: String)
        ensures
            items@.len() == 0 && options.json ==> r@ == seq!['[', ']', '\n'],
            items@.len() == 0 && !options.json ==> r@ == "No items found."@ + seq!['\n'],
            items@.len() > 0 && options.json ==> r@ == spec_render_array(
                json_views(items@, *options),
            ) + seq!['\n'],
            items@.len() > 0 && is_simple_mode(*options) ==> r@ == spec_simple_list(items@),
            items@.len() > 0 && !options.json && !is_simple_mode(*options) ==> spec_table_output(
                items@,
                *options,
                r@,
            ),
    {
        if items.len() == 0 {
            if options.json {
                let mut out: Vec<char> = Vec::new();
                out.push('[');
                out.push(']');
                out.push('\n');
                proof {
                    assert(out@ =~= seq!['[', ']', '\n']);
                }
                return chars_to_string(&out);
            } else {
                let mut out = to_chars("No items found.");
                out.push('\n');
                proof {
                    assert(out@ =~= "No items found."@ + seq!['\n']);
                }
                return chars_to_string(&out);
            }
        }
        if options.json {
            Self::format_json(items, options)
        } else if !options.long_format && !options.show_id && !options.show_status
            && !options.show_platform && !options.show_location && !options.show_activity {
            Self::format_simple_list(items)
        } else {
            Self::format_table(items, options)
        }
    }
}

} // verus!
