//! The renderer-agnostic table abstraction: a capability set every
//! presentable item implements, dynamic column widths, and the aligned
//! table renderer.

use vstd::prelude::*;
use vstd::math::{max, min};
use crate::json::{JsonObject, JsonValV, obj_has_key};
use crate::strutil::{contains_seq, esc_free};
use crate::text::{
    chars_to_string, make_spaces, spec_format_text_with_width, spec_pad_to_width, spec_spaces,
    format_chars_with_width, measure_upto, text_width, to_chars, width_capped,
};
use crate::OutputOptions;

verus! {

/// The header labels of the six columns.
#[derive(Debug, Clone)]
pub struct TableColumnNames {
    pub name: &'static str,
    pub id: &'static str,
    pub status: &'static str,
    pub platform: &'static str,
    pub location: &'static str,
    pub activity: &'static str,
}

impl Default for TableColumnNames {
    /// The standard labels.
    fn default() -> (r: TableColumnNames)
        ensures
            r.name@ == "Name"@ && r.id@ == "ID"@ && r.status@ == "Status"@ && r.platform@
                == "Platform"@ && r.location@ == "Location"@ && r.activity@ == "Activity"@,
    {
        TableColumnNames {
            name: "Name",
            id: "ID",
            status: "Status",
            platform: "Platform",
            location: "Location",
            activity: "Activity",
        }
    }
}

/// An item that the list, table and JSON renderers can all display.  Each
/// capability has a specification-level projection and an executable
/// accessor pinned to it; the JSON view promises structural omission of
/// every field whose toggle is off.
pub trait TableDisplayable: Sized {
    /// The display name.
    spec fn sp_name(&self) -> Seq<char>;

    /// The id, when the item has one to show.
    spec fn sp_id(&self) -> Option<Seq<char>>;

    /// The plain status text, when the item has one.
    spec fn sp_status(&self) -> Option<Seq<char>>;

    /// The raw platform tag, when the item has one.
    spec fn sp_platform(&self) -> Option<Seq<char>>;

    /// The human-friendly platform text, when the item has one.
    spec fn sp_formatted_platform(&self) -> Option<Seq<char>>;

    /// The raw location, when the item has one.
    spec fn sp_location(&self) -> Option<Seq<char>>;

    /// The formatted location, when the item has one.
    spec fn sp_formatted_location(&self) -> Option<Seq<char>>;

    /// The raw activity text, when the item has one.
    spec fn sp_activity(&self) -> Option<Seq<char>>;

    /// The formatted activity text, when the item has one.
    spec fn sp_formatted_activity(&self) -> Option<Seq<char>>;

    /// The column labels this item's table uses.
    spec fn sp_column_names(&self) -> TableColumnNames;

    /// The JSON fields this item contributes under the given options.
    spec fn sp_json_fields(&self, options: OutputOptions) -> Seq<(Seq<char>, JsonValV)>;

    fn display_name(&self) -> (r: &str)
        ensures
            r@ == self.sp_name(),
    ;

    fn id(&self) -> (r: Option<&str>)
        ensures
            match r {
                Some(s) => self.sp_id() == Some(s@),
                None => self.sp_id() is None,
            },
    ;

    fn status(&self) -> (r: Option<String>)
        ensures
            match r {
                Some(s) => self.sp_status() == Some(s@),
                None => self.sp_status() is None,
            },
    ;

    /// The status as shown in a terminal: possibly coloured.  It is
    /// present exactly when a status is, and whenever the plain status
    /// text is free of the terminal escape character, that text occurs in
    /// the coloured one (the exact escape codes depend on the
    /// environment).
    fn colored_status(&self) -> (r: Option<String>)
        ensures
            r is Some <==> self.sp_status() is Some,
            r matches Some(s) ==> (self.sp_status() matches Some(p) && (esc_free(p)
                ==> contains_seq(s@, p))),
    ;

    fn platform(&self) -> (r: Option<&str>)
        ensures
            match r {
                Some(s) => self.sp_platform() == Some(s@),
                None => self.sp_platform() is None,
            },
    ;

    fn formatted_platform(&self) -> (r: Option<String>)
        ensures
            match r {
                Some(s) => self.sp_formatted_platform() == Some(s@),
                None => self.sp_formatted_platform() is None,
            },
    ;

    fn location(&self) -> (r: Option<&str>)
        ensures
            match r {
                Some(s) => self.sp_location() == Some(s@),
                None => self.sp_location() is None,
            },
    ;

    fn formatted_location(&self) -> (r: Option<String>)
        ensures
            match r {
                Some(s) => self.sp_formatted_location() == Some(s@),
                None => self.sp_formatted_location() is None,
            },
    ;

    fn activity(&self) -> (r: Option<&str>)
        ensures
            match r {
                Some(s) => self.sp_activity() == Some(s@),
                None => self.sp_activity() is None,
            },
    ;

    fn formatted_activity(&self) -> (r: Option<String>)
        ensures
            match r {
                Some(s) => self.sp_formatted_activity() == Some(s@),
                None => self.sp_formatted_activity() is None,
            },
    ;

    fn column_names(&self) -> (r: TableColumnNames)
        ensures
            r == self.sp_column_names(),
    ;

    /// The item as one JSON object.  A field whose toggle is off is absent
    /// from the object altogether, never present with a null value.
    fn to_json_object(&self, options: &OutputOptions) -> (r: JsonObject)
        ensures
            r@ == self.sp_json_fields(*options),
            !options.show_id ==> !obj_has_key(r@, "id"@),
            !options.show_status ==> !obj_has_key(r@, "status"@),
            !options.show_platform ==> !obj_has_key(r@, "platform"@),
            !options.show_location ==> !obj_has_key(r@, "location"@),
            !options.show_activity ==> !obj_has_key(r@, "activity"@) && !obj_has_key(
                r@,
                "last_activity"@,
            ),
    ;
}

/// Dynamic column widths for the table, in display columns.
#[derive(Debug, Clone)]
pub struct ColumnWidths {
    pub name: usize,
    pub id: usize,
    pub status: usize,
    pub platform: usize,
    pub location: usize,
}

/// The widest cell of a column, over optional cell texts, never below the
/// column's base width.
pub open spec fn fold_opt_width(cells: Seq<Option<Seq<char>>>, base: nat) -> int
    decreases cells.len(),
{
    if cells.len() == 0 {
        base as int
    } else {
        let rest = fold_opt_width(cells.drop_last(), base);
        match cells.last() {
            Some(s) => max(rest, text_width(s) as int),
            None => rest,
        }
    }
}

/// The fold never drops below its base.
pub proof fn lemma_fold_opt_width_at_least(cells: Seq<Option<Seq<char>>>, base: nat)
    ensures
        fold_opt_width(cells, base) >= base,
    decreases cells.len(),
{
    if cells.len() > 0 {
        lemma_fold_opt_width_at_least(cells.drop_last(), base);
    }
}

/// The name cell of each item.
pub open spec fn name_cells<T: TableDisplayable>(items: Seq<T>) -> Seq<Option<Seq<char>>> {
    items.map_values(|it: T| Some(it.sp_name()))
}

/// The id cell of each item.
pub open spec fn id_cells<T: TableDisplayable>(items: Seq<T>) -> Seq<Option<Seq<char>>> {
    items.map_values(|it: T| it.sp_id())
}

/// The status cell of each item.
pub open spec fn status_cells<T: TableDisplayable>(items: Seq<T>) -> Seq<Option<Seq<char>>> {
    items.map_values(|it: T| it.sp_status())
}

/// The platform cell of each item.
pub open spec fn platform_cells<T: TableDisplayable>(items: Seq<T>) -> Seq<Option<Seq<char>>> {
    items.map_values(|it: T| it.sp_formatted_platform())
}

/// The location cell of each item: the formatted location when there is
/// one, else the raw location.
pub open spec fn location_cells<T: TableDisplayable>(items: Seq<T>) -> Seq<Option<Seq<char>>> {
    items.map_values(
        |it: T|
            match it.sp_formatted_location() {
                Some(s) => Some(s),
                None => it.sp_location(),
            },
    )
}

/// A column's final width: the widest cell (or the base), plus two columns
/// of padding, clamped to the column's maximum.
pub open spec fn col_width(cells: Seq<Option<Seq<char>>>, base: nat, cap: nat) -> int {
    min(fold_opt_width(cells, base) + 2, cap as int)
}

impl ColumnWidths {
    /// The base widths: just enough for the standard header labels.
    pub fn new() -> (r: ColumnWidths)
        ensures
            r.name == 4 && r.id == 2 && r.status == 6 && r.platform == 8 && r.location == 8,
    {
        ColumnWidths { name: 4, id: 2, status: 6, platform: 8, location: 8 }
    }

    /// Measure every visible cell and clamp each column to its maximum.
    pub fn calculate_from_data<T: TableDisplayable>(items: &Vec<T>) -> (r: ColumnWidths)
        ensures
            r.name as int == col_width(name_cells(items@), 4, 30),
            r.id as int == col_width(id_cells(items@), 2, 35),
            r.status as int == col_width(status_cells(items@), 6, 15),
            r.platform as int == col_width(platform_cells(items@), 8, 15),
            r.location as int == col_width(location_cells(items@), 8, 40),
    {
        let mut name_w: usize = 4;
        let mut id_w: usize = 2;
        let mut status_w: usize = 6;
        let mut platform_w: usize = 8;
        let mut location_w: usize = 8;
        let n = items.len();
        for i in 0..n
            invariant
                n == items@.len(),
                name_w as int == min(fold_opt_width(name_cells(items@.take(i as int)), 4), 28),
                id_w as int == min(fold_opt_width(id_cells(items@.take(i as int)), 2), 33),
                status_w as int == min(fold_opt_width(status_cells(items@.take(i as int)), 6), 13),
                platform_w as int == min(
                    fold_opt_width(platform_cells(items@.take(i as int)), 8),
                    13,
                ),
                location_w as int == min(
                    fold_opt_width(location_cells(items@.take(i as int)), 8),
                    38,
                ),
        {
            let item = &items[i];
            proof {
                lemma_cells_take_step(items@, i as int);
            }
            let nv = to_chars(item.display_name());
            let nw = width_capped(&nv, 28);
            if nw > name_w {
                name_w = nw;
            }
            match item.id() {
                Some(id) => {
                    let v = to_chars(id);
                    let w = width_capped(&v, 33);
                    if w > id_w {
                        id_w = w;
                    }
                },
                None => (),
            }
            match item.status() {
                Some(st) => {
                    let v = to_chars(st.as_str());
                    let w = width_capped(&v, 13);
                    if w > status_w {
                        status_w = w;
                    }
                },
                None => (),
            }
            match item.formatted_platform() {
                Some(p) => {
                    let v = to_chars(p.as_str());
                    let w = width_capped(&v, 13);
                    if w > platform_w {
                        platform_w = w;
                    }
                },
                None => (),
            }
            let loc: Option<String> = match item.formatted_location() {
                Some(l) => Some(l),
                None => match item.location() {
                    Some(l) => Some(l.to_owned()),
                    None => None,
                },
            };
            match loc {
                Some(l) => {
                    let v = to_chars(l.as_str());
                    let w = width_capped(&v, 38);
                    if w > location_w {
                        location_w = w;
                    }
                },
                None => (),
            }
        }
        proof {
            assert(items@.take(n as int) =~= items@);
        }
        ColumnWidths {
            name: name_w + 2,
            id: id_w + 2,
            status: status_w + 2,
            platform: platform_w + 2,
            location: location_w + 2,
        }
    }
}

/// Taking one more item extends each cell column by that item's cell.
proof fn lemma_cells_take_step<T: TableDisplayable>(items: Seq<T>, i: int)
    requires
        0 <= i < items.len(),
    ensures
        name_cells(items.take(i + 1)).drop_last() =~= name_cells(items.take(i)),
        name_cells(items.take(i + 1)).last() == Some(items[i].sp_name()),
        id_cells(items.take(i + 1)).drop_last() =~= id_cells(items.take(i)),
        id_cells(items.take(i + 1)).last() == items[i].sp_id(),
        status_cells(items.take(i + 1)).drop_last() =~= status_cells(items.take(i)),
        status_cells(items.take(i + 1)).last() == items[i].sp_status(),
        platform_cells(items.take(i + 1)).drop_last() =~= platform_cells(items.take(i)),
        platform_cells(items.take(i + 1)).last() == items[i].sp_formatted_platform(),
        location_cells(items.take(i + 1)).drop_last() =~= location_cells(items.take(i)),
        location_cells(items.take(i + 1)).last() == match items[i].sp_formatted_location() {
            Some(s) => Some(s),
            None => items[i].sp_location(),
        },
{
}

/// Coloured text padded out to the column width measured on its plain
/// twin: escape codes take no columns, so the plain text's width decides
/// the padding.  Plain text wider than the column falls back to the
/// ellipsis-truncated plain rendering, keeping the column width exact
/// rather than overflowing (truncating inside escape codes would corrupt
/// them).
pub open spec fn spec_format_colored(colored: Seq<char>, plain: Seq<char>, width: nat) -> Seq<
    char,
> {
    if text_width(plain) <= width {
        colored + spec_spaces((width - text_width(plain)) as nat)
    } else {
        spec_format_text_with_width(plain, width)
    }
}

/// Pad coloured text to a column width computed from the matching plain
/// text; over-wide text is rendered plain and truncated to the exact
/// width.
pub fn format_colored_text_with_width(colored: &str, plain: &str, width: usize) -> (r: String)
    ensures
        r@ == spec_format_colored(colored@, plain@, width as nat),
{
    let pv = to_chars(plain);
    let (fits, dw) = measure_upto(&pv, width);
    if fits {
        let mut out = to_chars(colored);
        let ghost pre = out@;
        let mut pad = make_spaces(width - dw);
        out.append(&mut pad);
        proof {
            assert(out@ =~= pre + spec_spaces((width - dw) as nat));
        }
        chars_to_string(&out)
    } else {
        let out = format_chars_with_width(&pv, width);
        chars_to_string(&out)
    }
}

/// The name cell of one row.
pub open spec fn spec_name_cell<T: TableDisplayable>(item: T, w: ColumnWidths) -> Seq<char> {
    spec_format_text_with_width(item.sp_name(), w.name as nat)
}

/// The id cell of one row.
pub open spec fn spec_id_cell<T: TableDisplayable>(
    item: T,
    w: ColumnWidths,
    opts: OutputOptions,
) -> Seq<char> {
    if opts.show_id {
        match item.sp_id() {
            Some(s) => spec_format_text_with_width(s, w.id as nat),
            None => spec_spaces(w.id as nat),
        }
    } else {
        Seq::<char>::empty()
    }
}

/// The status cell of one row, built around the coloured status text.
pub open spec fn spec_status_cell<T: TableDisplayable>(
    item: T,
    colored: Seq<char>,
    w: ColumnWidths,
    opts: OutputOptions,
) -> Seq<char> {
    if opts.show_status {
        match item.sp_status() {
            Some(p) => spec_format_colored(colored, p, w.status as nat),
            None => spec_spaces(w.status as nat),
        }
    } else {
        Seq::<char>::empty()
    }
}

/// The platform cell of one row.
pub open spec fn spec_platform_cell<T: TableDisplayable>(
    item: T,
    w: ColumnWidths,
    opts: OutputOptions,
) -> Seq<char> {
    if opts.show_platform {
        match item.sp_formatted_platform() {
            Some(s) => spec_format_text_with_width(s, w.platform as nat),
            None => spec_spaces(w.platform as nat),
        }
    } else {
        Seq::<char>::empty()
    }
}

/// The location cell of one row: the formatted location wins over the raw
/// one.
pub open spec fn spec_location_cell<T: TableDisplayable>(
    item: T,
    w: ColumnWidths,
    opts: OutputOptions,
) -> Seq<char> {
    if opts.show_location {
        match item.sp_formatted_location() {
            Some(s) => spec_format_text_with_width(s, w.location as nat),
            None => match item.sp_location() {
                Some(s) => spec_format_text_with_width(s, w.location as nat),
                None => spec_spaces(w.location as nat),
            },
        }
    } else {
        Seq::<char>::empty()
    }
}

/// The activity cell of one row: the last column, never width-constrained.
pub open spec fn spec_activity_cell<T: TableDisplayable>(item: T, opts: OutputOptions) -> Seq<
    char,
> {
    if opts.show_activity {
        match item.sp_formatted_activity() {
            Some(s) => s,
            None => match item.sp_activity() {
                Some(s) => s,
                None => Seq::<char>::empty(),
            },
        }
    } else {
        Seq::<char>::empty()
    }
}

/// One rendered table row, given the coloured status text used for the
/// status column.
pub open spec fn spec_row<T: TableDisplayable>(
    item: T,
    colored: Seq<char>,
    w: ColumnWidths,
    opts: OutputOptions,
) -> Seq<char> {
    spec_name_cell(item, w) + spec_id_cell(item, w, opts) + spec_status_cell(
        item,
        colored,
        w,
        opts,
    ) + spec_platform_cell(item, w, opts) + spec_location_cell(item, w, opts)
        + spec_activity_cell(item, opts) + seq!['\n']
}

/// The header line: each visible column's label padded to its width, the
/// activity label printed bare as the last column.
pub open spec fn spec_header(
    names: TableColumnNames,
    w: ColumnWidths,
    opts: OutputOptions,
) -> Seq<char> {
    spec_pad_to_width(names.name@, w.name as nat) + (if opts.show_id {
        spec_pad_to_width(names.id@, w.id as nat)
    } else {
        Seq::<char>::empty()
    }) + (if opts.show_status {
        spec_pad_to_width(names.status@, w.status as nat)
    } else {
        Seq::<char>::empty()
    }) + (if opts.show_platform {
        spec_pad_to_width(names.platform@, w.platform as nat)
    } else {
        Seq::<char>::empty()
    }) + (if opts.show_location {
        spec_pad_to_width(names.location@, w.location as nat)
    } else {
        Seq::<char>::empty()
    }) + (if opts.show_activity {
        names.activity@
    } else {
        Seq::<char>::empty()
    }) + seq!['\n']
}

/// All rendered rows, in item order.
pub open spec fn spec_rows<T: TableDisplayable>(
    items: Seq<T>,
    colored: Seq<Seq<char>>,
    w: ColumnWidths,
    opts: OutputOptions,
) -> Seq<char>
    decreases items.len(),
{
    if items.len() == 0 {
        Seq::<char>::empty()
    } else {
        spec_rows(items.drop_last(), colored.drop_last(), w, opts) + spec_row(
            items.last(),
            colored.last(),
            w,
            opts,
        )
    }
}

/// The whole table: the header, then one line per item, each fixed-width
/// column aligned to the widths computed from the data.
pub open spec fn spec_format_table<T: TableDisplayable>(
    items: Seq<T>,
    colored: Seq<Seq<char>>,
    w: ColumnWidths,
    opts: OutputOptions,
) -> Seq<char> {
    if items.len() == 0 {
        Seq::<char>::empty()
    } else {
        spec_header(items[0].sp_column_names(), w, opts) + spec_rows(items, colored, w, opts)
    }
}

/// The computed widths the table uses for these items.
pub open spec fn spec_table_widths<T: TableDisplayable>(items: Seq<T>) -> ColumnWidths {
    ColumnWidths {
        name: col_width(name_cells(items), 4, 30) as usize,
        id: col_width(id_cells(items), 2, 35) as usize,
        status: col_width(status_cells(items), 6, 15) as usize,
        platform: col_width(platform_cells(items), 8, 15) as usize,
        location: col_width(location_cells(items), 8, 40) as usize,
    }
}

/// What is known of the coloured status texts a table embeds: wherever a
/// status is shown and its plain text is escape-free, the plain text
/// occurs in the coloured cell text.
pub open spec fn colored_statuses_ok<T: TableDisplayable>(
    items: Seq<T>,
    colored: Seq<Seq<char>>,
    opts: OutputOptions,
) -> bool {
    forall|i: int|
        0 <= i < items.len() && opts.show_status ==> (match items[i].sp_status() {
            Some(p) => esc_free(p) ==> contains_seq(#[trigger] colored[i], p),
            None => true,
        })
}

/// The table renderer's whole promise: the output is the table built from
/// the items at the computed widths, for some choice of coloured status
/// texts, each containing its plain status text whenever that text is
/// escape-free.
pub open spec fn spec_table_output<T: TableDisplayable>(
    items: Seq<T>,
    opts: OutputOptions,
    out: Seq<char>,
) -> bool {
    exists|colored: Seq<Seq<char>>|
        colored.len() == items.len() && colored_statuses_ok(items, colored, opts) && out
            == #[trigger] spec_format_table(items, colored, spec_table_widths(items), opts)
}

/// Every column is wide enough that padding and truncation land on the
/// exact width (see `text::lemma_format_text_width_exact`).
pub proof fn lemma_table_widths_at_least<T: TableDisplayable>(items: Seq<T>)
    ensures
        spec_table_widths(items).name >= 6,
        spec_table_widths(items).id >= 4,
        spec_table_widths(items).status >= 8,
        spec_table_widths(items).platform >= 10,
        spec_table_widths(items).location >= 10,
{
    lemma_fold_opt_width_at_least(name_cells(items), 4);
    lemma_fold_opt_width_at_least(id_cells(items), 2);
    lemma_fold_opt_width_at_least(status_cells(items), 6);
    lemma_fold_opt_width_at_least(platform_cells(items), 8);
    lemma_fold_opt_width_at_least(location_cells(items), 8);
}

/// Render one row for the table: the row text, and (as ghost information)
/// the coloured status text it embeds.
fn render_row<T: TableDisplayable>(
    item: &T,
    widths: &ColumnWidths,
    options: &OutputOptions,
) -> (r: (Vec<char>, Ghost<Seq<char>>))
    ensures
        r.0@ == spec_row(*item, r.1@, *widths, *options),
        options.show_status ==> (match item.sp_status() {
            Some(p) => esc_free(p) ==> contains_seq(r.1@, p),
            None => true,
        }),
{
    let ghost w = *widths;
    let ghost opts = *options;
    let mut out: Vec<char> = Vec::new();
    // name column
    let nv = to_chars(item.display_name());
    let mut cell = format_chars_with_width(&nv, widths.name);
    out.append(&mut cell);
    proof {
        assert(out@ =~= spec_name_cell(*item, w));
    }
    let ghost done1 = spec_name_cell(*item, w);
    // id column
    if options.show_id {
        match item.id() {
            Some(id) => {
                let v = to_chars(id);
                let mut cell = format_chars_with_width(&v, widths.id);
                out.append(&mut cell);
            },
            None => {
                let mut cell = make_spaces(widths.id);
                out.append(&mut cell);
            },
        }
    }
    proof {
        assert(out@ =~= done1 + spec_id_cell(*item, w, opts));
    }
    let ghost done2 = done1 + spec_id_cell(*item, w, opts);
    // status column, coloured for the terminal
    let ghost mut this_colored: Seq<char> = Seq::empty();
    if options.show_status {
        match item.colored_status() {
            Some(colored) => {
                let plain = match item.status() {
                    Some(p) => p,
                    None => String::new(),
                };
                let cell_s = format_colored_text_with_width(
                    colored.as_str(),
                    plain.as_str(),
                    widths.status,
                );
                let mut cell = to_chars(cell_s.as_str());
                out.append(&mut cell);
                proof {
                    this_colored = colored@;
                }
            },
            None => {
                let mut cell = make_spaces(widths.status);
                out.append(&mut cell);
            },
        }
    }
    proof {
        assert(out@ =~= done2 + spec_status_cell(*item, this_colored, w, opts));
    }
    let ghost done3 = done2 + spec_status_cell(*item, this_colored, w, opts);
    // platform column
    if options.show_platform {
        match item.formatted_platform() {
            Some(p) => {
                let v = to_chars(p.as_str());
                let mut cell = format_chars_with_width(&v, widths.platform);
                out.append(&mut cell);
            },
            None => {
                let mut cell = make_spaces(widths.platform);
                out.append(&mut cell);
            },
        }
    }
    proof {
        assert(out@ =~= done3 + spec_platform_cell(*item, w, opts));
    }
    let ghost done4 = done3 + spec_platform_cell(*item, w, opts);
    // location column
    if options.show_location {
        let loc: Option<String> = match item.formatted_location() {
            Some(l) => Some(l),
            None => match item.location() {
                Some(l) => Some(l.to_owned()),
                None => None,
            },
        };
        match loc {
            Some(l) => {
                let v = to_chars(l.as_str());
                let mut cell = format_chars_with_width(&v, widths.location);
                out.append(&mut cell);
            },
            None => {
                let mut cell = make_spaces(widths.location);
                out.append(&mut cell);
            },
        }
    }
    proof {
        assert(out@ =~= done4 + spec_location_cell(*item, w, opts));
    }
    let ghost done5 = done4 + spec_location_cell(*item, w, opts);
    // activity column: the last one, printed at its natural length
    if options.show_activity {
        let act: Option<String> = match item.formatted_activity() {
            Some(a) => Some(a),
            None => match item.activity() {
                Some(a) => Some(a.to_owned()),
                None => None,
            },
        };
        match act {
            Some(a) => {
                let mut cell = to_chars(a.as_str());
                out.append(&mut cell);
            },
            None => (),
        }
    }
    proof {
        assert(out@ =~= done5 + spec_activity_cell(*item, opts));
    }
    out.push('\n');
    proof {
        assert(out@ =~= spec_row(*item, this_colored, w, opts));
    }
    (out, Ghost(this_colored))
}

/// Render the table for a collection of displayable items.  An empty
/// collection renders as the empty string; otherwise the result is the
/// header plus one line per item, for some choice of coloured status
/// texts, each containing its plain status (the escape codes around it
/// depend on the terminal environment).
pub fn format_table<T: TableDisplayable>(items: &Vec<T>, options: &OutputOptions) -> (r: String)
    ensures
        items@.len() == 0 ==> r@ == Seq::<char>::empty(),
        items@.len() > 0 ==> spec_table_output(items@, *options, r@),
{
    if items.len() == 0 {
        let empty_chars: Vec<char> = Vec::new();
        return chars_to_string(&empty_chars);
    }
    let widths = ColumnWidths::calculate_from_data(items);
    let ghost w = spec_table_widths(items@);
    proof {
        assert(widths == w);
    }
    let names = items[0].column_names();
    let mut out: Vec<char> = Vec::new();
    // header
    let mut cell = to_chars(crate::text::pad_to_width(names.name, widths.name).as_str());
    out.append(&mut cell);
    if options.show_id {
        let mut cell = to_chars(crate::text::pad_to_width(names.id, widths.id).as_str());
        out.append(&mut cell);
    }
    if options.show_status {
        let mut cell = to_chars(crate::text::pad_to_width(names.status, widths.status).as_str());
        out.append(&mut cell);
    }
    if options.show_platform {
        let mut cell = to_chars(
            crate::text::pad_to_width(names.platform, widths.platform).as_str(),
        );
        out.append(&mut cell);
    }
    if options.show_location {
        let mut cell = to_chars(
            crate::text::pad_to_width(names.location, widths.location).as_str(),
        );
        out.append(&mut cell);
    }
    if options.show_activity {
        let mut cell = to_chars(names.activity);
        out.append(&mut cell);
    }
    out.push('\n');
    proof {
        assert(out@ =~= spec_header(items@[0].sp_column_names(), w, *options));
    }
    let ghost header = out@;
    let ghost mut colored_seq: Seq<Seq<char>> = Seq::empty();
    let n = items.len();
    for i in 0..n
        invariant
            n == items@.len(),
            n > 0,
            widths == w,
            colored_seq.len() == i,
            out@ == header + spec_rows(items@.take(i as int), colored_seq, w, *options),
            colored_statuses_ok(items@.take(i as int), colored_seq, *options),
            header == spec_header(items@[0].sp_column_names(), w, *options),
    {
        let (mut row, colored) = render_row(&items[i], &widths, options);
        let ghost row_start = out@;
        out.append(&mut row);
        proof {
            let cs_old = colored_seq;
            colored_seq = colored_seq.push(colored@);
            assert(items@.take(i + 1).drop_last() =~= items@.take(i as int));
            assert(items@.take(i + 1).last() == items@[i as int]);
            assert(colored_seq.drop_last() =~= cs_old);
            assert(colored_seq.last() == colored@);
            assert(spec_rows(items@.take(i + 1), colored_seq, w, *options) == spec_rows(
                items@.take(i as int),
                cs_old,
                w,
                *options,
            ) + spec_row(items@[i as int], colored@, w, *options));
            assert(out@ =~= header + spec_rows(items@.take(i + 1), colored_seq, w, *options));
            assert(colored_statuses_ok(items@.take(i + 1), colored_seq, *options)) by {
                assert forall|j: int|
                    0 <= j < items@.take(i + 1).len() && options.show_status implies (
                match items@.take(i + 1)[j].sp_status() {
                    Some(p) => esc_free(p) ==> contains_seq(#[trigger] colored_seq[j], p),
                    None => true,
                }) by {
                    if j < i {
                        assert(colored_seq[j] == cs_old[j]);
                        assert(items@.take(i + 1)[j] == items@.take(i as int)[j]);
                    } else {
                        assert(colored_seq[j] == colored@);
                        assert(items@.take(i + 1)[j] == items@[i as int]);
                    }
                }
            }
        }
    }
    proof {
        assert(items@.take(n as int) =~= items@);
        assert(out@ =~= spec_format_table(items@, colored_seq, w, *options));
        assert(spec_table_output(items@, *options, out@));
    }
    chars_to_string(&out)
}

} // verus!
