//! World search results: the record and its display adapter, which
//! relabels the generic columns for world data.

use vstd::prelude::*;
use crate::json::{
    dec_of, fields_view, lemma_json_keys_distinct, lemma_obj_key_empty, lemma_obj_key_push,
    obj_has_key, strings_view, JsonObject, JsonValue, JsonValV,
};
use crate::table::{TableColumnNames, TableDisplayable};
use crate::text::{chars_to_string, to_chars};

verus! {

/// Options for a world search.
#[derive(Debug, Clone)]
pub struct WorldSearchOptions {
    pub query: String,
    pub limit: i32,
    pub offset: i32,
}

/// One world record, flattened for display.
pub struct WorldTableItem {
    pub id: String,
    pub name: String,
    pub author_id: String,
    pub author_name: String,
    pub capacity: i32,
    pub description: String,
    pub tags: Vec<String>,
    pub visits: i32,
    pub visits_available: bool,
    pub favorites: i32,
    pub created_at: String,
    pub updated_at: String,
}

/// The tag list joined with commas, for the tags column.
pub open spec fn spec_join_tags(tags: Seq<Seq<char>>) -> Seq<char>
    decreases tags.len(),
{
    if tags.len() == 0 {
        Seq::<char>::empty()
    } else if tags.len() == 1 {
        tags[0]
    } else {
        tags[0] + ", "@ + spec_join_tags(tags.drop_first())
    }
}

/// Join the tags with commas, executable.
fn join_tags(tags: &Vec<String>, from: usize) -> (r: Vec<char>)
    requires
        from < tags@.len(),
    ensures
        r@ == spec_join_tags(strings_view(tags@).skip(from as int)),
    decreases tags@.len() - from,
{
    let ghost items = strings_view(tags@).skip(from as int);
    proof {
        assert(items[0] == tags@[from as int]@);
        assert(items.drop_first() =~= strings_view(tags@).skip(from + 1));
    }
    let mut out = to_chars(tags[from].as_str());
    let n = tags.len();
    if from + 1 < n {
        out.push(',');
        out.push(' ');
        let ghost pre = out@;
        let mut rest = join_tags(tags, from + 1);
        out.append(&mut rest);
        proof {
            assert(", "@ =~= seq![',', ' ']) by {
                reveal_strlit(", ");
            }
            assert(out@ =~= spec_join_tags(items));
        }
    } else {
        proof {
            assert(items.len() == 1);
            assert(out@ =~= spec_join_tags(items));
        }
    }
    out
}

impl TableDisplayable for WorldTableItem {
    open spec fn sp_name(&self) -> Seq<char> {
        self.name@
    }

    open spec fn sp_id(&self) -> Option<Seq<char>> {
        Some(self.id@)
    }

    open spec fn sp_status(&self) -> Option<Seq<char>> {
        Some(self.author_name@)
    }

    open spec fn sp_platform(&self) -> Option<Seq<char>> {
        None
    }

    open spec fn sp_formatted_platform(&self) -> Option<Seq<char>> {
        Some(dec_of(self.capacity as int))
    }

    open spec fn sp_location(&self) -> Option<Seq<char>> {
        None
    }

    open spec fn sp_formatted_location(&self) -> Option<Seq<char>> {
        if self.tags@.len() == 0 {
            None
        } else {
            Some(spec_join_tags(strings_view(self.tags@)))
        }
    }

    open spec fn sp_activity(&self) -> Option<Seq<char>> {
        None
    }

    open spec fn sp_formatted_activity(&self) -> Option<Seq<char>> {
        if self.visits_available {
            Some(dec_of(self.visits as int))
        } else {
            Some("N/A"@)
        }
    }

    open spec fn sp_column_names(&self) -> TableColumnNames {
        TableColumnNames {
            name: "Name",
            id: "ID",
            status: "Author",
            platform: "Capacity",
            location: "Tags",
            activity: "Visits",
        }
    }

    open spec fn sp_json_fields(&self, o: crate::OutputOptions) -> Seq<(Seq<char>, JsonValV)> {
        let f0 = seq![
            ("name"@, JsonValV::Text(self.name@)),
            ("author_name"@, JsonValV::Text(self.author_name@)),
            ("capacity"@, JsonValV::Num(self.capacity as int)),
        ];
        let f1 = if o.show_id {
            f0.push(("id"@, JsonValV::Text(self.id@))).push(
                ("author_id"@, JsonValV::Text(self.author_id@)),
            )
        } else {
            f0
        };
        let f2 = if o.long_format {
            f1.push(("description"@, JsonValV::Text(self.description@))).push(
                ("visits"@, JsonValV::Num(self.visits as int)),
            ).push(("favorites"@, JsonValV::Num(self.favorites as int))).push(
                ("created_at"@, JsonValV::Text(self.created_at@)),
            ).push(("updated_at"@, JsonValV::Text(self.updated_at@)))
        } else {
            f1
        };
        if o.show_location {
            f2.push(("tags"@, JsonValV::TextArray(strings_view(self.tags@))))
        } else {
            f2
        }
    }

    fn display_name(&self) -> (r: &str) {
        self.name.as_str()
    }

    fn id(&self) -> (r: Option<&str>) {
        Some(self.id.as_str())
    }

    fn status(&self) -> (r: Option<String>) {
        Some(self.author_name.clone())
    }

    fn colored_status(&self) -> (r: Option<String>)
        ensures
            r matches Some(s) ==> s@ == self.author_name@,
    {
        proof {
            crate::strutil::lemma_contains_self(self.author_name@);
        }
        Some(self.author_name.clone())
    }

    fn platform(&self) -> (r: Option<&str>) {
        None
    }

    fn formatted_platform(&self) -> (r: Option<String>) {
        let d = crate::json::fmt_i64(self.capacity as i64);
        Some(chars_to_string(&d))
    }

    fn location(&self) -> (r: Option<&str>) {
        None
    }

    fn formatted_location(&self) -> (r: Option<String>) {
        if self.tags.len() == 0 {
            None
        } else {
            let joined = join_tags(&self.tags, 0);
            proof {
                assert(strings_view(self.tags@).skip(0) =~= strings_view(self.tags@));
            }
            Some(chars_to_string(&joined))
        }
    }

    fn activity(&self) -> (r: Option<&str>) {
        None
    }

    fn formatted_activity(&self) -> (r: Option<String>) {
        if self.visits_available {
            let d = crate::json::fmt_i64(self.visits as i64);
            Some(chars_to_string(&d))
        } else {
            Some("N/A".to_owned())
        }
    }

    fn column_names(&self) -> (r: TableColumnNames) {
        TableColumnNames {
            name: "Name",
            id: "ID",
            status: "Author",
            platform: "Capacity",
            location: "Tags",
            activity: "Visits",
        }
    }

    fn to_json_object(&self, options: &crate::OutputOptions) -> (r: JsonObject) {
        let o = *options;
        let mut fields: Vec<(String, JsonValue)> = Vec::new();
        fields.push(("name".to_owned(), JsonValue::Text(self.name.clone())));
        fields.push(("author_name".to_owned(), JsonValue::Text(self.author_name.clone())));
        fields.push(("capacity".to_owned(), JsonValue::Num(self.capacity as i64)));
        let ghost f0 = fields_view(fields@);
        if o.show_id {
            fields.push(("id".to_owned(), JsonValue::Text(self.id.clone())));
            fields.push(("author_id".to_owned(), JsonValue::Text(self.author_id.clone())));
        }
        let ghost f1 = fields_view(fields@);
        if o.long_format {
            fields.push(("description".to_owned(), JsonValue::Text(self.description.clone())));
            fields.push(("visits".to_owned(), JsonValue::Num(self.visits as i64)));
            fields.push(("favorites".to_owned(), JsonValue::Num(self.favorites as i64)));
            fields.push(("created_at".to_owned(), JsonValue::Text(self.created_at.clone())));
            fields.push(("updated_at".to_owned(), JsonValue::Text(self.updated_at.clone())));
        }
        let ghost f2 = fields_view(fields@);
        if o.show_location {
            fields.push(("tags".to_owned(), JsonValue::TextArray(self.tags.clone())));
        }
        proof {
            lemma_world_json_fields(*self, o, f0, f1, f2, fields_view(fields@));
        }
        JsonObject { fields }
    }
}

/// The world adapter's JSON fields are exactly the specified chain, and
/// every toggled-off key is structurally absent.
proof fn lemma_world_json_fields(
    item: WorldTableItem,
    o: crate::OutputOptions,
    f0: Seq<(Seq<char>, JsonValV)>,
    f1: Seq<(Seq<char>, JsonValV)>,
    f2: Seq<(Seq<char>, JsonValV)>,
    fin: Seq<(Seq<char>, JsonValV)>,
)
    requires
        f0 =~= seq![
            ("name"@, JsonValV::Text(item.name@)),
            ("author_name"@, JsonValV::Text(item.author_name@)),
            ("capacity"@, JsonValV::Num(item.capacity as int)),
        ],
        f1 =~= if o.show_id {
            f0.push(("id"@, JsonValV::Text(item.id@))).push(
                ("author_id"@, JsonValV::Text(item.author_id@)),
            )
        } else {
            f0
        },
        f2 =~= if o.long_format {
            f1.push(("description"@, JsonValV::Text(item.description@))).push(
                ("visits"@, JsonValV::Num(item.visits as int)),
            ).push(("favorites"@, JsonValV::Num(item.favorites as int))).push(
                ("created_at"@, JsonValV::Text(item.created_at@)),
            ).push(("updated_at"@, JsonValV::Text(item.updated_at@)))
        } else {
            f1
        },
        fin =~= if o.show_location {
            f2.push(("tags"@, JsonValV::TextArray(strings_view(item.tags@))))
        } else {
            f2
        },
    ensures
        fin == item.sp_json_fields(o),
        !o.show_id ==> !obj_has_key(fin, "id"@),
        !o.show_status ==> !obj_has_key(fin, "status"@),
        !o.show_platform ==> !obj_has_key(fin, "platform"@),
        !o.show_location ==> !obj_has_key(fin, "location"@),
        !o.show_activity ==> !obj_has_key(fin, "activity"@) && !obj_has_key(
            fin,
            "last_activity"@,
        ),
{
    assert(fin == item.sp_json_fields(o));
    lemma_json_keys_distinct();
    if !o.show_id {
        lemma_world_chain_key(item, o, f0, f1, f2, fin, "id"@);
    }
    lemma_world_chain_key(item, o, f0, f1, f2, fin, "status"@);
    lemma_world_chain_key(item, o, f0, f1, f2, fin, "platform"@);
    lemma_world_chain_key(item, o, f0, f1, f2, fin, "location"@);
    lemma_world_chain_key(item, o, f0, f1, f2, fin, "activity"@);
    lemma_world_chain_key(item, o, f0, f1, f2, fin, "last_activity"@);
}

/// A key that none of the pushes in the world chain uses (or whose push
/// is switched off) is absent from the final field list.
proof fn lemma_world_chain_key(
    item: WorldTableItem,
    o: crate::OutputOptions,
    f0: Seq<(Seq<char>, JsonValV)>,
    f1: Seq<(Seq<char>, JsonValV)>,
    f2: Seq<(Seq<char>, JsonValV)>,
    fin: Seq<(Seq<char>, JsonValV)>,
    key: Seq<char>,
)
    requires
        f0 =~= seq![
            ("name"@, JsonValV::Text(item.name@)),
            ("author_name"@, JsonValV::Text(item.author_name@)),
            ("capacity"@, JsonValV::Num(item.capacity as int)),
        ],
        f1 =~= if o.show_id {
            f0.push(("id"@, JsonValV::Text(item.id@))).push(
                ("author_id"@, JsonValV::Text(item.author_id@)),
            )
        } else {
            f0
        },
        f2 =~= if o.long_format {
            f1.push(("description"@, JsonValV::Text(item.description@))).push(
                ("visits"@, JsonValV::Num(item.visits as int)),
            ).push(("favorites"@, JsonValV::Num(item.favorites as int))).push(
                ("created_at"@, JsonValV::Text(item.created_at@)),
            ).push(("updated_at"@, JsonValV::Text(item.updated_at@)))
        } else {
            f1
        },
        fin =~= if o.show_location {
            f2.push(("tags"@, JsonValV::TextArray(strings_view(item.tags@))))
        } else {
            f2
        },
        key != "name"@,
        key != "author_name"@,
        key != "capacity"@,
        key != "author_id"@,
        key != "description"@,
        key != "visits"@,
        key != "favorites"@,
        key != "created_at"@,
        key != "updated_at"@,
        key != "tags"@,
        o.show_id ==> key != "id"@,
    ensures
        !obj_has_key(fin, key),
{
    let empty = Seq::<(Seq<char>, JsonValV)>::empty();
    lemma_obj_key_empty(key);
    let p_name = ("name"@, JsonValV::Text(item.name@));
    let p_auth = ("author_name"@, JsonValV::Text(item.author_name@));
    let p_cap = ("capacity"@, JsonValV::Num(item.capacity as int));
    lemma_obj_key_push(empty, p_name, key);
    lemma_obj_key_push(empty.push(p_name), p_auth, key);
    lemma_obj_key_push(empty.push(p_name).push(p_auth), p_cap, key);
    assert(f0 =~= empty.push(p_name).push(p_auth).push(p_cap));
    assert(!obj_has_key(f0, key));
    if o.show_id {
        lemma_obj_key_push(f0, ("id"@, JsonValV::Text(item.id@)), key);
        lemma_obj_key_push(
            f0.push(("id"@, JsonValV::Text(item.id@))),
            ("author_id"@, JsonValV::Text(item.author_id@)),
            key,
        );
    }
    assert(!obj_has_key(f1, key));
    if o.long_format {
        let g1 = f1.push(("description"@, JsonValV::Text(item.description@)));
        let g2 = g1.push(("visits"@, JsonValV::Num(item.visits as int)));
        let g3 = g2.push(("favorites"@, JsonValV::Num(item.favorites as int)));
        let g4 = g3.push(("created_at"@, JsonValV::Text(item.created_at@)));
        lemma_obj_key_push(f1, ("description"@, JsonValV::Text(item.description@)), key);
        lemma_obj_key_push(g1, ("visits"@, JsonValV::Num(item.visits as int)), key);
        lemma_obj_key_push(g2, ("favorites"@, JsonValV::Num(item.favorites as int)), key);
        lemma_obj_key_push(g3, ("created_at"@, JsonValV::Text(item.created_at@)), key);
        lemma_obj_key_push(g4, ("updated_at"@, JsonValV::Text(item.updated_at@)), key);
    }
    assert(!obj_has_key(f2, key));
    if o.show_location {
        lemma_obj_key_push(f2, ("tags"@, JsonValV::TextArray(strings_view(item.tags@))), key);
    }
}

} // verus!
