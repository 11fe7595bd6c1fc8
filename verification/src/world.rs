//! The world command's model: the action vocabulary, a placeholder world
//! record, and a borrowing display adapter over it.

use vstd::prelude::*;
use crate::json::{
    fields_view, lemma_json_keys_distinct, lemma_obj_key_empty, lemma_obj_key_push, obj_has_key,
    JsonObject, JsonValue, JsonValV,
};
use crate::table::{TableColumnNames, TableDisplayable};

verus! {

/// What the world command can be asked to do.
#[derive(Debug)]
pub enum WorldAction {
    List {
        limit: Option<i32>,
        long: bool,
        show_id: bool,
        show_author: bool,
        show_capacity: bool,
        show_tags: bool,
        json: bool,
        sort: String,
        reverse: bool,
    },
    Get { world_id: String },
    Search { query: String },
}

/// A bare world record, as the listing works with it.
#[derive(Debug)]
pub struct DummyWorld {
    pub id: String,
    pub name: String,
    pub author_name: String,
    pub capacity: i32,
    pub tags: Vec<String>,
}

/// A world wrapped for the renderers.
pub struct WorldTableItem<'a> {
    pub world: &'a DummyWorld,
}

impl<'a> WorldTableItem<'a> {
    /// Wrap a world record for display.
    pub fn new(world: &'a DummyWorld) -> (r: WorldTableItem<'a>)
        ensures
            r.world == world,
    {
        WorldTableItem { world }
    }
}

impl<'a> TableDisplayable for WorldTableItem<'a> {
    open spec fn sp_name(&self) -> Seq<char> {
        self.world.name@
    }

    open spec fn sp_id(&self) -> Option<Seq<char>> {
        Some(self.world.id@)
    }

    open spec fn sp_status(&self) -> Option<Seq<char>> {
        Some(self.world.author_name@)
    }

    open spec fn sp_platform(&self) -> Option<Seq<char>> {
        None
    }

    open spec fn sp_formatted_platform(&self) -> Option<Seq<char>> {
        None
    }

    open spec fn sp_location(&self) -> Option<Seq<char>> {
        None
    }

    open spec fn sp_formatted_location(&self) -> Option<Seq<char>> {
        None
    }

    open spec fn sp_activity(&self) -> Option<Seq<char>> {
        None
    }

    open spec fn sp_formatted_activity(&self) -> Option<Seq<char>> {
        None
    }

    open spec fn sp_column_names(&self) -> TableColumnNames {
        TableColumnNames {
            name: "Name",
            id: "ID",
            status: "Author",
            platform: "Capacity",
            location: "Tags",
            activity: "Visits",
        }
    }

    open spec fn sp_json_fields(&self, o: crate::OutputOptions) -> Seq<(Seq<char>, JsonValV)> {
        let f0 = seq![("display_name"@, JsonValV::Text(self.world.name@))];
        let f1 = if o.show_id {
            f0.push(("id"@, JsonValV::Text(self.world.id@)))
        } else {
            f0
        };
        if o.show_status {
            f1.push(("status"@, JsonValV::Text(self.world.author_name@)))
        } else {
            f1
        }
    }

    fn display_name(&self) -> (r: &str) {
        self.world.name.as_str()
    }

    fn id(&self) -> (r: Option<&str>) {
        Some(self.world.id.as_str())
    }

    fn status(&self) -> (r: Option<String>) {
        Some(self.world.author_name.clone())
    }

    fn colored_status(&self) -> (r: Option<String>)
        ensures
            r matches Some(s) ==> s@ == self.world.author_name@,
    {
        proof {
            crate::strutil::lemma_contains_self(self.world.author_name@);
        }
        Some(self.world.author_name.clone())
    }

    fn platform(&self) -> (r: Option<&str>) {
        None
    }

    fn formatted_platform(&self) -> (r: Option<String>) {
        None
    }

    fn location(&self) -> (r: Option<&str>) {
        None
    }

    fn formatted_location(&self) -> (r: Option<String>) {
        None
    }

    fn activity(&self) -> (r: Option<&str>) {
        None
    }

    fn formatted_activity(&self) -> (r: Option<String>) {
        None
    }

    fn column_names(&self) -> (r: TableColumnNames) {
        TableColumnNames {
            name: "Name",
            id: "ID",
            status: "Author",
            platform: "Capacity",
            location: "Tags",
            activity: "Visits",
        }
    }

    fn to_json_object(&self, options: &crate::OutputOptions) -> (r: JsonObject) {
        let o = *options;
        let mut fields: Vec<(String, JsonValue)> = Vec::new();
        fields.push(("display_name".to_owned(), JsonValue::Text(self.world.name.clone())));
        let ghost f0 = fields_view(fields@);
        if o.show_id {
            fields.push(("id".to_owned(), JsonValue::Text(self.world.id.clone())));
        }
        let ghost f1 = fields_view(fields@);
        if o.show_status {
            fields.push(("status".to_owned(), JsonValue::Text(self.world.author_name.clone())));
        }
        proof {
            lemma_dummy_world_json_fields(*self, o, f0, f1, fields_view(fields@));
        }
        JsonObject { fields }
    }
}

/// The placeholder world adapter's JSON fields are exactly the specified
/// chain, and every toggled-off key is structurally absent.
proof fn lemma_dummy_world_json_fields(
    item: WorldTableItem<'_>,
    o: crate::OutputOptions,
    f0: Seq<(Seq<char>, JsonValV)>,
    f1: Seq<(Seq<char>, JsonValV)>,
    fin: Seq<(Seq<char>, JsonValV)>,
)
    requires
        f0 =~= seq![("display_name"@, JsonValV::Text(item.world.name@))],
        f1 =~= if o.show_id {
            f0.push(("id"@, JsonValV::Text(item.world.id@)))
        } else {
            f0
        },
        fin =~= if o.show_status {
            f1.push(("status"@, JsonValV::Text(item.world.author_name@)))
        } else {
            f1
        },
    ensures
        fin == item.sp_json_fields(o),
        !o.show_id ==> !obj_has_key(fin, "id"@),
        !o.show_status ==> !obj_has_key(fin, "status"@),
        !o.show_platform ==> !obj_has_key(fin, "platform"@),
        !o.show_location ==> !obj_has_key(fin, "location"@),
        !o.show_activity ==> !obj_has_key(fin, "activity"@) && !obj_has_key(
            fin,
            "last_activity"@,
        ),
{
    assert(fin == item.sp_json_fields(o));
    lemma_json_keys_distinct();
    if !o.show_id {
        lemma_dummy_chain_key(item, o, f0, f1, fin, "id"@);
    }
    if !o.show_status {
        lemma_dummy_chain_key(item, o, f0, f1, fin, "status"@);
    }
    lemma_dummy_chain_key(item, o, f0, f1, fin, "platform"@);
    lemma_dummy_chain_key(item, o, f0, f1, fin, "location"@);
    lemma_dummy_chain_key(item, o, f0, f1, fin, "activity"@);
    lemma_dummy_chain_key(item, o, f0, f1, fin, "last_activity"@);
}

/// A key that none of the pushes in the placeholder chain uses (or whose
/// push is switched off) is absent from the final field list.
proof fn lemma_dummy_chain_key(
    item: WorldTableItem<'_>,
    o: crate::OutputOptions,
    f0: Seq<(Seq<char>, JsonValV)>,
    f1: Seq<(Seq<char>, JsonValV)>,
    fin: Seq<(Seq<char>, JsonValV)>,
    key: Seq<char>,
)
    requires
        f0 =~= seq![("display_name"@, JsonValV::Text(item.world.name@))],
        f1 =~= if o.show_id {
            f0.push(("id"@, JsonValV::Text(item.world.id@)))
        } else {
            f0
        },
        fin =~= if o.show_status {
            f1.push(("status"@, JsonValV::Text(item.world.author_name@)))
        } else {
            f1
        },
        key != "display_name"@,
        o.show_id ==> key != "id"@,
        o.show_status ==> key != "status"@,
    ensures
        !obj_has_key(fin, key),
{
    let empty = Seq::<(Seq<char>, JsonValV)>::empty();
    lemma_obj_key_empty(key);
    lemma_obj_key_push(empty, ("display_name"@, JsonValV::Text(item.world.name@)), key);
    assert(f0 =~= empty.push(("display_name"@, JsonValV::Text(item.world.name@))));
    assert(!obj_has_key(f0, key));
    if o.show_id {
        lemma_obj_key_push(f0, ("id"@, JsonValV::Text(item.world.id@)), key);
    }
    assert(!obj_has_key(f1, key));
    if o.show_status {
        lemma_obj_key_push(f1, ("status"@, JsonValV::Text(item.world.author_name@)), key);
    }
}

} // verus!
