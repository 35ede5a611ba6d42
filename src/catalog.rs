use vstd::prelude::*;

verus! {

/// One record of the catalog: an identifier, a display name and two counts.
pub struct Pack {
    pub id: u64,
    pub name: String,
    pub role_count: u16,
    pub string_count: u16,
}

/// The mathematical value of a pack: its fields, with the name as characters.
pub struct PackView {
    pub id: u64,
    pub name: Seq<char>,
    pub role_count: u16,
    pub string_count: u16,
}

impl View for Pack {
    type V = PackView;

    open spec fn view(&self) -> PackView {
        PackView {
            id: self.id,
            name: self.name@,
            role_count: self.role_count,
            string_count: self.string_count,
        }
    }
}

pub open spec fn packs_view(v: Seq<Pack>) -> Seq<PackView> {
    v.map_values(|p: Pack| p@)
}

/// The fixed catalog, in the order in which it is served.
pub open spec fn spec_catalog() -> Seq<PackView> {
    seq![
        PackView { id: 0, name: "Bar Pack One"@, role_count: 3, string_count: 27 },
        PackView { id: 1, name: "Foo Pack Two"@, role_count: 4, string_count: 32 },
    ]
}

/// No two entries share an identifier.
pub open spec fn ids_unique(c: Seq<PackView>) -> bool {
    forall|i: int, j: int| 0 <= i < c.len() && 0 <= j < c.len() && i != j ==> c[i].id != c[j].id
}

/// Builds the fixed catalog.
pub fn pack_data() -> (r: Vec<Pack>)
    ensures
        packs_view(r@) == spec_catalog(),
        ids_unique(packs_view(r@)),
{
    let mut r: Vec<Pack> = Vec::new();
    r.push(Pack { id: 0, name: String::from_str("Bar Pack One"), role_count: 3, string_count: 27 });
    r.push(Pack { id: 1, name: String::from_str("Foo Pack Two"), role_count: 4, string_count: 32 });
    assert(packs_view(r@) =~= spec_catalog());
    r
}

} // verus!
