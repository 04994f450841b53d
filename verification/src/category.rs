//! The asset categories and the descriptor for one cache entry.

use vstd::prelude::*;

verus! {

/// Coarse media type inferred from a byte signature.  `All` is a wildcard
/// used for queries spanning every concrete category and as the category of
/// the placeholder "no assets found" descriptor.
#[derive(Clone, Copy, Debug, PartialEq, Eq, Structural, Hash)]
pub enum Category {
    Music,
    Sounds,
    Images,
    Ktx,
    Rbxm,
    All,
}

/// Every category except `All`, in catalog order.
pub open spec fn concrete_categories() -> Seq<Category> {
    seq![Category::Music, Category::Sounds, Category::Images, Category::Ktx, Category::Rbxm]
}

/// The concrete categories as a vector, in catalog order.
pub fn all_concrete_categories() -> (r: Vec<Category>)
    ensures
        r@ == concrete_categories(),
{
    let mut r: Vec<Category> = Vec::new();
    r.push(Category::Music);
    r.push(Category::Sounds);
    r.push(Category::Images);
    r.push(Category::Ktx);
    r.push(Category::Rbxm);
    proof {
        assert(r@ =~= concrete_categories());
    }
    r
}

/// Mathematical value of an [`AssetInfo`].
pub struct AssetInfoV {
    pub name: Seq<char>,
    pub size: u64,
    pub last_modified: Option<u64>,
    pub from_file: bool,
    pub from_sql: bool,
    pub category: Category,
}

/// The descriptor made up for an asset that neither backend resolves:
/// info is needed anyway, so the name is taken as given and everything
/// else stays empty.
pub open spec fn spec_placeholder_info(name: Seq<char>, category: Category) -> AssetInfoV {
    AssetInfoV {
        name: name,
        size: 0,
        last_modified: None,
        from_file: false,
        from_sql: false,
        category: category,
    }
}

/// Descriptor for one cache entry.
///
/// `name` is an opaque identifier: a filesystem name for directory-backed
/// assets, a hex-encoded row id for database-backed ones.  `last_modified`
/// is seconds since the Unix epoch when known.  Exactly one of `from_file`
/// and `from_sql` is set for a real asset; the placeholder entry has
/// neither.
pub struct AssetInfo {
    pub name: String,
    pub size: u64,
    pub last_modified: Option<u64>,
    pub from_file: bool,
    pub from_sql: bool,
    pub category: Category,
}

impl View for AssetInfo {
    type V = AssetInfoV;

    open spec fn view(&self) -> AssetInfoV {
        AssetInfoV {
            name: self.name@,
            size: self.size,
            last_modified: self.last_modified,
            from_file: self.from_file,
            from_sql: self.from_sql,
            category: self.category,
        }
    }
}

impl DeepView for AssetInfo {
    type V = AssetInfoV;

    open spec fn deep_view(&self) -> AssetInfoV {
        self.view()
    }
}

impl Clone for AssetInfo {
    fn clone(&self) -> (r: Self)
        ensures
            r@ == self@,
    {
        AssetInfo {
            name: self.name.clone(),
            size: self.size,
            last_modified: self.last_modified,
            from_file: self.from_file,
            from_sql: self.from_sql,
            category: self.category,
        }
    }
}

} // verus!
