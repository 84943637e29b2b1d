use vstd::prelude::*;

verus! {

/// One downloadable file of a release.
pub struct Asset {
    pub name: String,
    pub url: String,
    pub size: i64,
}

/// A tagged publication of the pack and its assets.
pub struct Release {
    pub tag_name: String,
    pub assets: Vec<Asset>,
}

/// Name of the launcher metadata file a release may carry.
pub const INSTANCE_METADATA: &'static str = "minecraftinstance.json";

/// Name of the Prism instance config file.
pub const INSTANCE_CONFIG: &'static str = "instance.cfg";

/// `i` is the first position of an asset called `name`.
pub open spec fn is_first_named(assets: Seq<Asset>, name: Seq<char>, i: int) -> bool {
    &&& 0 <= i < assets.len()
    &&& assets[i].name@ == name
    &&& forall|j: int| 0 <= j < i ==> assets[j].name@ != name
}

pub open spec fn has_named(assets: Seq<Asset>, name: Seq<char>) -> bool {
    exists|i: int| 0 <= i < assets.len() && assets[i].name@ == name
}

/// The position of the first asset whose name is exactly `name`, or `None`
/// when the release has no such asset.
pub fn find_asset(assets: &Vec<Asset>, name: &String) -> (r: Option<usize>)
    ensures
        r is None <==> !has_named(assets@, name@),
        r matches Some(i) ==> is_first_named(assets@, name@, i as int),
{
    let mut i: usize = 0;
    while i < assets.len()
        invariant
            0 <= i <= assets.len(),
            forall|j: int| 0 <= j < i ==> assets@[j].name@ != name@,
        decreases assets.len() - i,
    {
        if assets[i].name == *name {
            return Some(i);
        }
        i = i + 1;
    }
    None
}

} // verus!
