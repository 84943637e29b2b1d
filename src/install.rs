use vstd::prelude::*;
use vstd::string::StringExecFns;
use crate::error::{EnvVar, UpdateError};
use crate::launcher::{
    instance_name, instance_name_of, join, join_path, spec_staging_dir, staging_dir, staging_file,
    EnvValues, InstallMethod, Launcher,
};
use crate::release::{find_asset, has_named, is_first_named, Release, INSTANCE_CONFIG, INSTANCE_METADATA};

verus! {

/// One entry of a directory listing.
pub struct DirEntryInfo {
    pub path: String,
    pub is_dir: bool,
}

/// What to delete to empty a directory.
#[derive(Debug, PartialEq, Eq)]
pub enum Removal {
    /// A subdirectory, removed with everything below it.
    Dir(String),
    /// A file.
    File(String),
}

impl Removal {
    pub open spec fn path_of(self) -> Seq<char> {
        match self {
            Removal::Dir(p) => p@,
            Removal::File(p) => p@,
        }
    }
}

/// `plan` removes each listed entry in turn, as a directory where it is one.
pub open spec fn removes_all(entries: Seq<DirEntryInfo>, plan: Seq<Removal>) -> bool {
    &&& plan.len() == entries.len()
    &&& forall|i: int|
        0 <= i < entries.len() ==> match #[trigger] plan[i] {
            Removal::Dir(p) => entries[i].is_dir && p@ == entries[i].path@,
            Removal::File(p) => !entries[i].is_dir && p@ == entries[i].path@,
        }
}

/// The removals that empty a directory with the given entries, keeping the
/// directory itself.
pub fn removal_plan(entries: &Vec<DirEntryInfo>) -> (r: Vec<Removal>)
    ensures
        removes_all(entries@, r@),
{
    let mut plan: Vec<Removal> = Vec::new();
    let mut i: usize = 0;
    while i < entries.len()
        invariant
            0 <= i <= entries.len(),
            removes_all(entries@.subrange(0, i as int), plan@),
        decreases entries.len() - i,
    {
        let e = &entries[i];
        let step = if e.is_dir {
            Removal::Dir(e.path.clone())
        } else {
            Removal::File(e.path.clone())
        };
        plan.push(step);
        i = i + 1;
        assert forall|j: int| 0 <= j < i implies #[trigger] entries@.subrange(0, i as int)[j]
            == entries@[j] by {}
    }
    assert(entries@.subrange(0, entries.len() as int) =~= entries@);
    plan
}

/// How the instance directory is readied before unpacking.
#[derive(Clone, Copy, Debug, PartialEq, Eq, Structural)]
pub enum TargetPrep {
    /// It exists: empty it in place.
    ClearContents,
    /// It is absent: create it.
    Create,
}

/// An existing instance directory is emptied, a missing one created.
pub fn target_preparation(exists: bool) -> (r: TargetPrep)
    ensures
        r == (if exists { TargetPrep::ClearContents } else { TargetPrep::Create }),
{
    if exists {
        TargetPrep::ClearContents
    } else {
        TargetPrep::Create
    }
}

/// The names left in a directory after the removals of `plan`.
pub open spec fn after_removals(names: Set<Seq<char>>, plan: Seq<Removal>) -> Set<Seq<char>>
    decreases plan.len(),
{
    if plan.len() == 0 {
        names
    } else {
        after_removals(names.remove(plan[0].path_of()), plan.drop_first())
    }
}

/// The names a directory holds after the archive entries are unpacked into it.
pub open spec fn after_extract(names: Set<Seq<char>>, archive: Set<Seq<char>>) -> Set<Seq<char>> {
    names.union(archive)
}

pub open spec fn entry_names(entries: Seq<DirEntryInfo>) -> Set<Seq<char>> {
    Set::new(|p: Seq<char>| exists|i: int| 0 <= i < entries.len() && entries[i].path@ == p)
}

proof fn lemma_removals_empty(entries: Seq<DirEntryInfo>, plan: Seq<Removal>, names: Set<Seq<char>>)
    requires
        removes_all(entries, plan),
        names.subset_of(entry_names(entries)),
    ensures
        after_removals(names, plan) == Set::<Seq<char>>::empty(),
    decreases plan.len(),
{
    if plan.len() == 0 {
        assert(names =~= Set::<Seq<char>>::empty());
    } else {
        let rest = entries.drop_first();
        let removed = names.remove(plan[0].path_of());
        assert(plan[0].path_of() == entries[0].path@);
        assert forall|i: int| 0 <= i < rest.len() implies match #[trigger] plan.drop_first()[i] {
            Removal::Dir(p) => rest[i].is_dir && p@ == rest[i].path@,
            Removal::File(p) => !rest[i].is_dir && p@ == rest[i].path@,
        } by {
            assert(plan.drop_first()[i] == plan[i + 1]);
        }
        assert forall|p: Seq<char>| removed.contains(p) implies entry_names(rest).contains(p) by {
            let i = choose|i: int| 0 <= i < entries.len() && entries[i].path@ == p;
            assert(i != 0);
            assert(rest[i - 1] == entries[i]);
        }
        lemma_removals_empty(rest, plan.drop_first(), removed);
    }
}

/// Emptying a directory by the removal plan of its listing and then
/// unpacking an archive leaves exactly the archive's entries: nothing of
/// what was there before survives.
pub proof fn lemma_purge_then_populate(
    entries: Seq<DirEntryInfo>,
    plan: Seq<Removal>,
    archive: Set<Seq<char>>,
)
    requires
        removes_all(entries, plan),
    ensures
        after_extract(after_removals(entry_names(entries), plan), archive) == archive,
{
    lemma_removals_empty(entries, plan, entry_names(entries));
    assert(Set::<Seq<char>>::empty().union(archive) =~= archive);
}

/// Everything a run needs to fetch and install one release for one launcher.
pub struct UpdatePlan {
    pub launcher: Launcher,
    /// File name of the asset to download.
    pub artifact: String,
    /// Position of that asset in the release.
    pub asset_index: usize,
    /// Directory the download is kept in.
    pub staging_dir: String,
    /// The downloaded file.
    pub staging_file: String,
    /// The instance directory the release is installed into.
    pub target_dir: String,
    /// Name of the installed instance.
    pub instance_name: String,
    pub method: InstallMethod,
    /// Where the launcher metadata file lies in the instance directory.
    pub metadata_path: String,
    /// Position of a fresh metadata file among the release's assets.
    pub metadata_asset: Option<usize>,
    /// The instance config to rename, for the launcher that has one.
    pub config_path: Option<String>,
}

/// `p` is the plan for installing `release` into `launcher`, with staging
/// under `appdata` and the instance directory `target`.
pub open spec fn is_plan_for(
    p: UpdatePlan,
    release: Release,
    launcher: Launcher,
    appdata: Seq<char>,
    target: Seq<char>,
) -> bool {
    let tag = release.tag_name@;
    let assets = release.assets@;
    &&& p.launcher == launcher
    &&& p.artifact@ == launcher.spec_artifact_name()
    &&& is_first_named(assets, launcher.spec_artifact_name(), p.asset_index as int)
    &&& p.staging_dir@ == spec_staging_dir(appdata, tag)
    &&& p.staging_file@ == join_path(spec_staging_dir(appdata, tag), launcher.spec_artifact_name())
    &&& p.target_dir@ == target
    &&& p.instance_name@ == instance_name_of(tag)
    &&& p.method == launcher.spec_install_method()
    &&& p.metadata_path@ == join_path(target, INSTANCE_METADATA@)
    &&& (p.metadata_asset is None <==> !has_named(assets, INSTANCE_METADATA@))
    &&& (p.metadata_asset matches Some(i) ==> is_first_named(assets, INSTANCE_METADATA@, i as int))
    &&& (launcher == Launcher::Prism <==> p.config_path is Some)
    &&& (p.config_path matches Some(c) ==> c@ == join_path(target, INSTANCE_CONFIG@))
}

/// Plans the update of `launcher` to `release`. Without an asset of the
/// launcher's artifact name there is nothing to do (`Ok(None)`); otherwise
/// a missing variable for the staging or instance directory is a
/// configuration error, and else the plan is returned.
pub fn plan_update(release: &Release, launcher: Launcher, env: &EnvValues) -> (r: Result<
    Option<UpdatePlan>,
    UpdateError,
>)
    ensures
        !has_named(release.assets@, launcher.spec_artifact_name()) ==> r matches Ok(None),
        has_named(release.assets@, launcher.spec_artifact_name()) ==> match (
            env.view_appdata(),
            launcher.spec_install_target(*env, release.tag_name@),
        ) {
            (None, _) => r matches Err(e) && e == UpdateError::Config(EnvVar::AppData),
            (Some(_), Err(f)) => r matches Err(e) && e == f,
            (Some(a), Ok(t)) => r matches Ok(Some(p)) && is_plan_for(p, *release, launcher, a, t),
        },
{
    let artifact = launcher.artifact_name();
    let asset_index = match find_asset(&release.assets, &artifact) {
        Some(i) => i,
        None => {
            return Ok(None);
        },
    };
    let appdata = match &env.appdata {
        Some(a) => a,
        None => {
            return Err(UpdateError::Config(EnvVar::AppData));
        },
    };
    let tag = release.tag_name.as_str();
    let target_dir = match launcher.install_target(env, tag) {
        Ok(t) => t,
        Err(e) => {
            return Err(e);
        },
    };
    let metadata_name = String::from_str(INSTANCE_METADATA);
    let config_path = match launcher {
        Launcher::Prism => Some(join(target_dir.as_str(), INSTANCE_CONFIG)),
        _ => None,
    };
    Ok(
        Some(
            UpdatePlan {
                launcher,
                asset_index,
                staging_dir: staging_dir(appdata.as_str(), tag),
                staging_file: staging_file(appdata.as_str(), tag, artifact.as_str()),
                instance_name: instance_name(tag),
                method: launcher.install_method(),
                metadata_path: join(target_dir.as_str(), INSTANCE_METADATA),
                metadata_asset: find_asset(&release.assets, &metadata_name),
                config_path,
                target_dir,
                artifact,
            },
        ),
    )
}

/// The message shown when the release has no asset for the chosen launcher.
pub fn missing_asset_message(artifact: &str) -> (r: String)
    ensures
        r@ == "No new release found or '"@ + artifact@ + "' not available."@,
{
    String::from_str("No new release found or '").concat(artifact).concat("' not available.")
}

} // verus!
