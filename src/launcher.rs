use vstd::prelude::*;
use vstd::string::StringExecFns;
use crate::error::{EnvVar, UpdateError};

verus! {

/// Display name of the modpack, used for directories and instance names.
pub const PACK_NAME: &'static str = "Originalife Season 4";

/// The launchers the pack can be installed into.
#[derive(Clone, Copy, Debug, PartialEq, Eq, Structural)]
pub enum Launcher {
    Modrinth,
    CurseForge,
    Prism,
}

/// How a launcher receives the downloaded artifact.
#[derive(Clone, Copy, Debug, PartialEq, Eq, Structural)]
pub enum InstallMethod {
    /// The launcher's own pack installer takes the bundle.
    ManagedPack,
    /// The archive is unpacked into the instance directory.
    RawArchive,
}

/// The environment variables a run reads, as found (or not) in the process.
pub struct EnvValues {
    pub appdata: Option<String>,
    pub homedrive: Option<String>,
    pub homepath: Option<String>,
}

pub open spec fn key_launcher(key: char) -> Option<Launcher> {
    if key == '1' {
        Some(Launcher::Modrinth)
    } else if key == '2' {
        Some(Launcher::CurseForge)
    } else if key == '3' {
        Some(Launcher::Prism)
    } else {
        None
    }
}

/// The launcher chosen by a menu key: `1`, `2` or `3`; any other key chooses nothing.
pub fn launcher_for_key(key: char) -> (r: Option<Launcher>)
    ensures
        r == key_launcher(key),
{
    if key == '1' {
        Some(Launcher::Modrinth)
    } else if key == '2' {
        Some(Launcher::CurseForge)
    } else if key == '3' {
        Some(Launcher::Prism)
    } else {
        None
    }
}

pub open spec fn opt_view(o: Option<String>) -> Option<Seq<char>> {
    match o {
        Some(s) => Some(s@),
        None => None,
    }
}

impl EnvValues {
    pub open spec fn view_appdata(&self) -> Option<Seq<char>> {
        opt_view(self.appdata)
    }

    pub open spec fn view_homedrive(&self) -> Option<Seq<char>> {
        opt_view(self.homedrive)
    }

    pub open spec fn view_homepath(&self) -> Option<Seq<char>> {
        opt_view(self.homepath)
    }
}

/// `a` and `b` joined by the path separator.
pub open spec fn join_path(a: Seq<char>, b: Seq<char>) -> Seq<char> {
    a + "\\"@ + b
}

/// The instance name of a release: the pack name, a dash and the tag.
pub open spec fn instance_name_of(tag: Seq<char>) -> Seq<char> {
    PACK_NAME@ + " - "@ + tag
}

impl Launcher {
    pub open spec fn spec_artifact_name(self) -> Seq<char> {
        match self {
            Launcher::Modrinth => "updated-pack-modrinth.mrpack"@,
            Launcher::CurseForge => "updated-pack-curseforge.zip"@,
            Launcher::Prism => "updated-pack-prism.zip"@,
        }
    }

    pub open spec fn spec_install_method(self) -> InstallMethod {
        match self {
            Launcher::Modrinth => InstallMethod::ManagedPack,
            _ => InstallMethod::RawArchive,
        }
    }

    /// The directory holding the launcher's instances, or the variable that is missing.
    pub open spec fn spec_profiles_root(self, env: EnvValues) -> Result<Seq<char>, UpdateError> {
        match self {
            Launcher::Modrinth => match env.view_appdata() {
                Some(a) => Ok(a + "\\ModrinthApp\\profiles"@),
                None => Err(UpdateError::Config(EnvVar::AppData)),
            },
            Launcher::CurseForge => match (env.view_homedrive(), env.view_homepath()) {
                (Some(d), Some(p)) => Ok(d + p + "\\curseforge\\minecraft\\Instances"@),
                (None, _) => Err(UpdateError::Config(EnvVar::HomeDrive)),
                (Some(_), None) => Err(UpdateError::Config(EnvVar::HomePath)),
            },
            Launcher::Prism => match env.view_appdata() {
                Some(a) => Ok(a + "\\PrismLauncher\\instances"@),
                None => Err(UpdateError::Config(EnvVar::AppData)),
            },
        }
    }

    /// The directory a release with this tag is installed into.
    pub open spec fn spec_install_target(self, env: EnvValues, tag: Seq<char>) -> Result<
        Seq<char>,
        UpdateError,
    > {
        match self.spec_profiles_root(env) {
            Ok(root) => Ok(join_path(root, instance_name_of(tag))),
            Err(e) => Err(e),
        }
    }

    /// File name of the release asset this launcher needs.
    pub fn artifact_name(&self) -> (r: String)
        ensures
            r@ == self.spec_artifact_name(),
    {
        match self {
            Launcher::Modrinth => String::from_str("updated-pack-modrinth.mrpack"),
            Launcher::CurseForge => String::from_str("updated-pack-curseforge.zip"),
            Launcher::Prism => String::from_str("updated-pack-prism.zip"),
        }
    }

    /// Whether the launcher installs the bundle itself or gets the archive unpacked.
    pub fn install_method(&self) -> (r: InstallMethod)
        ensures
            r == self.spec_install_method(),
    {
        match self {
            Launcher::Modrinth => InstallMethod::ManagedPack,
            _ => InstallMethod::RawArchive,
        }
    }

    /// The launcher's instance directory, derived from the environment.
    pub fn profiles_root(&self, env: &EnvValues) -> (r: Result<String, UpdateError>)
        ensures
            match (r, self.spec_profiles_root(*env)) {
                (Ok(s), Ok(t)) => s@ == t,
                (Err(e), Err(f)) => e == f,
                _ => false,
            },
    {
        match self {
            Launcher::Modrinth => match &env.appdata {
                Some(a) => Ok(a.clone().concat("\\ModrinthApp\\profiles")),
                None => Err(UpdateError::Config(EnvVar::AppData)),
            },
            Launcher::CurseForge => match &env.homedrive {
                Some(d) => match &env.homepath {
                    Some(p) => Ok(d.clone().concat(p.as_str()).concat(
                        "\\curseforge\\minecraft\\Instances",
                    )),
                    None => Err(UpdateError::Config(EnvVar::HomePath)),
                },
                None => Err(UpdateError::Config(EnvVar::HomeDrive)),
            },
            Launcher::Prism => match &env.appdata {
                Some(a) => Ok(a.clone().concat("\\PrismLauncher\\instances")),
                None => Err(UpdateError::Config(EnvVar::AppData)),
            },
        }
    }

    /// The directory the release with `tag` is installed into:
    /// `<profiles root>\<pack name> - <tag>`.
    pub fn install_target(&self, env: &EnvValues, tag: &str) -> (r: Result<String, UpdateError>)
        ensures
            match (r, self.spec_install_target(*env, tag@)) {
                (Ok(s), Ok(t)) => s@ == t,
                (Err(e), Err(f)) => e == f,
                _ => false,
            },
    {
        match self.profiles_root(env) {
            Ok(root) => Ok(join(root.as_str(), instance_name(tag).as_str())),
            Err(e) => Err(e),
        }
    }
}

/// `a` and `b` joined by the path separator.
pub fn join(a: &str, b: &str) -> (r: String)
    ensures
        r@ == join_path(a@, b@),
{
    String::from_str(a).concat("\\").concat(b)
}

/// The instance name of a release: `<pack name> - <tag>`.
pub fn instance_name(tag: &str) -> (r: String)
    ensures
        r@ == instance_name_of(tag@),
{
    String::from_str(PACK_NAME).concat(" - ").concat(tag)
}

pub open spec fn spec_staging_dir(appdata: Seq<char>, tag: Seq<char>) -> Seq<char> {
    join_path(join_path(appdata, PACK_NAME@), tag)
}

/// The per-tag directory the downloaded artifact is kept in:
/// `<appdata>\<pack name>\<tag>`.
pub fn staging_dir(appdata: &str, tag: &str) -> (r: String)
    ensures
        r@ == spec_staging_dir(appdata@, tag@),
{
    let pack = join(appdata, PACK_NAME);
    join(pack.as_str(), tag)
}

/// Where the downloaded artifact is written: `<staging dir>\<artifact>`.
pub fn staging_file(appdata: &str, tag: &str, artifact: &str) -> (r: String)
    ensures
        r@ == join_path(spec_staging_dir(appdata@, tag@), artifact@),
{
    let dir = staging_dir(appdata, tag);
    join(dir.as_str(), artifact)
}

/// The install target is a function of the launcher, the environment
/// variables it reads and the release tag alone: equal inputs give the same
/// path, and the path is the profiles root joined with the instance name.
pub proof fn lemma_install_target_pure(
    l: Launcher,
    e1: EnvValues,
    e2: EnvValues,
    t1: Seq<char>,
    t2: Seq<char>,
)
    requires
        e1.view_appdata() == e2.view_appdata(),
        e1.view_homedrive() == e2.view_homedrive(),
        e1.view_homepath() == e2.view_homepath(),
        t1 == t2,
    ensures
        l.spec_install_target(e1, t1) == l.spec_install_target(e2, t2),
        l.spec_profiles_root(e1) is Ok ==> l.spec_install_target(e1, t1) == Ok::<
            Seq<char>,
            UpdateError,
        >(join_path(l.spec_profiles_root(e1)->Ok_0, instance_name_of(t1))),
{
}

} // verus!
