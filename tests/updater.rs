use pack_updater::{
    find_asset, instance_name, launcher_for_key, missing_asset_message, patch_instance_config,
    plan_update, removal_plan, staging_dir, staging_file, target_preparation, update_json_value,
    Asset, DirEntryInfo, EnvValues, EnvVar, InstallMethod, JsonValue, Launcher, Release, Removal,
    ShortTime, TargetPrep, UpdateError,
};

fn env(appdata: Option<&str>, drive: Option<&str>, path: Option<&str>) -> EnvValues {
    EnvValues {
        appdata: appdata.map(|s| s.to_string()),
        homedrive: drive.map(|s| s.to_string()),
        homepath: path.map(|s| s.to_string()),
    }
}

fn full_env() -> EnvValues {
    env(Some("C:\\Users\\me\\AppData\\Roaming"), Some("C:"), Some("\\Users\\me"))
}

fn asset(name: &str, size: i64) -> Asset {
    Asset {
        name: name.to_string(),
        url: format!("https://example.invalid/{}", name),
        size,
    }
}

fn release(tag: &str, names: &[&str]) -> Release {
    Release {
        tag_name: tag.to_string(),
        assets: names.iter().map(|n| asset(n, 1024)).collect(),
    }
}

fn s(x: &str) -> JsonValue {
    JsonValue::Str(x.to_string())
}

fn obj(members: Vec<(&str, JsonValue)>) -> JsonValue {
    JsonValue::Object(members.into_iter().map(|(k, v)| (k.to_string(), v)).collect())
}

fn keys(ks: &[&str]) -> Vec<String> {
    ks.iter().map(|k| k.to_string()).collect()
}

fn sample_doc() -> JsonValue {
    obj(vec![
        ("name", s("Old Pack")),
        ("version", JsonValue::Number("3".to_string())),
        (
            "manifest",
            obj(vec![
                ("name", s("inner")),
                ("author", s("someone")),
                ("list", JsonValue::Array(vec![JsonValue::Bool(true), JsonValue::Null])),
            ]),
        ),
    ])
}

#[test]
fn keys_choose_launchers() {
    assert_eq!(launcher_for_key('1'), Some(Launcher::Modrinth));
    assert_eq!(launcher_for_key('2'), Some(Launcher::CurseForge));
    assert_eq!(launcher_for_key('3'), Some(Launcher::Prism));
    assert_eq!(launcher_for_key('4'), None);
    assert_eq!(launcher_for_key('q'), None);
}

#[test]
fn artifact_names_and_methods() {
    assert_eq!(Launcher::Modrinth.artifact_name(), "updated-pack-modrinth.mrpack");
    assert_eq!(Launcher::CurseForge.artifact_name(), "updated-pack-curseforge.zip");
    assert_eq!(Launcher::Prism.artifact_name(), "updated-pack-prism.zip");
    assert_eq!(Launcher::Modrinth.install_method(), InstallMethod::ManagedPack);
    assert_eq!(Launcher::CurseForge.install_method(), InstallMethod::RawArchive);
    assert_eq!(Launcher::Prism.install_method(), InstallMethod::RawArchive);
}

#[test]
fn profiles_roots() {
    let e = full_env();
    assert_eq!(
        Launcher::Modrinth.profiles_root(&e),
        Ok("C:\\Users\\me\\AppData\\Roaming\\ModrinthApp\\profiles".to_string())
    );
    assert_eq!(
        Launcher::CurseForge.profiles_root(&e),
        Ok("C:\\Users\\me\\curseforge\\minecraft\\Instances".to_string())
    );
    assert_eq!(
        Launcher::Prism.profiles_root(&e),
        Ok("C:\\Users\\me\\AppData\\Roaming\\PrismLauncher\\instances".to_string())
    );
}

#[test]
fn missing_variables_are_config_errors() {
    let none = env(None, None, None);
    assert_eq!(Launcher::Modrinth.profiles_root(&none), Err(UpdateError::Config(EnvVar::AppData)));
    assert_eq!(Launcher::Prism.profiles_root(&none), Err(UpdateError::Config(EnvVar::AppData)));
    assert_eq!(
        Launcher::CurseForge.profiles_root(&none),
        Err(UpdateError::Config(EnvVar::HomeDrive))
    );
    let no_path = env(Some("A"), Some("C:"), None);
    assert_eq!(
        Launcher::CurseForge.profiles_root(&no_path),
        Err(UpdateError::Config(EnvVar::HomePath))
    );
    assert_eq!(
        Launcher::CurseForge.install_target(&no_path, "v1"),
        Err(UpdateError::Config(EnvVar::HomePath))
    );
}

#[test]
fn install_target_is_deterministic() {
    let e = full_env();
    for l in [Launcher::Modrinth, Launcher::CurseForge, Launcher::Prism] {
        let a = l.install_target(&e, "v1.2.3");
        let b = l.install_target(&full_env(), "v1.2.3");
        assert_eq!(a, b);
        let root = l.profiles_root(&e).unwrap();
        assert_eq!(a, Ok(format!("{}\\Originalife Season 4 - v1.2.3", root)));
    }
    assert_ne!(
        Launcher::Prism.install_target(&e, "v1"),
        Launcher::Prism.install_target(&e, "v2")
    );
}

#[test]
fn staging_paths() {
    assert_eq!(instance_name("v9"), "Originalife Season 4 - v9");
    assert_eq!(staging_dir("C:\\AD", "v1.2.3"), "C:\\AD\\Originalife Season 4\\v1.2.3");
    assert_eq!(
        staging_file("C:\\AD", "v1.2.3", "updated-pack-curseforge.zip"),
        "C:\\AD\\Originalife Season 4\\v1.2.3\\updated-pack-curseforge.zip"
    );
}

#[test]
fn asset_lookup_takes_first_exact_match() {
    let r = release("v1", &["a.zip", "updated-pack-prism.zip", "updated-pack-prism.zip"]);
    assert_eq!(find_asset(&r.assets, &"updated-pack-prism.zip".to_string()), Some(1));
    assert_eq!(find_asset(&r.assets, &"updated-pack-prism".to_string()), None);
    assert_eq!(find_asset(&Vec::new(), &"a.zip".to_string()), None);
    assert_eq!(find_asset(&r.assets, &"a.zip".to_string()), Some(0));
}

#[test]
fn curseforge_end_to_end_plan() {
    let r = release("v1.2.3", &["updated-pack-curseforge.zip", "minecraftinstance.json"]);
    let e = full_env();
    let key = '2';
    let l = launcher_for_key(key).unwrap();
    let p = plan_update(&r, l, &e).unwrap().unwrap();
    assert_eq!(p.asset_index, 0);
    assert_eq!(r.assets[p.asset_index].size, 1024);
    assert_eq!(p.artifact, "updated-pack-curseforge.zip");
    assert_eq!(
        p.staging_file,
        "C:\\Users\\me\\AppData\\Roaming\\Originalife Season 4\\v1.2.3\\updated-pack-curseforge.zip"
    );
    assert_eq!(
        p.target_dir,
        "C:\\Users\\me\\curseforge\\minecraft\\Instances\\Originalife Season 4 - v1.2.3"
    );
    assert_eq!(
        p.metadata_path,
        "C:\\Users\\me\\curseforge\\minecraft\\Instances\\Originalife Season 4 - v1.2.3\\minecraftinstance.json"
    );
    assert_eq!(p.metadata_asset, Some(1));
    assert_eq!(p.method, InstallMethod::RawArchive);
    assert_eq!(p.config_path, None);
    assert_eq!(p.instance_name, "Originalife Season 4 - v1.2.3");
}

#[test]
fn prism_plan_has_config() {
    let r = release("v2", &["updated-pack-prism.zip"]);
    let p = plan_update(&r, Launcher::Prism, &full_env()).unwrap().unwrap();
    assert_eq!(p.metadata_asset, None);
    assert_eq!(
        p.config_path,
        Some("C:\\Users\\me\\AppData\\Roaming\\PrismLauncher\\instances\\Originalife Season 4 - v2\\instance.cfg".to_string())
    );
}

#[test]
fn missing_asset_plans_nothing() {
    let r = release("v1.2.3", &["updated-pack-curseforge.zip"]);
    let p = plan_update(&r, Launcher::Prism, &env(None, None, None));
    assert!(matches!(p, Ok(None)));
    assert_eq!(
        missing_asset_message("updated-pack-prism.zip"),
        "No new release found or 'updated-pack-prism.zip' not available."
    );
}

#[test]
fn plan_reports_missing_variables() {
    let r = release("v1", &["updated-pack-modrinth.mrpack"]);
    let p = plan_update(&r, Launcher::Modrinth, &env(None, Some("C:"), Some("x")));
    assert!(matches!(p, Err(UpdateError::Config(EnvVar::AppData))));
    let r = release("v1", &["updated-pack-curseforge.zip"]);
    let p = plan_update(&r, Launcher::CurseForge, &env(Some("A"), None, Some("x")));
    assert!(matches!(p, Err(UpdateError::Config(EnvVar::HomeDrive))));
}

#[test]
fn config_patch_replaces_only_the_name_line() {
    let cfg = "[General]\nInstanceType=OneSix\nname=Old Name\niconKey=default\n";
    let out = patch_instance_config(cfg, "v1.2.3").unwrap();
    assert_eq!(
        out,
        "[General]\nInstanceType=OneSix\nname=Originalife Season 4 - v1.2.3\niconKey=default\n"
    );
    let before: Vec<&str> = cfg.split('\n').collect();
    let after: Vec<&str> = out.split('\n').collect();
    assert_eq!(before.len(), after.len());
    for (i, (b, a)) in before.iter().zip(after.iter()).enumerate() {
        if i != 2 {
            assert_eq!(b, a);
        }
    }
}

#[test]
fn config_patch_edge_cases() {
    assert_eq!(patch_instance_config("", "v1").unwrap(), "");
    assert_eq!(patch_instance_config("nickname=x\n name=y", "v1").unwrap(), "nickname=x\n name=y");
    assert_eq!(
        patch_instance_config("name=\r\nname=b", "$1").unwrap(),
        "name=Originalife Season 4 - $1\nname=Originalife Season 4 - $1"
    );
}

#[test]
fn json_patch_sets_value_and_keeps_siblings() {
    let mut doc = sample_doc();
    let path = keys(&["manifest", "name"]);
    assert_eq!(update_json_value(&mut doc, &path, "X"), Ok(()));
    let expected = obj(vec![
        ("name", s("Old Pack")),
        ("version", JsonValue::Number("3".to_string())),
        (
            "manifest",
            obj(vec![
                ("name", s("X")),
                ("author", s("someone")),
                ("list", JsonValue::Array(vec![JsonValue::Bool(true), JsonValue::Null])),
            ]),
        ),
    ]);
    assert_eq!(doc, expected);
    assert_eq!(update_json_value(&mut doc, &path, "X"), Ok(()));
    assert_eq!(doc, expected);
}

#[test]
fn json_patch_top_level_key() {
    let mut doc = sample_doc();
    assert_eq!(update_json_value(&mut doc, &keys(&["version"]), "4"), Ok(()));
    match &doc {
        JsonValue::Object(es) => {
            assert_eq!(es[1], ("version".to_string(), s("4")));
            assert_eq!(es.len(), 3);
        }
        _ => panic!("not an object"),
    }
}

#[test]
fn json_patch_missing_last_key() {
    let mut doc = sample_doc();
    let r = update_json_value(&mut doc, &keys(&["manifest", "missing"]), "X");
    assert_eq!(r, Err(UpdateError::KeyNotFound));
    assert_eq!(doc, sample_doc());
}

#[test]
fn json_patch_missing_intermediate_key() {
    let mut doc = sample_doc();
    let r = update_json_value(&mut doc, &keys(&["nope", "name"]), "X");
    assert_eq!(r, Err(UpdateError::PathNotFound));
    let r = update_json_value(&mut doc, &keys(&["name", "inner", "x"]), "X");
    assert_eq!(r, Err(UpdateError::PathNotFound));
    let r = update_json_value(&mut doc, &keys(&[]), "X");
    assert_eq!(r, Err(UpdateError::KeyNotFound));
    assert_eq!(doc, sample_doc());
}

#[test]
fn removal_plan_covers_every_entry() {
    let entries = vec![
        DirEntryInfo { path: "t\\mods".to_string(), is_dir: true },
        DirEntryInfo { path: "t\\options.txt".to_string(), is_dir: false },
    ];
    assert_eq!(
        removal_plan(&entries),
        vec![
            Removal::Dir("t\\mods".to_string()),
            Removal::File("t\\options.txt".to_string())
        ]
    );
    assert!(removal_plan(&Vec::new()).is_empty());
    assert_eq!(target_preparation(true), TargetPrep::ClearContents);
    assert_eq!(target_preparation(false), TargetPrep::Create);
}

#[test]
fn short_time_marker() {
    assert_eq!(ShortTime.format_time(), "=>");
}
