use hd2mm_lib::errors::{AddError, DeployError, ModError, ModManagerError};
use hd2mm_lib::error::ModManifestError;
use hd2mm_lib::manifests::mod_manifest::{ModManifest, ModOption, ModSubOption};
use hd2mm_lib::manifests::profile_manifest::ModState;
use hd2mm_lib::resolver::Contribution;
use hd2mm_lib::store::{game_directory_name, DirectoryProbe, ExtractedArchive, GamePathProbe};
use hd2mm_lib::{Mod, ModManager, Profile};

fn game(path: &str, file_name: Option<&str>, has_data: bool, has_bin: bool) -> GamePathProbe {
    GamePathProbe { path: path.to_owned(), file_name: file_name.map(str::to_owned), has_data, has_bin }
}

fn directory(path: &str, is_directory: bool) -> DirectoryProbe {
    DirectoryProbe { path: path.to_owned(), is_directory }
}

fn manager() -> ModManager {
    ModManager::new(
        game("/games/Helldivers 2", Some("Helldivers 2"), true, true),
        None,
        directory("/storage", true),
        directory("/tmp/hd2mm", true),
    )
    .unwrap()
}

fn plain_mod(guid: u128, name: &str) -> Mod {
    Mod::new(
        ModManifest::new(guid, name.to_owned(), String::new(), None, None, None),
        format!("/storage/mods/{}", name),
    )
}

fn mod_with_options(guid: u128, name: &str) -> Mod {
    let options = vec![
        ModOption::new("first".to_owned(), String::new(), Some(vec!["base".to_owned(), "more".to_owned()]), None),
        ModOption::new(
            "second".to_owned(),
            String::new(),
            None,
            Some(vec![
                ModSubOption::new("A".to_owned(), String::new(), vec!["a".to_owned()]),
                ModSubOption::new("B".to_owned(), String::new(), vec!["b1".to_owned(), "b2".to_owned()]),
            ]),
        ),
        ModOption::new(
            "third".to_owned(),
            String::new(),
            Some(vec![".".to_owned()]),
            Some(vec![ModSubOption::new("C".to_owned(), String::new(), vec!["c".to_owned()])]),
        ),
    ];
    Mod::new(
        ModManifest::new(guid, name.to_owned(), String::new(), None, Some(options), None),
        format!("/storage/mods/{}", name),
    )
}

fn guids(manager: &ModManager) -> Vec<u128> {
    manager.mods().iter().map(|found| found.manifest().guid()).collect()
}

fn plan(found: &[Contribution]) -> Vec<(String, Option<String>)> {
    found.iter().map(|c| (c.root().to_owned(), c.relative().map(str::to_owned))).collect()
}

#[test]
fn new_checks_the_paths_in_order() {
    let good_game = || game("/games/Helldivers 2", Some("Helldivers 2"), true, true);
    let bad_game = || game("/games/Helldivers 2", Some("Helldivers 2"), true, false);
    assert_eq!(
        ModManager::new(bad_game(), None, directory("/s", false), directory("/t", false)),
        Err(ModManagerError::InvalidGamePath)
    );
    assert_eq!(
        ModManager::new(good_game(), None, directory("/s", false), directory("/t", false)),
        Err(ModManagerError::InvalidStoragePath)
    );
    assert_eq!(
        ModManager::new(good_game(), None, directory("/s", true), directory("/t", false)),
        Err(ModManagerError::InvalidTempPath)
    );
    let made = ModManager::new(good_game(), None, directory("/s", true), directory("/t", true)).unwrap();
    assert_eq!(made.game_path(), "/games/Helldivers 2");
    assert_eq!(made.storage_path(), "/s");
    assert_eq!(made.temp_path(), "/t");
    assert_eq!(std::path::Path::new(made.mod_storage_path()), std::path::Path::new("/s").join("mods"));
    assert_eq!(std::path::Path::new(made.profile_storage_path()), std::path::Path::new("/s").join("profiles"));
    assert!(made.mods().is_empty());
    assert!(made.profiles().is_empty());
}

#[test]
fn game_path_is_the_named_directory_or_the_one_above() {
    assert_eq!(game_directory_name(), "Helldivers 2");
    let named = game("/g/Helldivers 2", Some("Helldivers 2"), true, true);
    assert_eq!(ModManager::validate_game_path(named, None), Some("/g/Helldivers 2".to_owned()));
    let inside = game("/g/Helldivers 2/bin", Some("bin"), false, false);
    let above = game("/g/Helldivers 2", Some("Helldivers 2"), true, true);
    assert_eq!(ModManager::validate_game_path(inside, Some(above)), Some("/g/Helldivers 2".to_owned()));
    let inside = game("/g/Helldivers 2/bin", Some("bin"), true, true);
    assert_eq!(ModManager::validate_game_path(inside, None), None);
    let inside = game("/g/Other/bin", Some("bin"), true, true);
    let above = game("/g/Other", Some("Other"), true, true);
    assert_eq!(ModManager::validate_game_path(inside, Some(above)), None);
    let no_data = game("/g/Helldivers 2", Some("Helldivers 2"), false, true);
    assert_eq!(ModManager::validate_game_path(no_data, None), None);
    let no_bin = game("/g/Helldivers 2", Some("Helldivers 2"), true, false);
    let above = game("/g", Some("Helldivers 2"), true, true);
    assert_eq!(ModManager::validate_game_path(no_bin, Some(above)), None);
    let root = game("/", None, true, true);
    assert_eq!(ModManager::validate_game_path(root, None), None);
    let lower_case = game("/g/helldivers 2", Some("helldivers 2"), true, true);
    assert_eq!(ModManager::validate_game_path(lower_case, None), None);
}

#[test]
fn storage_and_temp_paths_must_be_directories() {
    assert_eq!(ModManager::validate_storage_path(directory("/s", true)), Some("/s".to_owned()));
    assert_eq!(ModManager::validate_storage_path(directory("/s", false)), None);
    assert_eq!(ModManager::validate_temp_path(directory("/t", true)), Some("/t".to_owned()));
    assert_eq!(ModManager::validate_temp_path(directory("/t", false)), None);
}

#[test]
fn load_mods_fills_the_store_in_order() {
    let loaded = vec![
        ("/storage/mods/b".to_owned(), Ok(plain_mod(2, "b"))),
        ("/storage/mods/a".to_owned(), Ok(plain_mod(1, "a"))),
    ];
    let manager = manager().load_mods(loaded).unwrap();
    assert_eq!(guids(&manager), vec![2, 1]);
    assert_eq!(manager.mods()[0].path(), "/storage/mods/b");
    assert_eq!(manager.mods()[1].manifest().name(), "a");
    assert_eq!(manager.game_path(), "/games/Helldivers 2");
}

#[test]
fn load_mods_fails_on_the_first_directory_that_fails() {
    let loaded = vec![
        ("/storage/mods/a".to_owned(), Ok(plain_mod(1, "a"))),
        ("/storage/mods/b".to_owned(), Err(ModError::IOError("missing".to_owned()))),
        ("/storage/mods/c".to_owned(), Err(ModError::ManifestError(ModManifestError::UnknownVersion(2)))),
    ];
    assert_eq!(
        manager().load_mods(loaded),
        Err(ModManagerError::ModError("/storage/mods/b".to_owned(), ModError::IOError("missing".to_owned())))
    );
    assert_eq!(manager().load_mods(vec![]).map(|m| m.mods().len()), Ok(0));
}

#[test]
fn add_mod_keeps_identifiers_unique() {
    let mut manager = manager();
    assert_eq!(manager.add_mod(plain_mod(1, "a")), Ok(1));
    assert_eq!(manager.add_mod(plain_mod(2, "b")), Ok(2));
    assert_eq!(manager.add_mod(plain_mod(1, "c")), Err(AddError::AlreadyExists(1)));
    assert_eq!(guids(&manager), vec![1, 2]);
    assert_eq!(manager.mods()[0].manifest().name(), "a");
    assert!(manager.has_mod(&1));
    assert!(manager.has_mod(&2));
    assert!(!manager.has_mod(&3));
    assert_eq!(manager.get_mod(&2).map(Mod::path), Some("/storage/mods/b"));
    assert!(manager.get_mod(&3).is_none());
}

#[test]
fn remove_mod_drops_the_mod_and_nothing_else() {
    let mut manager = manager();
    for (guid, name) in [(1, "a"), (2, "b"), (3, "c")] {
        manager.add_mod(plain_mod(guid, name)).unwrap();
    }
    assert_eq!(manager.remove_mod(9), None);
    assert_eq!(guids(&manager), vec![1, 2, 3]);
    let removed = manager.remove_mod(2).unwrap();
    assert_eq!(removed.manifest().guid(), 2);
    assert_eq!(removed.path(), "/storage/mods/b");
    assert_eq!(guids(&manager), vec![1, 3]);
    assert!(!manager.has_mod(&2));
    assert_eq!(manager.remove_mod(2), None);
    assert_eq!(manager.add_mod(plain_mod(2, "again")), Ok(2));
    assert_eq!(guids(&manager), vec![1, 3, 2]);
}

#[test]
fn identifiers_stay_unique_over_a_sequence_of_calls() {
    let mut manager = manager();
    for step in 0..200u128 {
        let guid = (step * 7) % 13;
        if step % 3 == 0 {
            manager.remove_mod(guid);
        } else {
            let _ = manager.add_mod(plain_mod(guid, "m"));
        }
        let mut seen = guids(&manager);
        seen.sort();
        let before = seen.len();
        seen.dedup();
        assert_eq!(seen.len(), before);
    }
}

#[test]
fn extraction_needs_a_regular_file() {
    assert_eq!(ModManager::extraction_name(false, "archive"), Err(AddError::NotAFile));
    assert_eq!(ModManager::extraction_name(true, "archive"), Ok("archive".to_owned()));
}

#[test]
fn manifest_of_an_archive_is_refused_if_its_guid_is_known() {
    let mut manager = manager();
    manager.add_mod(plain_mod(5, "five")).unwrap();
    let known = ModManifest::new(5, "other".to_owned(), String::new(), None, None, None);
    assert_eq!(manager.accept_manifest(&known), Err(AddError::AlreadyExists(5)));
    assert_eq!(guids(&manager), vec![5]);
    let fresh = ModManifest::new(6, "six".to_owned(), String::new(), None, None, None);
    assert_eq!(manager.accept_manifest(&fresh), Ok(("six".to_owned(), 6)));
    assert_eq!(guids(&manager), vec![5]);
}

#[test]
fn empty_archive_cannot_be_inferred() {
    let mut manager = manager();
    manager.add_mod(plain_mod(5, "five")).unwrap();
    assert_eq!(manager.infer_manifest("archive", &vec![], 0), Err(AddError::CanNotInferr));
    assert_eq!(guids(&manager), vec![5]);
    assert!(manager.infer_manifest("archive", &vec![], 1).is_ok());
    assert!(manager.infer_manifest("archive", &vec!["d".to_owned()], 0).is_ok());
}

#[test]
fn inferred_manifest_has_one_default_option() {
    let directories = vec!["Skin A".to_owned(), "Skin B".to_owned()];
    let manifest = ModManager::inferred_manifest(77, "My Mod", &directories);
    assert!(!manifest.is_legacy());
    assert_eq!(manifest.guid(), 77);
    assert_eq!(manifest.name(), "My Mod");
    assert_eq!(manifest.description(), "");
    assert_eq!(manifest.icon_path(), None);
    assert!(manifest.nexus_data().is_none());
    let options = manifest.options().unwrap();
    assert_eq!(options.len(), 1);
    assert_eq!(options[0].name(), "Default");
    assert_eq!(options[0].description(), "");
    assert_eq!(options[0].includes().unwrap(), [".".to_owned()]);
    let subs = options[0].sub_options().unwrap();
    assert_eq!(subs.len(), 2);
    assert_eq!(subs[0].name(), "Skin A");
    assert_eq!(subs[0].description(), "");
    assert_eq!(subs[0].includes(), ["Skin A".to_owned()]);
    assert_eq!(subs[1].name(), "Skin B");
    assert_eq!(subs[1].includes(), ["Skin B".to_owned()]);
}

#[test]
fn inference_differs_between_stores_in_the_guid_only() {
    let directories = vec!["x".to_owned(), "y".to_owned()];
    let mut one = manager();
    one.add_mod(plain_mod(1, "a")).unwrap();
    let other = manager();
    let first = one.infer_manifest("archive", &directories, 3).unwrap();
    let second = other.infer_manifest("archive", &directories, 0).unwrap();
    assert!(!one.has_mod(&first.guid()));
    assert!(!other.has_mod(&second.guid()));
    assert_eq!(first, ModManager::inferred_manifest(first.guid(), "archive", &directories));
    assert_eq!(second, ModManager::inferred_manifest(second.guid(), "archive", &directories));
    assert_eq!(ModManager::inferred_manifest(second.guid(), "archive", &directories).name(), first.name());
    assert_eq!(second.options(), first.options());
}

#[test]
fn unique_uuid_is_random_and_new_to_the_store() {
    let mut manager = manager();
    for _ in 0..50 {
        let guid = manager.make_unique_uuid();
        assert!(!manager.has_mod(&guid));
        assert_eq!(uuid::Uuid::from_u128(guid).get_version_num(), 4);
        assert_eq!(uuid::Uuid::from_u128(guid).get_variant(), uuid::Variant::RFC4122);
        assert_eq!(manager.add_mod(plain_mod(guid, "m")), Ok(guid));
    }
    assert_eq!(manager.mods().len(), 50);
}

#[test]
fn purge_picks_the_patch_files() {
    let files: Vec<String> = ["9ba626afa44a3aa3", "9ba626afa44a3aa3.patch_0", "a.patch_1.stream", "patch_", "spatch", "b.patch_2.gpu_resources"]
        .iter()
        .map(|name| name.to_string())
        .collect();
    assert_eq!(
        manager().purge(&files),
        vec!["9ba626afa44a3aa3.patch_0", "a.patch_1.stream", "patch_", "b.patch_2.gpu_resources"]
    );
    assert_eq!(manager().purge(&vec![]), Vec::<String>::new());
}

#[test]
fn add_profile_makes_an_empty_profile_with_a_safe_file_name() {
    let mut manager = manager();
    manager.add_profile("Default".to_owned());
    manager.add_profile("a/b:c*d?".to_owned());
    assert_eq!(manager.profiles().len(), 2);
    assert_eq!(manager.profiles()[0].manifest().name(), "Default");
    assert!(manager.profiles()[0].manifest().mods().is_empty());
    let home = std::path::Path::new(manager.profile_storage_path());
    assert_eq!(std::path::Path::new(manager.profiles()[0].path()), home.join("Default.json"));
    assert_eq!(manager.profiles()[1].manifest().name(), "a/b:c*d?");
    assert_eq!(std::path::Path::new(manager.profiles()[1].path()), home.join("abcd.json"));
    manager.add_profile_at("Third".to_owned(), "/elsewhere/third.json".to_owned());
    assert_eq!(manager.profiles()[2].path(), "/elsewhere/third.json");
    assert_eq!(manager.profiles()[2].manifest().name(), "Third");
    assert!(manager.mods().is_empty());
}

#[test]
fn profiles_can_be_changed_in_place() {
    let mut manager = manager();
    manager.add_profile("Default".to_owned());
    assert!(manager.profiles_mut()[0].manifest_mut().add_mod(&4, ModState::new(true, vec![], vec![])));
    assert!(manager.profiles()[0].manifest().get_state(&4).is_some());
    let mut profile = Profile::new(
        hd2mm_lib::manifests::profile_manifest::ProfileManifest::new("p".to_owned(), Default::default()),
        "p.json".to_owned(),
    );
    profile.manifest_mut().add_mod(&1, ModState::new(false, vec![], vec![]));
    assert_eq!(profile.manifest().mods(), vec![1]);
    assert_eq!(profile.path(), "p.json");
}

#[test]
fn contributions_follow_the_store_and_the_selection() {
    let mut manager = manager();
    manager.add_mod(plain_mod(1, "plain")).unwrap();
    manager.add_mod(mod_with_options(2, "rich")).unwrap();
    manager.add_mod(plain_mod(3, "unused")).unwrap();
    manager.add_profile("Default".to_owned());
    let profile = manager.profiles_mut()[0].manifest_mut();
    profile.add_mod(&2, ModState::new(true, vec![true, true, true], vec![0, 1, 0]));
    profile.add_mod(&1, ModState::new(false, vec![], vec![]));
    assert!(manager.fits_selection(0));
    let found = manager.contributions(0).unwrap();
    let root = "/storage/mods/rich".to_owned();
    assert_eq!(
        plan(&found),
        vec![
            ("/storage/mods/plain".to_owned(), None),
            (root.clone(), Some("base".to_owned())),
            (root.clone(), Some("more".to_owned())),
            (root.clone(), Some("b1".to_owned())),
            (root.clone(), Some("b2".to_owned())),
            (root.clone(), Some(".".to_owned())),
            (root.clone(), Some("c".to_owned())),
        ]
    );
}

#[test]
fn disabled_options_contribute_nothing() {
    let mut manager = manager();
    manager.add_mod(mod_with_options(2, "rich")).unwrap();
    manager.add_profile("Default".to_owned());
    manager.profiles_mut()[0].manifest_mut().add_mod(&2, ModState::new(true, vec![false, true, false], vec![9, 0, 9]));
    assert!(manager.fits_selection(0));
    let found = manager.contributions(0).unwrap();
    assert_eq!(plan(&found), vec![("/storage/mods/rich".to_owned(), Some("a".to_owned()))]);
    manager.profiles_mut()[0].manifest_mut().remove_mod(&2);
    manager.profiles_mut()[0].manifest_mut().add_mod(&2, ModState::new(true, vec![false, false, false], vec![]));
    assert!(manager.fits_selection(0));
    assert_eq!(plan(&manager.contributions(0).unwrap()), vec![]);
}

#[test]
fn guids_that_the_store_lacks_are_passed_over() {
    let mut manager = manager();
    manager.add_mod(plain_mod(1, "plain")).unwrap();
    manager.add_profile("With".to_owned());
    manager.add_profile("Without".to_owned());
    manager.profiles_mut()[0].manifest_mut().add_mod(&1, ModState::new(true, vec![], vec![]));
    manager.profiles_mut()[0].manifest_mut().add_mod(&99, ModState::new(true, vec![true], vec![5]));
    manager.profiles_mut()[1].manifest_mut().add_mod(&1, ModState::new(true, vec![], vec![]));
    assert!(manager.fits_selection(0));
    assert_eq!(plan(&manager.contributions(0).unwrap()), plan(&manager.contributions(1).unwrap()));
    assert_eq!(plan(&manager.contributions(0).unwrap()), vec![("/storage/mods/plain".to_owned(), None)]);
    manager.add_profile("Empty".to_owned());
    assert_eq!(plan(&manager.contributions(2).unwrap()), vec![]);
    assert_eq!(manager.deploy(2).unwrap().finish(), vec![]);
}

#[test]
fn selection_that_does_not_fit_is_told_apart() {
    let mut manager = manager();
    manager.add_mod(mod_with_options(2, "rich")).unwrap();
    for name in ["short", "no choice", "bad choice", "fine"] {
        manager.add_profile(name.to_owned());
    }
    manager.profiles_mut()[0].manifest_mut().add_mod(&2, ModState::new(true, vec![true, true], vec![0, 0]));
    manager.profiles_mut()[1].manifest_mut().add_mod(&2, ModState::new(true, vec![true, true, false], vec![0]));
    manager.profiles_mut()[2].manifest_mut().add_mod(&2, ModState::new(true, vec![true, true, false], vec![0, 2]));
    manager.profiles_mut()[3].manifest_mut().add_mod(&2, ModState::new(true, vec![true, false, false], vec![]));
    assert!(!manager.fits_selection(0));
    assert!(!manager.fits_selection(1));
    assert!(!manager.fits_selection(2));
    assert!(manager.fits_selection(3));
    assert!(manager.fits_selection(4));
}

#[test]
fn deploy_needs_a_profile() {
    let mut manager = manager();
    assert_eq!(manager.deploy(0).err(), Some(DeployError::ProfileNotFound(0)));
    assert_eq!(manager.contributions(3).map(|found| plan(&found)), Err(DeployError::ProfileNotFound(3)));
    manager.add_profile("Default".to_owned());
    assert_eq!(manager.deploy(1).err(), Some(DeployError::ProfileNotFound(1)));
    let begun = manager.deploy(0).unwrap();
    assert_eq!(begun.pending(), None);
    assert_eq!(begun.finish(), vec![]);
}

#[test]
fn deploy_groups_the_scanned_files() {
    let mut manager = manager();
    manager.add_mod(plain_mod(1, "plain")).unwrap();
    manager.add_mod(mod_with_options(2, "rich")).unwrap();
    manager.add_profile("Default".to_owned());
    let profile = manager.profiles_mut()[0].manifest_mut();
    profile.add_mod(&1, ModState::new(true, vec![], vec![]));
    profile.add_mod(&2, ModState::new(true, vec![false, true, false], vec![0, 0, 0]));
    assert!(manager.fits_selection(0));
    let files: Vec<String> = [
        "abcdef0123456789.patch_0",
        "abcdef0123456789.patch_0.stream",
        "abcdef0123456789.patch_0.gpu_resources",
    ]
    .iter()
    .map(|name| name.to_string())
    .collect();

    let mut deployment = manager.deploy(0).unwrap();
    let mut asked = Vec::new();
    while let Some(directory) = deployment.pending() {
        asked.push((directory.root().to_owned(), directory.relative().map(str::to_owned)));
        deployment = deployment.scanned(files.clone()).unwrap();
    }
    assert_eq!(asked, plan(&manager.contributions(0).unwrap()));
    assert_eq!(
        asked,
        vec![
            ("/storage/mods/plain".to_owned(), None),
            ("/storage/mods/rich".to_owned(), Some("a".to_owned())),
        ]
    );
    let groups = deployment.finish();
    assert_eq!(groups.len(), 1);
    assert_eq!(groups[0].name().iter().collect::<String>(), "abcdef0123456789");
    let triplets = groups[0].triplets();
    assert_eq!(triplets.len(), 2);
    assert_eq!(triplets[0].directory(), &Contribution::new("/storage/mods/plain".to_owned(), None));
    assert_eq!(triplets[1].directory(), &Contribution::new("/storage/mods/rich".to_owned(), Some("a".to_owned())));
    for triplet in triplets {
        assert_eq!(triplet.index(), 0);
        assert_eq!(triplet.toc_file(), Some("abcdef0123456789.patch_0"));
        assert_eq!(triplet.steam_file(), Some("abcdef0123456789.patch_0.stream"));
        assert_eq!(triplet.gpu_file(), Some("abcdef0123456789.patch_0.gpu_resources"));
    }

    let failing = manager.deploy(0).unwrap();
    assert_eq!(failing.scanned(vec!["short.patch_1".to_owned()]).err(), Some(DeployError::NameExtractError));
}

#[test]
fn store_error_messages() {
    assert_eq!(ModError::IOError("x".to_owned()).message(), "io error");
    assert_eq!(ModError::SerdeError("x".to_owned()).message(), "serde error");
    assert_eq!(ModError::ManifestError(ModManifestError::UnknownVersion(2)).message(), "manifest error");
    assert_eq!(ModManagerError::InvalidGamePath.message(), "invalid game path");
    assert_eq!(ModManagerError::InvalidTempPath.message(), "invalid temporary path");
    assert_eq!(ModManagerError::InvalidStoragePath.message(), "invalid storage path");
    assert_eq!(ModManagerError::IOError("x".to_owned()).message(), "io error");
    assert_eq!(
        ModManagerError::ModError("/m/a".to_owned(), ModError::IOError("x".to_owned())).message(),
        "error in mod \"/m/a\""
    );
    assert_eq!(AddError::NotAFile.message(), "given path is not a file");
    assert_eq!(AddError::IOError("x".to_owned()).message(), "io error");
    assert_eq!(AddError::ZipExtractError("x".to_owned()).message(), "zip extract error");
    assert_eq!(AddError::SerdeError("x".to_owned()).message(), "serde error");
    assert_eq!(
        AddError::AlreadyExists(0x010000aa_0000_4d2e_a838_2a78324a6ccb).message(),
        "mod with GUID `010000aa-0000-4d2e-a838-2a78324a6ccb` already exists"
    );
    assert_eq!(AddError::MoveDirError("x".to_owned()).message(), "move directory error");
    assert_eq!(AddError::CanNotInferr.message(), "can not inferr manifest");
    assert_eq!(AddError::ModError(ModError::IOError("x".to_owned())).message(), "mod error");
}

#[test]
fn test_deploy() {
    let mut manager = ModManager::new(
        game("D:/SteamLibrary/steamapps/common/Helldivers 2", Some("Helldivers 2"), true, true),
        Some(game("D:/SteamLibrary/steamapps/common", Some("common"), false, false)),
        directory("C:/Users/FloCo/AppData/Local/Helldivers2ModManager", true),
        directory("C:/Users/FloCo/AppData/Local/Temp/Helldivers2ModManager", true),
    )
    .unwrap();

    manager.add_profile("Default".to_string());

    let states = manager
        .mods()
        .iter()
        .map(|m| {
            let manifest = m.manifest();
            let options = Vec::with_capacity(manifest.options().map_or(0, |opts| opts.len()));
            let sub_options = Vec::with_capacity(manifest.options().map_or(0, |opts| opts.len()));
            (manifest.guid().clone(), ModState::new(true, options, sub_options))
        })
        .collect::<Vec<_>>();

    for (guid, state) in states {
        manager.profiles_mut()[0].manifest_mut().add_mod(&guid, state);
    }

    manager.deploy(0).unwrap();
}

#[test]
fn plan_for_an_archive_with_a_manifest() {
    let mut manager = manager();
    manager.add_mod(plain_mod(5, "five")).unwrap();
    let known = ExtractedArchive {
        manifest: Some(ModManifest::new(5, "other".to_owned(), String::new(), None, None, None)),
        directories: vec!["d".to_owned()],
        file_count: 2,
    };
    assert_eq!(manager.plan_ingest("archive", known), Err(AddError::AlreadyExists(5)));
    assert_eq!(guids(&manager), vec![5]);
    let fresh = ExtractedArchive {
        manifest: Some(ModManifest::new(6, "six".to_owned(), String::new(), None, None, None)),
        directories: vec![],
        file_count: 0,
    };
    let plan = manager.plan_ingest("archive", fresh).unwrap();
    assert_eq!(plan.name, "six");
    assert_eq!(plan.guid, 6);
    assert_eq!(plan.manifest_to_write, None);
    assert_eq!(guids(&manager), vec![5]);
}

#[test]
fn plan_for_an_archive_without_a_manifest() {
    let mut manager = manager();
    manager.add_mod(plain_mod(5, "five")).unwrap();
    let empty = ExtractedArchive { manifest: None, directories: vec![], file_count: 0 };
    assert_eq!(manager.plan_ingest("archive", empty), Err(AddError::CanNotInferr));
    assert_eq!(guids(&manager), vec![5]);
    let directories = vec!["A".to_owned(), "B".to_owned()];
    let found = ExtractedArchive { manifest: None, directories: directories.clone(), file_count: 1 };
    let plan = manager.plan_ingest("archive", found).unwrap();
    assert_eq!(plan.name, "archive");
    assert!(!manager.has_mod(&plan.guid));
    assert_eq!(
        plan.manifest_to_write,
        Some(ModManager::inferred_manifest(plan.guid, "archive", &directories))
    );
    let only_files = ExtractedArchive { manifest: None, directories: vec![], file_count: 3 };
    let plan = manager.plan_ingest("files", only_files).unwrap();
    let written = plan.manifest_to_write.unwrap();
    assert_eq!(written.options().unwrap()[0].sub_options().unwrap().len(), 0);
    assert_eq!(written.name(), "files");
}
