use hd2mm_lib::errors::{DeployError, IndexError};
use hd2mm_lib::resolver::{
    get_patch_index, get_patch_name, resolve_scans, Contribution, Deployment, DirectoryScan, PatchGroup,
};

fn scan(directory: &str, files: &[&str]) -> DirectoryScan {
    DirectoryScan::new(Contribution::new(directory.to_owned(), None), names(files))
}

fn names(files: &[&str]) -> Vec<String> {
    files.iter().map(|name| name.to_string()).collect()
}

fn hash(text: &str) -> [char; 16] {
    text.chars().collect::<Vec<char>>().try_into().unwrap()
}

fn group<'a>(groups: &'a [PatchGroup], name: &str) -> &'a PatchGroup {
    groups.iter().find(|group| group.name() == &hash(name)).unwrap()
}

#[test]
fn test_index_parsing() {
    let index = "9ba626afa44a3aa3.patch_12"
        .chars()
        .skip(16 + ".patch_".len())
        .take_while(|c| c.is_ascii_digit())
        .collect::<String>()
        .parse::<u32>()
        .unwrap();
    assert_eq!(index, 12);
    assert_eq!(get_patch_index("9ba626afa44a3aa3.patch_12"), Ok(12));
}

#[test]
fn patch_index_is_the_run_of_digits_after_the_mark() {
    assert_eq!(get_patch_index("9ba626afa44a3aa3.patch_0"), Ok(0));
    assert_eq!(get_patch_index("9ba626afa44a3aa3.patch_7.stream"), Ok(7));
    assert_eq!(get_patch_index("9ba626afa44a3aa3.patch_12.gpu_resources"), Ok(12));
    assert_eq!(get_patch_index("9ba626afa44a3aa3.patch_007"), Ok(7));
    assert_eq!(get_patch_index("9ba626afa44a3aa3.patch_12x34"), Ok(12));
    assert_eq!(get_patch_index("9ba626afa44a3aa3.patch_4294967295"), Ok(u32::MAX));
    assert_eq!(get_patch_index("9ba626afa44a3aa3.patch_00000000004294967295"), Ok(u32::MAX));
    assert_eq!(get_patch_index("9ba626afa44a3aa3XXXXXXX5"), Ok(5));
}

#[test]
fn patch_index_errors() {
    let empty = Err(DeployError::ParseIndexError(IndexError::Empty));
    let overflow = Err(DeployError::ParseIndexError(IndexError::PosOverflow));
    assert_eq!(get_patch_index("9ba626afa44a3aa3.patch_"), empty);
    assert_eq!(get_patch_index("9ba626afa44a3aa3.patch_x1"), empty);
    assert_eq!(get_patch_index("9ba626afa44a3aa3.patch_-1"), empty);
    assert_eq!(get_patch_index("9ba626afa44a3aa3.patch"), empty);
    assert_eq!(get_patch_index(""), empty);
    assert_eq!(get_patch_index("9ba626afa44a3aa3.patch_4294967296"), overflow);
    assert_eq!(get_patch_index("9ba626afa44a3aa3.patch_99999999999999999999999"), overflow);
    assert_eq!(get_patch_index("9ba626afa44a3aa3.patch_42949672950"), overflow);
}

#[test]
fn patch_name_is_the_first_sixteen_characters() {
    assert_eq!(get_patch_name("9ba626afa44a3aa3.patch_12"), Ok(hash("9ba626afa44a3aa3")));
    assert_eq!(get_patch_name("0123456789abcdef"), Ok(hash("0123456789abcdef")));
    assert_eq!(get_patch_name("äöü3456789abcdefgh"), Ok(hash("äöü3456789abcdef")));
    assert_eq!(get_patch_name("0123456789abcde"), Err(DeployError::NameExtractError));
    assert_eq!(get_patch_name(""), Err(DeployError::NameExtractError));
}

#[test]
fn three_files_of_one_patch_make_one_triplet() {
    let scan = scan("mods/a/Folder", &[
            "abcdef0123456789.patch_0",
            "abcdef0123456789.patch_0.stream",
            "abcdef0123456789.patch_0.gpu_resources",
        ]);
    assert_eq!(scan.directory().root(), "mods/a/Folder");
    assert_eq!(scan.directory().relative(), None);
    assert_eq!(scan.files().len(), 3);
    let groups = resolve_scans(&vec![scan]).unwrap();
    assert_eq!(groups.len(), 1);
    assert_eq!(groups[0].name(), &hash("abcdef0123456789"));
    let triplets = groups[0].triplets();
    assert_eq!(triplets.len(), 1);
    assert_eq!(triplets[0].directory(), &Contribution::new("mods/a/Folder".to_owned(), None));
    assert_eq!(triplets[0].index(), 0);
    assert_eq!(triplets[0].toc_file(), Some("abcdef0123456789.patch_0"));
    assert_eq!(triplets[0].steam_file(), Some("abcdef0123456789.patch_0.stream"));
    assert_eq!(triplets[0].gpu_file(), Some("abcdef0123456789.patch_0.gpu_resources"));
}

#[test]
fn slots_are_filled_independently() {
    let scan = scan("d", &[
            "readme.txt",
            "abcdef0123456789.patch_1.stream",
            "abcdef0123456789.patch_2",
            "abcdef0123456789.patch_2.gpu_resources",
            "abcdef0123456789.patch_3.bak",
        ]);
    let groups = resolve_scans(&vec![scan]).unwrap();
    assert_eq!(groups.len(), 1);
    let triplets = groups[0].triplets();
    assert_eq!(triplets.len(), 3);
    assert_eq!(triplets[0].index(), 1);
    assert_eq!(triplets[0].toc_file(), None);
    assert_eq!(triplets[0].steam_file(), Some("abcdef0123456789.patch_1.stream"));
    assert_eq!(triplets[0].gpu_file(), None);
    assert_eq!(triplets[1].index(), 2);
    assert_eq!(triplets[1].toc_file(), Some("abcdef0123456789.patch_2"));
    assert_eq!(triplets[1].steam_file(), None);
    assert_eq!(triplets[1].gpu_file(), Some("abcdef0123456789.patch_2.gpu_resources"));
    assert_eq!(triplets[2].index(), 3);
    assert_eq!(triplets[2].toc_file(), None);
    assert_eq!(triplets[2].steam_file(), None);
    assert_eq!(triplets[2].gpu_file(), None);
}

#[test]
fn groups_keep_the_order_in_which_they_were_met() {
    let first = scan("one", &["bbbbbbbbbbbbbbbb.patch_0", "aaaaaaaaaaaaaaaa.patch_0", "bbbbbbbbbbbbbbbb.patch_1"]);
    let second = scan("two", &["aaaaaaaaaaaaaaaa.patch_0", "cccccccccccccccc.patch_5.stream"]);
    let groups = resolve_scans(&vec![first, second]).unwrap();
    let order: Vec<String> = groups.iter().map(|group| group.name().iter().collect()).collect();
    assert_eq!(order, vec!["bbbbbbbbbbbbbbbb", "aaaaaaaaaaaaaaaa", "cccccccccccccccc"]);
    let b: Vec<(String, u32)> =
        group(&groups, "bbbbbbbbbbbbbbbb").triplets().iter().map(|t| (t.directory().root().to_owned(), t.index())).collect();
    assert_eq!(b, vec![("one".to_owned(), 0), ("one".to_owned(), 1)]);
    let a: Vec<(String, u32)> =
        group(&groups, "aaaaaaaaaaaaaaaa").triplets().iter().map(|t| (t.directory().root().to_owned(), t.index())).collect();
    assert_eq!(a, vec![("one".to_owned(), 0), ("two".to_owned(), 0)]);
    let c = group(&groups, "cccccccccccccccc").triplets();
    assert_eq!(c.len(), 1);
    assert_eq!(c[0].index(), 5);
    assert_eq!(c[0].toc_file(), None);
    assert_eq!(c[0].steam_file(), Some("cccccccccccccccc.patch_5.stream"));
}

#[test]
fn a_name_with_leading_zeros_fills_no_slot() {
    let scan = scan("d", &["abcdef0123456789.patch_007"]);
    let groups = resolve_scans(&vec![scan]).unwrap();
    let triplets = groups[0].triplets();
    assert_eq!(triplets.len(), 1);
    assert_eq!(triplets[0].index(), 7);
    assert_eq!(triplets[0].toc_file(), None);
}

#[test]
fn nothing_to_scan_gives_no_group() {
    assert_eq!(resolve_scans(&vec![]), Ok(vec![]));
    let scan = scan("d", &["a.txt", "patch_0", "b.patch"]);
    assert_eq!(resolve_scans(&vec![scan]), Ok(vec![]));
}

#[test]
fn malformed_patch_file_names_abort_the_resolution() {
    let short = scan("d", &["abcdef0123456789.patch_0", "x.patch_1"]);
    assert_eq!(resolve_scans(&vec![short]), Err(DeployError::NameExtractError));
    let no_index = scan("d", &["abcdef0123456789.patch_0", "abcdef0123456789.patch_"]);
    assert_eq!(resolve_scans(&vec![no_index]), Err(DeployError::ParseIndexError(IndexError::Empty)));
    let too_large = scan("d", &["abcdef0123456789.patch_4294967296"]);
    assert_eq!(resolve_scans(&vec![too_large]), Err(DeployError::ParseIndexError(IndexError::PosOverflow)));
    let both = scan("d", &["abcdef0123456789.patch_", ".patch_1"]);
    assert_eq!(resolve_scans(&vec![both]), Err(DeployError::NameExtractError));
    let fine = scan("c", &["abcdef0123456789.patch_0"]);
    let late = scan("d", &["abcdef0123456789.patch_x"]);
    assert_eq!(resolve_scans(&vec![fine, late]), Err(DeployError::ParseIndexError(IndexError::Empty)));
}

#[test]
fn deploy_error_messages() {
    assert_eq!(DeployError::IOError("x".to_owned()).message(), "io error");
    assert_eq!(DeployError::ProfileNotFound(3).message(), "profile 3 not found");
    assert_eq!(DeployError::ProfileNotFound(120).message(), "profile 120 not found");
    assert_eq!(DeployError::NameExtractError.message(), "error extracting toc name");
    assert_eq!(DeployError::ParseIndexError(IndexError::Empty).message(), "");
}

#[test]
fn deployment_asks_for_each_directory_in_turn() {
    let plan = vec![
        Contribution::new("mods/a".to_owned(), Some("base".to_owned())),
        Contribution::new("mods/b".to_owned(), None),
    ];
    let deployment = Deployment::new(plan);
    assert_eq!(deployment.pending(), Some(&Contribution::new("mods/a".to_owned(), Some("base".to_owned()))));
    assert!(deployment.groups().is_empty());
    let deployment = deployment
        .scanned(names(&["abcdef0123456789.patch_0", "abcdef0123456789.patch_0.stream", "notes.txt"]))
        .unwrap();
    assert_eq!(deployment.pending(), Some(&Contribution::new("mods/b".to_owned(), None)));
    assert_eq!(deployment.groups().len(), 1);
    let deployment = deployment.scanned(names(&["abcdef0123456789.patch_0", "0123456789abcdef.patch_3"])).unwrap();
    assert_eq!(deployment.pending(), None);
    let deployment = deployment.scanned(names(&["short.patch_1"])).unwrap();
    assert_eq!(deployment.pending(), None);
    let groups = deployment.finish();
    assert_eq!(groups.len(), 2);
    let first = group(&groups, "abcdef0123456789").triplets();
    assert_eq!(first.len(), 2);
    assert_eq!(first[0].directory().root(), "mods/a");
    assert_eq!(first[0].directory().relative(), Some("base"));
    assert_eq!(first[0].steam_file(), Some("abcdef0123456789.patch_0.stream"));
    assert_eq!(first[1].directory().root(), "mods/b");
    assert_eq!(first[1].directory().relative(), None);
    assert_eq!(first[1].steam_file(), None);
    let second = group(&groups, "0123456789abcdef").triplets();
    assert_eq!(second.len(), 1);
    assert_eq!(second[0].index(), 3);
}

#[test]
fn deployment_agrees_with_the_grouping_of_its_scans() {
    let listings = [
        names(&["bbbbbbbbbbbbbbbb.patch_0", "aaaaaaaaaaaaaaaa.patch_0"]),
        names(&["aaaaaaaaaaaaaaaa.patch_0", "aaaaaaaaaaaaaaaa.patch_1.gpu_resources"]),
    ];
    let plan = || vec![Contribution::new("one".to_owned(), None), Contribution::new("two".to_owned(), None)];
    let mut deployment = Deployment::new(plan());
    for files in listings.iter() {
        deployment = deployment.scanned(files.clone()).unwrap();
    }
    let scans: Vec<DirectoryScan> =
        plan().into_iter().zip(listings.iter()).map(|(directory, files)| DirectoryScan::new(directory, files.clone())).collect();
    assert_eq!(deployment.finish(), resolve_scans(&scans).unwrap());
}

#[test]
fn deployment_ends_on_a_malformed_name() {
    let deployment = Deployment::new(vec![Contribution::new("one".to_owned(), None)]);
    assert_eq!(
        deployment.scanned(names(&["abcdef0123456789.patch_x"])).err(),
        Some(DeployError::ParseIndexError(IndexError::Empty))
    );
    let deployment = Deployment::new(vec![Contribution::new("one".to_owned(), None)]);
    assert_eq!(deployment.scanned(names(&["x.patch_0"])).err(), Some(DeployError::NameExtractError));
    assert_eq!(Deployment::new(vec![]).finish(), vec![]);
}

#[test]
fn contribution_builder_and_getters_agree() {
    let contribution = Contribution::new("root".to_owned(), Some("under".to_owned()));
    assert_eq!(contribution.root(), "root");
    assert_eq!(contribution.relative(), Some("under"));
    assert_eq!(contribution.duplicate(), contribution);
    assert_eq!(Contribution::new("root".to_owned(), None).relative(), None);
}
