//! The mod store and the profiles, held by one manager.

use vstd::prelude::*;
use crate::errors::{AddError, DeployError, ModError, ModManagerError};
use crate::guid::{fresh_guid, Guid};
use std::collections::HashMap;
use crate::manifests::mod_manifest::{
    ManifestView,
    ModManifest,
    ModOption,
    ModSubOption,
    OptionView,
    SubOptionView,
};
use crate::manifests::profile_manifest::{ModState, ModStateView, ProfileManifest, ProfileView};
use crate::paths::{join_path, sanitize_file_name};
use crate::resolver::{Contribution, ContributionView, Deployment, DeploymentView};
use crate::text::{containing, optional_view, select_containing, str_eq, views};

verus! {

/// A mod in the store: its manifest and the directory that holds its files.
#[derive(Debug, PartialEq, Eq)]
pub struct Mod {
    manifest: ModManifest,
    path: String,
}

/// Mathematical model of a [`Mod`].
pub struct ModView {
    pub manifest: ManifestView,
    pub path: Seq<char>,
}

impl View for Mod {
    type V = ModView;

    closed spec fn view(&self) -> ModView {
        ModView { manifest: self.manifest@, path: self.path@ }
    }
}

impl Mod {
    /// Binds a manifest to the directory that holds the files of the mod.
    pub fn new(manifest: ModManifest, path: String) -> (r: Self)
        ensures
            r@ == (ModView { manifest: manifest@, path: path@ }),
    {
        Self { manifest, path }
    }

    pub fn manifest(&self) -> (r: &ModManifest)
        ensures
            r@ == self@.manifest,
    {
        &self.manifest
    }

    pub fn path(&self) -> (r: &str)
        ensures
            r@ == self@.path,
    {
        self.path.as_str()
    }
}

/// A profile: its manifest and the file that keeps it.
#[derive(Debug, PartialEq, Eq)]
pub struct Profile {
    manifest: ProfileManifest,
    path: String,
}

/// Mathematical model of a [`Profile`].
pub struct StoredProfileView {
    pub manifest: ProfileView,
    pub path: Seq<char>,
}

impl View for Profile {
    type V = StoredProfileView;

    closed spec fn view(&self) -> StoredProfileView {
        StoredProfileView { manifest: self.manifest@, path: self.path@ }
    }
}

impl Profile {
    pub fn new(manifest: ProfileManifest, path: String) -> (r: Self)
        ensures
            r@ == (StoredProfileView { manifest: manifest@, path: path@ }),
    {
        Self { manifest, path }
    }

    pub fn manifest_mut(&mut self) -> (r: &mut ProfileManifest)
        ensures
            r@ == old(self)@.manifest,
            final(self)@ == (StoredProfileView { manifest: final(r)@, path: old(self)@.path }),
    {
        &mut self.manifest
    }

    pub fn manifest(&self) -> (r: &ProfileManifest)
        ensures
            r@ == self@.manifest,
    {
        &self.manifest
    }

    pub fn path(&self) -> (r: &str)
        ensures
            r@ == self@.path,
    {
        self.path.as_str()
    }
}

/// The engine: the paths it works on, the mod store and the profiles.
#[derive(Debug, PartialEq, Eq)]
pub struct ModManager {
    mods: Vec<Mod>,
    profiles: Vec<Profile>,
    game_path: String,
    storage_path: String,
    temp_path: String,
    mod_storage_path: String,
    profile_storage_path: String,
}

/// Mathematical model of a [`ModManager`].
pub struct ManagerView {
    /// The mod store, in the order in which the mods came into it.
    pub mods: Seq<ModView>,
    pub profiles: Seq<StoredProfileView>,
    pub game_path: Seq<char>,
    pub storage_path: Seq<char>,
    pub temp_path: Seq<char>,
    pub mod_storage_path: Seq<char>,
    pub profile_storage_path: Seq<char>,
}

/// The place of the first mod with an identifier among `mods`, or their
/// number where there is none.
pub open spec fn position(mods: Seq<ModView>, guid: Guid) -> int
    decreases mods.len(),
{
    if mods.len() == 0 {
        0
    } else if mods[0].manifest.guid() == guid {
        0
    } else {
        1 + position(mods.drop_first(), guid)
    }
}

/// Whether one of `mods` has the identifier.
pub open spec fn holds(mods: Seq<ModView>, guid: Guid) -> bool {
    exists|i: int| 0 <= i < mods.len() && #[trigger] mods[i].manifest.guid() == guid
}

/// Whether no two of `mods` share an identifier.
pub open spec fn unique_guids(mods: Seq<ModView>) -> bool {
    forall|i: int, j: int|
        0 <= i < j < mods.len() ==> #[trigger] mods[i].manifest.guid()
            != #[trigger] mods[j].manifest.guid()
}

impl ManagerView {
    pub open spec fn has_mod(self, guid: Guid) -> bool {
        holds(self.mods, guid)
    }

    /// Whether no two mods in the store share an identifier.
    pub open spec fn unique(self) -> bool {
        unique_guids(self.mods)
    }
}

/// What `position` says: the place it names is within `mods` exactly if a
/// mod has the identifier, that mod is the first that has it.
pub proof fn lemma_position(mods: Seq<ModView>, guid: Guid)
    ensures
        0 <= position(mods, guid) <= mods.len(),
        position(mods, guid) < mods.len() <==> holds(mods, guid),
        position(mods, guid) < mods.len() ==> mods[position(mods, guid)].manifest.guid() == guid,
        forall|j: int| 0 <= j < position(mods, guid) ==> mods[j].manifest.guid() != guid,
    decreases mods.len(),
{
    if mods.len() > 0 && mods[0].manifest.guid() != guid {
        let rest = mods.drop_first();
        lemma_position(rest, guid);
        assert forall|j: int| 0 <= j < position(mods, guid) implies mods[j].manifest.guid()
            != guid by {
            if j > 0 {
                assert(rest[j - 1] == mods[j]);
            }
        }
    }
}

impl View for ModManager {
    type V = ManagerView;

    closed spec fn view(&self) -> ManagerView {
        ManagerView {
            mods: views(self.mods@),
            profiles: views(self.profiles@),
            game_path: self.game_path@,
            storage_path: self.storage_path@,
            temp_path: self.temp_path@,
            mod_storage_path: self.mod_storage_path@,
            profile_storage_path: self.profile_storage_path@,
        }
    }
}

impl ModManager {
    fn find(&self, guid: Guid) -> (at: usize)
        ensures
            at == position(self@.mods, guid),
    {
        proof {
            lemma_position(self@.mods, guid);
        }
        let ghost place = position(self@.mods, guid);
        let mut at: usize = 0;
        while at < self.mods.len()
            invariant
                at <= self.mods@.len(),
                at <= place == position(self@.mods, guid),
                self@.mods == views(self.mods@),
                place < self.mods@.len() ==> self@.mods[place].manifest.guid() == guid,
                forall|j: int| 0 <= j < place ==> self@.mods[j].manifest.guid() != guid,
            decreases self.mods@.len() - at,
        {
            if self.mods[at].manifest().guid() == guid {
                assert(self@.mods[at as int].manifest.guid() == guid);
                return at;
            }
            at += 1;
        }
        at
    }

    /// Whether the store holds a mod with the identifier.
    pub fn has_mod(&self, uuid: &Guid) -> (r: bool)
        ensures
            r == self@.has_mod(*uuid),
    {
        proof {
            lemma_position(self@.mods, *uuid);
        }
        self.find(*uuid) < self.mods.len()
    }

    /// The first mod in the store with the identifier.
    pub fn get_mod(&self, guid: &Guid) -> (r: Option<&Mod>)
        ensures
            match r {
                Some(found) => self@.has_mod(*guid) && found@ == self@.mods[position(
                    self@.mods,
                    *guid,
                )],
                None => !self@.has_mod(*guid),
            },
    {
        proof {
            lemma_position(self@.mods, *guid);
        }
        let at = self.find(*guid);
        if at < self.mods.len() {
            Some(&self.mods[at])
        } else {
            None
        }
    }

    pub fn mods(&self) -> (r: &[Mod])
        ensures
            views(r@) == self@.mods,
    {
        self.mods.as_slice()
    }

    pub fn profiles_mut(&mut self) -> (r: &mut [Profile])
        ensures
            views(r@) == old(self)@.profiles,
            final(self)@ == (ManagerView { profiles: views(final(r)@), ..old(self)@ }),
    {
        self.profiles.as_mut_slice()
    }

    pub fn profiles(&self) -> (r: &[Profile])
        ensures
            views(r@) == self@.profiles,
    {
        self.profiles.as_slice()
    }

    pub fn game_path(&self) -> (r: &str)
        ensures
            r@ == self@.game_path,
    {
        self.game_path.as_str()
    }

    pub fn storage_path(&self) -> (r: &str)
        ensures
            r@ == self@.storage_path,
    {
        self.storage_path.as_str()
    }

    pub fn temp_path(&self) -> (r: &str)
        ensures
            r@ == self@.temp_path,
    {
        self.temp_path.as_str()
    }

    pub fn mod_storage_path(&self) -> (r: &str)
        ensures
            r@ == self@.mod_storage_path,
    {
        self.mod_storage_path.as_str()
    }

    pub fn profile_storage_path(&self) -> (r: &str)
        ensures
            r@ == self@.profile_storage_path,
    {
        self.profile_storage_path.as_str()
    }
}

/// A store that holds each of the numbers `0` to `count - 1` as an
/// identifier holds at least `count` mods.
pub proof fn lemma_store_holds_range(mods: Seq<ModView>, count: nat)
    requires
        forall|g: Guid| g < count ==> #[trigger] holds(mods, g),
        count <= u128::MAX,
    ensures
        count <= mods.len(),
{
    let numbers = mods.map_values(|m: ModView| m.manifest.guid() as int);
    let range = vstd::set_lib::set_int_range(0, count as int);
    assert forall|g: int| range.contains(g) implies numbers.to_set().contains(g) by {
        assert(holds(mods, g as Guid));
        let i = choose|i: int| 0 <= i < mods.len() && mods[i].manifest.guid() == g as Guid;
        assert(numbers[i] == g);
    }
    vstd::set_lib::lemma_int_range(0, count as int);
    numbers.lemma_cardinality_of_set();
    vstd::set_lib::lemma_len_subset(range, numbers.to_set());
}

/// The store after a mod was added to it: the mod stands at its end,
/// unless the store held its identifier already.
pub open spec fn added(mods: Seq<ModView>, loaded: ModView) -> Seq<ModView> {
    if holds(mods, loaded.manifest.guid()) {
        mods
    } else {
        mods.push(loaded)
    }
}

/// The store after the mod with an identifier was removed from it: the
/// first mod with the identifier is gone, and the others keep their order.
pub open spec fn removed(mods: Seq<ModView>, guid: Guid) -> Seq<ModView> {
    if holds(mods, guid) {
        mods.remove(position(mods, guid))
    } else {
        mods
    }
}

/// A call that changes the store.
pub enum StoreCall {
    Add(ModView),
    Remove(Guid),
}

/// The store after a call.
pub open spec fn after_call(mods: Seq<ModView>, call: StoreCall) -> Seq<ModView> {
    match call {
        StoreCall::Add(loaded) => added(mods, loaded),
        StoreCall::Remove(guid) => removed(mods, guid),
    }
}

/// The store after a sequence of calls.
pub open spec fn after_calls(mods: Seq<ModView>, calls: Seq<StoreCall>) -> Seq<ModView>
    decreases calls.len(),
{
    if calls.len() == 0 {
        mods
    } else {
        after_call(after_calls(mods, calls.drop_last()), calls.last())
    }
}

/// Adding a mod keeps the identifiers unique.
pub proof fn lemma_added_keeps_guids_unique(mods: Seq<ModView>, loaded: ModView)
    requires
        unique_guids(mods),
    ensures
        unique_guids(added(mods, loaded)),
{
}

/// Removing a mod keeps the identifiers unique, and its identifier is then
/// no longer in the store.
pub proof fn lemma_removed_keeps_guids_unique(mods: Seq<ModView>, guid: Guid)
    requires
        unique_guids(mods),
    ensures
        unique_guids(removed(mods, guid)),
        !holds(removed(mods, guid), guid),
{
    lemma_position(mods, guid);
}

/// No sequence of additions and removals makes two mods of the store share
/// an identifier.
pub proof fn lemma_calls_keep_guids_unique(mods: Seq<ModView>, calls: Seq<StoreCall>)
    requires
        unique_guids(mods),
    ensures
        unique_guids(after_calls(mods, calls)),
    decreases calls.len(),
{
    if calls.len() > 0 {
        lemma_calls_keep_guids_unique(mods, calls.drop_last());
        let before = after_calls(mods, calls.drop_last());
        match calls.last() {
            StoreCall::Add(loaded) => lemma_added_keeps_guids_unique(before, loaded),
            StoreCall::Remove(guid) => lemma_removed_keeps_guids_unique(before, guid),
        }
    }
}

impl ModManager {
    /// Takes a mod out of the store, if the store holds one with the
    /// identifier, and hands it out; a store that holds none is left as it
    /// is. The other mods keep their order. Identifiers that were unique
    /// stay so, and the one that left is then no longer in the store.
    pub fn remove_mod(&mut self, guid: Guid) -> (r: Option<Mod>)
        ensures
            final(self)@ == (ManagerView { mods: removed(old(self)@.mods, guid), ..old(self)@ }),
            match r {
                Some(taken) => old(self)@.has_mod(guid) && taken@ == old(self)@.mods[position(
                    old(self)@.mods,
                    guid,
                )],
                None => !old(self)@.has_mod(guid),
            },
            old(self)@.unique() ==> final(self)@.unique() && !final(self)@.has_mod(guid),
    {
        proof {
            lemma_position(self@.mods, guid);
        }
        let at = self.find(guid);
        if at < self.mods.len() {
            let ghost before = self@.mods;
            let taken = self.mods.remove(at);
            assert(views(self.mods@) == before.remove(at as int));
            Some(taken)
        } else {
            None
        }
    }

    /// Adds a loaded mod at the end of the store and hands out its
    /// identifier. A mod whose identifier the store holds already is
    /// refused, and the store is left as it is. Identifiers that were unique
    /// stay so.
    pub fn add_mod(&mut self, loaded: Mod) -> (r: Result<Guid, AddError>)
        ensures
            final(self)@ == (ManagerView { mods: added(old(self)@.mods, loaded@), ..old(self)@ }),
            match r {
                Ok(guid) => guid == loaded@.manifest.guid() && !old(self)@.has_mod(guid),
                Err(e) => {
                    &&& e == AddError::AlreadyExists(loaded@.manifest.guid())
                    &&& old(self)@.has_mod(loaded@.manifest.guid())
                    &&& final(self)@ == old(self)@
                },
            },
            old(self)@.unique() ==> final(self)@.unique(),
    {
        let guid = loaded.manifest().guid();
        if self.has_mod(&guid) {
            return Err(AddError::AlreadyExists(guid));
        }
        let ghost before = self@.mods;
        self.mods.push(loaded);
        assert(views(self.mods@) == before.push(loaded@));
        Ok(guid)
    }

    /// The smallest number that no mod in the store has as its identifier.
    fn first_unused_guid(&self) -> (r: Guid)
        ensures
            !self@.has_mod(r),
    {
        let size = self.mods.len();
        let mut candidate: u128 = 0;
        while self.has_mod(&candidate)
            invariant
                forall|g: Guid| g < candidate ==> #[trigger] holds(self@.mods, g),
                candidate <= self@.mods.len(),
                self@.mods.len() == size,
            decreases self@.mods.len() - candidate,
        {
            proof {
                lemma_store_holds_range(self@.mods, (candidate + 1) as nat);
            }
            candidate += 1;
        }
        candidate
    }

    /// An identifier that no mod in the store has. Random identifiers are
    /// drawn until one is new to the store.
    pub fn make_unique_uuid(&self) -> (r: Guid)
        ensures
            !self@.has_mod(r),
    {
        let mut draws: u64 = 0;
        while draws < u64::MAX
            invariant
                draws <= u64::MAX,
            decreases u64::MAX - draws,
        {
            let uuid = fresh_guid();
            if !self.has_mod(&uuid) {
                return uuid;
            }
            draws += 1;
        }
        self.first_unused_guid()
    }
}

/// The manifest that is made for an archive without one: it bears the name
/// of the archive, and has one option, `Default`, which contributes the
/// directory of the mod itself and offers one sub-option for each directory
/// of the archive, named after that directory and contributing it.
pub open spec fn inferred(guid: Guid, name: Seq<char>, directories: Seq<Seq<char>>) -> ManifestView {
    ManifestView::V1 {
        guid,
        name,
        description: Seq::empty(),
        icon_path: None,
        options: Some(
            seq![
                OptionView {
                    name: "Default"@,
                    description: Seq::empty(),
                    includes: Some(seq!["."@]),
                    sub_options: Some(
                        Seq::new(
                            directories.len(),
                            |i: int|
                                SubOptionView {
                                    name: directories[i],
                                    description: Seq::empty(),
                                    includes: seq![directories[i]],
                                },
                        ),
                    ),
                },
            ],
        ),
        nexus_data: None,
    }
}

/// What is inferred for an archive does not depend on the store: two
/// inferences from the same name and directories differ in nothing but the
/// identifier that each of them was given.
pub proof fn lemma_inference_is_deterministic(
    first: Guid,
    second: Guid,
    name: Seq<char>,
    directories: Seq<Seq<char>>,
)
    ensures
        inferred(first, name, directories).guid() == first,
        inferred(second, name, directories).guid() == second,
        inferred(first, name, directories).is_legacy() == inferred(
            second,
            name,
            directories,
        ).is_legacy(),
        inferred(first, name, directories).name() == inferred(second, name, directories).name(),
        inferred(first, name, directories).description() == inferred(
            second,
            name,
            directories,
        ).description(),
        inferred(first, name, directories).icon_path() == inferred(
            second,
            name,
            directories,
        ).icon_path(),
        inferred(first, name, directories).options() == inferred(
            second,
            name,
            directories,
        ).options(),
        inferred(first, name, directories).nexus_data() == inferred(
            second,
            name,
            directories,
        ).nexus_data(),
{
}

/// What the extraction of an archive has brought.
#[derive(Debug, PartialEq, Eq)]
pub struct ExtractedArchive {
    /// The manifest of the archive, if it has one.
    pub manifest: Option<ModManifest>,
    /// The names of the directories that stand directly in the archive.
    pub directories: Vec<String>,
    /// How many files stand directly in the archive.
    pub file_count: usize,
}

/// What is to be done with an extracted archive.
#[derive(Debug, PartialEq, Eq)]
pub struct IngestPlan {
    /// The name of the directory of the mod in the storage.
    pub name: String,
    /// The identifier that the mod will have in the store.
    pub guid: Guid,
    /// The manifest to write into the extracted directory as a new file,
    /// where the archive has none of its own.
    pub manifest_to_write: Option<ModManifest>,
}

impl ModManager {
    /// Decides whether an archive can be extracted, and under which name
    /// its temporary directory is made: that of the archive without its
    /// extension. What is no regular file is refused.
    pub fn extraction_name(is_file: bool, archive_stem: &str) -> (r: Result<String, AddError>)
        ensures
            match r {
                Ok(name) => is_file && name@ == archive_stem@,
                Err(e) => !is_file && e == AddError::NotAFile,
            },
    {
        if !is_file {
            Err(AddError::NotAFile)
        } else {
            Ok(archive_stem.to_owned())
        }
    }

    /// Decides whether the mod of an archive that brings its own manifest
    /// can come into the store, and gives the name of its directory there
    /// and its identifier. A manifest whose identifier the store holds
    /// already is refused.
    pub fn accept_manifest(&self, manifest: &ModManifest) -> (r: Result<(String, Guid), AddError>)
        ensures
            match r {
                Ok((name, guid)) => {
                    &&& !self@.has_mod(guid)
                    &&& guid == manifest@.guid()
                    &&& name@ == manifest@.name()
                },
                Err(e) => self@.has_mod(manifest@.guid()) && e == AddError::AlreadyExists(
                    manifest@.guid(),
                ),
            },
    {
        let guid = manifest.guid();
        if self.has_mod(&guid) {
            Err(AddError::AlreadyExists(guid))
        } else {
            Ok((manifest.name().to_owned(), guid))
        }
    }

    /// The manifest that is inferred for an archive of the given name and
    /// directories, under the given identifier.
    pub fn inferred_manifest(guid: Guid, archive_stem: &str, directories: &Vec<String>) -> (r:
        ModManifest)
        ensures
            r@ == inferred(guid, archive_stem@, views(directories@)),
    {
        let mut subs: Vec<ModSubOption> = Vec::new();
        let mut i: usize = 0;
        while i < directories.len()
            invariant
                i <= directories@.len(),
                subs@.len() == i,
                forall|j: int|
                    0 <= j < i ==> (#[trigger] subs@[j])@ == (SubOptionView {
                        name: directories@[j]@,
                        description: Seq::empty(),
                        includes: seq![directories@[j]@],
                    }),
            decreases directories@.len() - i,
        {
            let paths: Vec<String> = vec![directories[i].clone()];
            assert(views(paths@) == seq![directories@[i as int]@]);
            subs.push(ModSubOption::new(directories[i].clone(), String::new(), paths));
            i += 1;
        }
        let root: Vec<String> = vec![".".to_owned()];
        assert(views(root@) == seq!["."@]);
        let ghost expected = inferred(guid, archive_stem@, views(directories@));
        assert(views(subs@) == expected.options()->0[0].sub_options->0);
        let option = ModOption::new("Default".to_owned(), String::new(), Some(root), Some(subs));
        let options: Vec<ModOption> = vec![option];
        assert(views(options@) == expected.options()->0);
        ModManifest::new(guid, archive_stem.to_owned(), String::new(), None, Some(options), None)
    }

    /// Infers a manifest for an archive that brings none, from the name of
    /// the archive and from what stands directly in it. An archive that
    /// holds neither a directory nor a file is refused. The identifier is
    /// new to the store.
    pub fn infer_manifest(
        &self,
        archive_stem: &str,
        directories: &Vec<String>,
        file_count: usize,
    ) -> (r: Result<ModManifest, AddError>)
        ensures
            match r {
                Ok(manifest) => {
                    &&& !(directories@.len() == 0 && file_count == 0)
                    &&& !self@.has_mod(manifest@.guid())
                    &&& manifest@ == inferred(
                        manifest@.guid(),
                        archive_stem@,
                        views(directories@),
                    )
                },
                Err(e) => directories@.len() == 0 && file_count == 0 && e == AddError::CanNotInferr,
            },
    {
        if directories.len() == 0 && file_count == 0 {
            return Err(AddError::CanNotInferr);
        }
        let guid = self.make_unique_uuid();
        Ok(Self::inferred_manifest(guid, archive_stem, directories))
    }

    /// Decides what becomes of an extracted archive. With a manifest of its
    /// own, the mod keeps the name and the identifier of that manifest, and
    /// is refused if the store holds the identifier already. Without one, a
    /// manifest is inferred, which has then to be written into the
    /// extracted directory; an archive that holds neither a directory nor a
    /// file is refused.
    pub fn plan_ingest(&self, archive_stem: &str, found: ExtractedArchive) -> (r: Result<
        IngestPlan,
        AddError,
    >)
        ensures
            match found.manifest {
                Some(manifest) => match r {
                    Ok(plan) => {
                        &&& !self@.has_mod(manifest@.guid())
                        &&& plan.guid == manifest@.guid()
                        &&& plan.name@ == manifest@.name()
                        &&& plan.manifest_to_write is None
                    },
                    Err(e) => self@.has_mod(manifest@.guid()) && e == AddError::AlreadyExists(
                        manifest@.guid(),
                    ),
                },
                None => match r {
                    Ok(plan) => {
                        &&& !(found.directories@.len() == 0 && found.file_count == 0)
                        &&& !self@.has_mod(plan.guid)
                        &&& plan.name@ == archive_stem@
                        &&& plan.manifest_to_write matches Some(manifest) && manifest@ == inferred(
                            plan.guid,
                            archive_stem@,
                            views(found.directories@),
                        )
                    },
                    Err(e) => found.directories@.len() == 0 && found.file_count == 0 && e
                        == AddError::CanNotInferr,
                },
            },
    {
        match &found.manifest {
            Some(manifest) => {
                let (name, guid) = match self.accept_manifest(manifest) {
                    Ok(accepted) => accepted,
                    Err(e) => {
                        return Err(e);
                    },
                };
                Ok(IngestPlan { name, guid, manifest_to_write: None })
            },
            None => {
                let manifest = match self.infer_manifest(
                    archive_stem,
                    &found.directories,
                    found.file_count,
                ) {
                    Ok(manifest) => manifest,
                    Err(e) => {
                        return Err(e);
                    },
                };
                Ok(
                    IngestPlan {
                        name: manifest.name().to_owned(),
                        guid: manifest.guid(),
                        manifest_to_write: Some(manifest),
                    },
                )
            },
        }
    }

    /// The files to delete before a deployment: those among the files of
    /// the data directory of the game whose name holds `patch_`.
    pub fn purge(&self, data_files: &Vec<String>) -> (r: Vec<String>)
        ensures
            views(r@) == containing(views(data_files@), "patch_"@),
    {
        select_containing(data_files, "patch_")
    }

    /// Adds an empty profile that is kept in the given file.
    pub fn add_profile_at(&mut self, name: String, path: String)
        ensures
            final(self)@ == (ManagerView {
                profiles: old(self)@.profiles.push(
                    StoredProfileView {
                        manifest: ProfileView { name: name@, mods: Map::empty() },
                        path: path@,
                    },
                ),
                ..old(self)@
            }),
    {
        let ghost before = self@.profiles;
        let mods: HashMap<Guid, ModState> = HashMap::new();
        assert(mods@.map_values(|state: ModState| state@) == Map::<Guid, ModStateView>::empty());
        let profile = Profile::new(ProfileManifest::new(name, mods), path);
        self.profiles.push(profile);
        assert(views(self.profiles@) == before.push(profile@));
    }

    /// Adds an empty profile. The file that keeps it stands in the
    /// directory of the profiles; its name is made of the name of the
    /// profile and the ending `.json`, without what may not stand in a file
    /// name.
    pub fn add_profile(&mut self, name: String)
        ensures
            final(self)@.profiles.len() == old(self)@.profiles.len() + 1,
            final(self)@.profiles.drop_last() == old(self)@.profiles,
            final(self)@.profiles.last().manifest == (ProfileView {
                name: name@,
                mods: Map::empty(),
            }),
            final(self)@ == (ManagerView { profiles: final(self)@.profiles, ..old(self)@ }),
    {
        let mut file_name = name.clone();
        file_name.append(".json");
        let file_name = sanitize_file_name(file_name.as_str());
        let path = join_path(self.profile_storage_path.as_str(), file_name.as_str());
        self.add_profile_at(name, path);
    }
}

/// What was found at a path that may be the directory of the game.
#[derive(Debug, PartialEq, Eq)]
pub struct GamePathProbe {
    /// The path.
    pub path: String,
    /// Its last component, if it has one.
    pub file_name: Option<String>,
    /// Whether `data` under it is a directory.
    pub has_data: bool,
    /// Whether `bin` under it is a directory.
    pub has_bin: bool,
}

/// What was found at a path that is to be a directory.
#[derive(Debug, PartialEq, Eq)]
pub struct DirectoryProbe {
    /// The path.
    pub path: String,
    /// Whether it exists and is a directory.
    pub is_directory: bool,
}

/// Whether the last component of a path is the name of the directory of
/// the game.
pub open spec fn named_for_game(file_name: Option<String>) -> bool {
    file_name matches Some(name) && name@ == "Helldivers 2"@
}

/// Whether what was found at a path is the directory of the game: it bears
/// the name of the game and holds the directories `data` and `bin`.
pub open spec fn is_game_directory(probe: GamePathProbe) -> bool {
    named_for_game(probe.file_name) && probe.has_data && probe.has_bin
}

/// The directory of the game that a given path stands for, if any: the path
/// itself where it bears the name of the game, else the directory above it;
/// and that only where it is the directory of the game.
pub open spec fn game_path_of(given: GamePathProbe, parent: Option<GamePathProbe>) -> Option<
    Seq<char>,
> {
    if named_for_game(given.file_name) {
        if is_game_directory(given) {
            Some(given.path@)
        } else {
            None
        }
    } else {
        match parent {
            Some(above) => if is_game_directory(above) {
                Some(above.path@)
            } else {
                None
            },
            None => None,
        }
    }
}

/// The paths that stand first among what a manager is made of, or the
/// error of the first of them that is not valid: the path of the game, then
/// that of the storage, then that of the temporary files.
pub open spec fn checked_paths(
    given: GamePathProbe,
    parent: Option<GamePathProbe>,
    storage: DirectoryProbe,
    temp: DirectoryProbe,
) -> Result<(Seq<char>, Seq<char>, Seq<char>), ModManagerError> {
    match game_path_of(given, parent) {
        None => Err(ModManagerError::InvalidGamePath),
        Some(game_path) => if !storage.is_directory {
            Err(ModManagerError::InvalidStoragePath)
        } else if !temp.is_directory {
            Err(ModManagerError::InvalidTempPath)
        } else {
            Ok((game_path, storage.path@, temp.path@))
        },
    }
}

/// The name that the directory of the game bears.
pub fn game_directory_name() -> (r: &'static str)
    ensures
        r@ == "Helldivers 2"@,
{
    "Helldivers 2"
}

fn is_named_for_game(file_name: &Option<String>) -> (r: bool)
    ensures
        r == named_for_game(*file_name),
{
    match file_name {
        Some(name) => str_eq(name.as_str(), game_directory_name()),
        None => false,
    }
}

impl ModManager {
    /// Checks the path of the game.
    pub fn validate_game_path(given: GamePathProbe, parent: Option<GamePathProbe>) -> (r: Option<
        String,
    >)
        ensures
            match r {
                Some(path) => game_path_of(given, parent) == Some(path@),
                None => game_path_of(given, parent) is None,
            },
    {
        let chosen = if is_named_for_game(&given.file_name) {
            given
        } else {
            match parent {
                Some(above) => above,
                None => {
                    return None;
                },
            }
        };
        if is_named_for_game(&chosen.file_name) && chosen.has_data && chosen.has_bin {
            Some(chosen.path)
        } else {
            None
        }
    }

    /// Checks the path of the storage: it must be a directory that exists.
    pub fn validate_storage_path(storage: DirectoryProbe) -> (r: Option<String>)
        ensures
            match r {
                Some(path) => storage.is_directory && path == storage.path,
                None => !storage.is_directory,
            },
    {
        if storage.is_directory {
            Some(storage.path)
        } else {
            None
        }
    }

    /// Checks the path of the temporary files: it must be a directory that
    /// exists.
    pub fn validate_temp_path(temp: DirectoryProbe) -> (r: Option<String>)
        ensures
            match r {
                Some(path) => temp.is_directory && path == temp.path,
                None => !temp.is_directory,
            },
    {
        if temp.is_directory {
            Some(temp.path)
        } else {
            None
        }
    }

    /// Makes a manager with an empty store and no profile, if the three
    /// paths are valid. The directories of the mods and of the profiles
    /// stand under that of the storage, as `mods` and `profiles`.
    pub fn new(
        given: GamePathProbe,
        parent: Option<GamePathProbe>,
        storage: DirectoryProbe,
        temp: DirectoryProbe,
    ) -> (r: Result<Self, ModManagerError>)
        ensures
            match r {
                Ok(manager) => {
                    &&& checked_paths(given, parent, storage, temp) == Ok::<
                        (Seq<char>, Seq<char>, Seq<char>),
                        ModManagerError,
                    >((manager@.game_path, manager@.storage_path, manager@.temp_path))
                    &&& manager@.mods == Seq::<ModView>::empty()
                    &&& manager@.profiles == Seq::<StoredProfileView>::empty()
                },
                Err(e) => checked_paths(given, parent, storage, temp) == Err::<
                    (Seq<char>, Seq<char>, Seq<char>),
                    ModManagerError,
                >(e),
            },
    {
        let game_path = match Self::validate_game_path(given, parent) {
            Some(path) => path,
            None => {
                return Err(ModManagerError::InvalidGamePath);
            },
        };
        let storage_path = match Self::validate_storage_path(storage) {
            Some(path) => path,
            None => {
                return Err(ModManagerError::InvalidStoragePath);
            },
        };
        let temp_path = match Self::validate_temp_path(temp) {
            Some(path) => path,
            None => {
                return Err(ModManagerError::InvalidTempPath);
            },
        };
        let mod_storage_path = join_path(storage_path.as_str(), "mods");
        let profile_storage_path = join_path(storage_path.as_str(), "profiles");
        let mods: Vec<Mod> = Vec::new();
        let profiles: Vec<Profile> = Vec::new();
        Ok(
            Self {
                mods,
                profiles,
                game_path,
                storage_path,
                temp_path,
                mod_storage_path,
                profile_storage_path,
            },
        )
    }
}

/// The place of the first directory that could not be loaded, or the
/// number of the directories where all of them could.
pub open spec fn first_failure(loaded: Seq<(String, Result<Mod, ModError>)>) -> int
    decreases loaded.len(),
{
    if loaded.len() == 0 || loaded[0].1 is Err {
        0
    } else {
        1 + first_failure(loaded.drop_first())
    }
}

/// The mods of directories that could be loaded.
pub open spec fn loaded_mods(loaded: Seq<(String, Result<Mod, ModError>)>) -> Seq<ModView> {
    Seq::new(loaded.len(), |i: int| loaded[i].1->Ok_0@)
}

impl ModManager {
    /// Fills the store at start-up with the mods found in the directory of
    /// the mods, each given with its directory, in the order of the scan. If
    /// one of them could not be loaded, there is no manager: the error names
    /// the first such directory and says why.
    pub fn load_mods(self, loaded: Vec<(String, Result<Mod, ModError>)>) -> (r: Result<
        Self,
        ModManagerError,
    >)
        ensures
            match r {
                Ok(manager) => {
                    &&& first_failure(loaded@) == loaded@.len()
                    &&& manager@ == (ManagerView {
                        mods: self@.mods + loaded_mods(loaded@),
                        ..self@
                    })
                },
                Err(e) => {
                    &&& first_failure(loaded@) < loaded@.len()
                    &&& e == ModManagerError::ModError(
                        loaded@[first_failure(loaded@)].0,
                        loaded@[first_failure(loaded@)].1->Err_0,
                    )
                },
            },
    {
        let mut manager = self;
        let mut rest = loaded;
        let ghost mut done: int = 0;
        while rest.len() > 0
            invariant
                0 <= done <= loaded@.len(),
                rest@ == loaded@.skip(done),
                first_failure(loaded@) == done + first_failure(rest@),
                manager@ == (ManagerView {
                    mods: self@.mods + loaded_mods(loaded@).take(done),
                    ..self@
                }),
            decreases rest@.len(),
        {
            let ghost mods_before = manager@.mods;
            let (path, outcome) = rest.remove(0);
            match outcome {
                Ok(found) => {
                    manager.mods.push(found);
                    proof {
                        assert(views(manager.mods@) == mods_before.push(found@));
                        assert(loaded_mods(loaded@).take(done + 1) == loaded_mods(loaded@).take(
                            done,
                        ).push(found@));
                        done = done + 1;
                    }
                },
                Err(e) => {
                    return Err(ModManagerError::ModError(path, e));
                },
            }
        }
        assert(loaded_mods(loaded@).take(done) == loaded_mods(loaded@));
        Ok(manager)
    }
}

/// The directories that the option at place `i` contributes under a state:
/// none where the state has the option disabled; else those of the option
/// itself, followed by those of the sub-option that the state chooses, where
/// the option has sub-options.
pub open spec fn option_contributes(option: OptionView, state: ModStateView, i: int) -> Seq<
    Seq<char>,
> {
    if !state.options[i] {
        Seq::empty()
    } else {
        (match option.includes {
            Some(paths) => paths,
            None => Seq::empty(),
        }) + (match option.sub_options {
            Some(subs) => subs[state.sub_options[i] as int].includes,
            None => Seq::empty(),
        })
    }
}

/// The directories that the first `n` options contribute, in order.
pub open spec fn options_contribute(options: Seq<OptionView>, state: ModStateView, n: int) -> Seq<
    Seq<char>,
>
    decreases n,
{
    if n <= 0 {
        Seq::empty()
    } else {
        options_contribute(options, state, n - 1) + option_contributes(options[n - 1], state, n - 1)
    }
}

/// Makes of a path under the directory of a mod the contribution of that
/// directory.
pub open spec fn under(root: Seq<char>) -> spec_fn(Seq<char>) -> ContributionView {
    |path: Seq<char>| ContributionView { root, relative: Some(path) }
}

/// What a mod contributes under a state: its own directory where its
/// manifest has no options, else what its options contribute.
pub open spec fn mod_contributes(found: ModView, state: ModStateView) -> Seq<ContributionView> {
    match found.manifest.options() {
        None => seq![ContributionView { root: found.path, relative: None }],
        Some(options) => options_contribute(options, state, options.len() as int).map_values(
            under(found.path),
        ),
    }
}

/// Whether the mod at place `i` of the store is part of a profile: the
/// profile holds its identifier, and it is the first mod with it.
pub open spec fn resolved(mods: Seq<ModView>, profile: ProfileView, i: int) -> bool {
    &&& profile.mods.contains_key(mods[i].manifest.guid())
    &&& position(mods, mods[i].manifest.guid()) == i
}

/// What the first `n` mods of the store contribute to a profile, in the
/// order of the store.
pub open spec fn contributions(mods: Seq<ModView>, profile: ProfileView, n: int) -> Seq<
    ContributionView,
>
    decreases n,
{
    if n <= 0 {
        Seq::empty()
    } else if resolved(mods, profile, n - 1) {
        contributions(mods, profile, n - 1) + mod_contributes(
            mods[n - 1],
            profile.mods[mods[n - 1].manifest.guid()],
        )
    } else {
        contributions(mods, profile, n - 1)
    }
}

/// Whether a state is aligned with the options of a mod as far as a
/// deployment reads it: it says of every option whether it is enabled, and
/// for every enabled option with sub-options it chooses one that exists.
pub open spec fn state_fits(options: Option<Seq<OptionView>>, state: ModStateView) -> bool {
    options matches Some(options) ==> forall|i: int|
        0 <= i < options.len() ==> {
            &&& i < state.options.len()
            &&& state.options[i] ==> ((#[trigger] options[i]).sub_options matches Some(subs) ==> {
                &&& i < state.sub_options.len()
                &&& state.sub_options[i] < subs.len()
            })
        }
}

/// Whether the states of a profile are aligned with the mods of the store
/// that are part of it.
pub open spec fn selection_fits(mods: Seq<ModView>, profile: ProfileView) -> bool {
    forall|i: int|
        0 <= i < mods.len() && resolved(mods, profile, i) ==> state_fits(
            (#[trigger] mods[i]).manifest.options(),
            profile.mods[mods[i].manifest.guid()],
        )
}

/// An option that the state has disabled contributes nothing.
pub proof fn lemma_disabled_option_contributes_nothing(
    option: OptionView,
    state: ModStateView,
    i: int,
)
    requires
        !state.options[i],
    ensures
        option_contributes(option, state, i) == Seq::<Seq<char>>::empty(),
{
}

/// An identifier in a profile that no mod of the store has changes nothing:
/// the profile contributes what it would without it.
pub proof fn lemma_unmatched_guid_is_skipped(
    mods: Seq<ModView>,
    profile: ProfileView,
    guid: Guid,
    n: int,
)
    requires
        !holds(mods, guid),
        n <= mods.len(),
    ensures
        contributions(mods, profile, n) == contributions(
            mods,
            ProfileView { mods: profile.mods.remove(guid), ..profile },
            n,
        ),
    decreases n,
{
    if n > 0 {
        lemma_unmatched_guid_is_skipped(mods, profile, guid, n - 1);
    }
}

fn push_paths(out: &mut Vec<Contribution>, root: &str, paths: &[String])
    ensures
        views(final(out)@) == views(old(out)@) + views(paths@).map_values(under(root@)),
{
    let ghost before = views(out@);
    let ghost added = views(paths@).map_values(under(root@));
    let mut i: usize = 0;
    while i < paths.len()
        invariant
            i <= paths@.len(),
            added == views(paths@).map_values(under(root@)),
            views(out@) == before + added.take(i as int),
        decreases paths@.len() - i,
    {
        let ghost sofar = views(out@);
        let item = Contribution::new(root.to_owned(), Some(paths[i].clone()));
        out.push(item);
        assert(views(out@) == sofar.push(item@));
        i += 1;
    }
}

fn push_mod(out: &mut Vec<Contribution>, found: &Mod, state: &ModState)
    requires
        state_fits(found@.manifest.options(), state@),
    ensures
        views(final(out)@) == views(old(out)@) + mod_contributes(found@, state@),
{
    let ghost before = views(out@);
    let options = match found.manifest().options() {
        Some(options) => options,
        None => {
            let item = Contribution::new(found.path().to_owned(), None);
            out.push(item);
            return ;
        },
    };
    let ghost all = views(options@);
    let root = found.path();
    let enabled = state.options();
    let chosen = state.sub_options();
    let mut i: usize = 0;
    while i < options.len()
        invariant
            i <= options@.len(),
            all == views(options@),
            found@.manifest.options() == Some(all),
            state_fits(Some(all), state@),
            root@ == found@.path,
            enabled@ == state@.options,
            chosen@ == state@.sub_options,
            views(out@) == before + options_contribute(all, state@, i as int).map_values(
                under(root@),
            ),
        decreases options@.len() - i,
    {
        assert(all[i as int] == options@[i as int]@);
        if enabled[i] {
            if let Some(paths) = options[i].includes() {
                push_paths(out, root, paths);
            }
            if let Some(subs) = options[i].sub_options() {
                push_paths(out, root, subs[chosen[i]].includes());
            }
        }
        i += 1;
    }
}

impl ModManager {
    /// Whether the states of a profile are aligned with the mods that are
    /// part of it, as a deployment of that profile asks. Of a profile that
    /// does not exist nothing is asked.
    pub fn fits_selection(&self, profile_index: usize) -> (r: bool)
        ensures
            r == (profile_index < self@.profiles.len() ==> selection_fits(
                self@.mods,
                self@.profiles[profile_index as int].manifest,
            )),
    {
        if profile_index >= self.profiles.len() {
            return true;
        }
        let profile = self.profiles[profile_index].manifest();
        let mut i: usize = 0;
        while i < self.mods.len()
            invariant
                i <= self.mods@.len(),
                self@.mods == views(self.mods@),
                profile_index < self@.profiles.len(),
                profile@ == self@.profiles[profile_index as int].manifest,
                forall|j: int|
                    0 <= j < i && resolved(self@.mods, profile@, j) ==> state_fits(
                        (#[trigger] self@.mods[j]).manifest.options(),
                        profile@.mods[self@.mods[j].manifest.guid()],
                    ),
            decreases self.mods@.len() - i,
        {
            let found = &self.mods[i];
            assert(found@ == self@.mods[i as int]);
            let guid = found.manifest().guid();
            match profile.get_state(&guid) {
                Some(state) => {
                    if self.find(guid) == i && !Self::fits_state(found, state) {
                        return false;
                    }
                },
                None => {},
            }
            i += 1;
        }
        true
    }

    fn fits_state(found: &Mod, state: &ModState) -> (r: bool)
        ensures
            r == state_fits(found@.manifest.options(), state@),
    {
        let options = match found.manifest().options() {
            Some(options) => options,
            None => {
                return true;
            },
        };
        let ghost all = views(options@);
        let enabled = state.options();
        let chosen = state.sub_options();
        let mut i: usize = 0;
        while i < options.len()
            invariant
                i <= options@.len(),
                all == views(options@),
                found@.manifest.options() == Some(all),
                enabled@ == state@.options,
                chosen@ == state@.sub_options,
                forall|j: int|
                    0 <= j < i ==> {
                        &&& j < state@.options.len()
                        &&& state@.options[j] ==> ((#[trigger] all[j]).sub_options matches Some(
                            subs,
                        ) ==> {
                            &&& j < state@.sub_options.len()
                            &&& state@.sub_options[j] < subs.len()
                        })
                    },
            decreases options@.len() - i,
        {
            assert(all[i as int] == options@[i as int]@);
            if i >= enabled.len() {
                return false;
            }
            if enabled[i] {
                match options[i].sub_options() {
                    Some(subs) => {
                        if i >= chosen.len() || chosen[i] >= subs.len() {
                            return false;
                        }
                    },
                    None => {},
                }
            }
            i += 1;
        }
        true
    }

    /// The directories that contribute to the deployment of a profile, in
    /// the order of the store and, within a mod, of its options. A mod is
    /// part of the profile if the profile holds its identifier; identifiers
    /// in the profile that no mod has are passed over.
    pub fn contributions(&self, profile_index: usize) -> (r: Result<Vec<Contribution>, DeployError>)
        requires
            profile_index < self@.profiles.len() ==> selection_fits(
                self@.mods,
                self@.profiles[profile_index as int].manifest,
            ),
        ensures
            match r {
                Ok(found) => {
                    &&& profile_index < self@.profiles.len()
                    &&& views(found@) == contributions(
                        self@.mods,
                        self@.profiles[profile_index as int].manifest,
                        self@.mods.len() as int,
                    )
                },
                Err(e) => profile_index >= self@.profiles.len() && e
                    == DeployError::ProfileNotFound(profile_index),
            },
    {
        if profile_index >= self.profiles.len() {
            return Err(DeployError::ProfileNotFound(profile_index));
        }
        let profile = self.profiles[profile_index].manifest();
        let mut out: Vec<Contribution> = Vec::new();
        let mut i: usize = 0;
        while i < self.mods.len()
            invariant
                i <= self.mods@.len(),
                self@.mods == views(self.mods@),
                selection_fits(self@.mods, profile@),
                views(out@) == contributions(self@.mods, profile@, i as int),
            decreases self.mods@.len() - i,
        {
            let found = &self.mods[i];
            assert(found@ == self@.mods[i as int]);
            let guid = found.manifest().guid();
            match profile.get_state(&guid) {
                Some(state) => {
                    if self.find(guid) == i {
                        push_mod(&mut out, found, state);
                    }
                },
                None => {},
            }
            i += 1;
        }
        Ok(out)
    }

    /// Begins the deployment of a profile: what comes back asks for the
    /// files of each directory that contributes to the profile, one after
    /// the other, and groups their patch files by hash identity. A profile
    /// that does not exist is an error.
    pub fn deploy(&self, profile_index: usize) -> (r: Result<Deployment, DeployError>)
        requires
            profile_index < self@.profiles.len() ==> selection_fits(
                self@.mods,
                self@.profiles[profile_index as int].manifest,
            ),
        ensures
            match r {
                Ok(begun) => {
                    &&& profile_index < self@.profiles.len()
                    &&& begun@ == (DeploymentView {
                        plan: contributions(
                            self@.mods,
                            self@.profiles[profile_index as int].manifest,
                            self@.mods.len() as int,
                        ),
                        listings: Seq::empty(),
                        groups: Seq::empty(),
                    })
                },
                Err(e) => profile_index >= self@.profiles.len() && e
                    == DeployError::ProfileNotFound(profile_index),
            },
    {
        match self.contributions(profile_index) {
            Ok(plan) => Ok(Deployment::new(plan)),
            Err(e) => Err(e),
        }
    }
}

} // verus!
