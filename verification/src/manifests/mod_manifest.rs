//! The manifest of a mod: its identity, its description and the options a
//! user can choose from.

use vstd::prelude::*;
use crate::guid::Guid;
use crate::text::{optional_view, views};

verus! {

/// One of the mutually exclusive choices under an option.
#[derive(Debug, PartialEq, Eq)]
pub struct ModSubOption {
    name: String,
    description: String,
    includes: Vec<String>,
}

/// Mathematical model of a [`ModSubOption`].
pub struct SubOptionView {
    pub name: Seq<char>,
    pub description: Seq<char>,
    /// Directories, relative to the directory of the mod.
    pub includes: Seq<Seq<char>>,
}

impl View for ModSubOption {
    type V = SubOptionView;

    closed spec fn view(&self) -> SubOptionView {
        SubOptionView {
            name: self.name@,
            description: self.description@,
            includes: views(self.includes@),
        }
    }
}

impl ModSubOption {
    pub fn new(name: String, description: String, includes: Vec<String>) -> (r: Self)
        ensures
            r@ == (SubOptionView {
                name: name@,
                description: description@,
                includes: views(includes@),
            }),
    {
        Self { name, description, includes }
    }

    pub fn name(&self) -> (r: &str)
        ensures
            r@ == self@.name,
    {
        self.name.as_str()
    }

    pub fn description(&self) -> (r: &str)
        ensures
            r@ == self@.description,
    {
        self.description.as_str()
    }

    pub fn includes(&self) -> (r: &[String])
        ensures
            views(r@) == self@.includes,
    {
        self.includes.as_slice()
    }
}

/// A toggle that contributes directories when it is enabled, with or
/// without a further choice among sub-options.
#[derive(Debug, PartialEq, Eq)]
pub struct ModOption {
    name: String,
    description: String,
    includes: Option<Vec<String>>,
    sub_options: Option<Vec<ModSubOption>>,
}

/// Mathematical model of a [`ModOption`].
pub struct OptionView {
    pub name: Seq<char>,
    pub description: Seq<char>,
    pub includes: Option<Seq<Seq<char>>>,
    pub sub_options: Option<Seq<SubOptionView>>,
}

impl View for ModOption {
    type V = OptionView;

    closed spec fn view(&self) -> OptionView {
        OptionView {
            name: self.name@,
            description: self.description@,
            includes: match self.includes {
                Some(v) => Some(views(v@)),
                None => None,
            },
            sub_options: match self.sub_options {
                Some(v) => Some(views(v@)),
                None => None,
            },
        }
    }
}

impl ModOption {
    pub fn new(
        name: String,
        description: String,
        includes: Option<Vec<String>>,
        sub_options: Option<Vec<ModSubOption>>,
    ) -> (r: Self)
        ensures
            r@ == (OptionView {
                name: name@,
                description: description@,
                includes: match includes {
                    Some(v) => Some(views(v@)),
                    None => None,
                },
                sub_options: match sub_options {
                    Some(v) => Some(views(v@)),
                    None => None,
                },
            }),
    {
        Self { name, description, includes, sub_options }
    }

    pub fn name(&self) -> (r: &str)
        ensures
            r@ == self@.name,
    {
        self.name.as_str()
    }

    pub fn description(&self) -> (r: &str)
        ensures
            r@ == self@.description,
    {
        self.description.as_str()
    }

    pub fn includes(&self) -> (r: Option<&[String]>)
        ensures
            match r {
                Some(s) => self@.includes == Some(views(s@)),
                None => self@.includes is None,
            },
    {
        match &self.includes {
            Some(v) => Some(v.as_slice()),
            None => None,
        }
    }

    pub fn sub_options(&self) -> (r: Option<&[ModSubOption]>)
        ensures
            match r {
                Some(s) => self@.sub_options == Some(views(s@)),
                None => self@.sub_options is None,
            },
    {
        match &self.sub_options {
            Some(v) => Some(v.as_slice()),
            None => None,
        }
    }
}

/// Where a mod came from on the Nexus site.
#[derive(Debug, PartialEq, Eq)]
pub struct NexusData {
    id: u32,
    version: String,
}

/// Mathematical model of a [`NexusData`].
pub struct NexusView {
    pub id: u32,
    pub version: Seq<char>,
}

impl View for NexusData {
    type V = NexusView;

    closed spec fn view(&self) -> NexusView {
        NexusView { id: self.id, version: self.version@ }
    }
}

impl NexusData {
    pub fn new(id: u32, version: String) -> (r: Self)
        ensures
            r@ == (NexusView { id, version: version@ }),
    {
        Self { id, version }
    }

    pub fn id(&self) -> (r: u32)
        ensures
            r == self@.id,
    {
        self.id
    }

    pub fn version(&self) -> (r: &str)
        ensures
            r@ == self@.version,
    {
        self.version.as_str()
    }
}

/// The schema version `VER` as a value: it exists only for that number.
#[derive(Debug, Clone, Copy, PartialEq, Eq)]
pub struct Version<const VER: u32>;

impl<const VER: u32> Version<VER> {
    /// Accepts `value` if it is the number of this version.
    pub fn try_from(value: u32) -> (r: Result<Self, &'static str>)
        ensures
            r is Ok <==> value == VER,
            r matches Err(msg) ==> msg@ == "version missmatch"@,
    {
        if value == VER {
            Ok(Version::<VER>)
        } else {
            Err("version missmatch")
        }
    }

    /// The number of this version.
    pub fn number(self) -> (r: u32)
        ensures
            r == VER,
    {
        VER
    }
}

#[allow(inconsistent_fields)]
#[derive(Debug, PartialEq, Eq)]
enum ModData {
    Legacy {
        guid: Guid,
        name: String,
        description: String,
        icon_path: Option<String>,
        options: Option<Vec<String>>,
    },
    V1 {
        version: Version<1>,
        guid: Guid,
        name: String,
        description: String,
        icon_path: Option<String>,
        options: Option<Vec<ModOption>>,
        nexus_data: Option<NexusData>,
    },
}

/// The manifest of a mod, in the legacy schema or in the current one.
///
/// A legacy manifest keeps the flat list of option names it was read with;
/// the option tree that stands for them is derived once, when the manifest
/// is made, and handed out unchanged ever after.
#[derive(Debug, PartialEq, Eq)]
pub struct ModManifest {
    data: ModData,
    translated_options: Option<Vec<ModOption>>,
}

/// Mathematical model of a [`ModManifest`]: one variant per schema, each
/// with the fields of that schema.
#[allow(inconsistent_fields)]
pub enum ManifestView {
    Legacy {
        guid: Guid,
        name: Seq<char>,
        description: Seq<char>,
        icon_path: Option<Seq<char>>,
        options: Option<Seq<Seq<char>>>,
    },
    V1 {
        guid: Guid,
        name: Seq<char>,
        description: Seq<char>,
        icon_path: Option<Seq<char>>,
        options: Option<Seq<OptionView>>,
        nexus_data: Option<NexusView>,
    },
}

/// The option that stands for the option names of a legacy manifest: it is
/// called `Default` and has one sub-option for each name, in order, which
/// bears that name and contributes the directory of that name.
pub open spec fn translated(names: Seq<Seq<char>>) -> OptionView {
    OptionView {
        name: "Default"@,
        description: Seq::empty(),
        includes: None,
        sub_options: Some(
            Seq::new(
                names.len(),
                |i: int|
                    SubOptionView {
                        name: names[i],
                        description: Seq::empty(),
                        includes: seq![names[i]],
                    },
            ),
        ),
    }
}

impl ManifestView {
    pub open spec fn is_legacy(self) -> bool {
        self is Legacy
    }

    pub open spec fn guid(self) -> Guid {
        match self {
            ManifestView::Legacy { guid, .. } => guid,
            ManifestView::V1 { guid, .. } => guid,
        }
    }

    pub open spec fn name(self) -> Seq<char> {
        match self {
            ManifestView::Legacy { name, .. } => name,
            ManifestView::V1 { name, .. } => name,
        }
    }

    pub open spec fn description(self) -> Seq<char> {
        match self {
            ManifestView::Legacy { description, .. } => description,
            ManifestView::V1 { description, .. } => description,
        }
    }

    pub open spec fn icon_path(self) -> Option<Seq<char>> {
        match self {
            ManifestView::Legacy { icon_path, .. } => icon_path,
            ManifestView::V1 { icon_path, .. } => icon_path,
        }
    }

    /// The option tree: that of a current manifest as it is, that of a
    /// legacy manifest as the translation of its option names.
    pub open spec fn options(self) -> Option<Seq<OptionView>> {
        match self {
            ManifestView::Legacy { options: Some(names), .. } => Some(seq![translated(names)]),
            ManifestView::Legacy { options: None, .. } => None,
            ManifestView::V1 { options, .. } => options,
        }
    }

    pub open spec fn nexus_data(self) -> Option<NexusView> {
        match self {
            ManifestView::Legacy { .. } => None,
            ManifestView::V1 { nexus_data, .. } => nexus_data,
        }
    }

    /// The same manifest in the current schema.
    pub open spec fn upgraded(self) -> ManifestView {
        ManifestView::V1 {
            guid: self.guid(),
            name: self.name(),
            description: self.description(),
            icon_path: self.icon_path(),
            options: self.options(),
            nexus_data: self.nexus_data(),
        }
    }
}

/// The model of an optional list.
pub open spec fn list_view<T: View>(v: Option<Vec<T>>) -> Option<Seq<T::V>> {
    match v {
        Some(v) => Some(views(v@)),
        None => None,
    }
}

impl View for ModManifest {
    type V = ManifestView;

    closed spec fn view(&self) -> ManifestView {
        match self.data {
            ModData::Legacy { guid, name, description, icon_path, options } => ManifestView::Legacy {
                guid,
                name: name@,
                description: description@,
                icon_path: optional_view(icon_path),
                options: list_view(options),
            },
            ModData::V1 {
                version,
                guid,
                name,
                description,
                icon_path,
                options,
                nexus_data,
            } => ManifestView::V1 {
                guid,
                name: name@,
                description: description@,
                icon_path: optional_view(icon_path),
                options: list_view(options),
                nexus_data: match nexus_data {
                    Some(d) => Some(d@),
                    None => None,
                },
            },
        }
    }
}

/// Translates the option names of a legacy manifest.
fn translate(names: &Vec<String>) -> (r: ModOption)
    ensures
        r@ == translated(views(names@)),
{
    let mut subs: Vec<ModSubOption> = Vec::new();
    let mut i: usize = 0;
    while i < names.len()
        invariant
            i <= names@.len(),
            subs@.len() == i,
            forall|j: int|
                0 <= j < i ==> (#[trigger] subs@[j])@ == (SubOptionView {
                    name: names@[j]@,
                    description: Seq::empty(),
                    includes: seq![names@[j]@],
                }),
        decreases names@.len() - i,
    {
        let paths: Vec<String> = vec![names[i].clone()];
        assert(views(paths@) == seq![names@[i as int]@]);
        subs.push(ModSubOption::new(names[i].clone(), String::new(), paths));
        i += 1;
    }
    let r = ModOption::new("Default".to_owned(), String::new(), None, Some(subs));
    assert(views(subs@) == translated(views(names@)).sub_options->0);
    r
}

impl ModManifest {
    #[verifier::type_invariant]
    spec fn translation_is_kept(self) -> bool {
        match self.data {
            ModData::Legacy { options: Some(names), .. } => {
                &&& self.translated_options is Some
                &&& views(self.translated_options->0@) == seq![translated(views(names@))]
            },
            _ => self.translated_options is None,
        }
    }

    /// A manifest in the current schema.
    pub fn new(
        guid: Guid,
        name: String,
        description: String,
        icon_path: Option<String>,
        options: Option<Vec<ModOption>>,
        nexus_data: Option<NexusData>,
    ) -> (r: Self)
        ensures
            r@ == (ManifestView::V1 {
                guid,
                name: name@,
                description: description@,
                icon_path: optional_view(icon_path),
                options: list_view(options),
                nexus_data: match nexus_data {
                    Some(d) => Some(d@),
                    None => None,
                },
            }),
    {
        Self {
            data: ModData::V1 {
                version: Version::<1>,
                guid,
                name,
                description,
                icon_path,
                options,
                nexus_data,
            },
            translated_options: None,
        }
    }

    /// A manifest in the legacy schema, whose options are bare names.
    pub fn new_legacy(
        guid: Guid,
        name: String,
        description: String,
        icon_path: Option<String>,
        options: Option<Vec<String>>,
    ) -> (r: Self)
        ensures
            r@ == (ManifestView::Legacy {
                guid,
                name: name@,
                description: description@,
                icon_path: optional_view(icon_path),
                options: list_view(options),
            }),
    {
        let translated_options = match &options {
            Some(names) => {
                let v: Vec<ModOption> = vec![translate(names)];
                assert(views(v@) == seq![translated(views(names@))]);
                Some(v)
            },
            None => None,
        };
        Self {
            data: ModData::Legacy { guid, name, description, icon_path, options },
            translated_options,
        }
    }

    pub fn guid(&self) -> (r: Guid)
        ensures
            r == self@.guid(),
    {
        match &self.data {
            ModData::Legacy { guid, .. } => *guid,
            ModData::V1 { guid, .. } => *guid,
        }
    }

    pub fn name(&self) -> (r: &str)
        ensures
            r@ == self@.name(),
    {
        match &self.data {
            ModData::Legacy { name, .. } => name.as_str(),
            ModData::V1 { name, .. } => name.as_str(),
        }
    }

    pub fn description(&self) -> (r: &str)
        ensures
            r@ == self@.description(),
    {
        match &self.data {
            ModData::Legacy { description, .. } => description.as_str(),
            ModData::V1 { description, .. } => description.as_str(),
        }
    }

    pub fn icon_path(&self) -> (r: Option<&str>)
        ensures
            match r {
                Some(p) => self@.icon_path() == Some(p@),
                None => self@.icon_path() is None,
            },
    {
        let icon_path = match &self.data {
            ModData::Legacy { icon_path, .. } => icon_path,
            ModData::V1 { icon_path, .. } => icon_path,
        };
        match icon_path {
            Some(p) => Some(p.as_str()),
            None => None,
        }
    }

    /// The option tree. For a legacy manifest this is the translation of its
    /// option names, which was derived when the manifest was made: every call
    /// hands out the same options, in the same order.
    pub fn options(&self) -> (r: Option<&[ModOption]>)
        ensures
            match r {
                Some(s) => self@.options() == Some(views(s@)),
                None => self@.options() is None,
            },
    {
        proof {
            use_type_invariant(self);
        }
        match &self.data {
            ModData::Legacy { .. } => match &self.translated_options {
                Some(v) => Some(v.as_slice()),
                None => None,
            },
            ModData::V1 { options, .. } => match options {
                Some(v) => Some(v.as_slice()),
                None => None,
            },
        }
    }

    pub fn nexus_data(&self) -> (r: Option<&NexusData>)
        ensures
            match r {
                Some(d) => self@.nexus_data() == Some(d@),
                None => self@.nexus_data() is None,
            },
    {
        match &self.data {
            ModData::Legacy { .. } => None,
            ModData::V1 { nexus_data, .. } => nexus_data.as_ref(),
        }
    }

    pub fn is_legacy(&self) -> (r: bool)
        ensures
            r == self@.is_legacy(),
    {
        match self.data {
            ModData::Legacy { .. } => true,
            _ => false,
        }
    }
}

} // verus!
