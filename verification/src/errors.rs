//! Errors of the mod store and of the deployment resolver.

use vstd::prelude::*;
use crate::error::ModManifestError;
use vstd::string::*;
use crate::guid::{format_guid, guid_text, Guid};
use crate::text::{decimal, decimal_text};

verus! {

/// Why the manifest of a mod could not be loaded. The payload of the first
/// two variants is the text of the failure that the reader met.
#[derive(Debug, PartialEq, Eq)]
pub enum ModError {
    IOError(String),
    SerdeError(String),
    ManifestError(ModManifestError),
}

/// Why a mod manager could not be made.
#[derive(Debug, PartialEq, Eq)]
pub enum ModManagerError {
    InvalidGamePath,
    InvalidTempPath,
    InvalidStoragePath,
    IOError(String),
    /// The mod in the named directory could not be loaded.
    ModError(String, ModError),
}

/// Why an archive could not be added to the store.
#[derive(Debug, PartialEq, Eq)]
pub enum AddError {
    NotAFile,
    IOError(String),
    ZipExtractError(String),
    SerdeError(String),
    /// The store holds a mod with this identifier already.
    AlreadyExists(Guid),
    MoveDirError(String),
    /// The archive has no manifest and nothing to make one from.
    CanNotInferr,
    ModError(ModError),
}

/// Why the digits after `.patch_` in a file name are no patch index.
#[derive(Debug, Clone, Copy, PartialEq, Eq)]
pub enum IndexError {
    /// There is no digit.
    Empty,
    /// The number does not fit in 32 bits.
    PosOverflow,
}

/// Why a profile could not be resolved.
#[derive(Debug, PartialEq, Eq)]
pub enum DeployError {
    IOError(String),
    /// There is no profile with this index.
    ProfileNotFound(usize),
    /// A patch file has a name too short to hold a hash identity.
    NameExtractError,
    ParseIndexError(IndexError),
}

impl ModError {
    /// The text that describes the error to a user.
    pub open spec fn message_text(self) -> Seq<char> {
        match self {
            ModError::IOError(_) => "io error"@,
            ModError::SerdeError(_) => "serde error"@,
            ModError::ManifestError(_) => "manifest error"@,
        }
    }

    /// The text that describes the error to a user.
    pub fn message(&self) -> (s: String)
        ensures
            s@ == self.message_text(),
    {
        match self {
            ModError::IOError(_) => "io error".to_owned(),
            ModError::SerdeError(_) => "serde error".to_owned(),
            ModError::ManifestError(_) => "manifest error".to_owned(),
        }
    }
}

impl ModManagerError {
    /// The text that describes the error to a user.
    pub open spec fn message_text(self) -> Seq<char> {
        match self {
            ModManagerError::InvalidGamePath => "invalid game path"@,
            ModManagerError::InvalidTempPath => "invalid temporary path"@,
            ModManagerError::InvalidStoragePath => "invalid storage path"@,
            ModManagerError::IOError(_) => "io error"@,
            ModManagerError::ModError(path, _) => "error in mod \""@ + path@ + "\""@,
        }
    }

    /// The text that describes the error to a user.
    pub fn message(&self) -> (s: String)
        ensures
            s@ == self.message_text(),
    {
        match self {
            ModManagerError::InvalidGamePath => "invalid game path".to_owned(),
            ModManagerError::InvalidTempPath => "invalid temporary path".to_owned(),
            ModManagerError::InvalidStoragePath => "invalid storage path".to_owned(),
            ModManagerError::IOError(_) => "io error".to_owned(),
            ModManagerError::ModError(path, _) => {
                let mut s = "error in mod \"".to_owned();
                s.append(path.as_str());
                s.append("\"");
                s
            },
        }
    }
}

impl AddError {
    /// The text that describes the error to a user.
    pub open spec fn message_text(self) -> Seq<char> {
        match self {
            AddError::NotAFile => "given path is not a file"@,
            AddError::IOError(_) => "io error"@,
            AddError::ZipExtractError(_) => "zip extract error"@,
            AddError::SerdeError(_) => "serde error"@,
            AddError::AlreadyExists(guid) => "mod with GUID `"@ + guid_text(guid)
                + "` already exists"@,
            AddError::MoveDirError(_) => "move directory error"@,
            AddError::CanNotInferr => "can not inferr manifest"@,
            AddError::ModError(_) => "mod error"@,
        }
    }

    /// The text that describes the error to a user.
    pub fn message(&self) -> (s: String)
        ensures
            s@ == self.message_text(),
    {
        match self {
            AddError::NotAFile => "given path is not a file".to_owned(),
            AddError::IOError(_) => "io error".to_owned(),
            AddError::ZipExtractError(_) => "zip extract error".to_owned(),
            AddError::SerdeError(_) => "serde error".to_owned(),
            AddError::AlreadyExists(guid) => {
                let mut s = "mod with GUID `".to_owned();
                let text = format_guid(*guid);
                s.append(text.as_str());
                s.append("` already exists");
                s
            },
            AddError::MoveDirError(_) => "move directory error".to_owned(),
            AddError::CanNotInferr => "can not inferr manifest".to_owned(),
            AddError::ModError(_) => "mod error".to_owned(),
        }
    }
}

impl DeployError {
    /// The text that describes the error to a user.
    pub open spec fn message_text(self) -> Seq<char> {
        match self {
            DeployError::IOError(_) => "io error"@,
            DeployError::ProfileNotFound(index) => "profile "@ + decimal(index as nat)
                + " not found"@,
            DeployError::NameExtractError => "error extracting toc name"@,
            DeployError::ParseIndexError(_) => Seq::empty(),
        }
    }

    /// The text that describes the error to a user.
    pub fn message(&self) -> (s: String)
        ensures
            s@ == self.message_text(),
    {
        match self {
            DeployError::IOError(_) => "io error".to_owned(),
            DeployError::ProfileNotFound(index) => {
                let mut s = "profile ".to_owned();
                let digits = decimal_text(*index as u64);
                s.append(digits.as_str());
                s.append(" not found");
                s
            },
            DeployError::NameExtractError => "error extracting toc name".to_owned(),
            DeployError::ParseIndexError(_) => String::new(),
        }
    }
}

} // verus!
