//! The record that the set-up produces, and where it is kept.

use vstd::prelude::*;
use crate::identities::Identities;
use crate::keys::{KeyMaterial, KeyView};

verus! {

/// Where the set-up works: two directories and the secrets file.
#[derive(Debug)]
pub struct Paths {
    /// The directory for data.
    pub base_data: String,
    /// The directory for cached files.
    pub base_cache: String,
    /// The secrets file.
    pub user_info: String,
    /// Whether files in these places carry permission bits, so that the
    /// secrets file can be created for its owner alone.
    pub permission_bits: bool,
}

/// The mathematical value of [`Paths`].
pub struct PathsView {
    pub base_data: Seq<char>,
    pub base_cache: Seq<char>,
    pub user_info: Seq<char>,
    pub permission_bits: bool,
}

impl View for Paths {
    type V = PathsView;

    open spec fn view(&self) -> PathsView {
        PathsView {
            base_data: self.base_data@,
            base_cache: self.base_cache@,
            user_info: self.user_info@,
            permission_bits: self.permission_bits,
        }
    }
}

/// A user's name, identities, status and keys.
#[derive(Debug)]
pub struct UserRecord {
    /// The display name.
    pub name: String,
    /// The public identities, by label.
    pub identities: Identities,
    /// The status message, if the user gave one.
    pub status: Option<String>,
    /// The signing key pair.
    pub keypair: KeyMaterial,
}

/// The mathematical value of a [`UserRecord`].
pub struct RecordView {
    pub name: Seq<char>,
    pub identities: Map<Seq<char>, Seq<char>>,
    pub status: Option<Seq<char>>,
    pub keypair: KeyView,
}

/// The characters of an optional string.
pub open spec fn optional_text(text: Option<String>) -> Option<Seq<char>> {
    match text {
        Some(t) => Some(t@),
        None => None,
    }
}

impl View for UserRecord {
    type V = RecordView;

    open spec fn view(&self) -> RecordView {
        RecordView {
            name: self.name@,
            identities: self.identities@,
            status: optional_text(self.status),
            keypair: self.keypair@,
        }
    }
}

} // verus!
