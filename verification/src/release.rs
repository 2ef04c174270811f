//! Release resolution: compare the latest published tag against the
//! installed one and locate the unique client and server artifact
//! URLs by the asset naming convention (`client-*.tar.gz`,
//! `server-*.tar.gz`). Zero or duplicate matches for either
//! convention are a resolution failure, reported as ambiguity rather
//! than silently ignored.

use vstd::prelude::*;
use vstd::string::StrSliceExecFns;
use vstd::string::StringSliceAdditionalSpecFns;
use crate::text::{is_prefix_of, is_suffix_of, starts_with, ends_with};
use crate::errors::LauncherError;

verus! {

/// One downloadable artifact of a release, as the metadata endpoint
/// describes it.
#[derive(Debug, PartialEq, Eq)]
pub struct AssetDescriptor {
    pub name: Vec<u8>,
    pub download_url: Vec<u8>,
}

/// The latest published release: its tag and its assets, in the
/// order the metadata listed them.
#[derive(Debug, PartialEq, Eq)]
pub struct ReleaseDescriptor {
    pub tag: Vec<u8>,
    pub assets: Vec<AssetDescriptor>,
}

/// Mathematical model of an asset.
pub struct AssetModel {
    pub name: Seq<u8>,
    pub download_url: Seq<u8>,
}

/// Mathematical model of a release.
pub struct ReleaseModel {
    pub tag: Seq<u8>,
    pub assets: Seq<AssetModel>,
}

impl View for AssetDescriptor {
    type V = AssetModel;

    open spec fn view(&self) -> AssetModel {
        AssetModel { name: self.name@, download_url: self.download_url@ }
    }
}

impl View for ReleaseDescriptor {
    type V = ReleaseModel;

    open spec fn view(&self) -> ReleaseModel {
        ReleaseModel {
            tag: self.tag@,
            assets: self.assets@.map_values(|a: AssetDescriptor| a@),
        }
    }
}

/// What an update check concludes.
#[derive(Debug, PartialEq, Eq)]
pub enum UpdateAvailability {
    /// The published tag equals the installed one.
    NoUpdate,
    /// A different tag with exactly one asset of each kind.
    UpdateFound { client_url: Vec<u8>, server_url: Vec<u8> },
    /// A different tag whose assets do not contain exactly one client
    /// and exactly one server artifact; the counts say which
    /// convention failed.
    UpdateAmbiguous { client_matches: usize, server_matches: usize },
}

/// Model of an update check's conclusion.
pub enum UpdateModel {
    NoUpdate,
    Found { client_url: Seq<u8>, server_url: Seq<u8> },
    Ambiguous { client_matches: nat, server_matches: nat },
}

impl View for UpdateAvailability {
    type V = UpdateModel;

    open spec fn view(&self) -> UpdateModel {
        match self {
            UpdateAvailability::NoUpdate => UpdateModel::NoUpdate,
            UpdateAvailability::UpdateFound { client_url, server_url } => UpdateModel::Found {
                client_url: client_url@,
                server_url: server_url@,
            },
            UpdateAvailability::UpdateAmbiguous { client_matches, server_matches } => UpdateModel::Ambiguous {
                client_matches: client_matches as nat,
                server_matches: server_matches as nat,
            },
        }
    }
}

pub open spec fn spec_client_prefix() -> Seq<u8> {
    "client-".spec_bytes()
}

pub open spec fn spec_server_prefix() -> Seq<u8> {
    "server-".spec_bytes()
}

pub open spec fn spec_archive_suffix() -> Seq<u8> {
    ".tar.gz".spec_bytes()
}

/// The naming convention for client artifacts.
pub open spec fn is_client_name(n: Seq<u8>) -> bool {
    is_prefix_of(spec_client_prefix(), n) && is_suffix_of(spec_archive_suffix(), n)
}

/// The naming convention for server artifacts.
pub open spec fn is_server_name(n: Seq<u8>) -> bool {
    is_prefix_of(spec_server_prefix(), n) && is_suffix_of(spec_archive_suffix(), n)
}

/// Whether `a` matches the convention selected by `server`.
pub open spec fn asset_matches(a: AssetModel, server: bool) -> bool {
    if server {
        is_server_name(a.name)
    } else {
        is_client_name(a.name)
    }
}

/// How many assets match the convention selected by `server`.
pub open spec fn match_count(assets: Seq<AssetModel>, server: bool) -> nat
    decreases assets.len(),
{
    if assets.len() == 0 {
        0
    } else {
        (if asset_matches(assets[0], server) {
            1nat
        } else {
            0nat
        }) + match_count(assets.drop_first(), server)
    }
}

/// URL of the first asset matching the convention; empty if none
/// matches.
pub open spec fn first_match_url(assets: Seq<AssetModel>, server: bool) -> Seq<u8>
    decreases assets.len(),
{
    if assets.len() == 0 {
        Seq::empty()
    } else if asset_matches(assets[0], server) {
        assets[0].download_url
    } else {
        first_match_url(assets.drop_first(), server)
    }
}

/// What an update check against release `r` concludes when the
/// installed tag is `current`.
pub open spec fn spec_resolve(current: Seq<u8>, r: ReleaseModel) -> UpdateModel {
    if r.tag == current {
        UpdateModel::NoUpdate
    } else {
        let cc = match_count(r.assets, false);
        let sc = match_count(r.assets, true);
        if cc == 1 && sc == 1 {
            UpdateModel::Found {
                client_url: first_match_url(r.assets, false),
                server_url: first_match_url(r.assets, true),
            }
        } else {
            UpdateModel::Ambiguous { client_matches: cc, server_matches: sc }
        }
    }
}

pub fn is_client_asset(name: &Vec<u8>) -> (r: bool)
    ensures
        r == is_client_name(name@),
{
    let p = ("client-").as_bytes_vec();
    let s = (".tar.gz").as_bytes_vec();
    starts_with(name, &p) && ends_with(name, &s)
}

pub fn is_server_asset(name: &Vec<u8>) -> (r: bool)
    ensures
        r == is_server_name(name@),
{
    let p = ("server-").as_bytes_vec();
    let s = (".tar.gz").as_bytes_vec();
    starts_with(name, &p) && ends_with(name, &s)
}

/// Scan the release's assets once and classify the check's outcome.
///
/// The result is exactly `spec_resolve` of the inputs: `NoUpdate`
/// precisely when the tags are equal; otherwise `UpdateFound` with
/// the first client and server URLs precisely when each convention
/// matches exactly one asset, and `UpdateAmbiguous` with the two
/// match counts otherwise.
pub fn resolve_update(current_tag: &Vec<u8>, release: &ReleaseDescriptor) -> (r:
    UpdateAvailability)
    ensures
        r@ == spec_resolve(current_tag@, release@),
{
    if crate::text::bytes_eq(&release.tag, current_tag) {
        return UpdateAvailability::NoUpdate;
    }
    let ghost models = release@.assets;
    let mut cc: usize = 0;
    let mut sc: usize = 0;
    let mut client_url: Option<Vec<u8>> = None;
    let mut server_url: Option<Vec<u8>> = None;
    let n = release.assets.len();
    let mut i: usize = 0;
    proof {
        assert(models.skip(0) =~= models);
    }
    while i < n
        invariant
            n == release.assets.len(),
            models == release@.assets,
            models.len() == n,
            0 <= i <= n,
            cc <= i,
            sc <= i,
            match_count(models, false) == cc + match_count(models.skip(i as int), false),
            match_count(models, true) == sc + match_count(models.skip(i as int), true),
            client_url is Some <==> cc > 0,
            server_url is Some <==> sc > 0,
            client_url matches Some(u) ==> first_match_url(models, false) == u@,
            client_url is None ==> first_match_url(models, false) == first_match_url(
                models.skip(i as int), false),
            server_url matches Some(u) ==> first_match_url(models, true) == u@,
            server_url is None ==> first_match_url(models, true) == first_match_url(
                models.skip(i as int), true),
        decreases n - i,
    {
        proof {
            assert(models.skip(i as int)[0] == models[i as int]);
            assert(models.skip(i as int).drop_first() =~= models.skip(i as int + 1));
            assert(models[i as int] == release.assets@[i as int]@);
        }
        let a = &release.assets[i];
        if is_client_asset(&a.name) {
            cc = cc + 1;
            if client_url.is_none() {
                client_url = Some(crate::text::clone_vec(&a.download_url));
            }
        }
        if is_server_asset(&a.name) {
            sc = sc + 1;
            if server_url.is_none() {
                server_url = Some(crate::text::clone_vec(&a.download_url));
            }
        }
        i += 1;
    }
    proof {
        assert(models.skip(n as int) =~= Seq::<AssetModel>::empty());
    }
    if cc == 1 && sc == 1 {
        match (client_url, server_url) {
            (Some(c), Some(s)) => UpdateAvailability::UpdateFound {
                client_url: c,
                server_url: s,
            },
            _ => {
                // unreachable: a count of one means a URL was recorded
                proof {
                    assert(false);
                }
                UpdateAvailability::UpdateAmbiguous { client_matches: cc, server_matches: sc }
            },
        }
    } else {
        UpdateAvailability::UpdateAmbiguous { client_matches: cc, server_matches: sc }
    }
}

/// Law: against a release whose tag differs from the installed one
/// and which carries exactly one asset of each naming convention, the
/// check finds the update and reports exactly those two assets'
/// URLs; against a release tagged with the installed tag itself, the
/// check reports no update.
pub proof fn lemma_update_check_detects(installed: Seq<u8>, rel: ReleaseModel)
    requires
        rel.tag != installed,
        match_count(rel.assets, false) == 1,
        match_count(rel.assets, true) == 1,
    ensures
        spec_resolve(installed, rel) == (UpdateModel::Found {
            client_url: first_match_url(rel.assets, false),
            server_url: first_match_url(rel.assets, true),
        }),
        spec_resolve(rel.tag, rel) == UpdateModel::NoUpdate,
{
}

/// Law: against a release whose tag differs, zero or two-or-more
/// assets matching either convention never produce a found update,
/// only an ambiguity report carrying both match counts.
pub proof fn lemma_ambiguity_is_reported(installed: Seq<u8>, rel: ReleaseModel)
    requires
        rel.tag != installed,
        match_count(rel.assets, false) != 1 || match_count(rel.assets, true) != 1,
    ensures
        spec_resolve(installed, rel) == (UpdateModel::Ambiguous {
            client_matches: match_count(rel.assets, false),
            server_matches: match_count(rel.assets, true),
        }),
{
}

/// The installed version, as the configuration collaborator
/// supplies it; the core only ever reads it.
#[derive(Debug, PartialEq, Eq)]
pub struct InstalledVersion {
    pub current_version: Vec<u8>,
}

/// Classify the metadata request's outcome before any parsing: a
/// request that could not be sent is a network failure; a non-2xx
/// status is a remote failure carrying that status; only a success
/// status lets resolution proceed.
pub fn check_response(sent: bool, status: u16) -> (r: Result<(), LauncherError>)
    ensures
        !sent ==> (r matches Err(e) && e is NetworkError),
        (sent && !(200 <= status < 300)) ==> (r matches Err(e)
            && e matches LauncherError::RemoteError { status: s2 } && s2 == status),
        (sent && 200 <= status < 300) ==> r is Ok,
{
    if !sent {
        Err(LauncherError::NetworkError)
    } else if 200 <= status && status < 300 {
        Ok(())
    } else {
        Err(LauncherError::RemoteError { status })
    }
}

/// The human-readable account given when the asset pair cannot be
/// located.
pub fn ambiguity_message() -> (r: Vec<u8>)
    ensures
        r@ == "Could not find both client and server packages.".spec_bytes(),
{
    ("Could not find both client and server packages.").as_bytes_vec()
}

} // verus!
