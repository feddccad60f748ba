//! The content-addressed store: addressing, the realization engine as an
//! explicit decision machine, and deployment planning.
//!
//! Realization alternates filesystem and network work with decisions. The
//! decisions live here, fully verified: `realize_start` and `realize_step`
//! map the current state and the outcome of the last side effect to the
//! next state and the next side effect to perform. The runner that
//! performs downloads, extractions and renames feeds their outcomes back
//! in as events.

use vstd::prelude::*;
use crate::composer::{JadeError, JadeErrorModel};
use crate::package::{sig_of, Derivation, DerivationModel};

verus! {

/// The store layout: where realized entries live and where downloads are
/// staged.
#[derive(Clone, Debug)]
pub struct Store {
    pub store_path: String,
    pub temp: String,
}

/// The mathematical content of a store handle.
#[verifier::ext_equal]
pub ghost struct StoreModel {
    pub store_path: Seq<char>,
    pub temp: Seq<char>,
}

impl View for Store {
    type V = StoreModel;

    open spec fn view(&self) -> StoreModel {
        StoreModel { store_path: self.store_path@, temp: self.temp@ }
    }
}

/// A handle to one realized store entry.
#[derive(Debug)]
pub struct StorePath {
    pub path: String,
    pub name: String,
    pub hash: String,
}

/// The mathematical content of a store path.
#[verifier::ext_equal]
pub ghost struct StorePathModel {
    pub path: Seq<char>,
    pub name: Seq<char>,
    pub hash: Seq<char>,
}

impl View for StorePath {
    type V = StorePathModel;

    open spec fn view(&self) -> StorePathModel {
        StorePathModel { path: self.path@, name: self.name@, hash: self.hash@ }
    }
}

/// The directory a derivation's artifact is staged in before commit.
pub open spec fn staging_file_of(store: StoreModel, d: DerivationModel) -> Seq<char> {
    store.temp + "/"@ + d.file_name
}

/// The store directory of a derivation whose hash is set.
pub open spec fn store_dir_of(store: StoreModel, d: DerivationModel) -> Seq<char> {
    store.store_path + "/"@ + sig_of(d)
}

/// The artifact entry under a store directory.
pub open spec fn artifact_of(path: Seq<char>) -> Seq<char> {
    path + "/artifact"@
}

/// The store path handle of a derivation whose hash is set.
pub open spec fn store_path_model_of(store: StoreModel, d: DerivationModel) -> StorePathModel {
    StorePathModel {
        path: store_dir_of(store, d),
        name: d.file_name,
        hash: match d.hash {
            Some(h) => h,
            None => Seq::empty(),
        },
    }
}

impl StorePath {
    /// Plain constructor.
    pub fn new(path: &str, name: &str, hash: &str) -> (r: Self)
        ensures
            r@ == (StorePathModel { path: path@, name: name@, hash: hash@ }),
    {
        Self { path: path.to_owned(), name: name.to_owned(), hash: hash.to_owned() }
    }

    /// The artifact entry of this store path.
    pub fn get_artifact(&self) -> (r: String)
        ensures
            r@ == artifact_of(self@.path),
    {
        let mut s = self.path.clone();
        s.append("/artifact");
        s
    }

    /// The store directory as text, as it is shown to the operator.
    pub fn render(&self) -> (r: String)
        ensures
            r@ == self@.path,
    {
        self.path.clone()
    }

    /// A field-faithful copy.
    pub fn duplicate(&self) -> (r: StorePath)
        ensures
            r@ == self@,
    {
        StorePath {
            path: self.path.clone(),
            name: self.name.clone(),
            hash: self.hash.clone(),
        }
    }

    /// The deployment plan for this store path: make sure the target
    /// directory exists, clear whatever occupies the entry name, then
    /// link or copy the artifact in. The runner performs the steps in
    /// order.
    pub fn install_plan(&self, dest_dir: &str, symlink: bool) -> (r: Vec<DeployAction>)
        ensures
            r@.len() == 3,
            r@[0]@ == (DeployActionModel::EnsureDir { path: dest_dir@ }),
            r@[1]@ == (DeployActionModel::RemoveEntry { path: dest_dir@ + "/"@ + self@.name }),
            symlink ==> r@[2]@ == (DeployActionModel::Symlink {
                source: artifact_of(self@.path),
                dest: dest_dir@ + "/"@ + self@.name,
            }),
            !symlink ==> r@[2]@ == (DeployActionModel::Copy {
                source: artifact_of(self@.path),
                dest: dest_dir@ + "/"@ + self@.name,
            }),
    {
        let mut dest = dest_dir.to_owned();
        dest.append("/");
        dest.append(self.name.as_str());
        let artifact = self.get_artifact();
        let mut plan: Vec<DeployAction> = Vec::new();
        plan.push(DeployAction::EnsureDir { path: dest_dir.to_owned() });
        plan.push(DeployAction::RemoveEntry { path: dest.clone() });
        if symlink {
            plan.push(DeployAction::Symlink { source: artifact, dest });
        } else {
            plan.push(DeployAction::Copy { source: artifact, dest });
        }
        plan
    }
}

/// One filesystem step of a deployment. `RemoveEntry` is best-effort: a
/// missing entry is not an error. `Symlink` and `Copy` expect their
/// destination to be clear.
#[derive(Debug)]
pub enum DeployAction {
    EnsureDir { path: String },
    RemoveEntry { path: String },
    Symlink { source: String, dest: String },
    Copy { source: String, dest: String },
}

/// The mathematical content of a deployment step.
#[verifier::ext_equal]
pub ghost enum DeployActionModel {
    EnsureDir { path: Seq<char> },
    RemoveEntry { path: Seq<char> },
    Symlink { source: Seq<char>, dest: Seq<char> },
    Copy { source: Seq<char>, dest: Seq<char> },
}

impl View for DeployAction {
    type V = DeployActionModel;

    open spec fn view(&self) -> DeployActionModel {
        match self {
            DeployAction::EnsureDir { path } => DeployActionModel::EnsureDir { path: path@ },
            DeployAction::RemoveEntry { path } => DeployActionModel::RemoveEntry { path: path@ },
            DeployAction::Symlink { source, dest } => DeployActionModel::Symlink {
                source: source@,
                dest: dest@,
            },
            DeployAction::Copy { source, dest } => DeployActionModel::Copy {
                source: source@,
                dest: dest@,
            },
        }
    }
}

impl Store {
    /// Plain constructor.
    pub fn new(store_path: &str, temp: &str) -> (r: Self)
        ensures
            r@ == (StoreModel { store_path: store_path@, temp: temp@ }),
    {
        Self { store_path: store_path.to_owned(), temp: temp.to_owned() }
    }

    /// The store and staging directories under one root.
    pub fn at_root(root: &str) -> (r: Self)
        ensures
            r@.store_path == root@ + "/store/"@,
            r@.temp == root@ + "/staging"@,
    {
        let mut store_path = root.to_owned();
        store_path.append("/store/");
        let mut temp = root.to_owned();
        temp.append("/staging");
        Self { store_path, temp }
    }

    /// A field-faithful copy.
    pub fn duplicate(&self) -> (r: Store)
        ensures
            r@ == self@,
    {
        Store { store_path: self.store_path.clone(), temp: self.temp.clone() }
    }

    /// The store path a derivation with a pinned hash realizes to.
    pub fn make_package_store_path(&self, derivation: &Derivation) -> (r: StorePath)
        requires
            derivation@.hash is Some,
        ensures
            r@ == store_path_model_of(self@, derivation@),
    {
        let sig = derivation.generate_hash_signature();
        let mut path = self.store_path.clone();
        path.append("/");
        path.append(sig.as_str());
        let hash = match &derivation.hash {
            Some(h) => h.clone(),
            None => String::new(),
        };
        StorePath { path, name: derivation.file_name.clone(), hash }
    }

    /// The cached store path of a package, given whether its store
    /// directory is present on disk: a package without a pinned hash is
    /// never trusted from cache.
    pub fn is_package_in_store(&self, package: &Derivation, present_on_disk: bool) -> (r: Option<
        StorePath,
    >)
        ensures
            package@.hash is Some && present_on_disk ==> (r matches Some(p) && p@
                == store_path_model_of(self@, package@)),
            package@.hash is None || !present_on_disk ==> r is None,
    {
        if package.hash.is_some() && present_on_disk {
            Some(self.make_package_store_path(package))
        } else {
            None
        }
    }
}

/// What the runner reports back after performing the last action.
#[derive(Debug)]
pub enum RealizeEvent {
    /// Whether the store directory that was checked exists.
    StoreChecked { present: bool },
    /// The artifact was fetched and written to staging; both digests of
    /// the received bytes travel along: the canonical store hash and the
    /// hex SHA-512 that registry drivers preset.
    Downloaded { sha256_nix: String, sha512_hex: String },
    /// The fetch failed: transport error (code 0) or a non-2xx status.
    DownloadFailed { return_code: u16 },
    /// The archive was expanded next to itself and the archive removed.
    Extracted,
    ExtractFailed { message: String },
    /// The rename into the store landed; `already_existed` reports a
    /// concurrent realization having won the race with identical content.
    Committed { already_existed: bool },
    CommitFailed { message: String },
}

/// The mathematical content of an event.
#[verifier::ext_equal]
pub ghost enum RealizeEventModel {
    StoreChecked { present: bool },
    Downloaded { sha256_nix: Seq<char>, sha512_hex: Seq<char> },
    DownloadFailed { return_code: u16 },
    Extracted,
    ExtractFailed { message: Seq<char> },
    Committed { already_existed: bool },
    CommitFailed { message: Seq<char> },
}

impl View for RealizeEvent {
    type V = RealizeEventModel;

    open spec fn view(&self) -> RealizeEventModel {
        match self {
            RealizeEvent::StoreChecked { present } => RealizeEventModel::StoreChecked {
                present: *present,
            },
            RealizeEvent::Downloaded { sha256_nix, sha512_hex } => RealizeEventModel::Downloaded {
                sha256_nix: sha256_nix@,
                sha512_hex: sha512_hex@,
            },
            RealizeEvent::DownloadFailed { return_code } => RealizeEventModel::DownloadFailed {
                return_code: *return_code,
            },
            RealizeEvent::Extracted => RealizeEventModel::Extracted,
            RealizeEvent::ExtractFailed { message } => RealizeEventModel::ExtractFailed {
                message: message@,
            },
            RealizeEvent::Committed { already_existed } => RealizeEventModel::Committed {
                already_existed: *already_existed,
            },
            RealizeEvent::CommitFailed { message } => RealizeEventModel::CommitFailed {
                message: message@,
            },
        }
    }
}

/// The side effect the runner must perform next.
#[derive(Debug)]
pub enum RealizeAction {
    /// Test whether the store directory exists.
    CheckStore { path: String },
    /// Fetch `url` and write the bytes to `dest` in staging.
    Download { url: String, dest: String },
    /// Expand the zip at `archive` into `dest`, then remove the zip.
    Extract { archive: String, dest: String },
    /// Create `store_dir` and atomically rename `source` to `artifact`.
    Commit { source: String, store_dir: String, artifact: String },
}

/// The mathematical content of an action.
#[verifier::ext_equal]
pub ghost enum RealizeActionModel {
    CheckStore { path: Seq<char> },
    Download { url: Seq<char>, dest: Seq<char> },
    Extract { archive: Seq<char>, dest: Seq<char> },
    Commit { source: Seq<char>, store_dir: Seq<char>, artifact: Seq<char> },
}

impl View for RealizeAction {
    type V = RealizeActionModel;

    open spec fn view(&self) -> RealizeActionModel {
        match self {
            RealizeAction::CheckStore { path } => RealizeActionModel::CheckStore { path: path@ },
            RealizeAction::Download { url, dest } => RealizeActionModel::Download {
                url: url@,
                dest: dest@,
            },
            RealizeAction::Extract { archive, dest } => RealizeActionModel::Extract {
                archive: archive@,
                dest: dest@,
            },
            RealizeAction::Commit { source, store_dir, artifact } => RealizeActionModel::Commit {
                source: source@,
                store_dir: store_dir@,
                artifact: artifact@,
            },
        }
    }
}

/// Where one realization stands.
#[derive(Debug)]
pub enum RealizeState {
    /// Waiting to hear whether the store already holds the entry.
    CheckingStore,
    /// Waiting for the artifact bytes.
    Downloading,
    /// Waiting for the archive to be expanded; `updated` carries the
    /// hash pinned from the downloaded bytes.
    Extracting { updated: Derivation },
    /// Waiting for the atomic rename into the store.
    Committing { updated: Derivation, source: String },
    /// The entry is realized at `path`; `updated` is the derivation with
    /// its hash pinned.
    Done { path: StorePath, updated: Derivation },
    /// The realization failed; the store holds nothing new from it.
    Failed { error: JadeError },
}

/// The mathematical content of a realization state.
#[verifier::ext_equal]
pub ghost enum RealizeStateModel {
    CheckingStore,
    Downloading,
    Extracting { updated: DerivationModel },
    Committing { updated: DerivationModel, source: Seq<char> },
    Done { path: StorePathModel, updated: DerivationModel },
    Failed { error: JadeErrorModel },
}

impl View for RealizeState {
    type V = RealizeStateModel;

    open spec fn view(&self) -> RealizeStateModel {
        match self {
            RealizeState::CheckingStore => RealizeStateModel::CheckingStore,
            RealizeState::Downloading => RealizeStateModel::Downloading,
            RealizeState::Extracting { updated } => RealizeStateModel::Extracting {
                updated: updated@,
            },
            RealizeState::Committing { updated, source } => RealizeStateModel::Committing {
                updated: updated@,
                source: source@,
            },
            RealizeState::Done { path, updated } => RealizeStateModel::Done {
                path: path@,
                updated: updated@,
            },
            RealizeState::Failed { error } => RealizeStateModel::Failed { error: error@ },
        }
    }
}

/// The view of an optional action.
pub open spec fn opt_action_view(o: Option<RealizeAction>) -> Option<RealizeActionModel> {
    match o {
        Some(a) => Some(a@),
        None => None,
    }
}

/// The derivation with its hash pinned to `h`.
pub open spec fn with_hash(d: DerivationModel, h: Seq<char>) -> DerivationModel {
    DerivationModel { hash: Some(h), ..d }
}

/// A preset hash disagrees with both digests of the downloaded bytes. A
/// derivation without a preset hash never disagrees: its hash is pinned
/// from the bytes themselves.
pub open spec fn hash_disagrees(
    d: DerivationModel,
    sha256_nix: Seq<char>,
    sha512_hex: Seq<char>,
) -> bool {
    match d.hash {
        Some(expected) => expected != sha256_nix && expected != sha512_hex,
        None => false,
    }
}

/// The commit action for an updated derivation staged at `source`.
pub open spec fn commit_action_of(
    store: StoreModel,
    updated: DerivationModel,
    source: Seq<char>,
) -> RealizeActionModel {
    RealizeActionModel::Commit {
        source,
        store_dir: store_dir_of(store, updated),
        artifact: artifact_of(store_dir_of(store, updated)),
    }
}

/// The terminal state for an event arriving in a state that does not
/// expect it.
pub open spec fn out_of_order_state() -> RealizeStateModel {
    RealizeStateModel::Failed {
        error: JadeErrorModel::Error("realization event out of order"@),
    }
}

/// The first decision of a realization: an entry with a pinned hash is
/// looked up in the store first; one without is fetched outright, since a
/// cached path whose bytes cannot be named by hash is never trusted.
pub open spec fn spec_start(store: StoreModel, d: DerivationModel) -> (
    RealizeStateModel,
    RealizeActionModel,
) {
    if d.hash is Some {
        (
            RealizeStateModel::CheckingStore,
            RealizeActionModel::CheckStore { path: store_dir_of(store, d) },
        )
    } else {
        (
            RealizeStateModel::Downloading,
            RealizeActionModel::Download { url: d.url, dest: staging_file_of(store, d) },
        )
    }
}

/// One decision of a realization: from the current state and the outcome
/// of the last side effect to the next state and next side effect.
pub open spec fn spec_step(
    store: StoreModel,
    d: DerivationModel,
    s: RealizeStateModel,
    e: RealizeEventModel,
) -> (RealizeStateModel, Option<RealizeActionModel>) {
    match s {
        RealizeStateModel::CheckingStore => match e {
            RealizeEventModel::StoreChecked { present } => if present {
                (
                    RealizeStateModel::Done { path: store_path_model_of(store, d), updated: d },
                    None,
                )
            } else {
                (
                    RealizeStateModel::Downloading,
                    Some(
                        RealizeActionModel::Download {
                            url: d.url,
                            dest: staging_file_of(store, d),
                        },
                    ),
                )
            },
            _ => (out_of_order_state(), None),
        },
        RealizeStateModel::Downloading => match e {
            RealizeEventModel::Downloaded { sha256_nix, sha512_hex } => if hash_disagrees(
                d,
                sha256_nix,
                sha512_hex,
            ) {
                (
                    RealizeStateModel::Failed {
                        error: JadeErrorModel::CheckSumError {
                            expected_sum: match d.hash {
                                Some(h) => h,
                                None => Seq::empty(),
                            },
                            real_sum: sha256_nix,
                            package: d.name,
                        },
                    },
                    None,
                )
            } else {
                let updated = with_hash(d, sha256_nix);
                if d.extract {
                    (
                        RealizeStateModel::Extracting { updated },
                        Some(
                            RealizeActionModel::Extract {
                                archive: staging_file_of(store, d),
                                dest: staging_file_of(store, d) + ".extracted"@,
                            },
                        ),
                    )
                } else {
                    (
                        RealizeStateModel::Committing {
                            updated,
                            source: staging_file_of(store, d),
                        },
                        Some(commit_action_of(store, updated, staging_file_of(store, d))),
                    )
                }
            },
            RealizeEventModel::DownloadFailed { return_code } => (
                RealizeStateModel::Failed {
                    error: JadeErrorModel::FailedDownload {
                        url: d.url,
                        return_code,
                        package: d.name,
                    },
                },
                None,
            ),
            _ => (out_of_order_state(), None),
        },
        RealizeStateModel::Extracting { updated } => match e {
            RealizeEventModel::Extracted => (
                RealizeStateModel::Committing {
                    updated,
                    source: staging_file_of(store, d) + ".extracted"@,
                },
                Some(commit_action_of(store, updated, staging_file_of(store, d) + ".extracted"@)),
            ),
            RealizeEventModel::ExtractFailed { message } => (
                RealizeStateModel::Failed {
                    error: JadeErrorModel::IOError { package: d.name, io_error: message },
                },
                None,
            ),
            _ => (out_of_order_state(), None),
        },
        RealizeStateModel::Committing { updated, source } => match e {
            RealizeEventModel::Committed { already_existed } => (
                RealizeStateModel::Done {
                    path: store_path_model_of(store, updated),
                    updated,
                },
                None,
            ),
            RealizeEventModel::CommitFailed { message } => (
                RealizeStateModel::Failed {
                    error: JadeErrorModel::IOError { package: d.name, io_error: message },
                },
                None,
            ),
            _ => (out_of_order_state(), None),
        },
        RealizeStateModel::Done { path, updated } => (s, None),
        RealizeStateModel::Failed { error } => (s, None),
    }
}

impl Store {
    /// The staging file a derivation downloads to.
    fn staging_file_exec(&self, d: &Derivation) -> (r: String)
        ensures
            r@ == staging_file_of(self@, d@),
    {
        let mut s = self.temp.clone();
        s.append("/");
        s.append(d.file_name.as_str());
        s
    }

    /// The store directory of a derivation with a pinned hash.
    fn store_dir_exec(&self, d: &Derivation) -> (r: String)
        requires
            d@.hash is Some,
        ensures
            r@ == store_dir_of(self@, d@),
    {
        let sig = d.generate_hash_signature();
        let mut s = self.store_path.clone();
        s.append("/");
        s.append(sig.as_str());
        s
    }

    /// The commit action renaming `source` into the store entry of `updated`.
    fn commit_action_exec(&self, updated: &Derivation, source: String) -> (r: RealizeAction)
        ensures
            r@ == commit_action_of(self@, updated@, source@),
    {
        let store_dir = self.make_store_path_unchecked(updated).path;
        let mut artifact = store_dir.clone();
        artifact.append("/artifact");
        RealizeAction::Commit { source, store_dir, artifact }
    }

    /// Begin realizing a derivation: decide the first side effect.
    pub fn realize_start(&self, derivation: &Derivation) -> (r: (RealizeState, RealizeAction))
        ensures
            r.0@ == spec_start(self@, derivation@).0,
            r.1@ == spec_start(self@, derivation@).1,
    {
        if derivation.hash.is_some() {
            let path = self.store_dir_exec(derivation);
            (RealizeState::CheckingStore, RealizeAction::CheckStore { path })
        } else {
            (
                RealizeState::Downloading,
                RealizeAction::Download {
                    url: derivation.url.clone(),
                    dest: self.staging_file_exec(derivation),
                },
            )
        }
    }

    /// Advance a realization by one decision, from the outcome of the
    /// last side effect.
    pub fn realize_step(&self, derivation: &Derivation, state: RealizeState, event: RealizeEvent)
        -> (r: (RealizeState, Option<RealizeAction>))
        ensures
            r.0@ == spec_step(self@, derivation@, state@, event@).0,
            opt_action_view(r.1) == spec_step(self@, derivation@, state@, event@).1,
    {
        match state {
            RealizeState::CheckingStore => match event {
                RealizeEvent::StoreChecked { present } => if present {
                    (
                        RealizeState::Done {
                            path: self.make_store_path_unchecked(derivation),
                            updated: derivation.duplicate(),
                        },
                        None,
                    )
                } else {
                    (
                        RealizeState::Downloading,
                        Some(
                            RealizeAction::Download {
                                url: derivation.url.clone(),
                                dest: self.staging_file_exec(derivation),
                            },
                        ),
                    )
                },
                _ => (Self::out_of_order(), None),
            },
            RealizeState::Downloading => match event {
                RealizeEvent::Downloaded { sha256_nix, sha512_hex } => {
                    let disagrees = match &derivation.hash {
                        Some(expected) => !(*expected == sha256_nix) && !(*expected == sha512_hex),
                        None => false,
                    };
                    if disagrees {
                        let expected_sum = match &derivation.hash {
                            Some(h) => h.clone(),
                            None => String::new(),
                        };
                        (
                            RealizeState::Failed {
                                error: JadeError::CheckSumError {
                                    expected_sum,
                                    real_sum: sha256_nix,
                                    package: derivation.name.clone(),
                                },
                            },
                            None,
                        )
                    } else {
                        let ghost pinned = sha256_nix@;
                        let mut updated = derivation.duplicate();
                        updated.hash = Some(sha256_nix);
                        proof {
                            assert(updated@ =~~= with_hash(derivation@, pinned));
                        }
                        if derivation.extract {
                            let archive = self.staging_file_exec(derivation);
                            let mut dest = archive.clone();
                            dest.append(".extracted");
                            (
                                RealizeState::Extracting { updated },
                                Some(RealizeAction::Extract { archive, dest }),
                            )
                        } else {
                            let source = self.staging_file_exec(derivation);
                            let action = self.commit_action_exec(&updated, source.clone());
                            (RealizeState::Committing { updated, source }, Some(action))
                        }
                    }
                },
                RealizeEvent::DownloadFailed { return_code } => (
                    RealizeState::Failed {
                        error: JadeError::FailedDownload {
                            url: derivation.url.clone(),
                            return_code,
                            package: derivation.name.clone(),
                        },
                    },
                    None,
                ),
                _ => (Self::out_of_order(), None),
            },
            RealizeState::Extracting { updated } => match event {
                RealizeEvent::Extracted => {
                    let mut source = self.staging_file_exec(derivation);
                    source.append(".extracted");
                    let action = self.commit_action_exec(&updated, source.clone());
                    (RealizeState::Committing { updated, source }, Some(action))
                },
                RealizeEvent::ExtractFailed { message } => (
                    RealizeState::Failed {
                        error: JadeError::IOError {
                            package: derivation.name.clone(),
                            io_error: message,
                        },
                    },
                    None,
                ),
                _ => (Self::out_of_order(), None),
            },
            RealizeState::Committing { updated, source } => match event {
                RealizeEvent::Committed { already_existed: _ } => {
                    let path = self.make_store_path_unchecked(&updated);
                    (RealizeState::Done { path, updated }, None)
                },
                RealizeEvent::CommitFailed { message } => (
                    RealizeState::Failed {
                        error: JadeError::IOError {
                            package: derivation.name.clone(),
                            io_error: message,
                        },
                    },
                    None,
                ),
                _ => (Self::out_of_order(), None),
            },
            RealizeState::Done { path, updated } => (RealizeState::Done { path, updated }, None),
            RealizeState::Failed { error } => (RealizeState::Failed { error }, None),
        }
    }

    /// The store path handle of a derivation, its hash read as empty when
    /// not yet pinned.
    fn make_store_path_unchecked(&self, d: &Derivation) -> (r: StorePath)
        ensures
            r@ == store_path_model_of(self@, d@),
    {
        let mut sig: String = match &d.hash {
            Some(h) => h.clone(),
            None => String::new(),
        };
        sig.append("-");
        sig.append(d.name.as_str());
        let mut path = self.store_path.clone();
        path.append("/");
        path.append(sig.as_str());
        let hash = match &d.hash {
            Some(h) => h.clone(),
            None => String::new(),
        };
        StorePath { path, name: d.file_name.clone(), hash }
    }

    /// The state for an event arriving out of order.
    fn out_of_order() -> (r: RealizeState)
        ensures
            r@ == out_of_order_state(),
    {
        RealizeState::Failed {
            error: JadeError::Error("realization event out of order".to_owned()),
        }
    }
}

/// The whole of one realization: fold the events through `spec_step`,
/// collecting the actions it asks for along the way.
pub open spec fn spec_run(
    store: StoreModel,
    d: DerivationModel,
    s: RealizeStateModel,
    events: Seq<RealizeEventModel>,
) -> (RealizeStateModel, Seq<RealizeActionModel>)
    decreases events.len(),
{
    if events.len() == 0 {
        (s, Seq::empty())
    } else {
        let step = spec_step(store, d, s, events.first());
        let rest = spec_run(store, d, step.0, events.drop_first());
        (
            rest.0,
            (match step.1 {
                Some(a) => seq![a],
                None => Seq::<RealizeActionModel>::empty(),
            }) + rest.1,
        )
    }
}

/// A terminal state absorbs every further event, asking for nothing.
pub proof fn lemma_terminal_absorbing(
    store: StoreModel,
    d: DerivationModel,
    s: RealizeStateModel,
    events: Seq<RealizeEventModel>,
)
    requires
        s is Done || s is Failed,
    ensures
        spec_run(store, d, s, events).0 == s,
        spec_run(store, d, s, events).1 =~= Seq::<RealizeActionModel>::empty(),
    decreases events.len(),
{
    if events.len() > 0 {
        lemma_terminal_absorbing(store, d, s, events.drop_first());
    }
}

/// Some emitted action fetches from the network.
pub open spec fn has_download(acts: Seq<RealizeActionModel>) -> bool {
    exists|i: int| 0 <= i < acts.len() && #[trigger] acts[i] is Download
}

/// Some emitted action renames into the store.
pub open spec fn has_commit(acts: Seq<RealizeActionModel>) -> bool {
    exists|i: int| 0 <= i < acts.len() && #[trigger] acts[i] is Commit
}

proof fn lemma_has_download_concat(a: Seq<RealizeActionModel>, b: Seq<RealizeActionModel>)
    ensures
        has_download(a + b) <==> has_download(a) || has_download(b),
{
    if has_download(a) {
        let i = choose|i: int| 0 <= i < a.len() && #[trigger] a[i] is Download;
        assert((a + b)[i] is Download);
    }
    if has_download(b) {
        let i = choose|i: int| 0 <= i < b.len() && #[trigger] b[i] is Download;
        assert((a + b)[a.len() + i] is Download);
    }
    if has_download(a + b) {
        let i = choose|i: int| 0 <= i < (a + b).len() && #[trigger] (a + b)[i] is Download;
        if i < a.len() {
            assert(a[i] is Download);
        } else {
            assert(b[i - a.len()] is Download);
        }
    }
}

proof fn lemma_has_commit_concat(a: Seq<RealizeActionModel>, b: Seq<RealizeActionModel>)
    ensures
        has_commit(a + b) <==> has_commit(a) || has_commit(b),
{
    if has_commit(a) {
        let i = choose|i: int| 0 <= i < a.len() && #[trigger] a[i] is Commit;
        assert((a + b)[i] is Commit);
    }
    if has_commit(b) {
        let i = choose|i: int| 0 <= i < b.len() && #[trigger] b[i] is Commit;
        assert((a + b)[a.len() + i] is Commit);
    }
    if has_commit(a + b) {
        let i = choose|i: int| 0 <= i < (a + b).len() && #[trigger] (a + b)[i] is Commit;
        if i < a.len() {
            assert(a[i] is Commit);
        } else {
            assert(b[i - a.len()] is Commit);
        }
    }
}

/// Only the opening store check can ask for a download: once past it, a
/// realization never fetches again.
pub proof fn lemma_no_download_past_check(
    store: StoreModel,
    d: DerivationModel,
    s: RealizeStateModel,
    events: Seq<RealizeEventModel>,
)
    requires
        !(s is CheckingStore),
    ensures
        !has_download(spec_run(store, d, s, events).1),
    decreases events.len(),
{
    if events.len() == 0 {
    } else {
        let step = spec_step(store, d, s, events.first());
        assert(!(step.0 is CheckingStore));
        lemma_no_download_past_check(store, d, step.0, events.drop_first());
        let head = (match step.1 {
            Some(a) => seq![a],
            None => Seq::<RealizeActionModel>::empty(),
        });
        assert(!has_download(head));
        lemma_has_download_concat(head, spec_run(store, d, step.0, events.drop_first()).1);
    }
}

/// A realization asks for at most one download: none at all when the
/// store check answers that the entry is present.
pub proof fn lemma_download_at_most_once(
    store: StoreModel,
    d: DerivationModel,
    events: Seq<RealizeEventModel>,
)
    requires
        events.len() > 0,
    ensures
        ({
            let start = spec_start(store, d);
            start.0 is CheckingStore ==> {
                let step = spec_step(store, d, start.0, events.first());
                !has_download(spec_run(store, d, step.0, events.drop_first()).1)
            }
        }),
{
    let start = spec_start(store, d);
    if start.0 is CheckingStore {
        let step = spec_step(store, d, start.0, events.first());
        assert(!(step.0 is CheckingStore));
        lemma_no_download_past_check(store, d, step.0, events.drop_first());
    }
}

/// A derivation whose hash is pinned and whose entry is already in the
/// store realizes as a pure cache hit: the answer is the entry's own
/// path, with not one download asked for.
pub proof fn lemma_realize_cached(
    store: StoreModel,
    d: DerivationModel,
    events: Seq<RealizeEventModel>,
)
    requires
        d.hash is Some,
        events.len() > 0,
        events.first() == (RealizeEventModel::StoreChecked { present: true }),
    ensures
        ({
            let start = spec_start(store, d);
            let run = spec_run(store, d, start.0, events);
            &&& !(start.1 is Download)
            &&& !has_download(run.1)
            &&& run.0 == (RealizeStateModel::Done {
                path: store_path_model_of(store, d),
                updated: d,
            })
        }),
{
    let start = spec_start(store, d);
    let step = spec_step(store, d, start.0, events.first());
    assert(step.0 == (RealizeStateModel::Done {
        path: store_path_model_of(store, d),
        updated: d,
    }));
    lemma_terminal_absorbing(store, d, step.0, events.drop_first());
    let head = Seq::<RealizeActionModel>::empty();
    assert(spec_run(store, d, start.0, events).1 =~= head + spec_run(
        store,
        d,
        step.0,
        events.drop_first(),
    ).1);
    assert(!has_download(spec_run(store, d, start.0, events).1));
}

/// Every `Downloaded` event in the list disagrees with the preset hash.
pub open spec fn all_downloads_disagree(
    d: DerivationModel,
    events: Seq<RealizeEventModel>,
) -> bool {
    forall|i: int|
        0 <= i < events.len() ==> (#[trigger] events[i] matches RealizeEventModel::Downloaded {
            sha256_nix,
            sha512_hex,
        } ==> hash_disagrees(d, sha256_nix, sha512_hex))
}

/// With a preset hash that no downloaded bytes ever match, a realization
/// never asks for a commit: nothing it does can change the store. The
/// only non-failing outcome left is the cache hit, which touches nothing.
pub proof fn lemma_mismatch_never_commits(
    store: StoreModel,
    d: DerivationModel,
    s: RealizeStateModel,
    events: Seq<RealizeEventModel>,
)
    requires
        d.hash is Some,
        all_downloads_disagree(d, events),
        s is CheckingStore || s is Downloading || s is Done || s is Failed,
    ensures
        !has_commit(spec_run(store, d, s, events).1),
    decreases events.len(),
{
    if events.len() == 0 {
    } else {
        let e = events.first();
        let step = spec_step(store, d, s, e);
        assert(step.0 is CheckingStore || step.0 is Downloading || step.0 is Done || step.0
            is Failed);
        assert(step.1 is Some ==> !((step.1 matches Some(a) && a is Commit)));
        assert(all_downloads_disagree(d, events.drop_first())) by {
            assert(forall|i: int|
                0 <= i < events.drop_first().len() ==> events.drop_first()[i] == events[i + 1]);
        }
        lemma_mismatch_never_commits(store, d, step.0, events.drop_first());
        let head = (match step.1 {
            Some(a) => seq![a],
            None => Seq::<RealizeActionModel>::empty(),
        });
        assert(!has_commit(head));
        lemma_has_commit_concat(head, spec_run(store, d, step.0, events.drop_first()).1);
    }
}

/// The opening decision for a preset hash is the store check, never a
/// commit, so a whole realization under disagreeing downloads performs
/// no commit at all.
pub proof fn lemma_mismatch_run_never_commits(
    store: StoreModel,
    d: DerivationModel,
    events: Seq<RealizeEventModel>,
)
    requires
        d.hash is Some,
        all_downloads_disagree(d, events),
    ensures
        !(spec_start(store, d).1 is Commit),
        !has_commit(spec_run(store, d, spec_start(store, d).0, events).1),
{
    lemma_mismatch_never_commits(store, d, spec_start(store, d).0, events);
}

/// A run over concatenated events is the two runs in sequence.
pub proof fn lemma_run_append(
    store: StoreModel,
    d: DerivationModel,
    s: RealizeStateModel,
    a: Seq<RealizeEventModel>,
    b: Seq<RealizeEventModel>,
)
    ensures
        spec_run(store, d, s, a + b).0 == spec_run(store, d, spec_run(store, d, s, a).0, b).0,
        spec_run(store, d, s, a + b).1 =~= spec_run(store, d, s, a).1 + spec_run(
            store,
            d,
            spec_run(store, d, s, a).0,
            b,
        ).1,
    decreases a.len(),
{
    if a.len() == 0 {
        assert(a + b =~= b);
        assert(spec_run(store, d, s, a).0 == s);
        assert(spec_run(store, d, s, a).1 =~= Seq::<RealizeActionModel>::empty());
    } else {
        let step = spec_step(store, d, s, a.first());
        assert((a + b).first() == a.first());
        assert((a + b).drop_first() =~= a.drop_first() + b);
        lemma_run_append(store, d, step.0, a.drop_first(), b);
    }
}

/// A realization that ends in failure was never done along the way: it
/// reached no committed outcome at any prefix, so the store gained
/// nothing from it; and the machine is pure, so a fresh realization
/// afterwards starts from the very same opening decision.
pub proof fn lemma_failed_run_never_done(
    store: StoreModel,
    d: DerivationModel,
    s: RealizeStateModel,
    events: Seq<RealizeEventModel>,
    p: int,
)
    requires
        0 <= p <= events.len(),
        spec_run(store, d, s, events).0 is Failed,
    ensures
        !(spec_run(store, d, s, events.take(p)).0 is Done),
{
    let mid = spec_run(store, d, s, events.take(p)).0;
    if mid is Done {
        assert(events.take(p) + events.skip(p) =~= events);
        lemma_run_append(store, d, s, events.take(p), events.skip(p));
        lemma_terminal_absorbing(store, d, mid, events.skip(p));
    }
}

/// A commit acknowledged as landed settles the realization: the outcome
/// is the committed entry's path, whatever events still follow. A rename
/// that lost the race to an identical concurrent entry counts as landed.
pub proof fn lemma_commit_success_is_done(
    store: StoreModel,
    d: DerivationModel,
    updated: DerivationModel,
    source: Seq<char>,
    already_existed: bool,
    rest: Seq<RealizeEventModel>,
)
    ensures
        ({
            let s = RealizeStateModel::Committing { updated, source };
            let e = RealizeEventModel::Committed { already_existed };
            let step = spec_step(store, d, s, e);
            &&& step.0 == (RealizeStateModel::Done {
                path: store_path_model_of(store, updated),
                updated,
            })
            &&& step.1 is None
            &&& spec_run(store, d, step.0, rest).0 == step.0
        }),
{
    let s = RealizeStateModel::Committing { updated, source };
    let e = RealizeEventModel::Committed { already_existed };
    let step = spec_step(store, d, s, e);
    lemma_terminal_absorbing(store, d, step.0, rest);
}

/// After a failure nothing lingers in the machine: a fresh realization
/// of an unpinned derivation that downloads cleanly and commits ends
/// done, at the path addressed by the newly pinned hash.
pub proof fn lemma_retry_succeeds(
    store: StoreModel,
    d: DerivationModel,
    sha256_nix: Seq<char>,
    sha512_hex: Seq<char>,
    already_existed: bool,
)
    requires
        d.hash is None,
        !d.extract,
    ensures
        ({
            let start = spec_start(store, d);
            let events = seq![
                RealizeEventModel::Downloaded { sha256_nix, sha512_hex },
                RealizeEventModel::Committed { already_existed },
            ];
            spec_run(store, d, start.0, events).0 == (RealizeStateModel::Done {
                path: store_path_model_of(store, with_hash(d, sha256_nix)),
                updated: with_hash(d, sha256_nix),
            })
        }),
{
    let start = spec_start(store, d);
    let events = seq![
        RealizeEventModel::Downloaded { sha256_nix, sha512_hex },
        RealizeEventModel::Committed { already_existed },
    ];
    let step1 = spec_step(store, d, start.0, events[0]);
    assert(events.first() == events[0]);
    assert(step1.0 == (RealizeStateModel::Committing {
        updated: with_hash(d, sha256_nix),
        source: staging_file_of(store, d),
    }));
    let tail1 = events.drop_first();
    assert(tail1 =~= seq![events[1]]);
    assert(spec_run(store, d, start.0, events).0 == spec_run(store, d, step1.0, tail1).0);
    let step2 = spec_step(store, d, step1.0, tail1.first());
    assert(tail1.first() == events[1]);
    assert(step2.0 == (RealizeStateModel::Done {
        path: store_path_model_of(store, with_hash(d, sha256_nix)),
        updated: with_hash(d, sha256_nix),
    }));
    let tail2 = tail1.drop_first();
    assert(tail2 =~= Seq::<RealizeEventModel>::empty());
    assert(spec_run(store, d, step1.0, tail1).0 == spec_run(store, d, step2.0, tail2).0);
    assert(spec_run(store, d, step2.0, tail2).0 == step2.0);
}

/// Along any realization, the states that carry an updated derivation
/// carry one whose hash is pinned, and a done state's path is the one its
/// updated derivation addresses.
pub open spec fn state_addressed(
    store: StoreModel,
    d: DerivationModel,
    s: RealizeStateModel,
) -> bool {
    match s {
        RealizeStateModel::CheckingStore => d.hash is Some,
        RealizeStateModel::Downloading => true,
        RealizeStateModel::Extracting { updated } => updated.hash is Some && updated.name
            == d.name,
        RealizeStateModel::Committing { updated, source } => updated.hash is Some && updated.name
            == d.name,
        RealizeStateModel::Done { path, updated } => path == store_path_model_of(store, updated)
            && updated.hash is Some && updated.name == d.name,
        RealizeStateModel::Failed { error } => true,
    }
}

/// Whatever the events, a realization that ends done hands back the
/// store path addressed by the pinned hash and name: the address is a
/// function of content and name alone.
pub proof fn lemma_done_is_addressed(
    store: StoreModel,
    d: DerivationModel,
    s: RealizeStateModel,
    events: Seq<RealizeEventModel>,
)
    requires
        state_addressed(store, d, s),
    ensures
        state_addressed(store, d, spec_run(store, d, s, events).0),
    decreases events.len(),
{
    if events.len() > 0 {
        let step = spec_step(store, d, s, events.first());
        assert(state_addressed(store, d, step.0));
        lemma_done_is_addressed(store, d, step.0, events.drop_first());
    }
}

/// The opening state of any realization is well-addressed.
pub proof fn lemma_start_addressed(store: StoreModel, d: DerivationModel)
    ensures
        state_addressed(store, d, spec_start(store, d).0),
{
}

} // verus!
