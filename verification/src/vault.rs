//! The vault: secrets in plaintext terms, for an authenticated tenant.
//!
//! Every operation resolves the tenant's store through the router, reads or
//! writes versioned ciphertext there, and encrypts or decrypts at the
//! boundary with the tenant's method and key material. Plaintext never
//! reaches a store, and ciphertext never reaches the caller.
//!
//! Values are written as bytes. They are read back as bytes, or shown as
//! responses that hold them as text; a value that is not text can be read
//! but not shown.
//!
//! Each tenant has a part of its own in every store it is routed to, so
//! that no tenant sees another's secrets, whether the store is the shared
//! one or an external store that several tenants name.

use vstd::prelude::*;
use crate::cipher::registry::{decrypt, encrypt_with_nonce, opened, sealed};
use crate::cipher::primitives::{AEAD_MAX_PLAINTEXT, random_bytes};
use crate::dtos::{SecretResponse, SecretResponseView, response_of_bytes};
use crate::error::{ErrorKind, VaultError, VaultErrorView};
use crate::models::{
    DbConnection,
    EncryptionMethod,
    Secret,
    SecretVersion,
    SecretVersionView,
    SecretView,
    StoreTargetView,
    User,
};
use crate::router::{RouterModel, StorageRouter, StoreHandle};
use crate::store::{SecretStore, StoreModel};
use crate::store_laws::{
    lemma_current_after_create,
    lemma_names_after_update,
    lemma_rename_keeps_history,
};
use crate::vault_laws::{lemma_store_of_wf, lemma_tenants_are_isolated};

verus! {

/// What the vault tells of a secret or of one of its versions: all but the
/// value.
#[derive(Clone, Debug)]
pub struct SecretSummary {
    pub id: u128,
    pub secret_name: String,
    pub version: i32,
    pub created_at: Option<i64>,
    pub updated_at: Option<i64>,
}

/// The mathematical value of a [`SecretSummary`].
pub struct SecretSummaryView {
    pub id: u128,
    pub secret_name: Seq<char>,
    pub version: i32,
    pub created_at: Option<i64>,
    pub updated_at: Option<i64>,
}

impl View for SecretSummary {
    type V = SecretSummaryView;

    open spec fn view(&self) -> SecretSummaryView {
        SecretSummaryView {
            id: self.id,
            secret_name: self.secret_name@,
            version: self.version,
            created_at: self.created_at,
            updated_at: self.updated_at,
        }
    }
}

/// The summary of a secret at its current version.
pub open spec fn summary_of(secret: SecretView) -> SecretSummaryView {
    SecretSummaryView {
        id: secret.id,
        secret_name: secret.secret_name,
        version: secret.version,
        created_at: secret.created_at,
        updated_at: secret.updated_at,
    }
}

/// The summary of one version of a secret.
pub open spec fn summary_of_version(row: SecretVersionView) -> SecretSummaryView {
    SecretSummaryView {
        id: row.secret_id,
        secret_name: row.secret_name,
        version: row.version,
        created_at: row.created_at,
        updated_at: row.updated_at,
    }
}

/// The response that shows the history entry `row`, opened with `method`
/// under `material`; nothing where the entry does not open or what it holds
/// is not text.
pub open spec fn row_response(method: EncryptionMethod, material: Seq<u8>, row: SecretVersionView) -> Option<
    SecretResponseView,
> {
    match opened(method, material, row.encryption_secret_value) {
        Some(plaintext) => response_of_bytes(summary_of_version(row), plaintext),
        None => None,
    }
}

/// The response that shows `secret` with its current value, opened with
/// `method` under `material`; nothing where the value does not open or is
/// not text.
pub open spec fn secret_response(method: EncryptionMethod, material: Seq<u8>, secret: SecretView) -> Option<
    SecretResponseView,
> {
    match opened(method, material, secret.encryption_secret_value) {
        Some(plaintext) => response_of_bytes(summary_of(secret), plaintext),
        None => None,
    }
}

/// The method and key material a tenant's secrets are sealed with. A
/// tenant without key material has not completed setup; one without a
/// method has no supported cipher.
pub open spec fn credentials(tenant: User) -> Result<(crate::models::EncryptionMethod, Seq<u8>), ErrorKind> {
    match tenant.keys {
        None => Err(ErrorKind::SetupIncomplete),
        Some(material) => match tenant.encryption_method {
            None => Err(ErrorKind::UnsupportedMethod),
            Some(method) => Ok((method, material@)),
        },
    }
}

/// The mathematical value of one tenant's part of one store.
pub struct PartitionModel {
    pub tenant: u128,
    pub target: StoreTargetView,
    pub store: StoreModel,
}

/// The mathematical value of a vault: its router and the parts of its
/// stores.
pub struct VaultModel {
    pub router: RouterModel,
    pub partitions: Seq<PartitionModel>,
}

impl VaultModel {
    /// The vault that holds nothing.
    pub open spec fn empty() -> VaultModel {
        VaultModel { router: RouterModel::empty(), partitions: Seq::empty() }
    }

    /// Whether position `i` holds the part of `tenant` in `target`.
    pub open spec fn part_at(self, i: int, tenant: u128, target: StoreTargetView) -> bool {
        0 <= i < self.partitions.len() && self.partitions[i].tenant == tenant
            && self.partitions[i].target == target
    }

    /// Whether `tenant` has a part in `target`.
    pub open spec fn has_part(self, tenant: u128, target: StoreTargetView) -> bool {
        exists|i: int| self.part_at(i, tenant, target)
    }

    /// The position of the part of `tenant` in `target`.
    pub open spec fn part_index(self, tenant: u128, target: StoreTargetView) -> int {
        choose|i: int| self.part_at(i, tenant, target)
    }

    /// The secrets of `tenant` in `target`; none where nothing was written
    /// yet.
    pub open spec fn store_of(self, tenant: u128, target: StoreTargetView) -> StoreModel {
        if self.has_part(tenant, target) {
            self.partitions[self.part_index(tenant, target)].store
        } else {
            StoreModel::empty()
        }
    }

    /// The router and every store are well formed, and no tenant has two
    /// parts in one store.
    pub open spec fn wf(self) -> bool {
        &&& self.router.wf()
        &&& forall|i: int| 0 <= i < self.partitions.len() ==> (#[trigger] self.partitions[i]).store.wf()
        &&& forall|i: int, j: int|
            0 <= i < self.partitions.len() && 0 <= j < self.partitions.len() && i != j ==> {
                ||| (#[trigger] self.partitions[i]).tenant != (#[trigger] self.partitions[j]).tenant
                ||| self.partitions[i].target != self.partitions[j].target
            }
    }

    /// The vault after the secrets of `tenant` in `target` became `store`.
    pub open spec fn with_store(self, tenant: u128, target: StoreTargetView, store: StoreModel) -> VaultModel {
        if self.has_part(tenant, target) {
            VaultModel {
                partitions: self.partitions.update(
                    self.part_index(tenant, target),
                    PartitionModel { tenant, target, store },
                ),
                ..self
            }
        } else {
            VaultModel {
                partitions: self.partitions.push(PartitionModel { tenant, target, store }),
                ..self
            }
        }
    }

    /// Under what method and key material `tenant` is served: the
    /// tenant's credentials, provided its store can be reached.
    pub open spec fn admission(self, tenant: User) -> Result<
        (crate::models::EncryptionMethod, Seq<u8>),
        ErrorKind,
    > {
        match credentials(tenant) {
            Err(e) => Err(e),
            Ok(found) => match self.router.resolve(tenant.id, tenant.target()) {
                Err(e) => Err(e),
                Ok(_) => Ok(found),
            },
        }
    }

    /// Whether position `i` holds a part of `tenant` in which a secret was
    /// ever created.
    pub open spec fn used_at(self, i: int, tenant: u128) -> bool {
        0 <= i < self.partitions.len() && self.partitions[i].tenant == tenant
            && self.partitions[i].store.records.len() > 0
    }

    /// Whether `tenant` ever created a secret, in whatever store. From then
    /// on its secrets are sealed with the method and key material it had,
    /// so that neither can change without sealing them anew.
    pub open spec fn holds_secrets(self, tenant: u128) -> bool {
        exists|i: int| self.used_at(i, tenant)
    }

    /// The secrets that `tenant` sees.
    pub open spec fn secrets_of(self, tenant: User) -> StoreModel {
        self.store_of(tenant.id, tenant.target())
    }

    /// What reading the secret called `name` gives `tenant`: its current
    /// value in plaintext.
    pub open spec fn secret_value(self, tenant: User, name: Seq<char>) -> Result<Seq<u8>, ErrorKind> {
        match self.admission(tenant) {
            Err(e) => Err(e),
            Ok((method, material)) => {
                let store = self.secrets_of(tenant);
                if !store.has_live(name) {
                    Err(ErrorKind::NotFound)
                } else {
                    match opened(
                        method,
                        material,
                        store.records[store.live_id(name)].history.last().encryption_secret_value,
                    ) {
                        Some(plaintext) => Ok(plaintext),
                        None => Err(ErrorKind::DecryptionError),
                    }
                }
            },
        }
    }

    /// What reading `version` of the secret called `name` gives `tenant`:
    /// the value of that version in plaintext.
    pub open spec fn secret_version_value(self, tenant: User, name: Seq<char>, version: i32) -> Result<
        Seq<u8>,
        ErrorKind,
    > {
        match self.admission(tenant) {
            Err(e) => Err(e),
            Ok((method, material)) => {
                let store = self.secrets_of(tenant);
                if !store.has_live(name) {
                    Err(ErrorKind::NotFound)
                } else {
                    match store.version_row(store.live_id(name) as u128, version) {
                        None => Err(ErrorKind::NotFound),
                        Some(row) => match opened(method, material, row.encryption_secret_value) {
                            Some(plaintext) => Ok(plaintext),
                            None => Err(ErrorKind::DecryptionError),
                        },
                    }
                }
            },
        }
    }

    /// What listing page `page` of the versions of the secret called
    /// `name` gives `tenant`: their summaries, newest first.
    pub open spec fn version_summaries(
        self,
        tenant: User,
        name: Seq<char>,
        page: int,
        page_size: int,
    ) -> Result<Seq<SecretSummaryView>, ErrorKind> {
        match self.admission(tenant) {
            Err(e) => Err(e),
            Ok(_) => {
                let store = self.secrets_of(tenant);
                if !store.has_live(name) {
                    Err(ErrorKind::NotFound)
                } else {
                    Ok(
                        store.versions_page(store.live_id(name) as u128, page, page_size).map_values(
                            |row: SecretVersionView| summary_of_version(row),
                        ),
                    )
                }
            },
        }
    }

    /// The secrets of a tenant after `envelope` was written under `name`:
    /// as the next version of the live secret of that name, or as version 1
    /// of a new secret. Nothing is written where the live secret can take
    /// no further version.
    pub open spec fn written_store(store: StoreModel, name: Seq<char>, envelope: Seq<u8>, now: i64) -> Result<
        StoreModel,
        ErrorKind,
    > {
        if store.has_live(name) {
            if store.can_update(store.live_id(name) as u128) {
                Ok(store.updated(store.live_id(name) as u128, envelope, now))
            } else {
                Err(ErrorKind::VersionConflict)
            }
        } else {
            Ok(store.created(name, envelope, now))
        }
    }

    /// What putting `plaintext` under `name` for `tenant` gives, sealed
    /// under `nonce` at time `now`: the vault afterwards, or why nothing was
    /// written.
    pub open spec fn put(
        self,
        tenant: User,
        name: Seq<char>,
        plaintext: Seq<u8>,
        nonce: Seq<u8>,
        now: i64,
    ) -> Result<VaultModel, ErrorKind> {
        match self.admission(tenant) {
            Err(e) => Err(e),
            Ok((method, material)) => match sealed(method, material, nonce, plaintext) {
                None => Err(ErrorKind::EncryptionFailed),
                Some(envelope) => match Self::written_store(
                    self.secrets_of(tenant),
                    name,
                    envelope,
                    now,
                ) {
                    Err(e) => Err(e),
                    Ok(store) => Ok(self.with_store(tenant.id, tenant.target(), store)),
                },
            },
        }
    }

    /// What deleting the secret called `name` for `tenant` gives: the
    /// vault afterwards, or why nothing was deleted.
    pub open spec fn removed(self, tenant: User, name: Seq<char>) -> Result<VaultModel, ErrorKind> {
        match self.admission(tenant) {
            Err(e) => Err(e),
            Ok(_) => {
                let store = self.secrets_of(tenant);
                if !store.has_live(name) {
                    Err(ErrorKind::NotFound)
                } else {
                    Ok(
                        self.with_store(
                            tenant.id,
                            tenant.target(),
                            store.deleted(store.live_id(name) as u128),
                        ),
                    )
                }
            },
        }
    }

    /// What renaming the secret called `name` to `new_name` for `tenant`
    /// gives at time `now`: the vault afterwards, or why nothing was
    /// renamed.
    pub open spec fn renamed(self, tenant: User, name: Seq<char>, new_name: Seq<char>, now: i64) -> Result<
        VaultModel,
        ErrorKind,
    > {
        match self.admission(tenant) {
            Err(e) => Err(e),
            Ok(_) => {
                let store = self.secrets_of(tenant);
                if !store.has_live(name) {
                    Err(ErrorKind::NotFound)
                } else if store.has_live(new_name) {
                    Err(ErrorKind::DuplicateName)
                } else if !store.can_update(store.live_id(name) as u128) {
                    Err(ErrorKind::VersionConflict)
                } else {
                    Ok(
                        self.with_store(
                            tenant.id,
                            tenant.target(),
                            store.renamed(store.live_id(name) as u128, new_name, now),
                        ),
                    )
                }
            },
        }
    }

    /// The summary of `version` of the secret called `name` as `tenant`
    /// sees it.
    pub open spec fn version_summary(self, tenant: User, name: Seq<char>, version: i32) -> SecretSummaryView {
        let store = self.secrets_of(tenant);
        summary_of_version(store.version_row(store.live_id(name) as u128, version)->0)
    }

    /// What showing the secret called `name` gives `tenant`: the response
    /// with its current value as text. A value that is not text cannot be
    /// shown, and counts as one that cannot be read.
    pub open spec fn response(self, tenant: User, name: Seq<char>) -> Result<
        SecretResponseView,
        ErrorKind,
    > {
        match self.secret_value(tenant, name) {
            Err(e) => Err(e),
            Ok(plaintext) => match response_of_bytes(self.summary(tenant, name), plaintext) {
                Some(shown) => Ok(shown),
                None => Err(ErrorKind::DecryptionError),
            },
        }
    }

    /// What showing `version` of the secret called `name` gives `tenant`:
    /// the response with the value of that version as text, under the name
    /// the secret had then.
    pub open spec fn version_response(self, tenant: User, name: Seq<char>, version: i32) -> Result<
        SecretResponseView,
        ErrorKind,
    > {
        match self.secret_version_value(tenant, name, version) {
            Err(e) => Err(e),
            Ok(plaintext) => match response_of_bytes(
                self.version_summary(tenant, name, version),
                plaintext,
            ) {
                Some(shown) => Ok(shown),
                None => Err(ErrorKind::DecryptionError),
            },
        }
    }

    /// What showing page `page` of the versions of the secret called
    /// `name` gives `tenant`: the response of each version on the page,
    /// newest first; a failure to read where one of them cannot be shown.
    pub open spec fn version_responses(
        self,
        tenant: User,
        name: Seq<char>,
        page: int,
        page_size: int,
    ) -> Result<Seq<SecretResponseView>, ErrorKind> {
        match self.admission(tenant) {
            Err(e) => Err(e),
            Ok((method, material)) => {
                let store = self.secrets_of(tenant);
                if !store.has_live(name) {
                    Err(ErrorKind::NotFound)
                } else {
                    let rows = store.versions_page(store.live_id(name) as u128, page, page_size);
                    if forall|i: int|
                        0 <= i < rows.len() ==> row_response(method, material, #[trigger] rows[i])
                            is Some {
                        Ok(
                            rows.map_values(
                                |row: SecretVersionView| row_response(method, material, row)->0,
                            ),
                        )
                    } else {
                        Err(ErrorKind::DecryptionError)
                    }
                }
            },
        }
    }

    /// What showing all secrets gives `tenant`: the response of each of its
    /// secrets with its current value as text, in the order in which they
    /// were created; a failure to read where one of them cannot be shown.
    pub open spec fn responses(self, tenant: User) -> Result<Seq<SecretResponseView>, ErrorKind> {
        match self.admission(tenant) {
            Err(e) => Err(e),
            Ok((method, material)) => {
                let secrets = self.secrets_of(tenant).live_secrets();
                if forall|i: int|
                    0 <= i < secrets.len() ==> secret_response(
                        method,
                        material,
                        #[trigger] secrets[i],
                    ) is Some {
                    Ok(
                        secrets.map_values(
                            |secret: SecretView| secret_response(method, material, secret)->0,
                        ),
                    )
                } else {
                    Err(ErrorKind::DecryptionError)
                }
            },
        }
    }

    /// What creating a secret called `name` with the value `plaintext`
    /// gives `tenant`, sealed under `nonce` at time `now`: the vault
    /// afterwards, or why nothing was written. A name that the tenant uses
    /// already is refused.
    pub open spec fn create(
        self,
        tenant: User,
        name: Seq<char>,
        plaintext: Seq<u8>,
        nonce: Seq<u8>,
        now: i64,
    ) -> Result<VaultModel, ErrorKind> {
        match self.admission(tenant) {
            Err(e) => Err(e),
            Ok(_) => if self.secrets_of(tenant).has_live(name) {
                Err(ErrorKind::DuplicateName)
            } else {
                self.put(tenant, name, plaintext, nonce, now)
            },
        }
    }

    /// Whether `tenant` has a secret called `name` that can take no further
    /// version, because its version number is the largest there is.
    pub open spec fn version_exhausted(self, tenant: User, name: Seq<char>) -> bool {
        let store = self.secrets_of(tenant);
        store.has_live(name) && !store.can_update(store.live_id(name) as u128)
    }

    /// The summary of the secret called `name` as `tenant` sees it.
    pub open spec fn summary(self, tenant: User, name: Seq<char>) -> SecretSummaryView {
        let store = self.secrets_of(tenant);
        summary_of(store.records[store.live_id(name)].current(store.live_id(name)))
    }
}

/// Whether a failure of kind `kind` concerns one secret rather than the
/// tenant as a whole.
pub open spec fn concerns_secret(kind: ErrorKind) -> bool {
    kind != ErrorKind::SetupIncomplete && kind != ErrorKind::UnsupportedMethod && kind
        != ErrorKind::StoreUnavailable
}

/// The failure of kind `kind` reported to `tenant` for the secret called
/// `name`, and `version` of it where one was asked for. A failure that
/// concerns the tenant as a whole names no secret.
pub open spec fn failure(kind: ErrorKind, tenant: u128, name: Seq<char>, version: Option<i32>) -> VaultErrorView {
    if concerns_secret(kind) {
        VaultErrorView { kind, tenant, secret: Some(name), version }
    } else {
        VaultErrorView { kind, tenant, secret: None, version: None }
    }
}

/// Reads the system clock and has the `chrono` crate turn it into
/// microseconds since the Unix epoch, with `DateTime::<Utc>::from` and
/// `timestamp_micros`. Nothing is promised of the value.
#[verifier::external_body]
fn now_micros() -> (now: i64) {
    chrono::DateTime::<chrono::Utc>::from(std::time::SystemTime::now()).timestamp_micros()
}

/// One tenant's part of one store.
struct Partition {
    tenant: u128,
    external: Option<DbConnection>,
    store: SecretStore,
}

impl View for Partition {
    type V = PartitionModel;

    closed spec fn view(&self) -> PartitionModel {
        PartitionModel {
            tenant: self.tenant,
            target: match self.external {
                Some(descriptor) => StoreTargetView::External(descriptor@),
                None => StoreTargetView::Shared,
            },
            store: self.store@,
        }
    }
}

/// The vault: the router and the secrets of every tenant.
pub struct Vault {
    router: StorageRouter,
    partitions: Vec<Partition>,
}

impl View for Vault {
    type V = VaultModel;

    closed spec fn view(&self) -> VaultModel {
        VaultModel {
            router: self.router@,
            partitions: self.partitions@.map_values(|p: Partition| p@),
        }
    }
}

/// The summary of `secret`.
fn summarize(secret: Secret) -> (summary: SecretSummary)
    ensures
        summary@ == summary_of(secret@),
{
    SecretSummary {
        id: secret.id,
        secret_name: secret.secret_name,
        version: secret.version,
        created_at: secret.created_at,
        updated_at: secret.updated_at,
    }
}

/// The summary of `secret`.
fn summarize_ref(secret: &Secret) -> (summary: SecretSummary)
    ensures
        summary@ == summary_of(secret@),
{
    SecretSummary {
        id: secret.id,
        secret_name: secret.secret_name.clone(),
        version: secret.version,
        created_at: secret.created_at,
        updated_at: secret.updated_at,
    }
}

/// The summary of the history entry `row`.
fn summarize_version(row: &SecretVersion) -> (summary: SecretSummary)
    ensures
        summary@ == summary_of_version(row@),
{
    SecretSummary {
        id: row.secret_id,
        secret_name: row.secret_name.clone(),
        version: row.version,
        created_at: row.created_at,
        updated_at: row.updated_at,
    }
}

/// The method and key material of `tenant`.
fn credentials_of<'a>(tenant: &'a User) -> (r: Result<(EncryptionMethod, &'a [u8]), VaultError>)
    ensures
        match r {
            Ok((method, material)) => credentials(*tenant) == Ok::<_, ErrorKind>(
                (method, material@),
            ),
            Err(e) => {
                &&& credentials(*tenant) == Err::<(EncryptionMethod, Seq<u8>), _>(e@.kind)
                &&& e@ == (VaultErrorView {
                    kind: e@.kind,
                    tenant: tenant.id,
                    secret: None,
                    version: None,
                })
            },
        },
{
    match &tenant.keys {
        None => Err(VaultError::of_tenant(ErrorKind::SetupIncomplete, tenant.id)),
        Some(material) => match tenant.encryption_method {
            None => Err(VaultError::of_tenant(ErrorKind::UnsupportedMethod, tenant.id)),
            Some(method) => Ok((method, material.as_slice())),
        },
    }
}

impl Vault {
    #[verifier::type_invariant]
    closed spec fn inv(&self) -> bool {
        self@.wf()
    }

    /// A vault that holds nothing and has no connection pooled.
    pub fn new() -> (vault: Vault)
        ensures
            vault@ == VaultModel::empty(),
            vault@.wf(),
    {
        let vault = Vault { router: StorageRouter::new(), partitions: Vec::new() };
        assert(vault@.partitions =~= Seq::empty());
        vault
    }

    /// Moves the router and the stores out and leaves an empty vault
    /// behind.
    fn take(&mut self) -> (parts: (StorageRouter, Vec<Partition>))
        ensures
            parts.0@ == old(self)@.router,
            parts.1@.map_values(|p: Partition| p@) == old(self)@.partitions,
            old(self)@.wf(),
    {
        proof {
            use_type_invariant(&*self);
        }
        let mut taken = Vault::new();
        std::mem::swap(self, &mut taken);
        (taken.router, taken.partitions)
    }

    /// The position of the part of `tenant` in the store it is routed to.
    fn find_part(&self, tenant: &User) -> (found: Option<usize>)
        ensures
            self@.wf(),
            match found {
                Some(i) => {
                    &&& self@.part_at(i as int, tenant.id, tenant.target())
                    &&& self@.part_index(tenant.id, tenant.target()) == i
                    &&& self@.secrets_of(*tenant) == self@.partitions[i as int].store
                },
                None => {
                    &&& !self@.has_part(tenant.id, tenant.target())
                    &&& self@.secrets_of(*tenant) == StoreModel::empty()
                },
            },
    {
        proof {
            use_type_invariant(self);
        }
        let mut i: usize = 0;
        while i < self.partitions.len()
            invariant
                i <= self.partitions.len(),
                self@.wf(),
                forall|j: int| 0 <= j < i ==> !self@.part_at(j, tenant.id, tenant.target()),
            decreases self.partitions.len() - i,
        {
            let part = &self.partitions[i];
            assert(part@ == self@.partitions[i as int]);
            let same_target = match (&part.external, &tenant.db_connection) {
                (None, None) => true,
                (Some(a), Some(b)) => a.same_target(b),
                _ => false,
            };
            if part.tenant == tenant.id && same_target {
                assert(self@.part_at(i as int, tenant.id, tenant.target()));
                return Some(i);
            }
            i += 1;
        }
        None
    }

    /// Under what method and key material `tenant` is served.
    fn admission_of<'a>(&self, tenant: &'a User) -> (r: Result<
        (EncryptionMethod, &'a [u8]),
        VaultError,
    >)
        ensures
            match r {
                Ok((method, material)) => self@.admission(*tenant) == Ok::<_, ErrorKind>(
                    (method, material@),
                ),
                Err(e) => {
                    &&& self@.admission(*tenant) == Err::<(EncryptionMethod, Seq<u8>), _>(
                        e@.kind,
                    )
                    &&& !concerns_secret(e@.kind)
                    &&& e@ == (VaultErrorView {
                        kind: e@.kind,
                        tenant: tenant.id,
                        secret: None,
                        version: None,
                    })
                },
            },
    {
        let found = credentials_of(tenant)?;
        match self.router.resolve(tenant) {
            Ok(_) => Ok(found),
            Err(e) => Err(e),
        }
    }

    /// Whether `tenant` ever created a secret, in whatever store it was
    /// routed to at the time. A tenant for which this holds cannot change
    /// its method or key material without losing the ability to read what
    /// it stored.
    pub fn has_secrets(&self, tenant: u128) -> (held: bool)
        ensures
            held == self@.holds_secrets(tenant),
    {
        let mut i: usize = 0;
        while i < self.partitions.len()
            invariant
                i <= self.partitions.len(),
                forall|j: int| 0 <= j < i ==> !self@.used_at(j, tenant),
            decreases self.partitions.len() - i,
        {
            let part = &self.partitions[i];
            assert(part@ == self@.partitions[i as int]);
            if part.tenant == tenant && !part.store.is_empty() {
                assert(self@.used_at(i as int, tenant));
                return true;
            }
            i += 1;
        }
        false
    }

    /// Resolves the store that serves `tenant`; see
    /// [`StorageRouter::resolve`].
    pub fn resolve(&self, tenant: &User) -> (r: Result<StoreHandle, VaultError>)
        ensures
            match r {
                Ok(handle) => self@.router.resolve(tenant.id, tenant.target()) == Ok::<
                    _,
                    ErrorKind,
                >(handle),
                Err(e) => {
                    &&& self@.router.resolve(tenant.id, tenant.target()) == Err::<StoreHandle, _>(
                        ErrorKind::StoreUnavailable,
                    )
                    &&& e@ == (VaultErrorView {
                        kind: ErrorKind::StoreUnavailable,
                        tenant: tenant.id,
                        secret: None,
                        version: None,
                    })
                },
            },
    {
        self.router.resolve(tenant)
    }

    /// The descriptor that has to be connected before `tenant` can be
    /// served; see [`StorageRouter::connection_request`].
    pub fn connection_request(&self, tenant: &User) -> (request: Option<DbConnection>)
        ensures
            match request {
                Some(descriptor) => self@.router.connection_request(tenant.target()) == Some(
                    descriptor@,
                ),
                None => self@.router.connection_request(tenant.target()) is None,
            },
    {
        self.router.connection_request(tenant)
    }

    /// Pools `connection` for `descriptor`; see
    /// [`StorageRouter::connected`]. No secret changes.
    pub fn connected(&mut self, descriptor: DbConnection, connection: u64) -> (serving: u64)
        ensures
            final(self)@.wf(),
            final(self)@.partitions == old(self)@.partitions,
            final(self)@.router == old(self)@.router.with_connection(descriptor@, connection),
            serving == final(self)@.router.connection(descriptor@),
    {
        let (mut router, partitions) = self.take();
        let serving = router.connected(descriptor, connection);
        *self = Vault { router, partitions };
        serving
    }

    /// Drops the pooled connection to `descriptor` after it failed; see
    /// [`StorageRouter::evict`]. No secret changes, and no other
    /// descriptor's connection.
    pub fn connection_failed(&mut self, descriptor: &DbConnection) -> (dropped: Option<u64>)
        ensures
            final(self)@.wf(),
            final(self)@.partitions == old(self)@.partitions,
            final(self)@.router == old(self)@.router.evicted(descriptor@),
            dropped == if old(self)@.router.has(descriptor@) {
                Some(old(self)@.router.connection(descriptor@))
            } else {
                None
            },
    {
        let (mut router, partitions) = self.take();
        let dropped = router.evict(descriptor);
        *self = Vault { router, partitions };
        dropped
    }

    /// Whether `tenant` has a secret called `name` in the store it is routed
    /// to.
    fn holds(&self, tenant: &User, name: &str) -> (held: bool)
        ensures
            held == self@.secrets_of(*tenant).has_live(name@),
    {
        match self.find_part(tenant) {
            Some(index) => {
                assert(self.partitions[index as int]@ == self@.partitions[index as int]);
                self.partitions[index].store.get_current(name).is_ok()
            },
            None => {
                assert(!StoreModel::empty().has_live(name@));
                false
            },
        }
    }

    /// Creates a secret called `name` with the value `plaintext` for
    /// `tenant`, sealed under the given nonce and written at time `now`.
    ///
    /// Fails, and then changes nothing, with `SetupIncomplete`,
    /// `UnsupportedMethod` or `StoreUnavailable` where the tenant cannot be
    /// served, with `DuplicateName` where the tenant has a secret of that
    /// name already, and with `EncryptionFailed` where the value cannot be
    /// sealed, in that order. For a tenant that is served, a free name, a
    /// nonce of the length its method asks for and a value that its cipher
    /// takes, the call succeeds. The secret created has version 1 and reads
    /// back as `plaintext`.
    pub fn create_secret_with(
        &mut self,
        tenant: &User,
        name: &str,
        plaintext: &[u8],
        nonce: &[u8],
        now: i64,
    ) -> (r: Result<SecretSummary, VaultError>)
        ensures
            final(self)@.wf(),
            match r {
                Ok(summary) => {
                    &&& old(self)@.create(*tenant, name@, plaintext@, nonce@, now) == Ok::<
                        _,
                        ErrorKind,
                    >(final(self)@)
                    &&& summary@ == final(self)@.summary(*tenant, name@)
                    &&& summary.version == 1
                    &&& final(self)@.secret_value(*tenant, name@) == Ok::<_, ErrorKind>(
                        plaintext@,
                    )
                },
                Err(e) => {
                    &&& old(self)@.create(*tenant, name@, plaintext@, nonce@, now) == Err::<
                        VaultModel,
                        _,
                    >(e@.kind)
                    &&& e@ == failure(e@.kind, tenant.id, name@, None)
                    &&& final(self)@ == old(self)@
                },
            },
            old(self)@.admission(*tenant) matches Ok((method, _)) && !old(self)@.secrets_of(
                *tenant,
            ).has_live(name@) && nonce@.len() == method.spec_nonce_len() && (method.is_block()
                || plaintext@.len() <= AEAD_MAX_PLAINTEXT) ==> r is Ok,
    {
        proof {
            use_type_invariant(&*self);
        }
        let _ = self.admission_of(tenant)?;
        if self.holds(tenant, name) {
            return Err(VaultError::of_secret(ErrorKind::DuplicateName, tenant.id, name, None));
        }
        let ghost before_store = self@.secrets_of(*tenant);
        proof {
            lemma_store_of_wf(self@, tenant.id, tenant.target());
        }
        let r = self.put_secret_with(tenant, name, plaintext, nonce, now);
        proof {
            if r is Ok {
                let envelope = sealed(
                    self@.admission(*tenant)->Ok_0.0,
                    self@.admission(*tenant)->Ok_0.1,
                    nonce@,
                    plaintext@,
                )->0;
                lemma_current_after_create(before_store, name@, envelope, now);
                lemma_tenants_are_isolated(
                    old(self)@,
                    tenant.id,
                    tenant.target(),
                    before_store.created(name@, envelope, now),
                    tenant.id,
                    tenant.target(),
                );
            }
        }
        r
    }

    /// Creates a secret called `name` with the value `plaintext` for
    /// `tenant`, sealed under a nonce drawn afresh and written at the time
    /// the clock shows.
    ///
    /// Whatever nonce and time came back, the secret created has version 1
    /// and reads back as `plaintext`, and the vault changed as
    /// [`Vault::create_secret_with`] says for some nonce and time. Fails
    /// with the kind that tells why the tenant cannot be served, exactly
    /// where it cannot; with `DuplicateName` exactly where the tenant is
    /// served and has a secret of that name already; and else only with
    /// `EncryptionFailed`. A failed call changes nothing.
    pub fn create_secret(&mut self, tenant: &User, name: &str, plaintext: &[u8]) -> (r: Result<
        SecretSummary,
        VaultError,
    >)
        ensures
            final(self)@.wf(),
            match r {
                Ok(summary) => {
                    &&& exists|nonce: Seq<u8>, now: i64|
                        #[trigger] old(self)@.create(*tenant, name@, plaintext@, nonce, now)
                            == Ok::<_, ErrorKind>(final(self)@)
                    &&& summary@ == final(self)@.summary(*tenant, name@)
                    &&& summary.version == 1
                    &&& final(self)@.secret_value(*tenant, name@) == Ok::<_, ErrorKind>(
                        plaintext@,
                    )
                },
                Err(e) => {
                    &&& e@ == failure(e@.kind, tenant.id, name@, None)
                    &&& final(self)@ == old(self)@
                    &&& e@.kind == if old(self)@.admission(*tenant) is Err {
                        old(self)@.admission(*tenant)->Err_0
                    } else if old(self)@.secrets_of(*tenant).has_live(name@) {
                        ErrorKind::DuplicateName
                    } else {
                        ErrorKind::EncryptionFailed
                    }
                },
            },
    {
        proof {
            use_type_invariant(&*self);
        }
        let (method, _) = self.admission_of(tenant)?;
        if self.holds(tenant, name) {
            return Err(VaultError::of_secret(ErrorKind::DuplicateName, tenant.id, name, None));
        }
        let nonce = match random_bytes(method.nonce_len()) {
            Some(nonce) => nonce,
            None => {
                return Err(
                    VaultError::of_secret(ErrorKind::EncryptionFailed, tenant.id, name, None),
                );
            },
        };
        let now = now_micros();
        self.create_secret_with(tenant, name, plaintext, nonce.as_slice(), now)
    }

    /// Shows all secrets of `tenant`, each with its current value as text,
    /// in the order in which they were created.
    ///
    /// Fails with `SetupIncomplete`, `UnsupportedMethod` or
    /// `StoreUnavailable` where the tenant cannot be served, and with
    /// `DecryptionError`, naming the secret, where one of the secrets does
    /// not open or holds no text.
    pub fn show_secrets(&self, tenant: &User) -> (r: Result<Vec<SecretResponse>, VaultError>)
        ensures
            match r {
                Ok(shown) => self@.responses(*tenant) == Ok::<_, ErrorKind>(
                    shown@.map_values(|s: SecretResponse| s@),
                ),
                Err(e) => {
                    &&& self@.responses(*tenant) == Err::<Seq<SecretResponseView>, _>(e@.kind)
                    &&& e@.tenant == tenant.id
                    &&& e@.version is None
                    &&& (e@.secret is Some) == concerns_secret(e@.kind)
                },
            },
    {
        let (method, material) = self.admission_of(tenant)?;
        let mut shown: Vec<SecretResponse> = Vec::new();
        let index = match self.find_part(tenant) {
            Some(index) => index,
            None => {
                proof {
                    let none = self@.secrets_of(*tenant).live_secrets();
                    assert(none =~= Seq::empty());
                    assert(shown@.map_values(|s: SecretResponse| s@) =~= none.map_values(
                        |secret: SecretView| secret_response(method, material@, secret)->0,
                    ));
                }
                return Ok(shown);
            },
        };
        assert(self.partitions[index as int]@ == self@.partitions[index as int]);
        let secrets = self.partitions[index].store.list_current();
        let ghost wanted = secrets@.map_values(|s: Secret| s@);
        let mut i: usize = 0;
        while i < secrets.len()
            invariant
                i <= secrets.len(),
                shown@.len() == i,
                wanted == secrets@.map_values(|s: Secret| s@),
                self@.admission(*tenant) == Ok::<_, ErrorKind>((method, material@)),
                wanted == self@.secrets_of(*tenant).live_secrets(),
                forall|k: int|
                    0 <= k < i ==> secret_response(method, material@, #[trigger] wanted[k])
                        == Some(shown@[k]@),
            decreases secrets.len() - i,
        {
            let secret = &secrets[i];
            assert(secret@ == wanted[i as int]);
            let plaintext = match decrypt(
                method,
                material,
                secret.encryption_secret_value.as_slice(),
            ) {
                Ok(plaintext) => plaintext,
                Err(kind) => {
                    assert(secret_response(method, material@, wanted[i as int]) is None);
                    return Err(
                        VaultError::of_secret(kind, tenant.id, secret.secret_name.as_str(), None),
                    );
                },
            };
            let summary = summarize_ref(secret);
            match SecretResponse::of_bytes(&summary, plaintext) {
                Some(response) => {
                    shown.push(response);
                },
                None => {
                    assert(secret_response(method, material@, wanted[i as int]) is None);
                    return Err(
                        VaultError::of_secret(
                            ErrorKind::DecryptionError,
                            tenant.id,
                            secret.secret_name.as_str(),
                            None,
                        ),
                    );
                },
            }
            i += 1;
        }
        assert(shown@.map_values(|s: SecretResponse| s@) =~= wanted.map_values(
            |secret: SecretView| secret_response(method, material@, secret)->0,
        ));
        Ok(shown)
    }

    /// Puts `plaintext` under `name` for `tenant`, sealed under the given
    /// nonce and written at time `now`: as version 1 of a new secret, or as
    /// the next version of the secret that has the name.
    ///
    /// Fails, and then changes nothing, with `SetupIncomplete` for a tenant
    /// without key material, `UnsupportedMethod` for one without a method,
    /// `StoreUnavailable` for one whose external store is not connected,
    /// `EncryptionFailed` where the value cannot be sealed, and
    /// `VersionConflict` where the secret can take no further version, in
    /// that order. For a tenant that is served, a nonce of the length its
    /// method asks for, a value that its cipher takes (every value with a
    /// block cipher, up to `AEAD_MAX_PLAINTEXT` bytes otherwise) and a
    /// secret that can take a further version, the call succeeds. What was
    /// put is read back by [`Vault::get_secret`].
    pub fn put_secret_with(
        &mut self,
        tenant: &User,
        name: &str,
        plaintext: &[u8],
        nonce: &[u8],
        now: i64,
    ) -> (r: Result<SecretSummary, VaultError>)
        ensures
            final(self)@.wf(),
            match r {
                Ok(summary) => {
                    &&& old(self)@.put(*tenant, name@, plaintext@, nonce@, now) == Ok::<
                        _,
                        ErrorKind,
                    >(final(self)@)
                    &&& summary@ == final(self)@.summary(*tenant, name@)
                    &&& final(self)@.secret_value(*tenant, name@) == Ok::<_, ErrorKind>(
                        plaintext@,
                    )
                },
                Err(e) => {
                    &&& old(self)@.put(*tenant, name@, plaintext@, nonce@, now) == Err::<
                        VaultModel,
                        _,
                    >(e@.kind)
                    &&& e@ == failure(e@.kind, tenant.id, name@, None)
                    &&& final(self)@ == old(self)@
                },
            },
            old(self)@.admission(*tenant) matches Ok((method, _)) && nonce@.len()
                == method.spec_nonce_len() && (method.is_block() || plaintext@.len()
                <= AEAD_MAX_PLAINTEXT) && !old(self)@.version_exhausted(*tenant, name@) ==> r is Ok,
    {
        proof {
            use_type_invariant(&*self);
        }
        let (method, material) = self.admission_of(tenant)?;
        let envelope = match encrypt_with_nonce(method, material, nonce, plaintext) {
            Ok(envelope) => envelope,
            Err(kind) => {
                return Err(VaultError::of_secret(kind, tenant.id, name, None));
            },
        };
        let ghost sealed_bytes = envelope@;
        let ghost before = self@;
        let ghost before_store = before.secrets_of(*tenant);
        proof {
            lemma_store_of_wf(before, tenant.id, tenant.target());
        }
        let found = self.find_part(tenant);
        let (router, mut partitions) = self.take();
        let outcome = match found {
            Some(index) => {
                assert(partitions[index as int]@ == before.partitions[index as int]);
                match partitions[index].store.get_current(name) {
                    Ok(current) => partitions[index].store.update(current.id, envelope, now),
                    Err(_) => partitions[index].store.create(name, envelope, now),
                }
            },
            None => {
                let mut store = SecretStore::new();
                let created = store.create(name, envelope, now);
                let external = match &tenant.db_connection {
                    Some(descriptor) => Some(descriptor.duplicate()),
                    None => None,
                };
                if created.is_ok() {
                    partitions.push(Partition { tenant: tenant.id, external, store });
                }
                created
            },
        };
        proof {
            let wanted = VaultModel::written_store(before_store, name@, sealed_bytes, now);
            match found {
                Some(index) => {
                    let after_store = partitions[index as int]@.store;
                    if outcome is Ok {
                        assert(wanted == Ok::<_, ErrorKind>(after_store));
                        assert(partitions@.map_values(|p: Partition| p@) =~= before.with_store(
                            tenant.id,
                            tenant.target(),
                            after_store,
                        ).partitions);
                    } else {
                        assert(wanted is Err);
                        assert(after_store == before_store);
                        assert(partitions@.map_values(|p: Partition| p@) =~= before.partitions);
                    }
                },
                None => {
                    assert(!StoreModel::empty().has_live(name@));
                    assert(outcome is Ok);
                    assert(partitions@.map_values(|p: Partition| p@) =~= before.with_store(
                        tenant.id,
                        tenant.target(),
                        wanted->Ok_0,
                    ).partitions);
                },
            }
            if outcome is Ok {
                let after_store = wanted->Ok_0;
                lemma_tenants_are_isolated(
                    before,
                    tenant.id,
                    tenant.target(),
                    after_store,
                    tenant.id,
                    tenant.target(),
                );
                if before_store.has_live(name@) {
                    let id = before_store.live_id(name@) as u128;
                    assert(before_store.live_at(id as int, name@));
                    lemma_names_after_update(before_store, id, sealed_bytes, now, name@);
                } else {
                    lemma_current_after_create(before_store, name@, sealed_bytes, now);
                }
            }
        }
        *self = Vault { router, partitions };
        match outcome {
            Ok(secret) => Ok(summarize(secret)),
            Err(kind) => Err(VaultError::of_secret(kind, tenant.id, name, None)),
        }
    }

    /// Puts `plaintext` under `name` for `tenant`, sealed under a nonce
    /// drawn afresh and written at the time the clock shows.
    ///
    /// Whatever nonce and time came back, what was put is read back by
    /// [`Vault::get_secret`], and the vault changed as
    /// [`Vault::put_secret_with`] says for the nonce that the stored bytes
    /// open with and for some time. Fails as that function does, and with
    /// `EncryptionFailed` where no nonce can be drawn: with the kind that
    /// tells why the tenant cannot be served, exactly where it cannot; and
    /// for a tenant that is served with `EncryptionFailed` or with
    /// `VersionConflict`, the latter only where the secret can take no
    /// further version. A failed call changes nothing.
    pub fn put_secret(&mut self, tenant: &User, name: &str, plaintext: &[u8]) -> (r: Result<
        SecretSummary,
        VaultError,
    >)
        ensures
            final(self)@.wf(),
            match r {
                Ok(summary) => {
                    &&& exists|nonce: Seq<u8>, now: i64|
                        #[trigger] old(self)@.put(*tenant, name@, plaintext@, nonce, now)
                            == Ok::<_, ErrorKind>(final(self)@)
                    &&& summary@ == final(self)@.summary(*tenant, name@)
                    &&& final(self)@.secret_value(*tenant, name@) == Ok::<_, ErrorKind>(
                        plaintext@,
                    )
                },
                Err(e) => {
                    &&& e@ == failure(e@.kind, tenant.id, name@, None)
                    &&& final(self)@ == old(self)@
                    &&& old(self)@.admission(*tenant) is Err ==> old(self)@.admission(*tenant)
                        == Err::<(EncryptionMethod, Seq<u8>), _>(e@.kind)
                    &&& old(self)@.admission(*tenant) is Ok ==> e@.kind
                        == ErrorKind::EncryptionFailed || e@.kind == ErrorKind::VersionConflict
                    &&& e@.kind == ErrorKind::VersionConflict ==> old(self)@.version_exhausted(
                        *tenant,
                        name@,
                    )
                },
            },
    {
        proof {
            use_type_invariant(&*self);
        }
        let (method, _) = self.admission_of(tenant)?;
        let nonce = match random_bytes(method.nonce_len()) {
            Some(nonce) => nonce,
            None => {
                return Err(
                    VaultError::of_secret(ErrorKind::EncryptionFailed, tenant.id, name, None),
                );
            },
        };
        let now = now_micros();
        self.put_secret_with(tenant, name, plaintext, nonce.as_slice(), now)
    }

    /// The current secret called `name` of `tenant`: its summary and its
    /// value in plaintext.
    fn read_current(&self, tenant: &User, name: &str) -> (r: Result<
        (SecretSummary, Vec<u8>),
        VaultError,
    >)
        ensures
            match r {
                Ok((summary, plaintext)) => {
                    &&& self@.secret_value(*tenant, name@) == Ok::<_, ErrorKind>(plaintext@)
                    &&& summary@ == self@.summary(*tenant, name@)
                },
                Err(e) => {
                    &&& self@.secret_value(*tenant, name@) == Err::<Seq<u8>, _>(e@.kind)
                    &&& e@ == failure(e@.kind, tenant.id, name@, None)
                },
            },
    {
        let (method, material) = self.admission_of(tenant)?;
        let index = match self.find_part(tenant) {
            Some(index) => index,
            None => {
                assert(!StoreModel::empty().has_live(name@));
                return Err(VaultError::of_secret(ErrorKind::NotFound, tenant.id, name, None));
            },
        };
        assert(self.partitions[index as int]@ == self@.partitions[index as int]);
        let secret = match self.partitions[index].store.get_current(name) {
            Ok(secret) => secret,
            Err(kind) => {
                return Err(VaultError::of_secret(kind, tenant.id, name, None));
            },
        };
        match decrypt(method, material, secret.encryption_secret_value.as_slice()) {
            Ok(plaintext) => Ok((summarize(secret), plaintext)),
            Err(kind) => Err(VaultError::of_secret(kind, tenant.id, name, None)),
        }
    }

    /// `version` of the secret called `name` of `tenant`: its summary and
    /// its value in plaintext.
    fn read_version(&self, tenant: &User, name: &str, version: i32) -> (r: Result<
        (SecretSummary, Vec<u8>),
        VaultError,
    >)
        ensures
            match r {
                Ok((summary, plaintext)) => {
                    &&& self@.secret_version_value(*tenant, name@, version) == Ok::<
                        _,
                        ErrorKind,
                    >(plaintext@)
                    &&& summary@ == self@.version_summary(*tenant, name@, version)
                },
                Err(e) => {
                    &&& self@.secret_version_value(*tenant, name@, version) == Err::<Seq<u8>, _>(
                        e@.kind,
                    )
                    &&& e@ == failure(e@.kind, tenant.id, name@, Some(version))
                },
            },
    {
        let (method, material) = match self.admission_of(tenant) {
            Ok(found) => found,
            Err(e) => {
                return Err(e);
            },
        };
        let index = match self.find_part(tenant) {
            Some(index) => index,
            None => {
                assert(!StoreModel::empty().has_live(name@));
                return Err(
                    VaultError::of_secret(ErrorKind::NotFound, tenant.id, name, Some(version)),
                );
            },
        };
        assert(self.partitions[index as int]@ == self@.partitions[index as int]);
        let store = &self.partitions[index].store;
        let secret = match store.get_current(name) {
            Ok(secret) => secret,
            Err(kind) => {
                return Err(VaultError::of_secret(kind, tenant.id, name, Some(version)));
            },
        };
        let row = match store.get_version(secret.id, version) {
            Ok(row) => row,
            Err(kind) => {
                return Err(VaultError::of_secret(kind, tenant.id, name, Some(version)));
            },
        };
        match decrypt(method, material, row.encryption_secret_value.as_slice()) {
            Ok(plaintext) => Ok((summarize_version(&row), plaintext)),
            Err(kind) => Err(VaultError::of_secret(kind, tenant.id, name, Some(version))),
        }
    }

    /// Reads the current value of the secret called `name` of `tenant`.
    ///
    /// Fails with `SetupIncomplete`, `UnsupportedMethod` or
    /// `StoreUnavailable` where the tenant cannot be served, with `NotFound`
    /// where the tenant has no such secret, and with `DecryptionError`
    /// where the secret is there but does not open under the tenant's
    /// method and key material.
    pub fn get_secret(&self, tenant: &User, name: &str) -> (r: Result<Vec<u8>, VaultError>)
        ensures
            match r {
                Ok(plaintext) => self@.secret_value(*tenant, name@) == Ok::<_, ErrorKind>(
                    plaintext@,
                ),
                Err(e) => {
                    &&& self@.secret_value(*tenant, name@) == Err::<Seq<u8>, _>(e@.kind)
                    &&& e@ == failure(e@.kind, tenant.id, name@, None)
                },
            },
    {
        match self.read_current(tenant, name) {
            Ok((_, plaintext)) => Ok(plaintext),
            Err(e) => Err(e),
        }
    }

    /// Reads the value that `version` of the secret called `name` of
    /// `tenant` holds.
    ///
    /// Fails as [`Vault::get_secret`] does, and with `NotFound` where the
    /// secret has no such version.
    pub fn get_secret_version(&self, tenant: &User, name: &str, version: i32) -> (r: Result<
        Vec<u8>,
        VaultError,
    >)
        ensures
            match r {
                Ok(plaintext) => self@.secret_version_value(*tenant, name@, version) == Ok::<
                    _,
                    ErrorKind,
                >(plaintext@),
                Err(e) => {
                    &&& self@.secret_version_value(*tenant, name@, version) == Err::<Seq<u8>, _>(
                        e@.kind,
                    )
                    &&& e@ == failure(e@.kind, tenant.id, name@, Some(version))
                },
            },
    {
        match self.read_version(tenant, name, version) {
            Ok((_, plaintext)) => Ok(plaintext),
            Err(e) => Err(e),
        }
    }

    /// Shows the secret called `name` of `tenant`: identifier, name,
    /// version and timestamps with its current value as text.
    ///
    /// Fails as [`Vault::get_secret`] does, and with `DecryptionError` also
    /// where the value is not text.
    pub fn show_secret(&self, tenant: &User, name: &str) -> (r: Result<SecretResponse, VaultError>)
        ensures
            match r {
                Ok(shown) => self@.response(*tenant, name@) == Ok::<_, ErrorKind>(shown@),
                Err(e) => {
                    &&& self@.response(*tenant, name@) == Err::<SecretResponseView, _>(e@.kind)
                    &&& e@ == failure(e@.kind, tenant.id, name@, None)
                },
            },
    {
        let (summary, plaintext) = self.read_current(tenant, name)?;
        match SecretResponse::of_bytes(&summary, plaintext) {
            Some(shown) => Ok(shown),
            None => Err(
                VaultError::of_secret(ErrorKind::DecryptionError, tenant.id, name, None),
            ),
        }
    }

    /// Shows `version` of the secret called `name` of `tenant`, with the
    /// value of that version as text and under the name the secret had
    /// then.
    ///
    /// Fails as [`Vault::get_secret_version`] does, and with
    /// `DecryptionError` also where the value is not text.
    pub fn show_secret_version(&self, tenant: &User, name: &str, version: i32) -> (r: Result<
        SecretResponse,
        VaultError,
    >)
        ensures
            match r {
                Ok(shown) => self@.version_response(*tenant, name@, version) == Ok::<
                    _,
                    ErrorKind,
                >(shown@),
                Err(e) => {
                    &&& self@.version_response(*tenant, name@, version) == Err::<
                        SecretResponseView,
                        _,
                    >(e@.kind)
                    &&& e@ == failure(e@.kind, tenant.id, name@, Some(version))
                },
            },
    {
        let (summary, plaintext) = match self.read_version(tenant, name, version) {
            Ok(found) => found,
            Err(e) => {
                return Err(e);
            },
        };
        match SecretResponse::of_bytes(&summary, plaintext) {
            Some(shown) => Ok(shown),
            None => Err(
                VaultError::of_secret(ErrorKind::DecryptionError, tenant.id, name, Some(version)),
            ),
        }
    }

    /// Shows page `page` of the versions of the secret called `name` of
    /// `tenant`, newest first, each with its value as text and under the
    /// name the secret had then.
    ///
    /// Pages are counted as in [`Vault::list_secret_versions`]. Fails with
    /// `SetupIncomplete`, `UnsupportedMethod` or `StoreUnavailable` where
    /// the tenant cannot be served, with `NotFound` where the tenant has no
    /// such secret, and with `DecryptionError` where a version on the page
    /// does not open or holds no text.
    pub fn show_secret_versions(&self, tenant: &User, name: &str, page: usize, page_size: usize) -> (r:
        Result<Vec<SecretResponse>, VaultError>)
        ensures
            match r {
                Ok(shown) => self@.version_responses(
                    *tenant,
                    name@,
                    page as int,
                    page_size as int,
                ) == Ok::<_, ErrorKind>(shown@.map_values(|s: SecretResponse| s@)),
                Err(e) => {
                    &&& self@.version_responses(*tenant, name@, page as int, page_size as int)
                        == Err::<Seq<SecretResponseView>, _>(e@.kind)
                    &&& e@ == failure(e@.kind, tenant.id, name@, None)
                },
            },
    {
        let (method, material) = self.admission_of(tenant)?;
        let index = match self.find_part(tenant) {
            Some(index) => index,
            None => {
                assert(!StoreModel::empty().has_live(name@));
                return Err(VaultError::of_secret(ErrorKind::NotFound, tenant.id, name, None));
            },
        };
        assert(self.partitions[index as int]@ == self@.partitions[index as int]);
        let store = &self.partitions[index].store;
        let secret = match store.get_current(name) {
            Ok(secret) => secret,
            Err(kind) => {
                return Err(VaultError::of_secret(kind, tenant.id, name, None));
            },
        };
        let (rows, _) = store.list_versions(secret.id, page, page_size);
        let ghost wanted = rows@.map_values(|v: SecretVersion| v@);
        let mut shown: Vec<SecretResponse> = Vec::new();
        let mut i: usize = 0;
        while i < rows.len()
            invariant
                i <= rows.len(),
                shown@.len() == i,
                wanted == rows@.map_values(|v: SecretVersion| v@),
                self@.admission(*tenant) == Ok::<_, ErrorKind>((method, material@)),
                self@.secrets_of(*tenant).has_live(name@),
                wanted == self@.secrets_of(*tenant).versions_page(
                    self@.secrets_of(*tenant).live_id(name@) as u128,
                    page as int,
                    page_size as int,
                ),
                forall|k: int|
                    0 <= k < i ==> row_response(method, material@, #[trigger] wanted[k]) == Some(
                        shown@[k]@,
                    ),
            decreases rows.len() - i,
        {
            let row = &rows[i];
            assert(row@ == wanted[i as int]);
            let plaintext = match decrypt(method, material, row.encryption_secret_value.as_slice()) {
                Ok(plaintext) => plaintext,
                Err(kind) => {
                    assert(row_response(method, material@, wanted[i as int]) is None);
                    return Err(VaultError::of_secret(kind, tenant.id, name, None));
                },
            };
            let summary = summarize_version(row);
            match SecretResponse::of_bytes(&summary, plaintext) {
                Some(response) => {
                    shown.push(response);
                },
                None => {
                    assert(row_response(method, material@, wanted[i as int]) is None);
                    return Err(
                        VaultError::of_secret(ErrorKind::DecryptionError, tenant.id, name, None),
                    );
                },
            }
            i += 1;
        }
        assert(shown@.map_values(|s: SecretResponse| s@) =~= wanted.map_values(
            |row: SecretVersionView| row_response(method, material@, row)->0,
        ));
        Ok(shown)
    }

    /// Lists page `page` of the versions of the secret called `name` of
    /// `tenant`, newest first, without their values.
    ///
    /// Pages count from 1 and hold up to `page_size` entries, with
    /// `page_size` between 1 and 50; a page out of range is empty. Fails
    /// with `SetupIncomplete`, `UnsupportedMethod` or `StoreUnavailable`
    /// where the tenant cannot be served, and with `NotFound` where the
    /// tenant has no such secret.
    pub fn list_secret_versions(&self, tenant: &User, name: &str, page: usize, page_size: usize) -> (r:
        Result<Vec<SecretSummary>, VaultError>)
        ensures
            match r {
                Ok(summaries) => self@.version_summaries(
                    *tenant,
                    name@,
                    page as int,
                    page_size as int,
                ) == Ok::<_, ErrorKind>(summaries@.map_values(|s: SecretSummary| s@)),
                Err(e) => {
                    &&& self@.version_summaries(*tenant, name@, page as int, page_size as int)
                        == Err::<Seq<SecretSummaryView>, _>(e@.kind)
                    &&& e@ == failure(e@.kind, tenant.id, name@, None)
                },
            },
    {
        let _ = self.admission_of(tenant)?;
        let index = match self.find_part(tenant) {
            Some(index) => index,
            None => {
                assert(!StoreModel::empty().has_live(name@));
                return Err(VaultError::of_secret(ErrorKind::NotFound, tenant.id, name, None));
            },
        };
        assert(self.partitions[index as int]@ == self@.partitions[index as int]);
        let store = &self.partitions[index].store;
        let secret = match store.get_current(name) {
            Ok(secret) => secret,
            Err(kind) => {
                return Err(VaultError::of_secret(kind, tenant.id, name, None));
            },
        };
        let (rows, _) = store.list_versions(secret.id, page, page_size);
        let ghost wanted = rows@.map_values(|v: SecretVersion| v@).map_values(
            |row: SecretVersionView| summary_of_version(row),
        );
        let mut summaries: Vec<SecretSummary> = Vec::new();
        let mut i: usize = 0;
        while i < rows.len()
            invariant
                i <= rows.len(),
                summaries@.len() == i,
                wanted.len() == rows.len(),
                forall|k: int| 0 <= k < rows.len() ==> #[trigger] wanted[k] == summary_of_version(rows@[k]@),
                forall|k: int| 0 <= k < i ==> (#[trigger] summaries@[k])@ == wanted[k],
            decreases rows.len() - i,
        {
            let row = &rows[i];
            summaries.push(
                SecretSummary {
                    id: row.secret_id,
                    secret_name: row.secret_name.clone(),
                    version: row.version,
                    created_at: row.created_at,
                    updated_at: row.updated_at,
                },
            );
            i += 1;
        }
        assert(summaries@.map_values(|s: SecretSummary| s@) =~= wanted);
        Ok(summaries)
    }

    /// Renames the secret called `name` of `tenant` to `new_name` at time
    /// `now`. The renaming is written as the next version of the secret,
    /// which holds the current value under the new name; earlier versions
    /// keep the name they were written under.
    ///
    /// Fails, and then changes nothing, with `SetupIncomplete`,
    /// `UnsupportedMethod` or `StoreUnavailable` where the tenant cannot be
    /// served, with `NotFound` where the tenant has no secret of that name,
    /// with `DuplicateName` where it has one of the new name already, and
    /// with `VersionConflict` where the secret can take no further version,
    /// in that order.
    pub fn rename_secret_at(&mut self, tenant: &User, name: &str, new_name: &str, now: i64) -> (r:
        Result<SecretSummary, VaultError>)
        ensures
            final(self)@.wf(),
            match r {
                Ok(summary) => {
                    &&& old(self)@.renamed(*tenant, name@, new_name@, now) == Ok::<_, ErrorKind>(
                        final(self)@,
                    )
                    &&& summary@ == final(self)@.summary(*tenant, new_name@)
                },
                Err(e) => {
                    &&& old(self)@.renamed(*tenant, name@, new_name@, now) == Err::<
                        VaultModel,
                        _,
                    >(e@.kind)
                    &&& e@ == failure(e@.kind, tenant.id, name@, None)
                    &&& final(self)@ == old(self)@
                },
            },
    {
        proof {
            use_type_invariant(&*self);
        }
        let _ = self.admission_of(tenant)?;
        let index = match self.find_part(tenant) {
            Some(index) => index,
            None => {
                assert(!StoreModel::empty().has_live(name@));
                return Err(VaultError::of_secret(ErrorKind::NotFound, tenant.id, name, None));
            },
        };
        let ghost before = self@;
        let ghost before_store = before.secrets_of(*tenant);
        let (router, mut partitions) = self.take();
        assert(partitions[index as int]@ == before.partitions[index as int]);
        let outcome = match partitions[index].store.get_current(name) {
            Ok(secret) => partitions[index].store.rename(secret.id, new_name, now),
            Err(kind) => Err(kind),
        };
        proof {
            let after_store = partitions[index as int]@.store;
            if outcome is Ok {
                let id = before_store.live_id(name@) as u128;
                assert(partitions@.map_values(|p: Partition| p@) =~= before.with_store(
                    tenant.id,
                    tenant.target(),
                    after_store,
                ).partitions);
                lemma_tenants_are_isolated(
                    before,
                    tenant.id,
                    tenant.target(),
                    after_store,
                    tenant.id,
                    tenant.target(),
                );
                lemma_rename_keeps_history(before_store, id, new_name@, now, 1);
            } else {
                assert(partitions@.map_values(|p: Partition| p@) =~= before.partitions);
            }
        }
        *self = Vault { router, partitions };
        match outcome {
            Ok(secret) => Ok(summarize(secret)),
            Err(kind) => Err(VaultError::of_secret(kind, tenant.id, name, None)),
        }
    }

    /// Renames the secret called `name` of `tenant` to `new_name` at the
    /// time the clock shows. Whatever the time, the vault changes as
    /// [`Vault::rename_secret_at`] says for some time, and fails as that
    /// function does.
    pub fn rename_secret(&mut self, tenant: &User, name: &str, new_name: &str) -> (r: Result<
        SecretSummary,
        VaultError,
    >)
        ensures
            final(self)@.wf(),
            match r {
                Ok(summary) => {
                    &&& exists|now: i64|
                        #[trigger] old(self)@.renamed(*tenant, name@, new_name@, now) == Ok::<
                            _,
                            ErrorKind,
                        >(final(self)@)
                    &&& summary@ == final(self)@.summary(*tenant, new_name@)
                },
                Err(e) => {
                    &&& forall|now: i64|
                        #[trigger] old(self)@.renamed(*tenant, name@, new_name@, now) == Err::<
                            VaultModel,
                            _,
                        >(e@.kind)
                    &&& e@ == failure(e@.kind, tenant.id, name@, None)
                    &&& final(self)@ == old(self)@
                },
            },
    {
        let now = now_micros();
        self.rename_secret_at(tenant, name, new_name, now)
    }

    /// Deletes the secret called `name` of `tenant`: the name becomes free
    /// for a new secret, and the history of the deleted one is kept in the
    /// store.
    ///
    /// Fails, and then changes nothing, with `SetupIncomplete`,
    /// `UnsupportedMethod` or `StoreUnavailable` where the tenant cannot be
    /// served, and with `NotFound` where the tenant has no such secret.
    pub fn delete_secret(&mut self, tenant: &User, name: &str) -> (r: Result<(), VaultError>)
        ensures
            final(self)@.wf(),
            match r {
                Ok(()) => old(self)@.removed(*tenant, name@) == Ok::<_, ErrorKind>(final(self)@),
                Err(e) => {
                    &&& old(self)@.removed(*tenant, name@) == Err::<VaultModel, _>(e@.kind)
                    &&& e@ == failure(e@.kind, tenant.id, name@, None)
                    &&& final(self)@ == old(self)@
                },
            },
    {
        proof {
            use_type_invariant(&*self);
        }
        let _ = self.admission_of(tenant)?;
        let index = match self.find_part(tenant) {
            Some(index) => index,
            None => {
                assert(!StoreModel::empty().has_live(name@));
                return Err(VaultError::of_secret(ErrorKind::NotFound, tenant.id, name, None));
            },
        };
        let ghost before = self@;
        let (router, mut partitions) = self.take();
        assert(partitions[index as int]@ == before.partitions[index as int]);
        let outcome = match partitions[index].store.get_current(name) {
            Ok(secret) => partitions[index].store.delete(secret.id),
            Err(kind) => Err(kind),
        };
        proof {
            let after_store = partitions[index as int]@.store;
            if outcome is Ok {
                assert(partitions@.map_values(|p: Partition| p@) =~= before.with_store(
                    tenant.id,
                    tenant.target(),
                    after_store,
                ).partitions);
                lemma_tenants_are_isolated(
                    before,
                    tenant.id,
                    tenant.target(),
                    after_store,
                    tenant.id,
                    tenant.target(),
                );
            } else {
                assert(partitions@.map_values(|p: Partition| p@) =~= before.partitions);
            }
        }
        *self = Vault { router, partitions };
        match outcome {
            Ok(()) => Ok(()),
            Err(kind) => Err(VaultError::of_secret(kind, tenant.id, name, None)),
        }
    }
}

} // verus!
