//! What holds of every vault, stated over its model.

use vstd::prelude::*;
use vstd::utf8::encode_utf8;
use crate::cipher::registry::{opened, sealed};
use crate::dtos::{response_of, shown_secret};
use crate::error::ErrorKind;
use crate::models::{StoreTargetView, User};
use crate::store_laws::lemma_page_lists_versions_descending;
use crate::text::{lemma_text_of_its_bytes, uuid_text};
use crate::store::{StoreModel, lemma_created_wf, lemma_updated_wf};
use crate::store_laws::{lemma_current_after_create, lemma_history_after_writes, lemma_names_after_update, written};
use crate::vault::VaultModel;

verus! {

/// Writing the secrets of one tenant in one store keeps a vault well
/// formed, is read back as written, and changes the secrets of no other
/// tenant and of no other store: tenants are isolated from each other.
pub proof fn lemma_tenants_are_isolated(
    v: VaultModel,
    tenant: u128,
    target: StoreTargetView,
    store: StoreModel,
    other_tenant: u128,
    other_target: StoreTargetView,
)
    requires
        v.wf(),
        store.wf(),
    ensures
        v.with_store(tenant, target, store).wf(),
        v.with_store(tenant, target, store).router == v.router,
        v.with_store(tenant, target, store).store_of(tenant, target) == store,
        other_tenant != tenant || other_target != target ==> v.with_store(
            tenant,
            target,
            store,
        ).store_of(other_tenant, other_target) == v.store_of(other_tenant, other_target),
{
    let t = v.with_store(tenant, target, store);
    let n = v.partitions.len() as int;
    let at = if v.has_part(tenant, target) {
        v.part_index(tenant, target)
    } else {
        n
    };
    if v.has_part(tenant, target) {
        assert(v.part_at(at, tenant, target));
    }
    assert(t.part_at(at, tenant, target));
    assert forall|i: int| 0 <= i < t.partitions.len() && i != at implies #[trigger] t.partitions[i]
        == v.partitions[i] by {}
    assert forall|i: int, j: int|
        0 <= i < t.partitions.len() && 0 <= j < t.partitions.len() && i != j implies {
        ||| (#[trigger] t.partitions[i]).tenant != (#[trigger] t.partitions[j]).tenant
        ||| t.partitions[i].target != t.partitions[j].target
    } by {
        if i != at && j != at {
            assert(t.partitions[i] == v.partitions[i] && t.partitions[j] == v.partitions[j]);
        } else if i == at {
            assert(t.partitions[j] == v.partitions[j]);
            if v.has_part(tenant, target) {
                assert(v.partitions[at].tenant == tenant && v.partitions[at].target == target);
            } else {
                assert(!v.part_at(j, tenant, target));
            }
        } else {
            assert(t.partitions[i] == v.partitions[i]);
            if v.has_part(tenant, target) {
                assert(v.partitions[at].tenant == tenant && v.partitions[at].target == target);
            } else {
                assert(!v.part_at(i, tenant, target));
            }
        }
    }
    let chosen = t.part_index(tenant, target);
    assert(t.part_at(chosen, tenant, target));
    assert(chosen == at);
    if other_tenant != tenant || other_target != target {
        if v.has_part(other_tenant, other_target) {
            let i = v.part_index(other_tenant, other_target);
            assert(v.part_at(i, other_tenant, other_target));
            assert(i != at);
            assert(t.part_at(i, other_tenant, other_target));
            let j = t.part_index(other_tenant, other_target);
            assert(t.part_at(j, other_tenant, other_target));
            assert(j == i);
        }
        if t.has_part(other_tenant, other_target) {
            let j = choose|j: int| t.part_at(j, other_tenant, other_target);
            assert(j != at);
            assert(v.part_at(j, other_tenant, other_target));
        }
    }
}

/// A secret that is there but cannot be read is told apart from one that
/// is not there: reading fails with `DecryptionError` only where the tenant
/// is served and has a secret of that name, and with `NotFound` only where
/// the tenant is served and has none.
pub proof fn lemma_unreadable_is_not_absent(v: VaultModel, tenant: User, name: Seq<char>)
    ensures
        v.secret_value(tenant, name) == Err::<Seq<u8>, _>(ErrorKind::DecryptionError) ==> {
            &&& v.admission(tenant) is Ok
            &&& v.secrets_of(tenant).has_live(name)
        },
        v.secret_value(tenant, name) == Err::<Seq<u8>, _>(ErrorKind::NotFound) ==> {
            &&& v.admission(tenant) is Ok
            &&& !v.secrets_of(tenant).has_live(name)
        },
        v.admission(tenant) matches Err(e) ==> {
            &&& v.secret_value(tenant, name) == Err::<Seq<u8>, _>(e)
            &&& (e == ErrorKind::SetupIncomplete || e == ErrorKind::UnsupportedMethod || e
                == ErrorKind::StoreUnavailable)
        },
{
}

/// Every secret store of a well-formed vault is well formed.
pub proof fn lemma_store_of_wf(v: VaultModel, tenant: u128, target: StoreTargetView)
    requires
        v.wf(),
    ensures
        v.store_of(tenant, target).wf(),
{
    if v.has_part(tenant, target) {
        let i = v.part_index(tenant, target);
        assert(v.part_at(i, tenant, target));
    }
}

/// What a tenant puts under a name, it reads back under that name, at
/// version 1 where the name was new and at the next version otherwise;
/// every earlier version of the secret reads as before.
pub proof fn lemma_put_then_get(
    v: VaultModel,
    tenant: User,
    name: Seq<char>,
    plaintext: Seq<u8>,
    nonce: Seq<u8>,
    now: i64,
    earlier: i32,
)
    requires
        v.wf(),
        v.secrets_of(tenant).records.len() < usize::MAX,
        v.put(tenant, name, plaintext, nonce, now) is Ok,
        opened(
            v.admission(tenant)->Ok_0.0,
            v.admission(tenant)->Ok_0.1,
            crate::cipher::registry::sealed(
                v.admission(tenant)->Ok_0.0,
                v.admission(tenant)->Ok_0.1,
                nonce,
                plaintext,
            )->0,
        ) == Some(plaintext),
    ensures
        ({
            let after = v.put(tenant, name, plaintext, nonce, now)->Ok_0;
            let before_store = v.secrets_of(tenant);
            &&& after.wf()
            &&& after.router == v.router
            &&& after.secret_value(tenant, name) == Ok::<_, ErrorKind>(plaintext)
            &&& after.secrets_of(tenant).has_live(name)
            &&& after.summary(tenant, name).version == if before_store.has_live(name) {
                before_store.records[before_store.live_id(name)].current_version() + 1
            } else {
                1
            }
            &&& after.secret_version_value(tenant, name, after.summary(tenant, name).version)
                == Ok::<_, ErrorKind>(plaintext)
            &&& before_store.has_live(name) && 1 <= earlier
                <= before_store.records[before_store.live_id(name)].current_version()
                ==> after.secret_version_value(tenant, name, earlier) == v.secret_version_value(
                tenant,
                name,
                earlier,
            )
        }),
{
    let (method, material) = v.admission(tenant)->Ok_0;
    let envelope = crate::cipher::registry::sealed(method, material, nonce, plaintext)->0;
    let before_store = v.secrets_of(tenant);
    let store = VaultModel::written_store(before_store, name, envelope, now)->Ok_0;
    let after = v.put(tenant, name, plaintext, nonce, now)->Ok_0;
    lemma_store_of_wf(v, tenant.id, tenant.target());
    if before_store.has_live(name) {
        let id = before_store.live_id(name) as u128;
        assert(before_store.live_at(id as int, name));
        lemma_updated_wf(before_store, id, envelope, now);
        lemma_names_after_update(before_store, id, envelope, now, name);
        assert(before_store.records[id as int].wf(id as int));
    } else {
        lemma_created_wf(before_store, name, envelope, now);
        lemma_current_after_create(before_store, name, envelope, now);
    }
    lemma_tenants_are_isolated(v, tenant.id, tenant.target(), store, tenant.id, tenant.target());
    assert(after.secrets_of(tenant) == store);
    let id = store.live_id(name);
    assert(store.records[id].wf(id));
}

/// After a tenant's secret was created and then updated any number of
/// times, with sealed values that each open to the value it was made of,
/// the secret reads as the last value written, and its version `k` reads
/// as the `k`-th value written, for every `k` from 1 to the number of
/// writes.
pub proof fn lemma_written_values_read_back(
    v: VaultModel,
    tenant: User,
    name: Seq<char>,
    envelopes: Seq<Seq<u8>>,
    plaintexts: Seq<Seq<u8>>,
    times: Seq<i64>,
)
    requires
        v.wf(),
        v.admission(tenant) is Ok,
        v.secrets_of(tenant).records.len() < usize::MAX,
        !v.secrets_of(tenant).has_live(name),
        1 <= envelopes.len() <= i32::MAX,
        plaintexts.len() == envelopes.len(),
        times.len() == envelopes.len(),
        forall|i: int|
            0 <= i < envelopes.len() ==> opened(
                v.admission(tenant)->Ok_0.0,
                v.admission(tenant)->Ok_0.1,
                #[trigger] envelopes[i],
            ) == Some(plaintexts[i]),
    ensures
        ({
            let before_store = v.secrets_of(tenant);
            let id = before_store.records.len() as u128;
            let store = written(
                before_store.created(name, envelopes[0], times[0]),
                id,
                envelopes.skip(1),
                times.skip(1),
            );
            let after = v.with_store(tenant.id, tenant.target(), store);
            &&& after.wf()
            &&& after.summary(tenant, name).version == envelopes.len()
            &&& after.secret_value(tenant, name) == Ok::<_, ErrorKind>(plaintexts.last())
            &&& forall|k: int|
                1 <= k <= envelopes.len() ==> #[trigger] after.secret_version_value(
                    tenant,
                    name,
                    k as i32,
                ) == Ok::<_, ErrorKind>(plaintexts[k - 1])
            &&& forall|k: i32|
                k < 1 || k > envelopes.len() ==> #[trigger] after.secret_version_value(
                    tenant,
                    name,
                    k,
                ) == Err::<Seq<u8>, _>(ErrorKind::NotFound)
        }),
{
    let before_store = v.secrets_of(tenant);
    let id = before_store.records.len() as u128;
    let store = written(
        before_store.created(name, envelopes[0], times[0]),
        id,
        envelopes.skip(1),
        times.skip(1),
    );
    let after = v.with_store(tenant.id, tenant.target(), store);
    lemma_store_of_wf(v, tenant.id, tenant.target());
    lemma_history_after_writes(
        before_store,
        name,
        envelopes[0],
        times[0],
        envelopes.skip(1),
        times.skip(1),
    );
    assert(seq![envelopes[0]] + envelopes.skip(1) =~= envelopes);
    lemma_tenants_are_isolated(v, tenant.id, tenant.target(), store, tenant.id, tenant.target());
    assert(after.secrets_of(tenant) == store);
    lemma_name_after_writes(before_store, name, envelopes[0], times[0], envelopes.skip(1), times.skip(1));
    assert(store.live_id(name) == id);
    assert(store.records[id as int].wf(id as int));
    assert forall|k: int| 1 <= k <= envelopes.len() implies #[trigger] after.secret_version_value(
        tenant,
        name,
        k as i32,
    ) == Ok::<_, ErrorKind>(plaintexts[k - 1]) by {
        assert(store.version_row(id, k as i32) is Some);
    }
}

/// After a secret was created under a free name and then updated, the
/// name is live and names that secret.
proof fn lemma_name_after_writes(
    s: StoreModel,
    name: Seq<char>,
    first: Seq<u8>,
    created_at: i64,
    later: Seq<Seq<u8>>,
    times: Seq<i64>,
)
    requires
        s.wf(),
        s.records.len() < usize::MAX,
        !s.has_live(name),
        later.len() == times.len(),
        1 + later.len() <= i32::MAX,
    ensures
        written(s.created(name, first, created_at), s.records.len() as u128, later, times).has_live(
            name,
        ),
        written(s.created(name, first, created_at), s.records.len() as u128, later, times).live_id(
            name,
        ) == s.records.len(),
    decreases later.len(),
{
    let id = s.records.len() as u128;
    if later.len() == 0 {
        lemma_current_after_create(s, name, first, created_at);
    } else {
        lemma_name_after_writes(s, name, first, created_at, later.drop_last(), times.drop_last());
        lemma_history_after_writes(
            s,
            name,
            first,
            created_at,
            later.drop_last(),
            times.drop_last(),
        );
        let before = written(s.created(name, first, created_at), id, later.drop_last(), times.drop_last());
        lemma_names_after_update(before, id, later.last(), times.last(), name);
    }
}

/// A text that a tenant stores under a new name is shown back unaltered:
/// the response for the secret has version 1, the name and the text that
/// was written, and so has what is shown of it.
pub proof fn lemma_created_text_is_shown(
    v: VaultModel,
    tenant: User,
    name: Seq<char>,
    text: Seq<char>,
    nonce: Seq<u8>,
    now: i64,
)
    requires
        v.wf(),
        v.secrets_of(tenant).records.len() < usize::MAX,
        v.create(tenant, name, encode_utf8(text), nonce, now) is Ok,
        opened(
            v.admission(tenant)->Ok_0.0,
            v.admission(tenant)->Ok_0.1,
            sealed(
                v.admission(tenant)->Ok_0.0,
                v.admission(tenant)->Ok_0.1,
                nonce,
                encode_utf8(text),
            )->0,
        ) == Some(encode_utf8(text)),
    ensures
        ({
            let after = v.create(tenant, name, encode_utf8(text), nonce, now)->Ok_0;
            let shown = after.response(tenant, name);
            &&& shown == Ok::<_, ErrorKind>(response_of(after.summary(tenant, name), text))
            &&& shown->Ok_0.version == 1
            &&& shown->Ok_0.secret_value == text
            &&& shown->Ok_0.secret_name == name
            &&& shown->Ok_0.id == uuid_text(after.summary(tenant, name).id)
            &&& shown_secret(shown->Ok_0).version == 1
            &&& shown_secret(shown->Ok_0).secret_value == text
            &&& shown_secret(shown->Ok_0).secret_name == name
            &&& shown_secret(shown->Ok_0).id == shown->Ok_0.id
        }),
{
    lemma_put_then_get(v, tenant, name, encode_utf8(text), nonce, now, 1);
    lemma_text_of_its_bytes(text);
    let after = v.create(tenant, name, encode_utf8(text), nonce, now)->Ok_0;
    let store = after.secrets_of(tenant);
    assert(store.has_live(name));
    let id = store.live_id(name);
    assert(store.live_at(id, name));
}

/// After a tenant's secret was created and then updated any number of
/// times with texts, sealed so that each sealed value opens to the bytes
/// of its text, the texts are shown back unaltered: the secret is shown at
/// the version that is the number of writes with the last text, version
/// `k` is shown with the `k`-th text, and on every page of the listing
/// entry `j` is the version that lies `(page - 1) * page_size + j` below
/// the current one, with the text written for it. So the versions listed
/// are each one number from 1 to the number of writes, once and without a
/// gap.
pub proof fn lemma_written_texts_are_shown(
    v: VaultModel,
    tenant: User,
    name: Seq<char>,
    envelopes: Seq<Seq<u8>>,
    texts: Seq<Seq<char>>,
    times: Seq<i64>,
    page: int,
    page_size: int,
)
    requires
        v.wf(),
        v.admission(tenant) is Ok,
        v.secrets_of(tenant).records.len() < usize::MAX,
        !v.secrets_of(tenant).has_live(name),
        1 <= envelopes.len() <= i32::MAX,
        texts.len() == envelopes.len(),
        times.len() == envelopes.len(),
        forall|i: int|
            0 <= i < envelopes.len() ==> opened(
                v.admission(tenant)->Ok_0.0,
                v.admission(tenant)->Ok_0.1,
                #[trigger] envelopes[i],
            ) == Some(encode_utf8(texts[i])),
    ensures
        ({
            let before_store = v.secrets_of(tenant);
            let id = before_store.records.len() as u128;
            let store = written(
                before_store.created(name, envelopes[0], times[0]),
                id,
                envelopes.skip(1),
                times.skip(1),
            );
            let after = v.with_store(tenant.id, tenant.target(), store);
            let count = envelopes.len() as int;
            let listed = after.version_responses(tenant, name, page, page_size);
            &&& after.response(tenant, name) is Ok
            &&& after.response(tenant, name)->Ok_0.version == count
            &&& after.response(tenant, name)->Ok_0.secret_value == texts.last()
            &&& forall|k: int|
                1 <= k <= count ==> {
                    &&& (#[trigger] after.version_response(tenant, name, k as i32)) is Ok
                    &&& after.version_response(tenant, name, k as i32)->Ok_0.version == k
                    &&& after.version_response(tenant, name, k as i32)->Ok_0.secret_value
                        == texts[k - 1]
                }
            &&& listed is Ok
            &&& listed->Ok_0.len() == store.versions_page(id, page, page_size).len()
            &&& forall|j: int|
                0 <= j < listed->Ok_0.len() ==> {
                    &&& (#[trigger] listed->Ok_0[j]).version == count - (page - 1) * page_size - j
                    &&& 1 <= listed->Ok_0[j].version <= count
                    &&& listed->Ok_0[j].secret_value == texts[listed->Ok_0[j].version - 1]
                }
        }),
{
    let (method, material) = v.admission(tenant)->Ok_0;
    let before_store = v.secrets_of(tenant);
    let id = before_store.records.len() as u128;
    let store = written(
        before_store.created(name, envelopes[0], times[0]),
        id,
        envelopes.skip(1),
        times.skip(1),
    );
    let after = v.with_store(tenant.id, tenant.target(), store);
    let count = envelopes.len() as int;
    let plaintexts = Seq::new(texts.len(), |i: int| encode_utf8(texts[i]));
    lemma_written_values_read_back(v, tenant, name, envelopes, plaintexts, times);
    lemma_store_of_wf(v, tenant.id, tenant.target());
    lemma_history_after_writes(
        before_store,
        name,
        envelopes[0],
        times[0],
        envelopes.skip(1),
        times.skip(1),
    );
    assert(seq![envelopes[0]] + envelopes.skip(1) =~= envelopes);
    lemma_tenants_are_isolated(v, tenant.id, tenant.target(), store, tenant.id, tenant.target());
    assert(after.secrets_of(tenant) == store);
    lemma_name_after_writes(before_store, name, envelopes[0], times[0], envelopes.skip(1), times.skip(1));
    assert(store.live_id(name) == id);
    assert(store.records[id as int].wf(id as int));
    lemma_text_of_its_bytes(texts.last());
    assert(after.secret_value(tenant, name) == Ok::<_, ErrorKind>(plaintexts.last()));
    assert forall|k: int| 1 <= k <= count implies {
        &&& (#[trigger] after.version_response(tenant, name, k as i32)) is Ok
        &&& after.version_response(tenant, name, k as i32)->Ok_0.version == k
        &&& after.version_response(tenant, name, k as i32)->Ok_0.secret_value == texts[k - 1]
    } by {
        lemma_text_of_its_bytes(texts[k - 1]);
        assert(after.secret_version_value(tenant, name, k as i32) == Ok::<_, ErrorKind>(
            plaintexts[k - 1],
        ));
        assert(store.version_row(id, k as i32) is Some);
    }
    let rows = store.versions_page(id, page, page_size);
    assert forall|j: int| 0 <= j < rows.len() implies {
        &&& crate::vault::row_response(method, material, #[trigger] rows[j]) is Some
        &&& crate::vault::row_response(method, material, rows[j])->0.version == count - (page
            - 1) * page_size - j
        &&& 1 <= rows[j].version <= count
        &&& crate::vault::row_response(method, material, rows[j])->0.secret_value
            == texts[rows[j].version - 1]
    } by {
        lemma_page_lists_versions_descending(store, id, page, page_size, j);
        let k = rows[j].version as int;
        assert(store.version_row(id, rows[j].version) == Some(rows[j]));
        assert(1 <= k <= count);
        assert(store.version_row(id, k as i32)->0.encryption_secret_value == envelopes[k - 1]);
        lemma_text_of_its_bytes(texts[k - 1]);
    }
}

/// Two writes of texts to one secret are put in order: the first becomes
/// the version after the one the secret had, the second the version after
/// that, so that the two never share a version number. Afterwards the
/// secret is shown with the second text at the higher of the two versions,
/// and the version between is shown with the first.
pub proof fn lemma_two_writes_are_ordered(
    v: VaultModel,
    tenant: User,
    name: Seq<char>,
    first: Seq<char>,
    second: Seq<char>,
    first_nonce: Seq<u8>,
    second_nonce: Seq<u8>,
    first_time: i64,
    second_time: i64,
)
    requires
        v.wf(),
        v.secrets_of(tenant).records.len() < usize::MAX,
        v.secrets_of(tenant).has_live(name),
        v.put(tenant, name, encode_utf8(first), first_nonce, first_time) is Ok,
        v.put(tenant, name, encode_utf8(first), first_nonce, first_time)->Ok_0.put(
            tenant,
            name,
            encode_utf8(second),
            second_nonce,
            second_time,
        ) is Ok,
        opened(
            v.admission(tenant)->Ok_0.0,
            v.admission(tenant)->Ok_0.1,
            sealed(
                v.admission(tenant)->Ok_0.0,
                v.admission(tenant)->Ok_0.1,
                first_nonce,
                encode_utf8(first),
            )->0,
        ) == Some(encode_utf8(first)),
        opened(
            v.admission(tenant)->Ok_0.0,
            v.admission(tenant)->Ok_0.1,
            sealed(
                v.admission(tenant)->Ok_0.0,
                v.admission(tenant)->Ok_0.1,
                second_nonce,
                encode_utf8(second),
            )->0,
        ) == Some(encode_utf8(second)),
    ensures
        ({
            let between = v.put(tenant, name, encode_utf8(first), first_nonce, first_time)->Ok_0;
            let after = between.put(
                tenant,
                name,
                encode_utf8(second),
                second_nonce,
                second_time,
            )->Ok_0;
            let was = v.summary(tenant, name).version;
            &&& between.summary(tenant, name).version == was + 1
            &&& after.summary(tenant, name).version == was + 2
            &&& after.response(tenant, name) is Ok
            &&& after.response(tenant, name)->Ok_0.version == was + 2
            &&& after.response(tenant, name)->Ok_0.secret_value == second
            &&& after.version_response(tenant, name, (was + 1) as i32) is Ok
            &&& after.version_response(tenant, name, (was + 1) as i32)->Ok_0.version == was + 1
            &&& after.version_response(tenant, name, (was + 1) as i32)->Ok_0.secret_value == first
        }),
{
    let between = v.put(tenant, name, encode_utf8(first), first_nonce, first_time)->Ok_0;
    let after = between.put(tenant, name, encode_utf8(second), second_nonce, second_time)->Ok_0;
    let store = v.secrets_of(tenant);
    lemma_store_of_wf(v, tenant.id, tenant.target());
    let id = store.live_id(name);
    assert(store.live_at(id, name));
    assert(store.records[id].wf(id));
    let was = store.records[id].current_version();
    lemma_put_then_get(v, tenant, name, encode_utf8(first), first_nonce, first_time, 1);
    assert(between.admission(tenant) == v.admission(tenant));
    let middle = between.secrets_of(tenant);
    lemma_store_of_wf(between, tenant.id, tenant.target());
    let again = middle.live_id(name);
    assert(middle.live_at(again, name));
    assert(middle.records[again].wf(again));
    assert(middle.records[again].current_version() == was + 1);
    assert(middle.records.len() == store.records.len());
    lemma_put_then_get(
        between,
        tenant,
        name,
        encode_utf8(second),
        second_nonce,
        second_time,
        (was + 1) as i32,
    );
    lemma_text_of_its_bytes(first);
    lemma_text_of_its_bytes(second);
    let last = after.secrets_of(tenant);
    lemma_store_of_wf(after, tenant.id, tenant.target());
    let finally = last.live_id(name);
    assert(last.live_at(finally, name));
    assert(last.records[finally].wf(finally));
    assert(between.secret_version_value(tenant, name, (was + 1) as i32) == Ok::<_, ErrorKind>(
        encode_utf8(first),
    ));
    assert(after.secret_version_value(tenant, name, (was + 1) as i32) == Ok::<_, ErrorKind>(
        encode_utf8(first),
    ));
    assert(last.version_row(finally as u128, (was + 1) as i32) is Some);
}

} // verus!
