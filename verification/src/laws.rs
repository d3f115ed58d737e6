use vstd::prelude::*;
use crate::types::{Error, MetadataView, Outcome};
use crate::registry::{
    empty_registry, init_step, lemma_mint_preserves_inv, lemma_transfer_preserves_inv, mint_step,
    registry_inv, transfer_step, RegistryView,
};

verus! {

/// The arguments of one `mint` call, at the level of the mathematical model.
pub struct MintRequest {
    pub to: Seq<char>,
    pub project_id: Seq<char>,
    pub ipfs_cid: Seq<char>,
}

/// The state after a sequence of authorized `mint` calls.
pub open spec fn run_mints(v: RegistryView, reqs: Seq<MintRequest>) -> RegistryView
    decreases reqs.len(),
{
    if reqs.len() == 0 {
        v
    } else {
        run_mints(
            mint_step(v, reqs[0].to, reqs[0].project_id, reqs[0].ipfs_cid, true).0,
            reqs.drop_first(),
        )
    }
}

/// The token ids that a sequence of authorized `mint` calls returns, in call
/// order, counting only the successful calls.
pub open spec fn mint_ids(v: RegistryView, reqs: Seq<MintRequest>) -> Seq<u128>
    decreases reqs.len(),
{
    if reqs.len() == 0 {
        Seq::empty()
    } else {
        let stepped = mint_step(v, reqs[0].to, reqs[0].project_id, reqs[0].ipfs_cid, true);
        match stepped.1 {
            Ok(t) => seq![t] + mint_ids(stepped.0, reqs.drop_first()),
            Err(_) => mint_ids(stepped.0, reqs.drop_first()),
        }
    }
}

/// Single initialization: once `init` has succeeded, every further `init`
/// call — whatever address it claims and whatever the oracle answers —
/// fails with `AlreadyInitialized` and leaves the state, admin and counter
/// included, exactly as it was.
pub proof fn lemma_single_initialization(
    v: RegistryView,
    admin: Seq<char>,
    auth_as_admin: bool,
    admin2: Seq<char>,
    auth2: bool,
)
    requires
        init_step(v, admin, auth_as_admin).1 == Outcome::Completed,
    ensures
        ({
            let v1 = init_step(v, admin, auth_as_admin).0;
            &&& init_step(v1, admin2, auth2).1 == Outcome::Failed(Error::AlreadyInitialized)
            &&& init_step(v1, admin2, auth2).0 == v1
        }),
{
}

/// The admin is immutable: no operation but a first successful `init` ever
/// changes the stored admin, and none ever clears it.
pub proof fn lemma_admin_immutable(
    v: RegistryView,
    a: Seq<char>,
    b: Seq<char>,
    pid: Seq<char>,
    cid: Seq<char>,
    token_id: u128,
    auth: bool,
)
    requires
        v.admin is Some,
    ensures
        init_step(v, a, auth).0.admin == v.admin,
        mint_step(v, a, pid, cid, auth).0.admin == v.admin,
        transfer_step(v, a, b, token_id, auth).0.admin == v.admin,
{
}

/// Mint authorization: before initialization `mint` fails with
/// `NotInitialized`; after it, a call the oracle does not vouch for as the
/// admin fails with `NotAdmin`. Either way nothing is written.
pub proof fn lemma_mint_authorization(
    v: RegistryView,
    to: Seq<char>,
    project_id: Seq<char>,
    ipfs_cid: Seq<char>,
    auth_as_admin: bool,
)
    ensures
        v.admin is None ==> mint_step(v, to, project_id, ipfs_cid, auth_as_admin) == (
            v,
            Result::<u128, Error>::Err(Error::NotInitialized),
        ),
        v.admin is Some && !auth_as_admin ==> mint_step(v, to, project_id, ipfs_cid, auth_as_admin)
            == (v, Result::<u128, Error>::Err(Error::NotAdmin)),
{
}

/// Monotonic unique ids: from any initialized state, N authorized mints all
/// succeed and return the ids `next_token_id, next_token_id + 1, ...` in
/// call order — N distinct ids — while the counter advances by exactly N.
pub proof fn lemma_monotonic_unique_ids(v: RegistryView, reqs: Seq<MintRequest>)
    requires
        registry_inv(v),
        v.admin is Some,
        v.next_token_id + reqs.len() <= u128::MAX,
    ensures
        mint_ids(v, reqs).len() == reqs.len(),
        forall|i: int| 0 <= i < reqs.len() ==> mint_ids(v, reqs)[i] == v.next_token_id + i,
        forall|i: int, j: int|
            0 <= i < j < reqs.len() ==> mint_ids(v, reqs)[i] != mint_ids(v, reqs)[j],
        run_mints(v, reqs).next_token_id == v.next_token_id + reqs.len(),
        run_mints(v, reqs).admin == v.admin,
        registry_inv(run_mints(v, reqs)),
    decreases reqs.len(),
{
    if reqs.len() > 0 {
        let stepped = mint_step(v, reqs[0].to, reqs[0].project_id, reqs[0].ipfs_cid, true);
        lemma_mint_preserves_inv(v, reqs[0].to, reqs[0].project_id, reqs[0].ipfs_cid, true);
        lemma_monotonic_unique_ids(stepped.0, reqs.drop_first());
        assert forall|i: int| 0 <= i < reqs.len() implies mint_ids(v, reqs)[i] == v.next_token_id
            + i by {
            if i > 0 {
                assert(mint_ids(stepped.0, reqs.drop_first())[i - 1] == stepped.0.next_token_id + (
                i - 1));
            }
        }
    }
}

/// From a freshly initialized registry, N authorized mints return exactly
/// the ids 1, 2, ..., N, in call order, each exactly once.
pub proof fn lemma_ids_from_fresh_initialization(admin: Seq<char>, reqs: Seq<MintRequest>)
    requires
        reqs.len() < u128::MAX,
    ensures
        ({
            let v0 = init_step(empty_registry(), admin, true).0;
            &&& mint_ids(v0, reqs).len() == reqs.len()
            &&& forall|i: int| 0 <= i < reqs.len() ==> mint_ids(v0, reqs)[i] == 1 + i
        }),
{
    let v0 = init_step(empty_registry(), admin, true).0;
    lemma_monotonic_unique_ids(v0, reqs);
}

/// Owner invariant, first half: a successful mint of id `t` to `A` makes
/// `A` the owner of `t`.
pub proof fn lemma_owner_after_mint(
    v: RegistryView,
    to: Seq<char>,
    project_id: Seq<char>,
    ipfs_cid: Seq<char>,
)
    requires
        v.admin is Some,
    ensures
        ({
            let (v1, r) = mint_step(v, to, project_id, ipfs_cid, true);
            &&& r == Result::<u128, Error>::Ok(v.next_token_id)
            &&& v1.owners[v.next_token_id] == to
            &&& v1.metadata[v.next_token_id] == MetadataView { project_id, ipfs_cid }
        }),
{
}

/// Owner invariant, second half: a successful transfer of `t` from `A` to
/// `B` makes `B` the owner of `t`, and a repeated transfer from `A` — to
/// any target, with the oracle vouching for `A` — now fails with
/// `NotTokenOwner` and changes nothing.
pub proof fn lemma_owner_after_transfer(
    v: RegistryView,
    a: Seq<char>,
    b: Seq<char>,
    d: Seq<char>,
    token_id: u128,
)
    requires
        v.owners.contains_key(token_id),
        v.owners[token_id] == a,
        a != b,
    ensures
        ({
            let (v1, out) = transfer_step(v, a, b, token_id, true);
            &&& out == Outcome::Completed
            &&& v1.owners[token_id] == b
            &&& transfer_step(v1, a, d, token_id, true).1 == Outcome::Failed(Error::NotTokenOwner)
            &&& transfer_step(v1, a, d, token_id, true).0 == v1
        }),
{
}

/// Unknown token: an id outside `1 .. next_token_id` was never minted, so it
/// has neither an owner record nor a metadata record, and `owner_of` and
/// `get_metadata` answer `TokenNotFound` for it.
pub proof fn lemma_unknown_token(v: RegistryView, token_id: u128)
    requires
        registry_inv(v),
        token_id < 1 || token_id >= v.next_token_id,
    ensures
        !v.owners.contains_key(token_id),
        !v.metadata.contains_key(token_id),
{
}

/// The arguments of one `transfer` call, at the level of the mathematical
/// model, the oracle's verdict included.
pub struct TransferRequest {
    pub from: Seq<char>,
    pub to: Seq<char>,
    pub token_id: u128,
    pub auth_as_from: bool,
}

/// The state after a sequence of `transfer` calls, successful or not.
pub open spec fn run_transfers(v: RegistryView, reqs: Seq<TransferRequest>) -> RegistryView
    decreases reqs.len(),
{
    if reqs.len() == 0 {
        v
    } else {
        run_transfers(
            transfer_step(v, reqs[0].from, reqs[0].to, reqs[0].token_id, reqs[0].auth_as_from).0,
            reqs.drop_first(),
        )
    }
}

/// Metadata immutability: no sequence of transfer calls — successful or not,
/// of this token or any other — ever changes any metadata record, so
/// `get_metadata` keeps answering the exact pair supplied at mint time.
pub proof fn lemma_metadata_immutable_under_transfers(
    v: RegistryView,
    reqs: Seq<TransferRequest>,
)
    ensures
        run_transfers(v, reqs).metadata == v.metadata,
        run_transfers(v, reqs).admin == v.admin,
        run_transfers(v, reqs).next_token_id == v.next_token_id,
        registry_inv(v) ==> registry_inv(run_transfers(v, reqs)),
    decreases reqs.len(),
{
    if reqs.len() > 0 {
        let stepped = transfer_step(
            v,
            reqs[0].from,
            reqs[0].to,
            reqs[0].token_id,
            reqs[0].auth_as_from,
        );
        if registry_inv(v) {
            lemma_transfer_preserves_inv(
                v,
                reqs[0].from,
                reqs[0].to,
                reqs[0].token_id,
                reqs[0].auth_as_from,
            );
        }
        lemma_metadata_immutable_under_transfers(stepped.0, reqs.drop_first());
    }
}

/// A mint touches no record of an already-minted token: every owner and
/// metadata record other than the freshly minted one is carried over
/// unchanged.
pub proof fn lemma_mint_preserves_existing_records(
    v: RegistryView,
    to: Seq<char>,
    project_id: Seq<char>,
    ipfs_cid: Seq<char>,
    auth_as_admin: bool,
    token_id: u128,
)
    requires
        registry_inv(v),
        v.owners.contains_key(token_id),
    ensures
        ({
            let v1 = mint_step(v, to, project_id, ipfs_cid, auth_as_admin).0;
            &&& v1.owners[token_id] == v.owners[token_id]
            &&& v1.metadata[token_id] == v.metadata[token_id]
        }),
{
}

} // verus!
