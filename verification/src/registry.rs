use vstd::prelude::*;
use crate::types::{Address, Error, MetadataView, Outcome, ProjectMetadata};
use crate::storage::{DataKey, Storage, Value, ValueView};

verus! {

/// The mathematical state of the registry: the admin fixed at
/// initialization, the id the next successful mint will hand out, and the
/// owner and metadata records of every minted token.
#[verifier::ext_equal]
pub struct RegistryView {
    pub admin: Option<Seq<char>>,
    pub next_token_id: u128,
    pub owners: Map<u128, Seq<char>>,
    pub metadata: Map<u128, MetadataView>,
}

/// The state before initialization: no admin, counter at its start, no
/// records.
pub open spec fn empty_registry() -> RegistryView {
    RegistryView {
        admin: None,
        next_token_id: 1,
        owners: Map::empty(),
        metadata: Map::empty(),
    }
}

/// The registry's semantic invariant. Token ids are handed out sequentially
/// from 1, so the minted ids are exactly `1 .. next_token_id`, each with an
/// owner record and a metadata record, and none exists before
/// initialization.
pub open spec fn registry_inv(v: RegistryView) -> bool {
    &&& v.next_token_id >= 1
    &&& v.admin is None ==> v.next_token_id == 1
    &&& forall|id: u128|
        #[trigger] v.owners.contains_key(id) <==> v.admin is Some && 1 <= id < v.next_token_id
    &&& forall|id: u128|
        #[trigger] v.metadata.contains_key(id) <==> v.admin is Some && 1 <= id < v.next_token_id
}

/// What `init` does: fails if an admin is already fixed, aborts if the
/// oracle did not vouch for the claimed admin, and otherwise records the
/// admin and starts the token counter at 1.
pub open spec fn init_step(v: RegistryView, admin: Seq<char>, auth_as_admin: bool) -> (
    RegistryView,
    Outcome,
) {
    if v.admin is Some {
        (v, Outcome::Failed(Error::AlreadyInitialized))
    } else if !auth_as_admin {
        (v, Outcome::Unauthorized)
    } else {
        (RegistryView { admin: Some(admin), next_token_id: 1, ..v }, Outcome::Completed)
    }
}

/// What `mint` does: demands initialization, then the oracle's word that the
/// caller is the admin, and then writes the owner and metadata records for
/// the current counter value and advances the counter by exactly 1.
pub open spec fn mint_step(
    v: RegistryView,
    to: Seq<char>,
    project_id: Seq<char>,
    ipfs_cid: Seq<char>,
    auth_as_admin: bool,
) -> (RegistryView, Result<u128, Error>) {
    if v.admin is None {
        (v, Err(Error::NotInitialized))
    } else if !auth_as_admin {
        (v, Err(Error::NotAdmin))
    } else {
        let t = v.next_token_id;
        (
            RegistryView {
                next_token_id: (t + 1) as u128,
                owners: v.owners.insert(t, to),
                metadata: v.metadata.insert(t, MetadataView { project_id, ipfs_cid }),
                ..v
            },
            Ok(t),
        )
    }
}

/// What `transfer` does: demands an existing owner record, then the oracle's
/// word for `from`, then that `from` is the stored owner — in that order —
/// and then reassigns the owner record. Metadata is untouched.
pub open spec fn transfer_step(
    v: RegistryView,
    from: Seq<char>,
    to: Seq<char>,
    token_id: u128,
    auth_as_from: bool,
) -> (RegistryView, Outcome) {
    if !v.owners.contains_key(token_id) {
        (v, Outcome::Failed(Error::TokenNotFound))
    } else if !auth_as_from {
        (v, Outcome::Unauthorized)
    } else if from != v.owners[token_id] {
        (v, Outcome::Failed(Error::NotTokenOwner))
    } else {
        (RegistryView { owners: v.owners.insert(token_id, to), ..v }, Outcome::Completed)
    }
}

/// `init` preserves the semantic invariant, whatever its outcome.
pub proof fn lemma_init_preserves_inv(v: RegistryView, admin: Seq<char>, auth_as_admin: bool)
    requires
        registry_inv(v),
    ensures
        registry_inv(init_step(v, admin, auth_as_admin).0),
{
}

/// `mint` preserves the semantic invariant, whatever its outcome, as long
/// as the token counter has room left.
pub proof fn lemma_mint_preserves_inv(
    v: RegistryView,
    to: Seq<char>,
    project_id: Seq<char>,
    ipfs_cid: Seq<char>,
    auth_as_admin: bool,
)
    requires
        registry_inv(v),
        v.admin is Some ==> v.next_token_id < u128::MAX,
    ensures
        registry_inv(mint_step(v, to, project_id, ipfs_cid, auth_as_admin).0),
{
}

/// `transfer` preserves the semantic invariant, whatever its outcome.
pub proof fn lemma_transfer_preserves_inv(
    v: RegistryView,
    from: Seq<char>,
    to: Seq<char>,
    token_id: u128,
    auth_as_from: bool,
)
    requires
        registry_inv(v),
    ensures
        registry_inv(transfer_step(v, from, to, token_id, auth_as_from).0),
{
}

spec fn admin_of(m: Map<DataKey, ValueView>) -> Option<Seq<char>> {
    if m.contains_key(DataKey::Admin) {
        match m[DataKey::Admin] {
            ValueView::Addr(a) => Some(a),
            _ => None,
        }
    } else {
        None
    }
}

spec fn next_of(m: Map<DataKey, ValueView>) -> u128 {
    if m.contains_key(DataKey::NextTokenId) {
        match m[DataKey::NextTokenId] {
            ValueView::Count(c) => c,
            _ => 1u128,
        }
    } else {
        1u128
    }
}

spec fn owners_of(m: Map<DataKey, ValueView>) -> Map<u128, Seq<char>> {
    Map::new(
        |id: u128| m.contains_key(DataKey::Owner(id)) && m[DataKey::Owner(id)] is Addr,
        |id: u128|
            match m[DataKey::Owner(id)] {
                ValueView::Addr(a) => a,
                _ => Seq::empty(),
            },
    )
}

spec fn metadata_of(m: Map<DataKey, ValueView>) -> Map<u128, MetadataView> {
    Map::new(
        |id: u128| m.contains_key(DataKey::Metadata(id)) && m[DataKey::Metadata(id)] is Meta,
        |id: u128|
            match m[DataKey::Metadata(id)] {
                ValueView::Meta(md) => md,
                _ => MetadataView { project_id: Seq::empty(), ipfs_cid: Seq::empty() },
            },
    )
}

proof fn lemma_view_insert_admin(m: Map<DataKey, ValueView>, a: Seq<char>)
    ensures
        admin_of(m.insert(DataKey::Admin, ValueView::Addr(a))) == Some(a),
        next_of(m.insert(DataKey::Admin, ValueView::Addr(a))) == next_of(m),
        owners_of(m.insert(DataKey::Admin, ValueView::Addr(a))) == owners_of(m),
        metadata_of(m.insert(DataKey::Admin, ValueView::Addr(a))) == metadata_of(m),
{
    let m2 = m.insert(DataKey::Admin, ValueView::Addr(a));
    assert(owners_of(m2) =~= owners_of(m));
    assert(metadata_of(m2) =~= metadata_of(m));
}

proof fn lemma_view_insert_next(m: Map<DataKey, ValueView>, c: u128)
    ensures
        admin_of(m.insert(DataKey::NextTokenId, ValueView::Count(c))) == admin_of(m),
        next_of(m.insert(DataKey::NextTokenId, ValueView::Count(c))) == c,
        owners_of(m.insert(DataKey::NextTokenId, ValueView::Count(c))) == owners_of(m),
        metadata_of(m.insert(DataKey::NextTokenId, ValueView::Count(c))) == metadata_of(m),
{
    let m2 = m.insert(DataKey::NextTokenId, ValueView::Count(c));
    assert(owners_of(m2) =~= owners_of(m));
    assert(metadata_of(m2) =~= metadata_of(m));
}

proof fn lemma_view_insert_owner(m: Map<DataKey, ValueView>, t: u128, a: Seq<char>)
    ensures
        admin_of(m.insert(DataKey::Owner(t), ValueView::Addr(a))) == admin_of(m),
        next_of(m.insert(DataKey::Owner(t), ValueView::Addr(a))) == next_of(m),
        owners_of(m.insert(DataKey::Owner(t), ValueView::Addr(a))) == owners_of(m).insert(t, a),
        metadata_of(m.insert(DataKey::Owner(t), ValueView::Addr(a))) == metadata_of(m),
{
    let m2 = m.insert(DataKey::Owner(t), ValueView::Addr(a));
    assert(owners_of(m2) =~= owners_of(m).insert(t, a));
    assert(metadata_of(m2) =~= metadata_of(m));
}

proof fn lemma_view_insert_metadata(m: Map<DataKey, ValueView>, t: u128, md: MetadataView)
    ensures
        admin_of(m.insert(DataKey::Metadata(t), ValueView::Meta(md))) == admin_of(m),
        next_of(m.insert(DataKey::Metadata(t), ValueView::Meta(md))) == next_of(m),
        owners_of(m.insert(DataKey::Metadata(t), ValueView::Meta(md))) == owners_of(m),
        metadata_of(m.insert(DataKey::Metadata(t), ValueView::Meta(md))) == metadata_of(m).insert(
            t,
            md,
        ),
{
    let m2 = m.insert(DataKey::Metadata(t), ValueView::Meta(md));
    assert(owners_of(m2) =~= owners_of(m));
    assert(metadata_of(m2) =~= metadata_of(m).insert(t, md));
}

/// The registry service: the public operation set over one explicit store.
/// The host owns the value, keeps it durable between calls, and applies each
/// operation as one atomic unit.
pub struct ProjectNft {
    store: Storage,
}

impl View for ProjectNft {
    type V = RegistryView;

    closed spec fn view(&self) -> RegistryView {
        RegistryView {
            admin: admin_of(self.store@),
            next_token_id: next_of(self.store@),
            owners: owners_of(self.store@),
            metadata: metadata_of(self.store@),
        }
    }
}

impl ProjectNft {
    spec fn typed(&self) -> bool {
        &&& self.store.wf()
        &&& self.store@.contains_key(DataKey::Admin) ==> self.store@[DataKey::Admin] is Addr
        &&& self.store@.contains_key(DataKey::NextTokenId) ==> self.store@[DataKey::NextTokenId] is Count
        &&& self.store@.contains_key(DataKey::Admin) <==> self.store@.contains_key(
            DataKey::NextTokenId,
        )
        &&& forall|id: u128| #[trigger]
            self.store@.contains_key(DataKey::Owner(id)) ==> self.store@[DataKey::Owner(id)] is Addr
        &&& forall|id: u128| #[trigger]
            self.store@.contains_key(DataKey::Metadata(id)) ==> self.store@[DataKey::Metadata(
                id,
            )] is Meta
    }

    /// The registry is well-formed: its store is sound and its state
    /// satisfies the semantic invariant. Every operation preserves this.
    pub closed spec fn wf(&self) -> bool {
        self.typed() && registry_inv(self@)
    }

    /// A well-formed registry always satisfies the semantic invariant.
    pub proof fn lemma_wf_implies_inv(&self)
        requires
            self.wf(),
        ensures
            registry_inv(self@),
    {
    }

    fn read_admin(&self) -> (r: Result<Address, Error>)
        requires
            self.wf(),
        ensures
            (match r {
                Ok(a) => self@.admin == Some(a@),
                Err(e) => e == Error::NotInitialized && self@.admin is None,
            }),
    {
        match self.store.get(&DataKey::Admin) {
            Some(v) => match v {
                Value::Addr(a) => Ok(a.clone()),
                _ => {
                    proof {
                        assert(false);
                    }
                    Err(Error::NotInitialized)
                },
            },
            None => Err(Error::NotInitialized),
        }
    }

    fn write_admin(&mut self, admin: &Address)
        requires
            old(self).store.wf(),
        ensures
            final(self).store.wf(),
            final(self).store@ == old(self).store@.insert(
                DataKey::Admin,
                ValueView::Addr(admin@),
            ),
    {
        self.store.set(DataKey::Admin, Value::Addr(admin.clone()));
    }

    fn read_next_token_id(&self) -> (r: u128)
        requires
            self.wf(),
        ensures
            r == self@.next_token_id,
    {
        match self.store.get(&DataKey::NextTokenId) {
            Some(v) => match v {
                Value::Count(n) => *n,
                _ => {
                    proof {
                        assert(false);
                    }
                    1
                },
            },
            None => 1,
        }
    }

    fn write_next_token_id(&mut self, id: u128)
        requires
            old(self).store.wf(),
        ensures
            final(self).store.wf(),
            final(self).store@ == old(self).store@.insert(
                DataKey::NextTokenId,
                ValueView::Count(id),
            ),
    {
        self.store.set(DataKey::NextTokenId, Value::Count(id));
    }

    fn read_owner(&self, token_id: u128) -> (r: Option<Address>)
        requires
            self.wf(),
        ensures
            (match r {
                Some(a) => self@.owners.contains_key(token_id) && a@ == self@.owners[token_id],
                None => !self@.owners.contains_key(token_id),
            }),
    {
        match self.store.get(&DataKey::Owner(token_id)) {
            Some(v) => match v {
                Value::Addr(a) => Some(a.clone()),
                _ => {
                    proof {
                        assert(false);
                    }
                    None
                },
            },
            None => None,
        }
    }

    fn write_owner(&mut self, token_id: u128, owner: &Address)
        requires
            old(self).store.wf(),
        ensures
            final(self).store.wf(),
            final(self).store@ == old(self).store@.insert(
                DataKey::Owner(token_id),
                ValueView::Addr(owner@),
            ),
    {
        self.store.set(DataKey::Owner(token_id), Value::Addr(owner.clone()));
    }

    fn read_metadata(&self, token_id: u128) -> (r: Option<ProjectMetadata>)
        requires
            self.wf(),
        ensures
            (match r {
                Some(md) => self@.metadata.contains_key(token_id)
                    && md@ == self@.metadata[token_id],
                None => !self@.metadata.contains_key(token_id),
            }),
    {
        match self.store.get(&DataKey::Metadata(token_id)) {
            Some(v) => match v {
                Value::Meta(md) => Some(md.clone()),
                _ => {
                    proof {
                        assert(false);
                    }
                    None
                },
            },
            None => None,
        }
    }

    fn write_metadata(&mut self, token_id: u128, meta: ProjectMetadata)
        requires
            old(self).store.wf(),
        ensures
            final(self).store.wf(),
            final(self).store@ == old(self).store@.insert(
                DataKey::Metadata(token_id),
                ValueView::Meta(meta@),
            ),
    {
        self.store.set(DataKey::Metadata(token_id), Value::Meta(meta));
    }

    /// A fresh, uninitialized registry.
    pub fn new() -> (r: ProjectNft)
        ensures
            r.wf(),
            r@ == empty_registry(),
    {
        let r = ProjectNft { store: Storage::new() };
        proof {
            assert(r@.owners =~= empty_registry().owners);
            assert(r@.metadata =~= empty_registry().metadata);
            assert(r@ =~= empty_registry());
        }
        r
    }

    /// Fixes the admin and starts the token counter. Succeeds at most once:
    /// a second call fails with `AlreadyInitialized` and changes nothing.
    /// `auth_as_admin` is the authorization oracle's verdict that the caller
    /// controls `admin`; without it the call aborts before any write.
    pub fn init(&mut self, admin: &Address, auth_as_admin: bool) -> (r: Outcome)
        requires
            old(self).wf(),
        ensures
            final(self).wf(),
            ({
                let (v2, out) = init_step(old(self)@, admin@, auth_as_admin);
                final(self)@ == v2 && r == out
            }),
    {
        if self.store.has(&DataKey::Admin) {
            return Outcome::Failed(Error::AlreadyInitialized);
        }
        if !auth_as_admin {
            return Outcome::Unauthorized;
        }
        self.write_admin(admin);
        self.write_next_token_id(1);
        proof {
            let m0 = old(self).store@;
            let m1 = m0.insert(DataKey::Admin, ValueView::Addr(admin@));
            lemma_view_insert_admin(m0, admin@);
            lemma_view_insert_next(m1, 1);
            lemma_init_preserves_inv(old(self)@, admin@, auth_as_admin);
        }
        Outcome::Completed
    }

    /// Mints a new token to `to` with the given metadata and returns its id.
    /// Demands initialization, then the oracle's verdict `auth_as_admin`
    /// that the caller controls the stored admin address; refused calls
    /// change nothing. Ids are handed out sequentially, so no two
    /// successful mints ever return the same id.
    pub fn mint(
        &mut self,
        to: &Address,
        project_id: String,
        ipfs_cid: String,
        auth_as_admin: bool,
    ) -> (r: Result<u128, Error>)
        requires
            old(self).wf(),
            old(self)@.admin is Some ==> old(self)@.next_token_id < u128::MAX,
        ensures
            final(self).wf(),
            ({
                let (v2, res) = mint_step(old(self)@, to@, project_id@, ipfs_cid@, auth_as_admin);
                final(self)@ == v2 && r == res
            }),
    {
        let _admin: Address = match self.read_admin() {
            Ok(a) => a,
            Err(e) => {
                return Err(e);
            },
        };
        if !auth_as_admin {
            return Err(Error::NotAdmin);
        }
        let token_id: u128 = self.read_next_token_id();
        let meta = ProjectMetadata { project_id, ipfs_cid };
        let ghost mdv = meta@;
        self.write_owner(token_id, to);
        self.write_metadata(token_id, meta);
        self.write_next_token_id(token_id + 1);
        proof {
            let m0 = old(self).store@;
            let m1 = m0.insert(DataKey::Owner(token_id), ValueView::Addr(to@));
            let m2 = m1.insert(DataKey::Metadata(token_id), ValueView::Meta(mdv));
            lemma_view_insert_owner(m0, token_id, to@);
            lemma_view_insert_metadata(m1, token_id, mdv);
            lemma_view_insert_next(m2, (token_id + 1) as u128);
            lemma_mint_preserves_inv(old(self)@, to@, project_id@, ipfs_cid@, auth_as_admin);
        }
        Ok(token_id)
    }

    /// Reassigns the owner record of `token_id` from `from` to `to`. Demands
    /// an existing token, then the oracle's verdict `auth_as_from` for
    /// `from`, then that `from` is the stored owner — in that order.
    /// Metadata is untouched, and refused calls change nothing.
    pub fn transfer(
        &mut self,
        from: &Address,
        to: &Address,
        token_id: u128,
        auth_as_from: bool,
    ) -> (r: Outcome)
        requires
            old(self).wf(),
        ensures
            final(self).wf(),
            ({
                let (v2, out) = transfer_step(old(self)@, from@, to@, token_id, auth_as_from);
                final(self)@ == v2 && r == out
            }),
    {
        let owner: Address = match self.read_owner(token_id) {
            Some(o) => o,
            None => {
                return Outcome::Failed(Error::TokenNotFound);
            },
        };
        if !auth_as_from {
            return Outcome::Unauthorized;
        }
        if !(from.text == owner.text) {
            return Outcome::Failed(Error::NotTokenOwner);
        }
        self.write_owner(token_id, to);
        proof {
            lemma_view_insert_owner(old(self).store@, token_id, to@);
            lemma_transfer_preserves_inv(old(self)@, from@, to@, token_id, auth_as_from);
        }
        Outcome::Completed
    }

    /// Answers the current owner of `token_id`, or `TokenNotFound` for an id
    /// that was never minted. Pure read.
    pub fn owner_of(&self, token_id: u128) -> (r: Result<Address, Error>)
        requires
            self.wf(),
        ensures
            (match r {
                Ok(a) => self@.owners.contains_key(token_id) && a@ == self@.owners[token_id],
                Err(e) => e == Error::TokenNotFound && !self@.owners.contains_key(token_id),
            }),
    {
        match self.read_owner(token_id) {
            Some(a) => Ok(a),
            None => Err(Error::TokenNotFound),
        }
    }

    /// Answers the metadata pair fixed at mint time for `token_id`, or
    /// `TokenNotFound` for an id that was never minted. Pure read.
    pub fn get_metadata(&self, token_id: u128) -> (r: Result<ProjectMetadata, Error>)
        requires
            self.wf(),
        ensures
            (match r {
                Ok(md) => self@.metadata.contains_key(token_id)
                    && md@ == self@.metadata[token_id],
                Err(e) => e == Error::TokenNotFound && !self@.metadata.contains_key(token_id),
            }),
    {
        match self.read_metadata(token_id) {
            Some(md) => Ok(md),
            None => Err(Error::TokenNotFound),
        }
    }

    /// A constant descriptive string identifying this build of the registry.
    /// No state access, no failure mode.
    pub fn version() -> (r: String)
        ensures
            r@ == "project-nft v1"@,
    {
        "project-nft v1".to_owned()
    }
}

} // verus!
