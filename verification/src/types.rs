use vstd::prelude::*;

verus! {

/// An account identity, carried as an opaque printable string. The registry
/// never inspects an address beyond comparing it for equality; proving that
/// a caller actually controls an address is the authorization oracle's job.
#[derive(Debug, Eq, PartialEq)]
pub struct Address {
    pub text: String,
}

impl View for Address {
    type V = Seq<char>;

    open spec fn view(&self) -> Seq<char> {
        self.text@
    }
}

impl Clone for Address {
    fn clone(&self) -> (res: Self)
        ensures
            res == *self,
    {
        Address { text: self.text.clone() }
    }
}

impl Address {
    pub fn new(text: String) -> (r: Address)
        ensures
            r@ == text@,
    {
        Address { text }
    }
}

/// The mathematical value of a metadata record: the pair of strings fixed at
/// mint time.
#[verifier::ext_equal]
pub struct MetadataView {
    pub project_id: Seq<char>,
    pub ipfs_cid: Seq<char>,
}

/// The immutable metadata attached to a token at mint time: a project
/// identifier and a content-addressed pointer to off-system content.
#[derive(Debug, Eq, PartialEq)]
pub struct ProjectMetadata {
    pub project_id: String,
    pub ipfs_cid: String,
}

impl View for ProjectMetadata {
    type V = MetadataView;

    open spec fn view(&self) -> MetadataView {
        MetadataView { project_id: self.project_id@, ipfs_cid: self.ipfs_cid@ }
    }
}

impl Clone for ProjectMetadata {
    fn clone(&self) -> (res: Self)
        ensures
            res == *self,
    {
        ProjectMetadata { project_id: self.project_id.clone(), ipfs_cid: self.ipfs_cid.clone() }
    }
}

/// The closed set of failures an operation can report to its caller.
#[derive(Clone, Copy, Debug, Eq, PartialEq, Structural)]
pub enum Error {
    AlreadyInitialized,
    NotInitialized,
    NotAdmin,
    TokenNotFound,
    NotTokenOwner,
}

impl Error {
    /// The stable numeric code of each failure, kept for wire compatibility
    /// where the error is re-exposed outside the library.
    pub fn code(&self) -> (c: u32)
        ensures
            c == (match *self {
                Error::AlreadyInitialized => 1u32,
                Error::NotInitialized => 2u32,
                Error::NotAdmin => 3u32,
                Error::TokenNotFound => 4u32,
                Error::NotTokenOwner => 5u32,
            }),
    {
        match self {
            Error::AlreadyInitialized => 1,
            Error::NotInitialized => 2,
            Error::NotAdmin => 3,
            Error::TokenNotFound => 4,
            Error::NotTokenOwner => 5,
        }
    }
}

/// How an authorization-gated operation ended: completed, refused with one of
/// the declared errors, or aborted by the authorization oracle before any
/// write. The abort is deliberately not an `Error`: it is a lower-level
/// failure that the host surfaces to the external caller.
#[derive(Clone, Copy, Debug, Eq, PartialEq, Structural)]
pub enum Outcome {
    Completed,
    Failed(Error),
    Unauthorized,
}

} // verus!
