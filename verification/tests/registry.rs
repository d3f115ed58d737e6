use project_nft::registry::ProjectNft;
use project_nft::types::{Address, Error, Outcome, ProjectMetadata};

fn addr(text: &str) -> Address {
    Address::new(String::from(text))
}

fn meta(project_id: &str, ipfs_cid: &str) -> ProjectMetadata {
    ProjectMetadata { project_id: String::from(project_id), ipfs_cid: String::from(ipfs_cid) }
}

#[test]
fn full_scenario() {
    let mut reg = ProjectNft::new();
    assert_eq!(reg.init(&addr("A"), true), Outcome::Completed);
    assert_eq!(reg.mint(&addr("B"), String::from("proj-1"), String::from("cid-1"), true), Ok(1));
    assert_eq!(reg.mint(&addr("C"), String::from("proj-2"), String::from("cid-2"), true), Ok(2));
    assert_eq!(reg.transfer(&addr("B"), &addr("D"), 1, true), Outcome::Completed);
    assert_eq!(reg.owner_of(1), Ok(addr("D")));
    assert_eq!(reg.owner_of(2), Ok(addr("C")));
    assert_eq!(
        reg.transfer(&addr("B"), &addr("D"), 1, true),
        Outcome::Failed(Error::NotTokenOwner)
    );
}

#[test]
fn init_succeeds_exactly_once() {
    let mut reg = ProjectNft::new();
    assert_eq!(reg.init(&addr("A"), true), Outcome::Completed);
    assert_eq!(reg.init(&addr("A"), true), Outcome::Failed(Error::AlreadyInitialized));
    assert_eq!(reg.init(&addr("E"), true), Outcome::Failed(Error::AlreadyInitialized));
    // The admin and the counter are untouched by the failed calls: the
    // first admin still mints, and the next id is still 1.
    assert_eq!(reg.mint(&addr("B"), String::from("p"), String::from("c"), true), Ok(1));
}

#[test]
fn unauthorized_init_writes_nothing() {
    let mut reg = ProjectNft::new();
    assert_eq!(reg.init(&addr("A"), false), Outcome::Unauthorized);
    // Nothing was written, so a later authorized call still succeeds.
    assert_eq!(reg.init(&addr("A"), true), Outcome::Completed);
}

#[test]
fn mint_ids_are_sequential_from_one() {
    let mut reg = ProjectNft::new();
    assert_eq!(reg.init(&addr("A"), true), Outcome::Completed);
    for expected in 1..=20u128 {
        let id = reg
            .mint(&addr("B"), String::from("p"), String::from("c"), true)
            .expect("authorized mint after initialization succeeds");
        assert_eq!(id, expected);
    }
}

#[test]
fn mint_before_init_fails() {
    let mut reg = ProjectNft::new();
    assert_eq!(
        reg.mint(&addr("B"), String::from("p"), String::from("c"), true),
        Err(Error::NotInitialized)
    );
    // The failed call wrote nothing.
    assert_eq!(reg.owner_of(1), Err(Error::TokenNotFound));
}

#[test]
fn mint_without_admin_authorization_fails() {
    let mut reg = ProjectNft::new();
    assert_eq!(reg.init(&addr("A"), true), Outcome::Completed);
    assert_eq!(
        reg.mint(&addr("B"), String::from("p"), String::from("c"), false),
        Err(Error::NotAdmin)
    );
    // The rejected mint wrote nothing and consumed no id.
    assert_eq!(reg.owner_of(1), Err(Error::TokenNotFound));
    assert_eq!(reg.mint(&addr("B"), String::from("p"), String::from("c"), true), Ok(1));
}

#[test]
fn transfer_demands_token_then_auth_then_ownership() {
    let mut reg = ProjectNft::new();
    assert_eq!(reg.init(&addr("A"), true), Outcome::Completed);
    // Unknown token comes first, even for an unauthorized caller.
    assert_eq!(
        reg.transfer(&addr("B"), &addr("C"), 7, false),
        Outcome::Failed(Error::TokenNotFound)
    );
    assert_eq!(reg.mint(&addr("B"), String::from("p"), String::from("c"), true), Ok(1));
    // The oracle's verdict is demanded before the ownership comparison:
    // an unauthorized call by a non-owner aborts rather than failing with
    // NotTokenOwner.
    assert_eq!(reg.transfer(&addr("C"), &addr("D"), 1, false), Outcome::Unauthorized);
    assert_eq!(reg.owner_of(1), Ok(addr("B")));
    // An authorized caller who is not the owner is refused.
    assert_eq!(
        reg.transfer(&addr("C"), &addr("D"), 1, true),
        Outcome::Failed(Error::NotTokenOwner)
    );
    assert_eq!(reg.owner_of(1), Ok(addr("B")));
}

#[test]
fn owner_of_unknown_token_fails() {
    let mut reg = ProjectNft::new();
    assert_eq!(reg.owner_of(1), Err(Error::TokenNotFound));
    assert_eq!(reg.init(&addr("A"), true), Outcome::Completed);
    assert_eq!(reg.mint(&addr("B"), String::from("p"), String::from("c"), true), Ok(1));
    assert_eq!(reg.owner_of(0), Err(Error::TokenNotFound));
    assert_eq!(reg.owner_of(2), Err(Error::TokenNotFound));
    assert_eq!(reg.owner_of(999), Err(Error::TokenNotFound));
}

#[test]
fn get_metadata_unknown_token_fails() {
    let mut reg = ProjectNft::new();
    assert_eq!(reg.get_metadata(1), Err(Error::TokenNotFound));
    assert_eq!(reg.init(&addr("A"), true), Outcome::Completed);
    assert_eq!(reg.get_metadata(1), Err(Error::TokenNotFound));
    assert_eq!(reg.mint(&addr("B"), String::from("p"), String::from("c"), true), Ok(1));
    assert_eq!(reg.get_metadata(0), Err(Error::TokenNotFound));
    assert_eq!(reg.get_metadata(2), Err(Error::TokenNotFound));
}

#[test]
fn metadata_is_exactly_what_mint_supplied() {
    let mut reg = ProjectNft::new();
    assert_eq!(reg.init(&addr("A"), true), Outcome::Completed);
    assert_eq!(
        reg.mint(&addr("B"), String::from("proj-1"), String::from("cid-1"), true),
        Ok(1)
    );
    assert_eq!(
        reg.mint(&addr("C"), String::from("proj-2"), String::from("cid-2"), true),
        Ok(2)
    );
    assert_eq!(reg.get_metadata(1), Ok(meta("proj-1", "cid-1")));
    assert_eq!(reg.get_metadata(2), Ok(meta("proj-2", "cid-2")));
}

#[test]
fn metadata_survives_transfers_unchanged() {
    let mut reg = ProjectNft::new();
    assert_eq!(reg.init(&addr("A"), true), Outcome::Completed);
    assert_eq!(
        reg.mint(&addr("B"), String::from("proj-1"), String::from("cid-1"), true),
        Ok(1)
    );
    assert_eq!(reg.transfer(&addr("B"), &addr("C"), 1, true), Outcome::Completed);
    assert_eq!(reg.transfer(&addr("C"), &addr("D"), 1, true), Outcome::Completed);
    assert_eq!(reg.get_metadata(1), Ok(meta("proj-1", "cid-1")));
}

#[test]
fn version_is_the_build_constant() {
    assert_eq!(ProjectNft::version(), String::from("project-nft v1"));
}

#[test]
fn error_codes_are_stable() {
    assert_eq!(Error::AlreadyInitialized.code(), 1);
    assert_eq!(Error::NotInitialized.code(), 2);
    assert_eq!(Error::NotAdmin.code(), 3);
    assert_eq!(Error::TokenNotFound.code(), 4);
    assert_eq!(Error::NotTokenOwner.code(), 5);
}

#[test]
fn address_round_trip() {
    let a = Address::new(String::from("GACCOUNT"));
    let b = a.clone();
    assert_eq!(a, b);
    assert_eq!(a.text, "GACCOUNT");
}
