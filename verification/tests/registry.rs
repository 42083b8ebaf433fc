use poap_contract::error::Error;
use poap_contract::event::{ClaimRecord, Event};
use poap_contract::registry::PoapFactory;

fn s(x: &str) -> String {
    x.to_string()
}

fn register(f: &mut PoapFactory, max_supply: u32, secret: &str) -> u32 {
    f.create_event(s("alice"), s("party"), s("a party"), s("http://img"), max_supply, s(secret))
        .expect("registration should succeed")
}

#[test]
fn bootstrap_twice_is_a_no_op() {
    let mut f = PoapFactory::new();
    f.init();
    f.init();
    assert!(matches!(f.get_event(1), Err(Error::NotFound)));
    assert!(!f.has_claimed(1, s("alice")));
    let id = register(&mut f, 3, "abc");
    assert_eq!(id, 1);
}

#[test]
fn register_without_bootstrap_bootstraps_implicitly() {
    let mut f = PoapFactory::new();
    let id = register(&mut f, 3, "abc");
    assert_eq!(id, 1);
    assert!(f.get_event(1).is_ok());
}

#[test]
fn ids_are_strictly_increasing_from_one() {
    let mut f = PoapFactory::new();
    assert_eq!(register(&mut f, 1, "a"), 1);
    assert_eq!(register(&mut f, 2, "b"), 2);
    assert_eq!(register(&mut f, 3, "c"), 3);
    assert_eq!(f.get_event(1).unwrap().id, 1);
    assert_eq!(f.get_event(2).unwrap().id, 2);
    assert_eq!(f.get_event(3).unwrap().id, 3);
}

#[test]
fn minted_count_tracks_successful_claims() {
    let mut f = PoapFactory::new();
    let id = register(&mut f, 3, "abc");
    assert_eq!(f.get_event(id).unwrap().minted_count, 0);
    assert!(f.claim_poap(s("bob"), id, s("abc")).is_ok());
    assert_eq!(f.get_event(id).unwrap().minted_count, 1);
    assert!(f.claim_poap(s("carol"), id, s("abc")).is_ok());
    let details = f.get_event(id).unwrap();
    assert_eq!(details.minted_count, 2);
    assert!(details.minted_count <= details.max_supply);
}

#[test]
fn second_claim_by_same_identity_is_rejected() {
    let mut f = PoapFactory::new();
    let id = register(&mut f, 5, "abc");
    assert!(f.claim_poap(s("bob"), id, s("abc")).is_ok());
    assert!(matches!(f.claim_poap(s("bob"), id, s("abc")), Err(Error::AlreadyClaimed)));
    assert_eq!(f.get_event(id).unwrap().minted_count, 1);
    assert!(f.has_claimed(id, s("bob")));
}

#[test]
fn wrong_secret_is_rejected_without_state_change() {
    let mut f = PoapFactory::new();
    let id = register(&mut f, 5, "abc");
    assert!(matches!(f.claim_poap(s("bob"), id, s("xyz")), Err(Error::InvalidSecret)));
    assert_eq!(f.get_event(id).unwrap().minted_count, 0);
    assert!(!f.has_claimed(id, s("bob")));
    // A retry with the correct secret afterwards still succeeds.
    assert!(f.claim_poap(s("bob"), id, s("abc")).is_ok());
    assert_eq!(f.get_event(id).unwrap().minted_count, 1);
}

#[test]
fn wrong_secret_wins_over_already_claimed() {
    let mut f = PoapFactory::new();
    let id = register(&mut f, 5, "abc");
    assert!(f.claim_poap(s("bob"), id, s("abc")).is_ok());
    assert!(matches!(f.claim_poap(s("bob"), id, s("xyz")), Err(Error::InvalidSecret)));
    assert_eq!(f.get_event(id).unwrap().minted_count, 1);
}

#[test]
fn exhausted_supply_rejects_every_identity() {
    let mut f = PoapFactory::new();
    let id = register(&mut f, 1, "abc");
    assert!(f.claim_poap(s("bob"), id, s("abc")).is_ok());
    // An identity that never claimed is rejected too.
    assert!(matches!(f.claim_poap(s("carol"), id, s("abc")), Err(Error::SupplyExhausted)));
    assert!(matches!(f.claim_poap(s("dave"), id, s("abc")), Err(Error::SupplyExhausted)));
    assert_eq!(f.get_event(id).unwrap().minted_count, 1);
}

#[test]
fn zero_supply_is_exhausted_from_the_start() {
    let mut f = PoapFactory::new();
    let id = register(&mut f, 0, "abc");
    assert!(matches!(f.claim_poap(s("bob"), id, s("abc")), Err(Error::SupplyExhausted)));
    assert_eq!(f.get_event(id).unwrap().minted_count, 0);
}

#[test]
fn scenario_single_unit_event() {
    let mut f = PoapFactory::new();
    let id = register(&mut f, 1, "abc");
    // Identity A claims with the right secret: success, count becomes 1.
    assert!(f.claim_poap(s("a"), id, s("abc")).is_ok());
    assert_eq!(f.get_event(id).unwrap().minted_count, 1);
    // Identity B is turned away: supply is exhausted.
    assert!(matches!(f.claim_poap(s("b"), id, s("abc")), Err(Error::SupplyExhausted)));
    // Identity A again: the capacity check runs before the dedup check, so
    // with the last unit gone this also reports the exhausted supply.
    assert!(matches!(f.claim_poap(s("a"), id, s("abc")), Err(Error::SupplyExhausted)));
    assert_eq!(f.get_event(id).unwrap().minted_count, 1);
}

#[test]
fn already_claimed_reported_while_capacity_remains() {
    let mut f = PoapFactory::new();
    let id = register(&mut f, 2, "abc");
    assert!(f.claim_poap(s("a"), id, s("abc")).is_ok());
    assert!(matches!(f.claim_poap(s("a"), id, s("abc")), Err(Error::AlreadyClaimed)));
    assert_eq!(f.get_event(id).unwrap().minted_count, 1);
}

#[test]
fn scenario_wrong_secret_against_stored_secret() {
    let mut f = PoapFactory::new();
    let id = register(&mut f, 5, "abc");
    assert!(matches!(f.claim_poap(s("bob"), id, s("xyz")), Err(Error::InvalidSecret)));
    assert_eq!(f.get_event(id).unwrap().minted_count, 0);
}

#[test]
fn public_details_carry_every_field_but_the_secret() {
    let mut f = PoapFactory::new();
    let id = f
        .create_event(s("alice"), s("party"), s("a party"), s("http://img"), 7, s("abc"))
        .unwrap();
    let details = f.get_event(id).unwrap();
    assert_eq!(details.id, id);
    assert_eq!(details.name, s("party"));
    assert_eq!(details.description, s("a party"));
    assert_eq!(details.image_url, s("http://img"));
    assert_eq!(details.max_supply, 7);
    assert_eq!(details.creator, s("alice"));
    assert_eq!(details.minted_count, 0);
    // `EventPublicDetails` has no secret field, so no read can expose it.
}

#[test]
fn unknown_event_id_is_not_found() {
    let mut f = PoapFactory::new();
    assert!(matches!(f.get_event(1), Err(Error::NotFound)));
    register(&mut f, 1, "abc");
    assert!(matches!(f.get_event(0), Err(Error::NotFound)));
    assert!(matches!(f.get_event(2), Err(Error::NotFound)));
}

#[test]
fn claim_on_unknown_event_is_not_found() {
    let mut f = PoapFactory::new();
    assert!(matches!(f.claim_poap(s("bob"), 1, s("abc")), Err(Error::NotFound)));
    register(&mut f, 1, "abc");
    assert!(matches!(f.claim_poap(s("bob"), 9, s("abc")), Err(Error::NotFound)));
}

#[test]
fn has_claimed_on_unknown_event_returns_false() {
    let f = PoapFactory::new();
    assert!(!f.has_claimed(42, s("anyone")));
    let mut f = PoapFactory::new();
    f.init();
    register(&mut f, 1, "abc");
    assert!(!f.has_claimed(42, s("anyone")));
}

#[test]
fn claims_on_different_events_are_independent() {
    let mut f = PoapFactory::new();
    let one = register(&mut f, 2, "abc");
    let two = register(&mut f, 2, "xyz");
    assert!(f.claim_poap(s("a"), one, s("abc")).is_ok());
    assert!(f.claim_poap(s("a"), two, s("xyz")).is_ok());
    assert!(f.claim_poap(s("b"), one, s("abc")).is_ok());
    assert!(f.has_claimed(one, s("a")));
    assert!(f.has_claimed(two, s("a")));
    assert!(f.has_claimed(one, s("b")));
    assert!(!f.has_claimed(two, s("b")));
    assert_eq!(f.get_event(one).unwrap().minted_count, 2);
    assert_eq!(f.get_event(two).unwrap().minted_count, 1);
}

#[test]
fn claim_hands_back_the_notification_payload() {
    let mut f = PoapFactory::new();
    let id = register(&mut f, 1, "abc");
    let claimed = f.claim_poap(s("bob"), id, s("abc")).unwrap();
    assert_eq!(claimed.event_id, id);
    assert_eq!(claimed.claimer, s("bob"));
}

fn event(id: u32, max_supply: u32, minted_count: u32, secret: &str) -> Event {
    Event {
        id,
        name: s("party"),
        description: s("a party"),
        image_url: s("http://img"),
        max_supply,
        creator: s("alice"),
        minted_count,
        secret: s(secret),
    }
}

fn claim(event_id: u32, identity: &str) -> ClaimRecord {
    ClaimRecord { event_id, identity: s(identity) }
}

#[test]
fn state_round_trips_through_the_store_boundary() {
    let mut f = PoapFactory::new();
    let id = register(&mut f, 2, "abc");
    assert!(f.claim_poap(s("bob"), id, s("abc")).is_ok());
    let restored = PoapFactory::from_state(
        f.is_initialized(),
        f.next_id(),
        f.events().clone(),
        f.claims().clone(),
    )
    .expect("a state produced by the registry is well formed");
    assert!(restored.has_claimed(id, s("bob")));
    assert!(!restored.has_claimed(id, s("carol")));
    assert_eq!(restored.get_event(id).unwrap().minted_count, 1);
    assert_eq!(restored.next_id(), 2);
}

#[test]
fn from_state_accepts_a_fresh_state() {
    let restored = PoapFactory::from_state(false, 1, Vec::new(), Vec::new());
    assert!(restored.is_some());
    let restored = PoapFactory::from_state(true, 1, Vec::new(), Vec::new());
    assert!(restored.is_some());
}

#[test]
fn from_state_rejects_a_wrong_allocator() {
    assert!(PoapFactory::from_state(true, 2, Vec::new(), Vec::new()).is_none());
    assert!(PoapFactory::from_state(true, 1, vec![event(1, 2, 0, "abc")], Vec::new()).is_none());
}

#[test]
fn from_state_rejects_events_before_bootstrap() {
    assert!(PoapFactory::from_state(false, 2, vec![event(1, 2, 0, "abc")], Vec::new()).is_none());
}

#[test]
fn from_state_rejects_out_of_order_ids() {
    assert!(PoapFactory::from_state(true, 2, vec![event(7, 2, 0, "abc")], Vec::new()).is_none());
}

#[test]
fn from_state_rejects_a_count_above_the_supply() {
    let bad = vec![event(1, 1, 2, "abc")];
    let claims = vec![claim(1, "bob"), claim(1, "carol")];
    assert!(PoapFactory::from_state(true, 2, bad, claims).is_none());
}

#[test]
fn from_state_rejects_a_count_that_does_not_match_the_ledger() {
    assert!(PoapFactory::from_state(true, 2, vec![event(1, 2, 1, "abc")], Vec::new()).is_none());
    assert!(
        PoapFactory::from_state(true, 2, vec![event(1, 2, 0, "abc")], vec![claim(1, "bob")])
            .is_none()
    );
}

#[test]
fn from_state_rejects_a_claim_on_an_unknown_event() {
    assert!(
        PoapFactory::from_state(true, 2, vec![event(1, 2, 1, "abc")], vec![claim(9, "bob")])
            .is_none()
    );
}

#[test]
fn from_state_rejects_a_duplicate_claim_record() {
    let claims = vec![claim(1, "bob"), claim(1, "bob")];
    assert!(PoapFactory::from_state(true, 2, vec![event(1, 5, 2, "abc")], claims).is_none());
}

#[test]
fn from_state_accepts_a_consistent_state() {
    let events = vec![event(1, 5, 2, "abc"), event(2, 1, 0, "xyz")];
    let claims = vec![claim(1, "bob"), claim(1, "carol")];
    let mut f = PoapFactory::from_state(true, 3, events, claims).expect("state is well formed");
    assert!(f.has_claimed(1, s("bob")));
    assert!(f.has_claimed(1, s("carol")));
    assert!(!f.has_claimed(2, s("bob")));
    assert_eq!(f.get_event(1).unwrap().minted_count, 2);
    assert!(matches!(f.claim_poap(s("dave"), 1, s("abc")), Ok(_)));
    assert_eq!(f.get_event(1).unwrap().minted_count, 3);
}

#[test]
fn empty_text_fields_are_accepted() {
    let mut f = PoapFactory::new();
    let id = f.create_event(s(""), s(""), s(""), s(""), 1, s("")).unwrap();
    assert_eq!(id, 1);
    assert!(matches!(f.claim_poap(s("bob"), id, s("x")), Err(Error::InvalidSecret)));
    assert!(f.claim_poap(s("bob"), id, s("")).is_ok());
    assert!(f.has_claimed(id, s("bob")));
}
