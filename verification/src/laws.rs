use vstd::prelude::*;

use crate::error::Error;
use crate::event::{ClaimModel, EventModel};

verus! {

use crate::event::public_of;
use crate::registry::{
    claim_count, new_event_model, spec_claim, spec_create_event, spec_init, FactoryModel,
};

/// Allocated ids are strictly increasing integers starting at 1, with no gaps
/// and no repeats: the event at index `i` of a well-formed registry carries
/// id `i + 1`.
pub proof fn lemma_ids_sequential(m: FactoryModel)
    requires
        m.wf(),
    ensures
        forall|i: int| 0 <= i < m.events.len() ==> (#[trigger] m.events[i]).id == i + 1,
        forall|i: int, j: int|
            #![trigger m.events[i].id, m.events[j].id]
            0 <= i < j < m.events.len() ==> m.events[i].id < m.events[j].id,
        m.events.len() > 0 ==> m.events[0].id == 1,
{
}

/// A registration allocates exactly the next id and appends exactly one
/// event, with `minted_count` 0 and no claims for it; the allocator advances
/// by one and the ledger is untouched. On `Overflow` nothing changes.
pub proof fn lemma_registration_allocates_next_id(
    m: FactoryModel,
    creator: Seq<char>,
    name: Seq<char>,
    description: Seq<char>,
    image_url: Seq<char>,
    max_supply: u32,
    secret: Seq<char>,
)
    requires
        m.wf(),
    ensures
        ({
            let (m2, r) = spec_create_event(
                m,
                creator,
                name,
                description,
                image_url,
                max_supply,
                secret,
            );
            match r {
                Ok(id) => {
                    &&& id == spec_init(m).events.len() + 1
                    &&& m2.events == spec_init(m).events.push(
                        new_event_model(
                            id,
                            creator,
                            name,
                            description,
                            image_url,
                            max_supply,
                            secret,
                        ),
                    )
                    &&& m2.next_id == id + 1
                    &&& m2.claims == spec_init(m).claims
                },
                Err(e) => e == Error::Overflow && m2 == m,
            }
        }),
{
}

/// The set of identities holding a successful claim on `event_id`.
pub open spec fn claimers_of(claims: Seq<ClaimModel>, event_id: u32) -> Set<Seq<char>> {
    Set::new(|who: Seq<char>| claims.contains(ClaimModel { event_id, identity: who }))
}

/// On a ledger without duplicate records, the number of records for an event
/// is the number of distinct identities that claimed it.
pub proof fn lemma_claim_count_is_claimer_count(claims: Seq<ClaimModel>, event_id: u32)
    requires
        forall|j: int, k: int| 0 <= j < k < claims.len() ==> claims[j] != claims[k],
    ensures
        claimers_of(claims, event_id).finite(),
        claimers_of(claims, event_id).len() == claim_count(claims, event_id),
    decreases claims.len(),
{
    let s = claimers_of(claims, event_id);
    if claims.len() == 0 {
        assert(s =~= Set::<Seq<char>>::empty());
    } else {
        let prefix = claims.drop_last();
        let last = claims[claims.len() - 1];
        let sp = claimers_of(prefix, event_id);
        lemma_claim_count_is_claimer_count(prefix, event_id);
        assert forall|who: Seq<char>| sp.contains(who) implies s.contains(who) by {
            let cm = ClaimModel { event_id, identity: who };
            let j = choose|j: int| 0 <= j < prefix.len() && prefix[j] == cm;
            assert(claims[j] == cm);
        }
        if last.event_id == event_id {
            let w = last.identity;
            assert(claims[claims.len() - 1] == (ClaimModel { event_id, identity: w }));
            assert forall|who: Seq<char>| s.contains(who) implies sp.insert(w).contains(
                who,
            ) by {
                let cm = ClaimModel { event_id, identity: who };
                let j = choose|j: int| 0 <= j < claims.len() && claims[j] == cm;
                if j < claims.len() - 1 {
                    assert(prefix[j] == cm);
                    assert(sp.contains(who));
                } else {
                    assert(who == w);
                }
            }
            assert(s =~= sp.insert(w));
            if sp.contains(w) {
                let cm = ClaimModel { event_id, identity: w };
                let j = choose|j: int| 0 <= j < prefix.len() && prefix[j] == cm;
                assert(claims[j] == claims[claims.len() - 1]);
                assert(false);
            }
        } else {
            assert forall|who: Seq<char>| s.contains(who) implies sp.contains(who) by {
                let cm = ClaimModel { event_id, identity: who };
                let j = choose|j: int| 0 <= j < claims.len() && claims[j] == cm;
                assert(j < claims.len() - 1);
                assert(prefix[j] == cm);
            }
            assert(s =~= sp);
        }
    }
}

/// At every observable instant, `0 <= minted_count <= max_supply`, and
/// `minted_count` equals the number of identities with a successful claim on
/// the event.
pub proof fn lemma_minted_count_invariant(m: FactoryModel, event_id: u32)
    requires
        m.wf(),
        m.has_event(event_id),
    ensures
        0 <= m.event(event_id).minted_count <= m.event(event_id).max_supply,
        m.event(event_id).minted_count == claim_count(m.claims, event_id),
        claimers_of(m.claims, event_id).finite(),
        m.event(event_id).minted_count == claimers_of(m.claims, event_id).len(),
{
    assert(m.events[event_id - 1].minted_count == claim_count(
        m.claims,
        ((event_id - 1) + 1) as u32,
    ));
    lemma_claim_count_is_claimer_count(m.claims, event_id);
}

/// After a successful claim, a second claim with the same arguments fails and
/// changes nothing — in particular `minted_count` stays as it was. While
/// capacity remains the failure is `AlreadyClaimed`; once the first claim
/// used up the last unit, the capacity check (which runs first) reports
/// `SupplyExhausted` instead.
pub proof fn lemma_second_claim_rejected(
    m: FactoryModel,
    to: Seq<char>,
    event_id: u32,
    secret: Seq<char>,
)
    requires
        m.wf(),
        spec_claim(m, to, event_id, secret).1 is Ok,
    ensures
        ({
            let m1 = spec_claim(m, to, event_id, secret).0;
            let second = spec_claim(m1, to, event_id, secret);
            &&& second.0 == m1
            &&& second.1 is Err
            &&& m1.event(event_id).minted_count < m1.event(event_id).max_supply ==> second.1
                == Err::<(), Error>(Error::AlreadyClaimed)
            &&& m1.event(event_id).minted_count == m1.event(event_id).max_supply ==> second.1
                == Err::<(), Error>(Error::SupplyExhausted)
        }),
{
    let m1 = spec_claim(m, to, event_id, secret).0;
    let c = ClaimModel { event_id, identity: to };
    assert(m1.claims[m.claims.len() as int] == c);
    assert(m1.claimed(event_id, to));
}

/// A claim with a wrong secret fails with `InvalidSecret` and causes no state
/// change; retrying with the correct secret afterwards still succeeds,
/// subject to capacity and to the identity not having claimed before.
pub proof fn lemma_wrong_secret_rejected(
    m: FactoryModel,
    to: Seq<char>,
    event_id: u32,
    provided: Seq<char>,
)
    requires
        m.wf(),
        m.has_event(event_id),
        provided != m.event(event_id).secret,
    ensures
        spec_claim(m, to, event_id, provided).0 == m,
        spec_claim(m, to, event_id, provided).1 == Err::<(), Error>(Error::InvalidSecret),
        (m.event(event_id).minted_count < m.event(event_id).max_supply && !m.claimed(
            event_id,
            to,
        )) ==> spec_claim(m, to, event_id, m.event(event_id).secret).1 is Ok,
{
}

/// Claiming against an event whose `minted_count` equals its `max_supply`
/// fails with `SupplyExhausted` for every identity — including one that never
/// claimed — and changes nothing.
pub proof fn lemma_supply_exhausted(
    m: FactoryModel,
    to: Seq<char>,
    event_id: u32,
    provided: Seq<char>,
)
    requires
        m.wf(),
        m.has_event(event_id),
        provided == m.event(event_id).secret,
        m.event(event_id).minted_count == m.event(event_id).max_supply,
    ensures
        spec_claim(m, to, event_id, provided).0 == m,
        spec_claim(m, to, event_id, provided).1 == Err::<(), Error>(Error::SupplyExhausted),
{
}

/// A claim changes nothing but the one event's count and the ledger's tail:
/// the ledger is append-only (no record is ever removed or rewritten), every
/// event's `minted_count` is monotonically non-decreasing, and every other
/// field of every event is immutable.
pub proof fn lemma_claim_changes_only_the_count(
    m: FactoryModel,
    to: Seq<char>,
    event_id: u32,
    provided: Seq<char>,
)
    requires
        m.wf(),
    ensures
        ({
            let m2 = spec_claim(m, to, event_id, provided).0;
            &&& m.claims.is_prefix_of(m2.claims)
            &&& m2.events.len() == m.events.len()
            &&& forall|id: u32|
                m.has_event(id) ==> m.event(id).minted_count <= (#[trigger] m2.event(
                    id,
                )).minted_count
            &&& forall|id: u32|
                m.has_event(id) ==> (#[trigger] m2.event(id)) == (EventModel {
                    minted_count: m2.event(id).minted_count,
                    ..m.event(id)
                })
        }),
{
    let m2 = spec_claim(m, to, event_id, provided).0;
    assert(m.claims.is_prefix_of(m2.claims)) by {
        if m2.claims != m.claims {
            assert(m.claims =~= m.claims.push(ClaimModel { event_id, identity: to }).subrange(
                0,
                m.claims.len() as int,
            ));
        } else {
            assert(m.claims =~= m2.claims.subrange(0, m.claims.len() as int));
        }
    }
}

/// A registration leaves every existing event and the whole claim ledger
/// exactly as they were: events are immutable after creation and the catalog
/// only grows at the end.
pub proof fn lemma_registration_preserves_existing_state(
    m: FactoryModel,
    creator: Seq<char>,
    name: Seq<char>,
    description: Seq<char>,
    image_url: Seq<char>,
    max_supply: u32,
    secret: Seq<char>,
)
    requires
        m.wf(),
    ensures
        ({
            let m2 = spec_create_event(
                m,
                creator,
                name,
                description,
                image_url,
                max_supply,
                secret,
            ).0;
            &&& m.events.is_prefix_of(m2.events)
            &&& m2.claims == m.claims
            &&& forall|id: u32|
                m.has_event(id) ==> m2.has_event(id) && (#[trigger] m2.event(id)) == m.event(id)
        }),
{
    let m2 = spec_create_event(m, creator, name, description, image_url, max_supply, secret).0;
    assert(m.events.is_prefix_of(m2.events)) by {
        assert(m.events =~= m2.events.subrange(0, m.events.len() as int));
    }
    if !m.initialized {
        assert(m2.claims =~= m.claims);
    }
}

/// The public projection never includes the secret: it is the same whatever
/// the secret field holds (and its type carries no secret field at all).
pub proof fn lemma_public_details_independent_of_secret(e: EventModel, other: Seq<char>)
    ensures
        public_of(e) == public_of(EventModel { secret: other, ..e }),
{
}

/// Bootstrapping is idempotent: running it on an already bootstrapped state —
/// in particular, twice in a row — changes nothing: allocator, event catalog
/// and claim ledger all stay as the first run left them.
pub proof fn lemma_init_idempotent(m: FactoryModel)
    ensures
        spec_init(spec_init(m)) == spec_init(m),
        spec_init(m).initialized,
{
}

/// No identity holds a claim on an event id that was never allocated: a claim
/// status read for an unknown event answers false rather than failing.
pub proof fn lemma_unknown_event_never_claimed(
    m: FactoryModel,
    event_id: u32,
    identity: Seq<char>,
)
    requires
        m.wf(),
        !m.has_event(event_id),
    ensures
        !m.claimed(event_id, identity),
{
    if m.claimed(event_id, identity) {
        let j = choose|j: int|
            0 <= j < m.claims.len() && m.claims[j] == (ClaimModel { event_id, identity });
        assert(1 <= m.claims[j].event_id <= m.events.len());
    }
}

} // verus!
