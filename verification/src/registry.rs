use vstd::prelude::*;

use crate::error::Error;
use crate::event::{ClaimModel, ClaimRecord, ClaimedEvent, Event, EventModel, EventPublicDetails};

verus! {

use crate::event::public_of;

/// The mathematical state of the registry: whether it was bootstrapped, the
/// next id the allocator will hand out, the catalog of events (the event with
/// id `i + 1` stands at index `i`), and the set of recorded claims.
pub ghost struct FactoryModel {
    pub initialized: bool,
    pub next_id: u32,
    pub events: Seq<EventModel>,
    pub claims: Seq<ClaimModel>,
}

/// How many recorded claims refer to `event_id`.
pub open spec fn claim_count(claims: Seq<ClaimModel>, event_id: u32) -> nat
    decreases claims.len(),
{
    if claims.len() == 0 {
        0
    } else {
        claim_count(claims.drop_last(), event_id) + if claims.last().event_id == event_id {
            1nat
        } else {
            0nat
        }
    }
}

impl FactoryModel {
    /// The state before any operation ran: nothing allocated, nothing stored.
    pub open spec fn fresh() -> FactoryModel {
        FactoryModel { initialized: false, next_id: 1, events: Seq::empty(), claims: Seq::empty() }
    }

    /// `event_id` was allocated: ids are handed out sequentially from 1, so
    /// exactly the ids `1 ..= events.len()` exist.
    pub open spec fn has_event(self, event_id: u32) -> bool {
        1 <= event_id <= self.events.len()
    }

    /// The event with id `event_id` (meaningful when `has_event` holds).
    pub open spec fn event(self, event_id: u32) -> EventModel {
        self.events[event_id - 1]
    }

    /// `identity` holds a successful claim on `event_id`.
    pub open spec fn claimed(self, event_id: u32, identity: Seq<char>) -> bool {
        self.claims.contains(ClaimModel { event_id, identity })
    }

    /// The state after a successful claim of `event_id` by `identity`: the
    /// claim is recorded and the event's `minted_count` grows by one,
    /// together.
    pub open spec fn record_claim(self, event_id: u32, identity: Seq<char>) -> FactoryModel {
        let e = self.event(event_id);
        FactoryModel {
            events: self.events.update(
                event_id - 1,
                EventModel { minted_count: (e.minted_count + 1) as u32, ..e },
            ),
            claims: self.claims.push(ClaimModel { event_id, identity }),
            ..self
        }
    }

    /// Well-formedness of a registry state. Constructors establish it and
    /// every operation preserves it:
    /// - the allocator always points one past the last allocated id;
    /// - the event at index `i` carries id `i + 1` (ids are sequential from 1,
    ///   with no gaps and no repeats);
    /// - no event's `minted_count` exceeds its `max_supply`;
    /// - every event's `minted_count` equals the number of claims recorded
    ///   for it;
    /// - every claim refers to an allocated event;
    /// - no `(event_id, identity)` pair is recorded twice;
    /// - before bootstrap, nothing is allocated or recorded.
    pub open spec fn wf(self) -> bool {
        &&& self.next_id == self.events.len() + 1
        &&& forall|i: int|
            0 <= i < self.events.len() ==> (#[trigger] self.events[i]).id == i + 1
        &&& forall|i: int|
            0 <= i < self.events.len() ==> (#[trigger] self.events[i]).minted_count
                <= self.events[i].max_supply
        &&& forall|i: int|
            0 <= i < self.events.len() ==> (#[trigger] self.events[i]).minted_count
                == claim_count(self.claims, (i + 1) as u32)
        &&& forall|j: int|
            0 <= j < self.claims.len() ==> 1 <= (#[trigger] self.claims[j]).event_id
                <= self.events.len()
        &&& forall|j: int, k: int|
            0 <= j < k < self.claims.len() ==> self.claims[j] != self.claims[k]
        &&& !self.initialized ==> self.next_id == 1 && self.events.len() == 0
            && self.claims.len() == 0
    }
}

/// What bootstrapping does to a state: if the allocator already exists the
/// state is untouched; otherwise the allocator starts at 1 over empty
/// collections.
pub open spec fn spec_init(m: FactoryModel) -> FactoryModel {
    if m.initialized {
        m
    } else {
        FactoryModel {
            initialized: true,
            next_id: 1,
            events: Seq::empty(),
            claims: Seq::empty(),
        }
    }
}

/// The event a registration constructs: the given fields, `minted_count` 0.
pub open spec fn new_event_model(
    id: u32,
    creator: Seq<char>,
    name: Seq<char>,
    description: Seq<char>,
    image_url: Seq<char>,
    max_supply: u32,
    secret: Seq<char>,
) -> EventModel {
    EventModel {
        id,
        name,
        description,
        image_url,
        max_supply,
        creator,
        minted_count: 0,
        secret,
    }
}

/// What a registration does: bootstrap implicitly if needed, then either fail
/// with `Overflow` and change nothing (the allocator cannot grow past its
/// range), or append the new event under the next id and advance the
/// allocator by exactly one.
pub open spec fn spec_create_event(
    m: FactoryModel,
    creator: Seq<char>,
    name: Seq<char>,
    description: Seq<char>,
    image_url: Seq<char>,
    max_supply: u32,
    secret: Seq<char>,
) -> (FactoryModel, Result<u32, Error>) {
    let m1 = spec_init(m);
    if m1.next_id == u32::MAX {
        (m, Err(Error::Overflow))
    } else {
        let id = m1.next_id;
        (
            FactoryModel {
                next_id: (m1.next_id + 1) as u32,
                events: m1.events.push(
                    new_event_model(id, creator, name, description, image_url, max_supply, secret),
                ),
                ..m1
            },
            Ok(id),
        )
    }
}

/// What a claim does: the four checks in order — the event exists, the secret
/// matches, capacity remains, the identity has not claimed yet — and on the
/// first violated check the matching error with the state untouched; only
/// when all four pass, the claim is recorded and the count incremented,
/// together.
pub open spec fn spec_claim(
    m: FactoryModel,
    to: Seq<char>,
    event_id: u32,
    provided_secret: Seq<char>,
) -> (FactoryModel, Result<(), Error>) {
    if !m.has_event(event_id) {
        (m, Err(Error::NotFound))
    } else if m.event(event_id).secret != provided_secret {
        (m, Err(Error::InvalidSecret))
    } else if m.event(event_id).minted_count >= m.event(event_id).max_supply {
        (m, Err(Error::SupplyExhausted))
    } else if m.claimed(event_id, to) {
        (m, Err(Error::AlreadyClaimed))
    } else {
        (m.record_claim(event_id, to), Ok(()))
    }
}

/// Appending one claim record raises the count for its event by exactly one
/// and leaves the count of every other event unchanged.
pub proof fn lemma_claim_count_push(claims: Seq<ClaimModel>, c: ClaimModel, event_id: u32)
    ensures
        claim_count(claims.push(c), event_id) == claim_count(claims, event_id) + if c.event_id
            == event_id {
            1nat
        } else {
            0nat
        },
{
    assert(claims.push(c).drop_last() =~= claims);
    assert(claims.push(c).last() == c);
}

/// An event that no record refers to has a claim count of zero.
pub proof fn lemma_claim_count_zero(claims: Seq<ClaimModel>, event_id: u32)
    requires
        forall|j: int| 0 <= j < claims.len() ==> (#[trigger] claims[j]).event_id != event_id,
    ensures
        claim_count(claims, event_id) == 0,
    decreases claims.len(),
{
    if claims.len() > 0 {
        assert(claims[claims.len() - 1].event_id != event_id);
        assert(forall|j: int|
            0 <= j < claims.drop_last().len() ==> (#[trigger] claims.drop_last()[j]).event_id
                != event_id);
        lemma_claim_count_zero(claims.drop_last(), event_id);
    }
}

/// The registry: the id allocator, the event catalog, and the claim ledger,
/// updated together so that every operation is atomic — it either completes
/// or leaves the state exactly as it was.
pub struct PoapFactory {
    initialized: bool,
    next_id: u32,
    events: Vec<Event>,
    claims: Vec<ClaimRecord>,
}

impl View for PoapFactory {
    type V = FactoryModel;

    closed spec fn view(&self) -> FactoryModel {
        FactoryModel {
            initialized: self.initialized,
            next_id: self.next_id,
            events: self.events@.map_values(|e: Event| e@),
            claims: self.claims@.map_values(|c: ClaimRecord| c@),
        }
    }
}

impl PoapFactory {
    /// A registry on which no operation has run yet.
    pub fn new() -> (r: PoapFactory)
        ensures
            r@ == FactoryModel::fresh(),
            r@.wf(),
    {
        let r = PoapFactory {
            initialized: false,
            next_id: 1,
            events: Vec::new(),
            claims: Vec::new(),
        };
        proof {
            assert(r@.events =~= Seq::<EventModel>::empty());
            assert(r@.claims =~= Seq::<ClaimModel>::empty());
        }
        r
    }

    /// Bootstrap the registry: a no-op if the allocator already exists,
    /// otherwise start the allocator at 1 over empty collections. Idempotent;
    /// also run implicitly by the first registration.
    pub fn init(&mut self)
        ensures
            final(self)@ == spec_init(old(self)@),
            old(self)@.wf() ==> final(self)@.wf(),
    {
        if !self.initialized {
            self.initialized = true;
            self.next_id = 1;
            self.events = Vec::new();
            self.claims = Vec::new();
            proof {
                assert(self@.events =~= Seq::<EventModel>::empty());
                assert(self@.claims =~= Seq::<ClaimModel>::empty());
            }
        }
    }

    /// Register a new event. The caller must already be authenticated as
    /// `creator` by the host. Bootstraps implicitly if the registry never
    /// was; allocates the next id, stores the event with `minted_count` 0 and
    /// no claims, and advances the allocator by exactly one — or fails with
    /// `Overflow` and changes nothing when the allocator has reached the top
    /// of its range.
    pub fn create_event(
        &mut self,
        creator: String,
        name: String,
        description: String,
        image_url: String,
        max_supply: u32,
        secret: String,
    ) -> (r: Result<u32, Error>)
        requires
            old(self)@.wf(),
        ensures
            final(self)@.wf(),
            ((final(self)@, r) == spec_create_event(
                old(self)@,
                creator@,
                name@,
                description@,
                image_url@,
                max_supply,
                secret@,
            )),
    {
        self.init();
        if self.next_id == u32::MAX {
            return Err(Error::Overflow);
        }
        let event_id = self.next_id;
        let evt = Event {
            id: event_id,
            name,
            description,
            image_url,
            max_supply,
            creator,
            minted_count: 0,
            secret,
        };
        let ghost target = spec_create_event(
            old(self)@,
            evt.creator@,
            evt.name@,
            evt.description@,
            evt.image_url@,
            max_supply,
            evt.secret@,
        ).0;
        self.events.push(evt);
        self.next_id = self.next_id + 1;
        proof {
            assert(self@.events =~= target.events);
            assert(self@.claims =~= target.claims);
            assert forall|j: int| 0 <= j < self@.claims.len() implies (
            #[trigger] self@.claims[j]).event_id != event_id by {
                assert(self@.claims[j].event_id <= self@.events.len() - 1);
            }
            lemma_claim_count_zero(self@.claims, event_id);
        }
        Ok(event_id)
    }

    /// Whether `identity` holds a successful claim on `event_id`. A pure
    /// read: never fails, and an unknown event id simply answers false.
    pub fn has_claimed(&self, event_id: u32, addr: String) -> (r: bool)
        ensures
            r == self@.claimed(event_id, addr@),
    {
        self.contains_claim(event_id, &addr)
    }

    /// Walk the ledger for a record of `(event_id, identity)`.
    fn contains_claim(&self, event_id: u32, identity: &String) -> (r: bool)
        ensures
            r == self@.claimed(event_id, identity@),
    {
        let n = self.claims.len();
        let mut j: usize = 0;
        while j < n
            invariant
                n == self.claims.len(),
                0 <= j <= n,
                forall|k: int|
                    0 <= k < j ==> !((#[trigger] self@.claims[k]).event_id == event_id
                        && self@.claims[k].identity == identity@),
            decreases n - j,
        {
            if self.claims[j].event_id == event_id && self.claims[j].identity == *identity {
                proof {
                    assert(self@.claims[j as int] == (ClaimModel {
                        event_id,
                        identity: identity@,
                    }));
                }
                return true;
            }
            j = j + 1;
        }
        proof {
            assert forall|k: int| 0 <= k < self@.claims.len() implies #[trigger] self@.claims[k]
                != (ClaimModel { event_id, identity: identity@ }) by {
                assert(!(self@.claims[k].event_id == event_id && self@.claims[k].identity
                    == identity@));
            }
        }
        false
    }

    /// The public projection of the event with id `event_id`: every field but
    /// the secret. Fails with `NotFound`, and only with it, exactly when the
    /// id was never allocated. A pure read.
    pub fn get_event(&self, event_id: u32) -> (r: Result<EventPublicDetails, Error>)
        ensures
            (match r {
                Ok(d) => self@.has_event(event_id) && d@ == public_of(self@.event(event_id)),
                Err(e) => e == Error::NotFound && !self@.has_event(event_id),
            }),
    {
        if event_id >= 1 && (event_id as usize) <= self.events.len() {
            let e = &self.events[(event_id - 1) as usize];
            Ok(EventPublicDetails {
                id: e.id,
                name: e.name.clone(),
                description: e.description.clone(),
                image_url: e.image_url.clone(),
                max_supply: e.max_supply,
                creator: e.creator.clone(),
                minted_count: e.minted_count,
            })
        } else {
            Err(Error::NotFound)
        }
    }

    /// Claim one unit of `event_id` for the identity `to`, which the host
    /// must already have authenticated. The four checks run in order — the
    /// event exists (`NotFound`), the provided secret equals the stored one
    /// (`InvalidSecret`), capacity remains (`SupplyExhausted`), the identity
    /// has not claimed this event yet (`AlreadyClaimed`) — and the first
    /// violated one fails the call with the registry untouched. When all four
    /// pass, the claim record and the event's `minted_count` are updated
    /// together, and the returned payload names the event and the claimer for
    /// the host to announce; it is produced only on success.
    pub fn claim_poap(&mut self, to: String, event_id: u32, provided_secret: String) -> (r:
        Result<ClaimedEvent, Error>)
        requires
            old(self)@.wf(),
        ensures
            final(self)@.wf(),
            final(self)@ == spec_claim(old(self)@, to@, event_id, provided_secret@).0,
            (match spec_claim(old(self)@, to@, event_id, provided_secret@).1 {
                Ok(_) => r is Ok && r->Ok_0.event_id == event_id && r->Ok_0.claimer@ == to@,
                Err(e) => r is Err && r->Err_0 == e,
            }),
    {
        if !(event_id >= 1 && (event_id as usize) <= self.events.len()) {
            return Err(Error::NotFound);
        }
        let idx: usize = (event_id - 1) as usize;
        if !(self.events[idx].secret == provided_secret) {
            return Err(Error::InvalidSecret);
        }
        if self.events[idx].minted_count >= self.events[idx].max_supply {
            return Err(Error::SupplyExhausted);
        }
        if self.contains_claim(event_id, &to) {
            return Err(Error::AlreadyClaimed);
        }
        let ghost target = spec_claim(old(self)@, to@, event_id, provided_secret@).0;
        let new_count = self.events[idx].minted_count + 1;
        let claimer = to.clone();
        self.claims.push(ClaimRecord { event_id, identity: to });
        self.events[idx].minted_count = new_count;
        proof {
            let old_m = old(self)@;
            let c = ClaimModel { event_id, identity: self@.claims.last().identity };
            assert(self@.events =~= target.events);
            assert(self@.claims =~= target.claims);
            assert(self@.claims =~= old_m.claims.push(c));
            assert forall|i: int|
                0 <= i < self@.events.len() implies (#[trigger] self@.events[i]).minted_count
                == claim_count(self@.claims, (i + 1) as u32) by {
                lemma_claim_count_push(old_m.claims, c, (i + 1) as u32);
            }
            assert forall|jj: int, kk: int|
                0 <= jj < kk < self@.claims.len() implies self@.claims[jj]
                != self@.claims[kk] by {
                if kk == self@.claims.len() - 1 {
                    assert(!old_m.claims.contains(c));
                    assert(old_m.claims[jj] != c);
                }
            }
        }
        Ok(ClaimedEvent { event_id, claimer })
    }

    /// Whether the registry was bootstrapped (the allocator exists). For the
    /// store around this crate to persist the state.
    pub fn is_initialized(&self) -> (b: bool)
        ensures
            b == self@.initialized,
    {
        self.initialized
    }

    /// The id the allocator will hand out next. For the store around this
    /// crate to persist the state.
    pub fn next_id(&self) -> (n: u32)
        ensures
            n == self@.next_id,
    {
        self.next_id
    }

    /// The event catalog, in id order. For the store around this crate to
    /// persist the state.
    pub fn events(&self) -> (v: &Vec<Event>)
        ensures
            v@.map_values(|e: Event| e@) == self@.events,
    {
        &self.events
    }

    /// The claim ledger, in order of recording. For the store around this
    /// crate to persist the state.
    pub fn claims(&self) -> (v: &Vec<ClaimRecord>)
        ensures
            v@.map_values(|c: ClaimRecord| c@) == self@.claims,
    {
        &self.claims
    }

    /// Rebuild a registry from state the surrounding store handed back.
    /// Nothing read from the store is trusted: every invariant of
    /// [`FactoryModel::wf`] is checked on the way in, and the registry comes
    /// back holding exactly the given state when they all hold — `None`
    /// exactly when they do not.
    #[verifier::loop_isolation(false)]
    pub fn from_state(
        initialized: bool,
        next_id: u32,
        events: Vec<Event>,
        claims: Vec<ClaimRecord>,
    ) -> (r: Option<PoapFactory>)
        ensures
            ({
                let m = FactoryModel {
                    initialized,
                    next_id,
                    events: events@.map_values(|e: Event| e@),
                    claims: claims@.map_values(|c: ClaimRecord| c@),
                };
                match r {
                    Some(f) => m.wf() && f@ == m,
                    None => !m.wf(),
                }
            }),
    {
        let ghost m = FactoryModel {
            initialized,
            next_id,
            events: events@.map_values(|e: Event| e@),
            claims: claims@.map_values(|c: ClaimRecord| c@),
        };
        let n_events = events.len();
        let n_claims = claims.len();
        if n_events >= u32::MAX as usize {
            return None;
        }
        if (next_id as usize) != n_events + 1 {
            return None;
        }
        if !initialized && (n_events > 0 || n_claims > 0) {
            return None;
        }
        let mut i: usize = 0;
        while i < n_events
            invariant
                n_events == events.len(),
                n_events < u32::MAX as usize,
                m.events == events@.map_values(|e: Event| e@),
                0 <= i <= n_events,
                forall|k: int| 0 <= k < i ==> (#[trigger] m.events[k]).id == k + 1,
                forall|k: int|
                    0 <= k < i ==> (#[trigger] m.events[k]).minted_count
                        <= m.events[k].max_supply,
            decreases n_events - i,
        {
            if events[i].id != (i as u32) + 1 {
                proof {
                    assert(m.events[i as int].id != i + 1);
                }
                return None;
            }
            if events[i].minted_count > events[i].max_supply {
                proof {
                    assert(m.events[i as int].minted_count > m.events[i as int].max_supply);
                }
                return None;
            }
            proof {
                assert(m.events[i as int] == events@[i as int]@);
            }
            i = i + 1;
        }
        let mut j: usize = 0;
        while j < n_claims
            invariant
                n_claims == claims.len(),
                n_events == events.len(),
                m.events == events@.map_values(|e: Event| e@),
                m.claims == claims@.map_values(|c: ClaimRecord| c@),
                0 <= j <= n_claims,
                forall|k: int|
                    0 <= k < j ==> 1 <= (#[trigger] m.claims[k]).event_id <= n_events,
            decreases n_claims - j,
        {
            if !(claims[j].event_id >= 1 && (claims[j].event_id as usize) <= n_events) {
                proof {
                    assert(m.claims[j as int] == claims@[j as int]@);
                    assert(m.events.len() == n_events);
                    assert(!(1 <= m.claims[j as int].event_id <= m.events.len()));
                }
                return None;
            }
            proof {
                assert(m.claims[j as int] == claims@[j as int]@);
            }
            j = j + 1;
        }
        let mut j: usize = 0;
        while j < n_claims
            invariant
                n_claims == claims.len(),
                m.claims == claims@.map_values(|c: ClaimRecord| c@),
                0 <= j <= n_claims,
                forall|a: int, b: int|
                    0 <= a < j && a < b < n_claims ==> m.claims[a] != m.claims[b],
            decreases n_claims - j,
        {
            let mut k: usize = j + 1;
            while k < n_claims
                invariant
                    n_claims == claims.len(),
                    m.claims == claims@.map_values(|c: ClaimRecord| c@),
                    0 <= j < k <= n_claims,
                    forall|a: int, b: int|
                        0 <= a < j && a < b < n_claims ==> m.claims[a] != m.claims[b],
                    forall|b: int| j < b < k ==> m.claims[j as int] != (#[trigger] m.claims[b]),
                decreases n_claims - k,
            {
                if claims[j].event_id == claims[k].event_id && claims[j].identity
                    == claims[k].identity {
                    proof {
                        assert(m.claims[j as int] == claims@[j as int]@);
                        assert(m.claims[k as int] == claims@[k as int]@);
                        assert(m.claims[j as int] == m.claims[k as int]);
                    }
                    return None;
                }
                proof {
                    assert(m.claims[j as int] == claims@[j as int]@);
                    assert(m.claims[k as int] == claims@[k as int]@);
                }
                k = k + 1;
            }
            j = j + 1;
        }
        let mut i: usize = 0;
        while i < n_events
            invariant
                n_events == events.len(),
                n_events < u32::MAX as usize,
                n_claims == claims.len(),
                m.events == events@.map_values(|e: Event| e@),
                m.claims == claims@.map_values(|c: ClaimRecord| c@),
                0 <= i <= n_events,
                forall|k: int|
                    0 <= k < i ==> (#[trigger] m.events[k]).minted_count == claim_count(
                        m.claims,
                        (k + 1) as u32,
                    ),
            decreases n_events - i,
        {
            let id: u32 = (i as u32) + 1;
            let mut cnt: usize = 0;
            let mut j: usize = 0;
            while j < n_claims
                invariant
                    n_claims == claims.len(),
                    m.claims == claims@.map_values(|c: ClaimRecord| c@),
                    0 <= j <= n_claims,
                    cnt <= j,
                    cnt == claim_count(m.claims.take(j as int), id),
                decreases n_claims - j,
            {
                proof {
                    assert(m.claims[j as int] == claims@[j as int]@);
                    assert(m.claims.take(j as int + 1) =~= m.claims.take(j as int).push(
                        m.claims[j as int],
                    ));
                    lemma_claim_count_push(m.claims.take(j as int), m.claims[j as int], id);
                }
                if claims[j].event_id == id {
                    cnt = cnt + 1;
                }
                j = j + 1;
            }
            proof {
                assert(m.claims.take(n_claims as int) =~= m.claims);
            }
            if !((events[i].minted_count as usize) == cnt) {
                proof {
                    assert(m.events[i as int] == events@[i as int]@);
                    assert(m.events[i as int].minted_count != claim_count(
                        m.claims,
                        (i + 1) as u32,
                    ));
                }
                return None;
            }
            proof {
                assert(m.events[i as int] == events@[i as int]@);
            }
            i = i + 1;
        }
        let f = PoapFactory { initialized, next_id, events, claims };
        proof {
            assert(f@ == m);
            assert(m.wf());
        }
        Some(f)
    }
}

} // verus!
