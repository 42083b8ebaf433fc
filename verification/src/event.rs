use vstd::prelude::*;

verus! {

/// An event in the registry. Identities are carried as plain text; the host
/// around this crate converts its own address type to and from that text.
///
/// `secret` is stored and compared in cleartext by design: a claim requires
/// knowledge of the literal secret text. It is never exposed through a read
/// operation; see [`EventPublicDetails`].
#[derive(Clone)]
pub struct Event {
    pub id: u32,
    pub name: String,
    pub description: String,
    pub image_url: String,
    pub max_supply: u32,
    pub creator: String,
    pub minted_count: u32,
    pub secret: String,
}

/// The mathematical value of an [`Event`]: the same fields with text as
/// character sequences.
pub ghost struct EventModel {
    pub id: u32,
    pub name: Seq<char>,
    pub description: Seq<char>,
    pub image_url: Seq<char>,
    pub max_supply: u32,
    pub creator: Seq<char>,
    pub minted_count: u32,
    pub secret: Seq<char>,
}

impl View for Event {
    type V = EventModel;

    open spec fn view(&self) -> EventModel {
        EventModel {
            id: self.id,
            name: self.name@,
            description: self.description@,
            image_url: self.image_url@,
            max_supply: self.max_supply,
            creator: self.creator@,
            minted_count: self.minted_count,
            secret: self.secret@,
        }
    }
}

/// The projection of an [`Event`] that read operations return: every field
/// except `secret`. The type has no secret field, so no read can leak it.
#[derive(Clone)]
pub struct EventPublicDetails {
    pub id: u32,
    pub name: String,
    pub description: String,
    pub image_url: String,
    pub max_supply: u32,
    pub creator: String,
    pub minted_count: u32,
}

/// The mathematical value of an [`EventPublicDetails`].
pub ghost struct EventPublicModel {
    pub id: u32,
    pub name: Seq<char>,
    pub description: Seq<char>,
    pub image_url: Seq<char>,
    pub max_supply: u32,
    pub creator: Seq<char>,
    pub minted_count: u32,
}

impl View for EventPublicDetails {
    type V = EventPublicModel;

    open spec fn view(&self) -> EventPublicModel {
        EventPublicModel {
            id: self.id,
            name: self.name@,
            description: self.description@,
            image_url: self.image_url@,
            max_supply: self.max_supply,
            creator: self.creator@,
            minted_count: self.minted_count,
        }
    }
}

/// What an event looks like to the public: every field but the secret.
pub open spec fn public_of(e: EventModel) -> EventPublicModel {
    EventPublicModel {
        id: e.id,
        name: e.name,
        description: e.description,
        image_url: e.image_url,
        max_supply: e.max_supply,
        creator: e.creator,
        minted_count: e.minted_count,
    }
}

/// The notification payload handed back on a successful claim, for the host
/// to announce. Emitted only on success, never on a failed check.
#[derive(Clone)]
pub struct ClaimedEvent {
    pub event_id: u32,
    pub claimer: String,
}

/// One recorded claim: the relation `(event_id, identity)`. A record is
/// appended on a successful claim and never mutated or removed; absence of a
/// record means "not claimed".
#[derive(Clone)]
pub struct ClaimRecord {
    pub event_id: u32,
    pub identity: String,
}

/// The mathematical value of a [`ClaimRecord`].
pub ghost struct ClaimModel {
    pub event_id: u32,
    pub identity: Seq<char>,
}

impl View for ClaimRecord {
    type V = ClaimModel;

    open spec fn view(&self) -> ClaimModel {
        ClaimModel { event_id: self.event_id, identity: self.identity@ }
    }
}

} // verus!
