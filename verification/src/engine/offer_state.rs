//! The builds of offers that wait for their second call.
//!
//! Making and taking an offer each take two calls with a signature in between. What the first
//! call leaves for the second waits here under an id. A build that is not picked up in time is
//! dropped, so that forgotten builds do not pile up.

use vstd::prelude::*;
use vstd::string::*;

use super::offer_driver::{AskedSide, MakerSide};
use crate::text::{decimal, decimal_text, joined, lemma_decimal_injective};
use crate::textmap::TextMap;
use crate::types::offer::OfferBuildId;

verus! {

/// How long a build waits, in nanoseconds: five minutes.
pub const PENDING_TTL: u64 = 300_000_000_000;

/// What a make leaves for its assembly.
#[derive(Debug)]
pub struct MakeIntermediate {
    /// The maker's side.
    pub side: MakerSide,
    /// What the maker asks for.
    pub asked: AskedSide,
    /// The fee.
    pub fee: u64,
}

/// What a take leaves for its finalization.
#[derive(Debug)]
pub struct TakeIntermediate {
    /// The offer text.
    pub offer: String,
}

/// A waiting build of either flow.
#[derive(Debug)]
pub enum PendingKind {
    /// A make.
    Make(MakeIntermediate),
    /// A take.
    Take(TakeIntermediate),
}

/// A waiting build and when it was parked.
#[derive(Debug)]
pub struct PendingOffer {
    /// The build.
    pub kind: PendingKind,
    /// When it was parked, in nanoseconds of a monotonic clock.
    pub created_at: u64,
}

/// Whether a build parked at `created_at` still waits at `now`.
pub open spec fn still_waits(created_at: u64, now: u64) -> bool {
    now - created_at < PENDING_TTL
}

/// The builds that still wait at `now`.
pub open spec fn waiting(builds: Map<Seq<char>, PendingOffer>, now: u64) -> Map<
    Seq<char>,
    PendingOffer,
> {
    builds.restrict(
        Set::new(
            |id: Seq<char>| builds.contains_key(id) && still_waits(builds[id].created_at, now),
        ),
    )
}

/// The id of the build with a number.
pub open spec fn build_id_text(number: nat) -> Seq<char> {
    "offer-build-"@ + decimal(number)
}

/// The waiting builds, by id. A build is single-use: the call that picks it up removes it.
#[derive(Debug)]
pub struct PendingOffers {
    entries: TextMap<PendingOffer>,
    counter: u64,
}

impl View for PendingOffers {
    type V = Map<Seq<char>, PendingOffer>;

    closed spec fn view(&self) -> Map<Seq<char>, PendingOffer> {
        self.entries@
    }
}

impl Default for PendingOffers {
    /// No builds.
    fn default() -> (pending: Self)
        ensures
            pending.wf(),
            pending@ == Map::<Seq<char>, PendingOffer>::empty(),
            pending.next_number() == 0,
    {
        PendingOffers::new()
    }
}

impl PendingOffers {
    /// No id occurs twice.
    pub closed spec fn wf(self) -> bool {
        self.entries.wf()
    }

    /// The number of the next build.
    pub closed spec fn next_number(self) -> u64 {
        self.counter
    }

    /// No builds.
    pub fn new() -> (pending: Self)
        ensures
            pending.wf(),
            pending@ == Map::<Seq<char>, PendingOffer>::empty(),
            pending.next_number() == 0,
    {
        PendingOffers { entries: TextMap::new(), counter: 0 }
    }

    /// Drops every build that waited too long.
    fn sweep_expired(&mut self, now: u64)
        requires
            old(self).wf(),
        ensures
            final(self).wf(),
            final(self)@ == waiting(old(self)@, now),
            final(self).next_number() == old(self).next_number(),
    {
        let ghost all = self@;
        let mut kept: TextMap<PendingOffer> = TextMap::new();
        assert(waiting(all, now) =~= waiting(self.entries@, now).union_prefer_right(kept@));
        loop
            invariant
                self.entries.wf(),
                kept.wf(),
                self.counter == old(self).counter,
                waiting(all, now) == waiting(self.entries@, now).union_prefer_right(kept@),
                forall|id: Seq<char>| #[trigger]
                    kept@.contains_key(id) ==> !self.entries@.contains_key(id),
            ensures
                self.entries.wf(),
                kept.wf(),
                self.counter == old(self).counter,
                kept@ == waiting(all, now),
            decreases self.entries.entries@.len(),
        {
            let ghost rest = self.entries@;
            let ghost kept_before = kept@;
            match self.entries.take_last() {
                None => {
                    assert(waiting(self.entries@, now).union_prefer_right(kept@) =~= kept@);
                    break;
                },
                Some((id, build)) => {
                    let age: u64 = if now < build.created_at {
                        0
                    } else {
                        now - build.created_at
                    };
                    if age < PENDING_TTL {
                        kept.add_new(id, build);
                    }
                    assert(waiting(rest, now).union_prefer_right(kept_before) =~= waiting(
                        self.entries@,
                        now,
                    ).union_prefer_right(kept@));
                },
            }
        }
        self.entries = kept;
    }

    /// Parks a build under a fresh id.
    fn insert(&mut self, kind: PendingKind, now: u64) -> (id: OfferBuildId)
        requires
            old(self).wf(),
        ensures
            final(self).wf(),
            id@ == build_id_text(old(self).next_number() as nat),
            final(self).next_number() == if old(self).next_number() == u64::MAX {
                0
            } else {
                old(self).next_number() + 1
            },
            final(self)@ == waiting(old(self)@, now).insert(
                id@,
                PendingOffer { kind, created_at: now },
            ),
    {
        let id = OfferBuildId(joined("offer-build-", decimal_text(self.counter).as_str()));
        self.sweep_expired(now);
        self.counter = if self.counter == u64::MAX {
            0
        } else {
            self.counter + 1
        };
        self.entries.insert(id.0.clone(), PendingOffer { kind, created_at: now });
        id
    }

    /// Parks a make until its assembly.
    pub fn insert_make(&mut self, make: MakeIntermediate, now: u64) -> (id: OfferBuildId)
        requires
            old(self).wf(),
        ensures
            final(self).wf(),
            id@ == build_id_text(old(self).next_number() as nat),
            old(self).next_number() < u64::MAX ==> final(self).next_number()
                == old(self).next_number() + 1,
            final(self)@ == waiting(old(self)@, now).insert(
                id@,
                PendingOffer { kind: PendingKind::Make(make), created_at: now },
            ),
    {
        self.insert(PendingKind::Make(make), now)
    }

    /// Parks a take until its finalization.
    pub fn insert_take(&mut self, take: TakeIntermediate, now: u64) -> (id: OfferBuildId)
        requires
            old(self).wf(),
        ensures
            final(self).wf(),
            id@ == build_id_text(old(self).next_number() as nat),
            old(self).next_number() < u64::MAX ==> final(self).next_number()
                == old(self).next_number() + 1,
            final(self)@ == waiting(old(self)@, now).insert(
                id@,
                PendingOffer { kind: PendingKind::Take(take), created_at: now },
            ),
    {
        self.insert(PendingKind::Take(take), now)
    }

    /// Takes a build out, whichever flow it is of.
    fn remove(&mut self, id: &OfferBuildId, now: u64) -> (build: Option<PendingOffer>)
        requires
            old(self).wf(),
        ensures
            final(self).wf(),
            final(self).next_number() == old(self).next_number(),
            final(self)@ == waiting(old(self)@, now).remove(id@),
            match build {
                Some(b) => waiting(old(self)@, now).contains_key(id@) && waiting(
                    old(self)@,
                    now,
                )[id@] == b,
                None => !waiting(old(self)@, now).contains_key(id@),
            },
    {
        self.sweep_expired(now);
        self.entries.remove(&id.0)
    }

    /// Picks up a make. An id that is unknown, expired or of a take gives nothing; the build is
    /// gone either way.
    pub fn take_make(&mut self, id: &OfferBuildId, now: u64) -> (make: Option<MakeIntermediate>)
        requires
            old(self).wf(),
        ensures
            final(self).wf(),
            final(self).next_number() == old(self).next_number(),
            final(self)@ == waiting(old(self)@, now).remove(id@),
            match make {
                Some(m) => waiting(old(self)@, now).contains_key(id@) && waiting(
                    old(self)@,
                    now,
                )[id@].kind == PendingKind::Make(m),
                None => !(waiting(old(self)@, now).contains_key(id@) && waiting(
                    old(self)@,
                    now,
                )[id@].kind is Make),
            },
    {
        match self.remove(id, now) {
            Some(build) => match build.kind {
                PendingKind::Make(make) => Some(make),
                PendingKind::Take(_) => None,
            },
            None => None,
        }
    }

    /// Picks up a take. An id that is unknown, expired or of a make gives nothing; the build is
    /// gone either way.
    pub fn take_take(&mut self, id: &OfferBuildId, now: u64) -> (take: Option<TakeIntermediate>)
        requires
            old(self).wf(),
        ensures
            final(self).wf(),
            final(self).next_number() == old(self).next_number(),
            final(self)@ == waiting(old(self)@, now).remove(id@),
            match take {
                Some(t) => waiting(old(self)@, now).contains_key(id@) && waiting(
                    old(self)@,
                    now,
                )[id@].kind == PendingKind::Take(t),
                None => !(waiting(old(self)@, now).contains_key(id@) && waiting(
                    old(self)@,
                    now,
                )[id@].kind is Take),
            },
    {
        match self.remove(id, now) {
            Some(build) => match build.kind {
                PendingKind::Take(take) => Some(take),
                PendingKind::Make(_) => None,
            },
            None => None,
        }
    }

    /// The number of builds that still wait.
    pub fn len(&mut self, now: u64) -> (n: usize)
        requires
            old(self).wf(),
        ensures
            final(self).wf(),
            final(self).next_number() == old(self).next_number(),
            final(self)@ == waiting(old(self)@, now),
            n == waiting(old(self)@, now).dom().len(),
    {
        self.sweep_expired(now);
        self.entries.len()
    }

    /// Whether no build waits.
    pub fn is_empty(&mut self, now: u64) -> (empty: bool)
        requires
            old(self).wf(),
        ensures
            final(self).wf(),
            final(self).next_number() == old(self).next_number(),
            final(self)@ == waiting(old(self)@, now),
            empty == (waiting(old(self)@, now).dom().len() == 0),
    {
        self.len(now) == 0
    }
}

/// Builds parked one after the other have different ids.
pub proof fn build_ids_differ(a: nat, b: nat)
    requires
        a != b,
    ensures
        build_id_text(a) != build_id_text(b),
{
    let prefix = "offer-build-"@;
    if build_id_text(a) == build_id_text(b) {
        assert(decimal(a) =~= build_id_text(a).skip(prefix.len() as int));
        assert(decimal(b) =~= build_id_text(b).skip(prefix.len() as int));
        lemma_decimal_injective(a, b);
    }
}

/// A build is single-use: once an id has been taken out it is not there at any later time.
pub proof fn a_build_is_single_use(
    builds: Map<Seq<char>, PendingOffer>,
    id: Seq<char>,
    now: u64,
    later: u64,
)
    ensures
        !waiting(waiting(builds, now).remove(id), later).contains_key(id),
{
}

/// A parked build can be picked up for as long as it waits, and never afterwards.
pub proof fn a_build_waits_its_time(
    builds: Map<Seq<char>, PendingOffer>,
    id: Seq<char>,
    kind: PendingKind,
    now: u64,
    later: u64,
)
    ensures
        ({
            let parked = waiting(builds, now).insert(id, PendingOffer { kind, created_at: now });
            waiting(parked, later).contains_key(id) == (later - now < PENDING_TTL)
        }),
{
}

} // verus!
