use vstd::prelude::*;

use crate::domain::calendar::Timestamp;
use crate::domain::id::new_random_id;
use crate::domain::version::Version;

verus! {

/// What a confirmation asks a human to approve.
#[derive(Clone, Copy, Debug, PartialEq, Eq, Structural)]
pub enum ConfirmationSubject {
    /// The payment with this identifier.
    Payment(u128),
}

/// `Queued` = created, not yet delivered to Discord. `Awaiting` = delivered, waiting on a
/// human decision. Splitting them is what lets a retry re-send only what never went out,
/// instead of re-pinging everyone still undecided.
#[derive(Clone, Copy, Debug, PartialEq, Eq, Structural)]
pub enum ConfirmationState {
    Queued,
    Awaiting,
    Approved,
    Rejected,
}

impl ConfirmationState {
    /// No decision has been made yet.
    pub open spec fn is_pending(self) -> bool {
        self is Queued || self is Awaiting
    }
}

/// A request for a human decision about a subject.
#[derive(Clone, Copy, Debug, PartialEq, Eq, Structural)]
pub struct Confirmation {
    pub id: u128,
    pub version: Version,
    pub created_at: Timestamp,
    pub updated_at: Timestamp,
    pub subject: ConfirmationSubject,
    pub state: ConfirmationState,
    pub decided_at: Option<Timestamp>,
}

/// A decision was asked of a confirmation that already has one.
#[derive(Clone, Copy, Debug, PartialEq, Eq, Structural)]
pub struct AlreadyDecided;

/// Why a decision could not be recorded.
#[derive(Clone, Copy, Debug, PartialEq, Eq, Structural)]
pub enum DecideError {
    NotFound,
    AlreadyDecided,
    ConcurrentUpdate,
}

/// What to confirm, and whether it is approved on creation without asking anyone.
#[derive(Clone, Copy, Debug, PartialEq, Eq, Structural)]
pub struct CreateConfirmationCommand {
    pub subject: ConfirmationSubject,
    pub automatic_confirmation: bool,
}

/// Failures of confirmation storage.
#[derive(Clone, Copy, Debug, PartialEq, Eq, Structural)]
pub enum ConfirmationError {
    AlreadyExists,
    NotFound,
    ConcurrentUpdate,
    Persistence,
}

impl Confirmation {
    /// A decision has been recorded exactly when the confirmation is approved or rejected.
    pub open spec fn wf(self) -> bool {
        self.decided_at is Some <==> !self.state.is_pending()
    }

    /// The confirmation created from `command` with identifier `id` at `now`: approved on the
    /// spot when the command asks for automatic confirmation, queued for delivery otherwise.
    pub open spec fn created(command: CreateConfirmationCommand, id: u128, now: Timestamp) -> Confirmation {
        Confirmation {
            id,
            version: Version(1),
            created_at: now,
            updated_at: now,
            subject: command.subject,
            state: if command.automatic_confirmation {
                ConfirmationState::Approved
            } else {
                ConfirmationState::Queued
            },
            decided_at: if command.automatic_confirmation {
                Some(now)
            } else {
                None
            },
        }
    }

    /// This confirmation once delivered at `now`: awaiting a human decision.
    pub open spec fn delivered(self, now: Timestamp) -> Confirmation {
        Confirmation { state: ConfirmationState::Awaiting, updated_at: now, ..self }
    }

    /// This confirmation once decided at `now`.
    pub open spec fn decided(self, approved: bool, now: Timestamp) -> Confirmation {
        Confirmation {
            state: if approved {
                ConfirmationState::Approved
            } else {
                ConfirmationState::Rejected
            },
            updated_at: now,
            decided_at: Some(now),
            ..self
        }
    }

    /// A new confirmation for `command`, with a fresh random identifier, created now.
    pub fn new(command: CreateConfirmationCommand) -> (r: Confirmation)
        ensures
            r == Confirmation::created(command, r.id, r.created_at),
            r.created_at.in_range(),
    {
        let now = Timestamp::now();
        let id = new_random_id();
        Confirmation::new_at(command, id, now)
    }

    /// The confirmation for `command` with identifier `id`, created at `now`.
    pub fn new_at(command: CreateConfirmationCommand, id: u128, now: Timestamp) -> (r: Confirmation)
        ensures
            r == Confirmation::created(command, id, now),
    {
        let (state, decided_at) = if command.automatic_confirmation {
            (ConfirmationState::Approved, Some(now))
        } else {
            (ConfirmationState::Queued, None)
        };
        Confirmation {
            id,
            version: Version::first(),
            created_at: now,
            updated_at: now,
            subject: command.subject,
            state,
            decided_at,
        }
    }

    /// Marks the confirmation as delivered now.
    fn mark_awaiting(&mut self)
        ensures
            *final(self) == old(self).delivered(final(self).updated_at),
            final(self).updated_at.in_range(),
    {
        let now = Timestamp::now();
        self.mark_awaiting_at(now);
    }

    /// Marks the confirmation as delivered at `now`.
    pub fn mark_awaiting_at(&mut self, now: Timestamp)
        ensures
            *final(self) == old(self).delivered(now),
    {
        self.state = ConfirmationState::Awaiting;
        self.updated_at = now;
    }

    /// Records the decision now; refused when a decision was already recorded, in which case
    /// nothing changes.
    pub fn decide(&mut self, approved: bool) -> (r: Result<(), AlreadyDecided>)
        ensures
            old(self).state.is_pending() ==> r is Ok && *final(self) == old(self).decided(
                approved,
                final(self).updated_at,
            ) && final(self).updated_at.in_range(),
            !old(self).state.is_pending() ==> r == Err::<(), AlreadyDecided>(AlreadyDecided)
                && *final(self) == *old(self),
    {
        if !(matches!(self.state, ConfirmationState::Queued | ConfirmationState::Awaiting)) {
            return Err(AlreadyDecided);
        }
        let now = Timestamp::now();
        self.decide_at(approved, now)
    }

    /// Records the decision at `now`; refused when a decision was already recorded, in which
    /// case nothing changes.
    pub fn decide_at(&mut self, approved: bool, now: Timestamp) -> (r: Result<(), AlreadyDecided>)
        ensures
            old(self).state.is_pending() ==> r is Ok && *final(self) == old(self).decided(approved, now),
            !old(self).state.is_pending() ==> r == Err::<(), AlreadyDecided>(AlreadyDecided)
                && *final(self) == *old(self),
    {
        if !(matches!(self.state, ConfirmationState::Queued | ConfirmationState::Awaiting)) {
            return Err(AlreadyDecided);
        }
        self.state = if approved {
            ConfirmationState::Approved
        } else {
            ConfirmationState::Rejected
        };
        self.updated_at = now;
        self.decided_at = Some(now);
        Ok(())
    }
}

/// What a delivery attempt leaves of `confirmation` once the notifier answered `delivered`:
/// delivered, it is marked Awaiting now and has to be stored (`true`); a failed delivery
/// leaves it exactly as it was, still Queued for the next reconcile round, with nothing to
/// store (`false`).
pub fn after_delivery_attempt(confirmation: Confirmation, delivered: bool) -> (r: (Confirmation, bool))
    ensures
        delivered ==> r.1 && r.0 == confirmation.delivered(r.0.updated_at) && r.0.updated_at.in_range(),
        !delivered ==> r == (confirmation, false),
{
    let mut confirmation = confirmation;
    if delivered {
        confirmation.mark_awaiting();
        (confirmation, true)
    } else {
        (confirmation, false)
    }
}

/// The decision step on the confirmation storage found (or did not find): not found, already
/// decided, or the confirmation decided now, ready to be stored.
pub fn decide_found(found: Option<Confirmation>, approved: bool) -> (r: Result<Confirmation, DecideError>)
    ensures
        found is None ==> r == Err::<Confirmation, DecideError>(DecideError::NotFound),
        found matches Some(c) ==> (!c.state.is_pending() ==> r == Err::<Confirmation, DecideError>(
            DecideError::AlreadyDecided,
        )),
        found matches Some(c) ==> (c.state.is_pending() ==> r is Ok && r->Ok_0 == c.decided(
            approved,
            r->Ok_0.updated_at,
        ) && r->Ok_0.updated_at.in_range()),
{
    let mut confirmation = match found {
        Some(c) => c,
        None => return Err(DecideError::NotFound),
    };
    match confirmation.decide(approved) {
        Ok(()) => Ok(confirmation),
        Err(_) => Err(DecideError::AlreadyDecided),
    }
}

/// How a failed store of a decision is reported: a confirmation that vanished is not found;
/// any other failure means someone else updated it first.
pub fn decide_error_from_storage(err: ConfirmationError) -> (r: DecideError)
    ensures
        err is NotFound ==> r is NotFound,
        !(err is NotFound) ==> r is ConcurrentUpdate,
{
    match err {
        ConfirmationError::NotFound => DecideError::NotFound,
        _ => DecideError::ConcurrentUpdate,
    }
}

/// The confirmations of `s` created at the instant `t`, in their order in `s`.
pub open spec fn created_at_instant(s: Seq<Confirmation>, t: int) -> Seq<Confirmation> {
    s.filter(|c: Confirmation| c.created_at.unix_nanos == t)
}

/// `s` lists confirmations oldest first.
pub open spec fn in_creation_order(s: Seq<Confirmation>) -> bool {
    forall|i: int, j: int|
        0 <= i < j < s.len() ==> s[i].created_at.unix_nanos <= s[j].created_at.unix_nanos
}

/// The pending confirmations, oldest first: the queued ones and the awaiting ones, sorted by
/// creation time; confirmations created at the same instant keep their order (queued before
/// awaiting, and each list in its own order).
pub fn pending_in_creation_order(queued: Vec<Confirmation>, awaiting: Vec<Confirmation>) -> (r: Vec<Confirmation>)
    ensures
        in_creation_order(r@),
        forall|t: int| #[trigger] created_at_instant(r@, t) == created_at_instant(queued@ + awaiting@, t),
{
    let mut all = queued;
    let mut rest = awaiting;
    all.append(&mut rest);
    let ghost input = all@;
    assert(input == queued@ + awaiting@);
    let mut sorted: Vec<Confirmation> = Vec::new();
    let n = all.len();
    let mut i: usize = 0;
    while i < n
        invariant
            n == input.len(),
            all@ == input,
            i <= n,
            in_creation_order(sorted@),
            forall|t: int| #[trigger] created_at_instant(sorted@, t) == created_at_instant(input.take(i as int), t),
        decreases n - i,
    {
        let c = all[i];
        let key = c.created_at.unix_nanos;
        let mut p = sorted.len();
        while p > 0 && sorted[p - 1].created_at.unix_nanos > key
            invariant
                p <= sorted.len(),
                forall|j: int| p <= j < sorted.len() ==> sorted@[j].created_at.unix_nanos > key,
            decreases p,
        {
            p = p - 1;
        }
        proof {
            lemma_insert_keeps_order_and_ties(sorted@, p as int, c);
            assert(input.take(i + 1) == input.take(i as int).push(c));
            assert forall|t: int| #[trigger] created_at_instant(input.take(i + 1), t) == (if c.created_at.unix_nanos == t {
                created_at_instant(input.take(i as int), t).push(c)
            } else {
                created_at_instant(input.take(i as int), t)
            }) by {
                input.take(i as int).lemma_filter_push(c, |x: Confirmation| x.created_at.unix_nanos == t);
            }
        }
        sorted.insert(p, c);
        i = i + 1;
    }
    assert(input.take(n as int) == input);
    sorted
}

/// Inserting `c` after every element not later than it and before every later one keeps `s`
/// in creation order, and adds `c` after the elements created at the same instant.
proof fn lemma_insert_keeps_order_and_ties(s: Seq<Confirmation>, p: int, c: Confirmation)
    requires
        in_creation_order(s),
        0 <= p <= s.len(),
        p > 0 ==> s[p - 1].created_at.unix_nanos <= c.created_at.unix_nanos,
        forall|j: int| p <= j < s.len() ==> s[j].created_at.unix_nanos > c.created_at.unix_nanos,
    ensures
        in_creation_order(s.insert(p, c)),
        forall|t: int| #[trigger] created_at_instant(s.insert(p, c), t) == (if c.created_at.unix_nanos == t {
            created_at_instant(s, t).push(c)
        } else {
            created_at_instant(s, t)
        }),
{
    let r = s.insert(p, c);
    assert(r == s.subrange(0, p) + seq![c] + s.subrange(p, s.len() as int));
    assert(s == s.subrange(0, p) + s.subrange(p, s.len() as int));
    assert forall|t: int| #[trigger] created_at_instant(r, t) == (if c.created_at.unix_nanos == t {
        created_at_instant(s, t).push(c)
    } else {
        created_at_instant(s, t)
    }) by {
        let pred = |x: Confirmation| x.created_at.unix_nanos == t;
        let a = s.subrange(0, p);
        let b = s.subrange(p, s.len() as int);
        Seq::filter_distributes_over_add(a + seq![c], b, pred);
        Seq::filter_distributes_over_add(a, seq![c], pred);
        Seq::filter_distributes_over_add(a, b, pred);
        reveal_with_fuel(Seq::filter, 2);
        assert(seq![c].drop_last() == Seq::<Confirmation>::empty());
        if c.created_at.unix_nanos == t {
            assert(b.filter(pred).len() == 0) by {
                b.lemma_all_neg_filter_empty(pred);
            }
            assert(b.filter(pred) == Seq::<Confirmation>::empty());
        }
    }
}

/// A decision, once recorded, is final: a decided confirmation is no longer pending, so any
/// later decision is refused.
pub proof fn lemma_decision_is_final(c: Confirmation, approved: bool, now: Timestamp)
    requires
        c.state.is_pending(),
    ensures
        !c.decided(approved, now).state.is_pending(),
        c.decided(approved, now).state == (if approved {
            ConfirmationState::Approved
        } else {
            ConfirmationState::Rejected
        }),
{
}

/// Every step of a confirmation's life keeps "decided exactly when a decision time is
/// recorded": creation, delivery of a pending confirmation, and a decision.
pub proof fn lemma_lifecycle_keeps_decision_record(
    command: CreateConfirmationCommand,
    id: u128,
    c: Confirmation,
    approved: bool,
    now: Timestamp,
)
    ensures
        Confirmation::created(command, id, now).wf(),
        c.wf() && c.state.is_pending() ==> c.delivered(now).wf() && c.decided(approved, now).wf(),
{
}

} // verus!
