use vstd::prelude::*;

use crate::domain::calendar::{CalendarDate, Timestamp};
use crate::domain::confirmation::{ConfirmationError, ConfirmationSubject, CreateConfirmationCommand};
use crate::domain::id::new_random_id;
use crate::domain::money::Money;
use crate::domain::version::Version;

verus! {

/// A payment that was made, by hand or by a schedule.
#[derive(Clone, Debug, PartialEq)]
pub struct Payment {
    pub id: u128,
    pub version: Version,
    pub total: Money,
    pub created_at: Timestamp,
    pub source: PaymentSource,
}

/// Where a payment came from.
#[derive(Clone, Copy, Debug, PartialEq, Eq, Structural)]
pub enum PaymentSource {
    Manual,
    /// The occurrence of a payment schedule due on `occurrence_date`.
    Schedule { schedule_id: u128, occurrence_date: CalendarDate },
}

/// Why a payment could not be recorded or read.
#[derive(Clone, Copy, Debug, PartialEq, Eq, Structural)]
pub enum PaymentError {
    AlreadyExists,
    FailedToCreateAckRequest(ConfirmationError),
    Persistence,
}

impl From<ConfirmationError> for PaymentError {
    fn from(err: ConfirmationError) -> (r: PaymentError)
        ensures
            r == PaymentError::FailedToCreateAckRequest(err),
    {
        PaymentError::FailedToCreateAckRequest(err)
    }
}

impl vstd::std_specs::convert::FromSpecImpl<ConfirmationError> for PaymentError {
    open spec fn obeys_from_spec() -> bool {
        true
    }

    open spec fn from_spec(err: ConfirmationError) -> PaymentError {
        PaymentError::FailedToCreateAckRequest(err)
    }
}

/// A payment to record, and whether it is acknowledged without asking anyone.
#[derive(Clone, Debug, PartialEq)]
pub struct CreatePaymentCommand {
    pub total: Money,
    pub source: PaymentSource,
    pub auto_ack: bool,
}

impl Payment {
    /// A new payment of `total` from `source`, with a fresh random identifier, created now.
    pub fn new(total: Money, source: PaymentSource) -> (r: Payment)
        ensures
            r.version == Version(1),
            r.total == total,
            r.source == source,
            r.created_at.in_range(),
    {
        let now = Timestamp::now();
        let id = new_random_id();
        Payment::new_at(id, now, total, source)
    }

    /// The payment of `total` from `source` with identifier `id`, created at `now`.
    pub fn new_at(id: u128, now: Timestamp, total: Money, source: PaymentSource) -> (r: Payment)
        ensures
            r == (Payment { id, version: Version(1), total, created_at: now, source }),
    {
        Payment { id, version: Version::first(), total, created_at: now, source }
    }

    /// The confirmation a newly recorded payment asks for: about this payment, approved on
    /// the spot exactly when the payment was created with `auto_ack`.
    pub fn confirmation_request(&self, auto_ack: bool) -> (r: CreateConfirmationCommand)
        ensures
            r == (CreateConfirmationCommand {
                subject: ConfirmationSubject::Payment(self.id),
                automatic_confirmation: auto_ack,
            }),
    {
        CreateConfirmationCommand {
            subject: ConfirmationSubject::Payment(self.id),
            automatic_confirmation: auto_ack,
        }
    }
}

} // verus!
