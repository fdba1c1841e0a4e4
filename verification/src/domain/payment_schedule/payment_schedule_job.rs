use vstd::prelude::*;

use crate::domain::calendar::{CalendarDate, Timestamp};
use crate::domain::payment::{CreatePaymentCommand, PaymentSource};
use crate::domain::calendar::utc_day;
use crate::domain::payment_schedule::{PaymentSchedule, PaymentScheduleStatus, Recurrence};

verus! {

#[verifier::external_type_specification]
#[verifier::external_body]
pub struct ExSignedDuration(time::SignedDuration);

/// How often the schedule job runs, and after how long a claim that was never released may be
/// taken over by another run.
#[derive(Debug, Clone, Copy, PartialEq, Eq, Structural)]
pub struct PaymentScheduleJobConfig {
    pub poll_interval_secs: u64,
    pub retry_after_secs: u64,
}

impl Default for PaymentScheduleJobConfig {
    fn default() -> (r: PaymentScheduleJobConfig)
        ensures
            r.poll_interval_secs == 1800,
            r.retry_after_secs == 1200,
    {
        PaymentScheduleJobConfig { poll_interval_secs: 1800, retry_after_secs: 1200 }
    }
}

/// The `std::time::Duration` of `secs` whole seconds, as `Duration::from_secs` builds it.
pub uninterp spec fn duration_of_secs(secs: int) -> std::time::Duration;

/// The `time::SignedDuration` of `secs` whole seconds, as `SignedDuration::seconds` builds it.
pub uninterp spec fn signed_duration_of_secs(secs: int) -> time::SignedDuration;

impl PaymentScheduleJobConfig {
    /// The pause between two runs of the job: `poll_interval_secs` whole seconds.
    pub fn poll_interval(&self) -> (r: std::time::Duration)
        ensures
            r == duration_of_secs(self.poll_interval_secs as int),
    {
        duration_from_secs(self.poll_interval_secs)
    }

    /// How long a claim stays with the run that made it: `retry_after_secs` whole seconds,
    /// taken as a signed 64-bit count (a count above `i64::MAX` wraps around).
    pub fn retry_after(&self) -> (r: time::SignedDuration)
        ensures
            r == signed_duration_of_secs((self.retry_after_secs as i64) as int),
    {
        signed_duration_from_secs(self.retry_after_secs as i64)
    }
}

impl PaymentSchedule {
    /// `next` is this schedule after `advance_due_date`: moved to the first due day strictly
    /// after the later of `next_due_at` and the creation day, or unchanged when there is none.
    pub open spec fn advanced_to(self, next: PaymentSchedule) -> bool {
        let from = Recurrence::search_from(utc_day(self.created_at), Some(self.next_due_at));
        &&& self.recurrence.has_occurrence_after(from) ==> next == (PaymentSchedule {
            next_due_at: next.next_due_at,
            ..self
        }) && self.recurrence.is_first_occurrence_after(from, next.next_due_at)
        &&& !self.recurrence.has_occurrence_after(from) ==> next == self
    }

    /// The payment the schedule owes on `today`: the occurrence on `next_due_at` once that day
    /// has come, acknowledged without asking anyone; nothing while it is still ahead.
    pub fn due_payment(&self, today: &CalendarDate) -> (r: Option<CreatePaymentCommand>)
        ensures
            today.precedes(self.next_due_at) ==> r is None,
            !today.precedes(self.next_due_at) ==> r is Some && r->Some_0.total@ == self.total@
                && r->Some_0.source == (PaymentSource::Schedule {
                schedule_id: self.id,
                occurrence_date: self.next_due_at,
            }) && r->Some_0.auto_ack,
    {
        if today.is_before(&self.next_due_at) {
            return None;
        }
        Some(
            CreatePaymentCommand {
                total: self.total.clone(),
                source: PaymentSource::Schedule {
                    schedule_id: self.id,
                    occurrence_date: self.next_due_at,
                },
                auto_ack: true,
            },
        )
    }

    /// Takes note of whether the payment for `next_due_at` was created: if so the schedule
    /// advances to its next due day. Answers whether the catch-up should go on, which it does
    /// only when the payment was created and `next_due_at` moved strictly later, so that a
    /// catch-up run ends once `next_due_at` is past the day it runs on.
    pub fn record_payment_result(&mut self, created: bool) -> (r: bool)
        requires
            old(self).created_at.in_range(),
            old(self).next_due_at.wf(),
        ensures
            !created ==> !r && *final(self) == *old(self),
            created ==> old(self).advanced_to(*final(self)),
            r ==> old(self).next_due_at.precedes(final(self).next_due_at),
            r <==> created && old(self).recurrence.has_occurrence_after(
                Recurrence::search_from(utc_day(old(self).created_at), Some(old(self).next_due_at)),
            ),
            final(self).next_due_at.wf(),
    {
        if !created {
            return false;
        }
        let before = self.next_due_at;
        self.advance_due_date();
        before.is_before(&self.next_due_at)
    }

    /// Releases the claim at the end of a processing run: idle again, updated at `now`.
    pub fn finish_processing(&mut self, now: Timestamp)
        ensures
            *final(self) == (PaymentSchedule {
                updated_at: now,
                status: PaymentScheduleStatus::Idle,
                ..*old(self)
            }),
    {
        self.updated_at = now;
        self.status = PaymentScheduleStatus::Idle;
    }
}

/// Once the payment for a due day is recorded and the schedule advances, its next due day is
/// strictly later than the day just paid: no later run, on that day or any other, owes that
/// day again.
pub proof fn lemma_recorded_day_never_owed_again(schedule: PaymentSchedule, next: PaymentSchedule)
    requires
        schedule.next_due_at.wf(),
        schedule.advanced_to(next),
        schedule.recurrence.has_occurrence_after(
            Recurrence::search_from(utc_day(schedule.created_at), Some(schedule.next_due_at)),
        ),
    ensures
        schedule.next_due_at.precedes(next.next_due_at),
        forall|today: CalendarDate|
            !today.precedes(next.next_due_at) ==> #[trigger] schedule.next_due_at.precedes(today),
{
}

/// `std::time::Duration::from_secs`: the duration of `secs` whole seconds, a function of
/// `secs` alone.
#[verifier::external_body]
fn duration_from_secs(secs: u64) -> (r: std::time::Duration)
    ensures
        r == duration_of_secs(secs as int),
{
    std::time::Duration::from_secs(secs)
}

/// `time::SignedDuration::seconds`: the duration of `secs` whole seconds, a function of
/// `secs` alone.
#[verifier::external_body]
fn signed_duration_from_secs(secs: i64) -> (r: time::SignedDuration)
    ensures
        r == signed_duration_of_secs(secs as int),
{
    time::SignedDuration::seconds(secs)
}

} // verus!
