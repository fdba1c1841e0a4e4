use vstd::prelude::*;

use crate::domain::calendar::{CalendarDate, Timestamp};
use crate::domain::confirmation::{Confirmation, ConfirmationState, ConfirmationSubject};
use crate::domain::id::{id_to_text, parse_id, uuid_parse, uuid_text};
use crate::domain::money::{money_from_parts, Money};
use crate::domain::payment::{Payment, PaymentError, PaymentSource};
use crate::domain::payment_schedule::{PaymentSchedule, PaymentScheduleStatus, Recurrence};
use crate::domain::version::Version;
use crate::text::same_text;

verus! {

/// How a confirmation state is stored.
pub open spec fn state_text(state: ConfirmationState) -> Seq<char> {
    match state {
        ConfirmationState::Queued => "queued"@,
        ConfirmationState::Awaiting => "awaiting"@,
        ConfirmationState::Approved => "approved"@,
        ConfirmationState::Rejected => "rejected"@,
    }
}

/// The confirmation state stored as `text`, if it is one.
pub open spec fn state_of_text(text: Seq<char>) -> Option<ConfirmationState> {
    if text == "queued"@ {
        Some(ConfirmationState::Queued)
    } else if text == "awaiting"@ {
        Some(ConfirmationState::Awaiting)
    } else if text == "approved"@ {
        Some(ConfirmationState::Approved)
    } else if text == "rejected"@ {
        Some(ConfirmationState::Rejected)
    } else {
        None
    }
}

/// The confirmation subject stored as the kind `kind` and the identifier text `id_text`.
pub open spec fn subject_of_parts(kind: Seq<char>, id_text: Seq<char>) -> Option<ConfirmationSubject> {
    if kind == "payment"@ {
        match uuid_parse(id_text) {
            Some(id) => Some(ConfirmationSubject::Payment(id as u128)),
            None => None,
        }
    } else {
        None
    }
}

/// The recurrence stored as the kind `kind` and the day number `day_of_month`.
pub open spec fn recurrence_of_parts(kind: Seq<char>, day_of_month: i64) -> Option<Recurrence> {
    if kind == "monthly"@ {
        Some(Recurrence::Monthly { day_of_month: day_of_month as u8 })
    } else {
        None
    }
}

/// The payment source stored as the kind `kind`, the schedule identifier text and the
/// occurrence date.
pub open spec fn source_of_parts(
    kind: Seq<char>,
    schedule_id: Option<Seq<char>>,
    occurrence_date: Option<CalendarDate>,
) -> Result<PaymentSource, PaymentError> {
    if kind == "manual"@ {
        Ok(PaymentSource::Manual)
    } else if kind == "schedule"@ {
        match (schedule_id, occurrence_date) {
            (Some(text), Some(date)) => match uuid_parse(text) {
                Some(id) => Ok(
                    PaymentSource::Schedule { schedule_id: id as u128, occurrence_date: date },
                ),
                None => Err(PaymentError::Persistence),
            },
            _ => Err(PaymentError::Persistence),
        }
    } else {
        Err(PaymentError::Persistence)
    }
}

/// The view of an optional text.
pub open spec fn opt_text(text: Option<&str>) -> Option<Seq<char>> {
    match text {
        Some(t) => Some(t@),
        None => None,
    }
}

/// How a payment schedule status is stored.
pub open spec fn status_text(status: PaymentScheduleStatus) -> Seq<char> {
    match status {
        PaymentScheduleStatus::Idle => "idle"@,
        PaymentScheduleStatus::Processing => "processing"@,
    }
}

/// The payment schedule status stored as `text`, if it is one.
pub open spec fn status_of_text(text: Seq<char>) -> Option<PaymentScheduleStatus> {
    if text == "idle"@ {
        Some(PaymentScheduleStatus::Idle)
    } else if text == "processing"@ {
        Some(PaymentScheduleStatus::Processing)
    } else {
        None
    }
}

pub fn state_str(state: ConfirmationState) -> (r: &'static str)
    ensures
        r@ == state_text(state),
{
    match state {
        ConfirmationState::Queued => "queued",
        ConfirmationState::Awaiting => "awaiting",
        ConfirmationState::Approved => "approved",
        ConfirmationState::Rejected => "rejected",
    }
}

/// The confirmation state stored as `text`; `None` for text no state is stored as.
pub fn state_from_str(text: &str) -> (r: Option<ConfirmationState>)
    ensures
        r == state_of_text(text@),
{
    if same_text(text, "queued") {
        Some(ConfirmationState::Queued)
    } else if same_text(text, "awaiting") {
        Some(ConfirmationState::Awaiting)
    } else if same_text(text, "approved") {
        Some(ConfirmationState::Approved)
    } else if same_text(text, "rejected") {
        Some(ConfirmationState::Rejected)
    } else {
        None
    }
}

pub fn status_str(status: PaymentScheduleStatus) -> (r: &'static str)
    ensures
        r@ == status_text(status),
{
    match status {
        PaymentScheduleStatus::Idle => "idle",
        PaymentScheduleStatus::Processing => "processing",
    }
}

/// The payment schedule status stored as `text`; `None` for text no status is stored as.
pub fn status_from_str(text: &str) -> (r: Option<PaymentScheduleStatus>)
    ensures
        r == status_of_text(text@),
{
    if same_text(text, "idle") {
        Some(PaymentScheduleStatus::Idle)
    } else if same_text(text, "processing") {
        Some(PaymentScheduleStatus::Processing)
    } else {
        None
    }
}

/// How a confirmation subject is stored: its kind and the text of its identifier.
pub fn subject_parts(subject: &ConfirmationSubject) -> (r: (&'static str, String))
    ensures
        r.0@ == "payment"@,
        match *subject {
            ConfirmationSubject::Payment(id) => r.1@ == uuid_text(id as int),
        },
        subject_of_parts(r.0@, r.1@) == Some(*subject),
{
    match subject {
        ConfirmationSubject::Payment(id) => ("payment", id_to_text(*id)),
    }
}

/// The confirmation subject stored as the kind `subject_type` and the identifier text
/// `subject_id`; `None` for an unknown kind or an identifier that is not a UUID.
pub fn subject_from_parts(subject_type: &str, subject_id: &str) -> (r: Option<ConfirmationSubject>)
    ensures
        r == subject_of_parts(subject_type@, subject_id@),
{
    if !same_text(subject_type, "payment") {
        return None;
    }
    match parse_id(subject_id) {
        Some(id) => Some(ConfirmationSubject::Payment(id)),
        None => None,
    }
}

pub fn recurrence_type(recurrence: &Recurrence) -> (r: &'static str)
    ensures
        r@ == "monthly"@,
{
    match recurrence {
        Recurrence::Monthly { .. } => "monthly",
    }
}

pub fn day_of_month(recurrence: &Recurrence) -> (r: u8)
    ensures
        r as int == recurrence.day_of_month_of(),
{
    match recurrence {
        Recurrence::Monthly { day_of_month } => *day_of_month,
    }
}

/// The recurrence stored as the kind `recurrence_type` and the day number `day_of_month` (kept
/// as its low byte); `None` for an unknown kind.
pub fn recurrence_from_parts(recurrence_type: &str, day_of_month: i64) -> (r: Option<Recurrence>)
    ensures
        r == recurrence_of_parts(recurrence_type@, day_of_month),
{
    if same_text(recurrence_type, "monthly") {
        Some(Recurrence::Monthly { day_of_month: day_of_month as u8 })
    } else {
        None
    }
}

/// How a payment's source is stored: its kind, and for a scheduled payment the text of the
/// schedule's identifier and the occurrence date.
pub fn source_parts(source: &PaymentSource) -> (r: (&'static str, Option<String>, Option<CalendarDate>))
    ensures
        *source is Manual ==> r.0@ == "manual"@ && r.1 is None && r.2 is None,
        *source matches PaymentSource::Schedule { schedule_id, occurrence_date } ==> r.0@
            == "schedule"@ && r.1 is Some && r.1->Some_0@ == uuid_text(schedule_id as int) && r.2
            == Some(occurrence_date),
        source_of_parts(
            r.0@,
            match r.1 {
                Some(t) => Some(t@),
                None => None,
            },
            r.2,
        ) == Ok::<PaymentSource, PaymentError>(*source),
{
    proof {
        reveal_strlit("manual");
        reveal_strlit("schedule");
        assert("manual"@[0] != "schedule"@[0]);
    }
    match source {
        PaymentSource::Manual => ("manual", None, None),
        PaymentSource::Schedule { schedule_id, occurrence_date } => (
            "schedule",
            Some(id_to_text(*schedule_id)),
            Some(*occurrence_date),
        ),
    }
}

/// The payment source stored as these parts. A stored row that does not describe a source (an
/// unknown kind, or a scheduled payment without a parsable schedule identifier or without an
/// occurrence date) is a persistence error.
pub fn source_from_parts(
    source_type: &str,
    schedule_id: Option<&str>,
    occurrence_date: Option<CalendarDate>,
) -> (r: Result<PaymentSource, PaymentError>)
    ensures
        r == source_of_parts(source_type@, opt_text(schedule_id), occurrence_date),
{
    if same_text(source_type, "manual") {
        return Ok(PaymentSource::Manual);
    }
    if !same_text(source_type, "schedule") {
        return Err(PaymentError::Persistence);
    }
    let text = match schedule_id {
        Some(text) => text,
        None => return Err(PaymentError::Persistence),
    };
    let schedule_id = match parse_id(text) {
        Some(id) => id,
        None => return Err(PaymentError::Persistence),
    };
    match occurrence_date {
        Some(date) => Ok(PaymentSource::Schedule { schedule_id, occurrence_date: date }),
        None => Err(PaymentError::Persistence),
    }
}

/// A stored row holds what no entity can be: an unknown kind, state or status, or an
/// identifier that is not a UUID.
#[derive(Clone, Copy, Debug, PartialEq, Eq, Structural)]
pub struct MalformedRow;

/// A stored confirmation, as its columns hold it.
#[derive(Clone, Debug, PartialEq)]
pub struct ConfirmationRow {
    pub id: String,
    pub version: i64,
    pub created_at: Timestamp,
    pub updated_at: Timestamp,
    pub subject_type: String,
    pub subject_id: String,
    pub state: String,
    pub decided_at: Option<Timestamp>,
}

/// A stored payment, as its columns hold it.
#[derive(Clone, Debug, PartialEq)]
pub struct PaymentRow {
    pub id: String,
    pub version: i64,
    pub total_amount: String,
    pub total_currency: String,
    pub created_at: Timestamp,
    pub source_type: String,
    pub schedule_id: Option<String>,
    pub occurrence_date: Option<CalendarDate>,
}

/// A stored payment schedule, as its columns hold it.
#[derive(Clone, Debug, PartialEq)]
pub struct PaymentScheduleRow {
    pub id: String,
    pub version: i64,
    pub created_at: Timestamp,
    pub updated_at: Timestamp,
    pub total_amount: String,
    pub total_currency: String,
    pub recurrence_type: String,
    pub day_of_month: i64,
    pub status: String,
    pub next_due_at: CalendarDate,
}

/// The view of an optional owned text.
pub open spec fn opt_string(text: Option<String>) -> Option<Seq<char>> {
    match text {
        Some(t) => Some(t@),
        None => None,
    }
}

/// The confirmation a row holds; a row with an unknown subject kind or state, or with an
/// identifier that is not a UUID, is malformed. The version keeps the low 32 bits of the
/// stored number.
pub fn row_to_confirmation(row: &ConfirmationRow) -> (r: Result<Confirmation, MalformedRow>)
    ensures
        r is Ok <==> subject_of_parts(row.subject_type@, row.subject_id@) is Some && uuid_parse(
            row.id@,
        ) is Some && state_of_text(row.state@) is Some,
        r matches Ok(c) ==> c == (Confirmation {
            id: uuid_parse(row.id@)->Some_0 as u128,
            version: Version(row.version as u32),
            created_at: row.created_at,
            updated_at: row.updated_at,
            subject: subject_of_parts(row.subject_type@, row.subject_id@)->Some_0,
            state: state_of_text(row.state@)->Some_0,
            decided_at: row.decided_at,
        }),
{
    let subject = match subject_from_parts(row.subject_type.as_str(), row.subject_id.as_str()) {
        Some(subject) => subject,
        None => return Err(MalformedRow),
    };
    let id = match parse_id(row.id.as_str()) {
        Some(id) => id,
        None => return Err(MalformedRow),
    };
    let state = match state_from_str(row.state.as_str()) {
        Some(state) => state,
        None => return Err(MalformedRow),
    };
    Ok(
        Confirmation {
            id,
            version: Version::from_u32(row.version as u32),
            created_at: row.created_at,
            updated_at: row.updated_at,
            subject,
            state,
            decided_at: row.decided_at,
        },
    )
}

/// The payment a row holds; any row that does not describe a payment (an identifier that is
/// not a UUID, a total that is not valid money, or a malformed source) is a persistence error.
/// The version keeps the low 32 bits of the stored number.
pub fn row_to_payment(row: &PaymentRow) -> (r: Result<Payment, PaymentError>)
    ensures
        r is Ok <==> uuid_parse(row.id@) is Some && money_from_parts(
            row.total_currency@,
            row.total_amount@,
        ) is Ok && source_of_parts(
            row.source_type@,
            opt_string(row.schedule_id),
            row.occurrence_date,
        ) is Ok,
        r matches Err(e) ==> e == PaymentError::Persistence,
        r matches Ok(p) ==> p.id == uuid_parse(row.id@)->Some_0 as u128 && p.version == Version(
            row.version as u32,
        ) && p.total@ == money_from_parts(row.total_currency@, row.total_amount@)->Ok_0
            && p.created_at == row.created_at && p.source == source_of_parts(
            row.source_type@,
            opt_string(row.schedule_id),
            row.occurrence_date,
        )->Ok_0,
{
    let id = match parse_id(row.id.as_str()) {
        Some(id) => id,
        None => return Err(PaymentError::Persistence),
    };
    let total = match Money::from_parts(row.total_currency.as_str(), row.total_amount.as_str()) {
        Ok(total) => total,
        Err(_) => return Err(PaymentError::Persistence),
    };
    let schedule_id = match &row.schedule_id {
        Some(text) => Some(text.as_str()),
        None => None,
    };
    let source = match source_from_parts(row.source_type.as_str(), schedule_id, row.occurrence_date) {
        Ok(source) => source,
        Err(e) => return Err(e),
    };
    Ok(
        Payment {
            id,
            version: Version::from_u32(row.version as u32),
            total,
            created_at: row.created_at,
            source,
        },
    )
}

/// The schedule a row holds: `Ok(None)` for a row whose total is not valid money (written
/// before money validated its precision; such a row is skipped), and malformed for an unknown
/// recurrence kind or status or an identifier that is not a UUID. The version keeps the low 32
/// bits of the stored number.
pub fn row_to_schedule(row: &PaymentScheduleRow) -> (r: Result<Option<PaymentSchedule>, MalformedRow>)
    ensures
        money_from_parts(row.total_currency@, row.total_amount@) is Err ==> r == Ok::<
            Option<PaymentSchedule>,
            MalformedRow,
        >(None),
        money_from_parts(row.total_currency@, row.total_amount@) is Ok ==> (r is Ok <==> (
        recurrence_of_parts(row.recurrence_type@, row.day_of_month) is Some && uuid_parse(row.id@) is Some
            && status_of_text(row.status@) is Some)),
        r matches Ok(o) ==> (o is Some <==> money_from_parts(row.total_currency@, row.total_amount@) is Ok),
        r matches Ok(Some(s)) ==> s.id == uuid_parse(row.id@)->Some_0 as u128 && s.version == Version(
            row.version as u32,
        ) && s.created_at == row.created_at && s.updated_at == row.updated_at && s.total@
            == money_from_parts(row.total_currency@, row.total_amount@)->Ok_0 && s.recurrence
            == recurrence_of_parts(row.recurrence_type@, row.day_of_month)->Some_0 && s.status
            == status_of_text(row.status@)->Some_0 && s.next_due_at == row.next_due_at,
{
    let total = match Money::from_parts(row.total_currency.as_str(), row.total_amount.as_str()) {
        Ok(total) => total,
        Err(_) => return Ok(None),
    };
    let recurrence = match recurrence_from_parts(row.recurrence_type.as_str(), row.day_of_month) {
        Some(recurrence) => recurrence,
        None => return Err(MalformedRow),
    };
    let id = match parse_id(row.id.as_str()) {
        Some(id) => id,
        None => return Err(MalformedRow),
    };
    let status = match status_from_str(row.status.as_str()) {
        Some(status) => status,
        None => return Err(MalformedRow),
    };
    Ok(
        Some(
            PaymentSchedule {
                id,
                version: Version::from_u32(row.version as u32),
                created_at: row.created_at,
                updated_at: row.updated_at,
                next_due_at: row.next_due_at,
                total,
                recurrence,
                status,
            },
        ),
    )
}

/// Every confirmation state and every schedule status reads back from the text it is stored
/// as.
pub proof fn lemma_state_and_status_round_trip(state: ConfirmationState, status: PaymentScheduleStatus)
    ensures
        state_of_text(state_text(state)) == Some(state),
        status_of_text(status_text(status)) == Some(status),
{
    reveal_strlit("queued");
    reveal_strlit("awaiting");
    reveal_strlit("approved");
    reveal_strlit("rejected");
    reveal_strlit("idle");
    reveal_strlit("processing");
    assert("queued"@[0] != "awaiting"@[0]);
    assert("queued"@[0] != "approved"@[0]);
    assert("queued"@[0] != "rejected"@[0]);
    assert("awaiting"@[1] != "approved"@[1]);
    assert("awaiting"@[0] != "rejected"@[0]);
    assert("approved"@[0] != "rejected"@[0]);
    assert("idle"@[0] != "processing"@[0]);
}

/// A stored recurrence reads back as the same recurrence.
pub proof fn lemma_recurrence_round_trip(recurrence: Recurrence)
    ensures
        recurrence_of_parts("monthly"@, recurrence.day_of_month_of() as i64) == Some(recurrence),
{
}

} // verus!
