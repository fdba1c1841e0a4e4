use kittzo::domain::calendar::CalendarDate;
use kittzo::domain::confirmation::{ConfirmationState, ConfirmationSubject};
use kittzo::domain::payment::{PaymentError, PaymentSource};
use kittzo::domain::payment_schedule::{PaymentScheduleStatus, Recurrence};
use kittzo::infra::persistence::{
    day_of_month, recurrence_from_parts, recurrence_type, source_from_parts, source_parts,
    state_from_str, state_str, status_from_str, status_str, subject_from_parts, subject_parts,
};

#[test]
fn states_are_stored_as_text_and_read_back() {
    for state in [
        ConfirmationState::Queued,
        ConfirmationState::Awaiting,
        ConfirmationState::Approved,
        ConfirmationState::Rejected,
    ] {
        assert_eq!(state_from_str(state_str(state)), Some(state));
    }
    assert_eq!(state_str(ConfirmationState::Awaiting), "awaiting");
    assert_eq!(state_from_str("pending"), None);
}

#[test]
fn statuses_are_stored_as_text_and_read_back() {
    assert_eq!(status_str(PaymentScheduleStatus::Idle), "idle");
    assert_eq!(status_str(PaymentScheduleStatus::Processing), "processing");
    assert_eq!(status_from_str("idle"), Some(PaymentScheduleStatus::Idle));
    assert_eq!(status_from_str("processing"), Some(PaymentScheduleStatus::Processing));
    assert_eq!(status_from_str("busy"), None);
}

#[test]
fn subjects_are_stored_as_kind_and_uuid_text() {
    let subject = ConfirmationSubject::Payment(0x67e5_5044_10b1_426f_9247_bb68_0e5f_e0c8);
    let (kind, id) = subject_parts(&subject);
    assert_eq!(kind, "payment");
    assert_eq!(id, "67e55044-10b1-426f-9247-bb680e5fe0c8");
    assert_eq!(subject_from_parts(kind, &id), Some(subject));
    assert_eq!(subject_from_parts("invoice", &id), None);
    assert_eq!(subject_from_parts("payment", "not-a-uuid"), None);
}

#[test]
fn recurrences_are_stored_as_kind_and_day() {
    let recurrence = Recurrence::Monthly { day_of_month: 17 };
    assert_eq!(recurrence_type(&recurrence), "monthly");
    assert_eq!(day_of_month(&recurrence), 17);
    assert_eq!(recurrence_from_parts("monthly", 17), Some(recurrence));
    assert_eq!(recurrence_from_parts("weekly", 17), None);
    assert_eq!(
        recurrence_from_parts("monthly", 256 + 3),
        Some(Recurrence::Monthly { day_of_month: 3 })
    );
}

#[test]
fn payment_sources_are_stored_and_read_back() {
    let date = CalendarDate::new(2026, 3, 1).unwrap();
    let scheduled = PaymentSource::Schedule { schedule_id: 77, occurrence_date: date };
    let (kind, id, occurrence) = source_parts(&scheduled);
    assert_eq!(kind, "schedule");
    assert_eq!(id.as_deref(), Some("00000000-0000-0000-0000-00000000004d"));
    assert_eq!(source_from_parts(kind, id.as_deref(), occurrence), Ok(scheduled));

    let (kind, id, occurrence) = source_parts(&PaymentSource::Manual);
    assert_eq!((kind, id.clone(), occurrence), ("manual", None, None));
    assert_eq!(source_from_parts(kind, id.as_deref(), occurrence), Ok(PaymentSource::Manual));
}

#[test]
fn malformed_payment_sources_are_persistence_errors() {
    let date = CalendarDate::new(2026, 3, 1).unwrap();
    assert_eq!(source_from_parts("gift", None, None), Err(PaymentError::Persistence));
    assert_eq!(source_from_parts("schedule", None, Some(date)), Err(PaymentError::Persistence));
    assert_eq!(
        source_from_parts("schedule", Some("00000000-0000-0000-0000-00000000004d"), None),
        Err(PaymentError::Persistence)
    );
    assert_eq!(
        source_from_parts("schedule", Some("nope"), Some(date)),
        Err(PaymentError::Persistence)
    );
}

use kittzo::domain::calendar::Timestamp;
use kittzo::domain::confirmation::Confirmation;
use kittzo::domain::money::Money;
use kittzo::domain::version::Version;
use kittzo::infra::persistence::{
    row_to_confirmation, row_to_payment, row_to_schedule, ConfirmationRow, MalformedRow,
    PaymentRow, PaymentScheduleRow,
};

const SOME_UUID: &str = "67e55044-10b1-426f-9247-bb680e5fe0c8";
const SOME_ID: u128 = 0x67e5_5044_10b1_426f_9247_bb68_0e5f_e0c8;

fn confirmation_row() -> ConfirmationRow {
    ConfirmationRow {
        id: SOME_UUID.to_string(),
        version: 3,
        created_at: Timestamp { unix_nanos: 10 },
        updated_at: Timestamp { unix_nanos: 20 },
        subject_type: "payment".to_string(),
        subject_id: "00000000-0000-0000-0000-000000000001".to_string(),
        state: "approved".to_string(),
        decided_at: Some(Timestamp { unix_nanos: 20 }),
    }
}

#[test]
fn a_confirmation_row_reads_back_into_a_confirmation() {
    let confirmation = row_to_confirmation(&confirmation_row()).unwrap();
    assert_eq!(
        confirmation,
        Confirmation {
            id: SOME_ID,
            version: Version::from_u32(3),
            created_at: Timestamp { unix_nanos: 10 },
            updated_at: Timestamp { unix_nanos: 20 },
            subject: ConfirmationSubject::Payment(1),
            state: ConfirmationState::Approved,
            decided_at: Some(Timestamp { unix_nanos: 20 }),
        }
    );
}

#[test]
fn malformed_confirmation_rows_are_refused() {
    let mut row = confirmation_row();
    row.state = "lost".to_string();
    assert_eq!(row_to_confirmation(&row), Err(MalformedRow));
    let mut row = confirmation_row();
    row.subject_type = "invoice".to_string();
    assert_eq!(row_to_confirmation(&row), Err(MalformedRow));
    let mut row = confirmation_row();
    row.id = "x".to_string();
    assert_eq!(row_to_confirmation(&row), Err(MalformedRow));
}

fn payment_row() -> PaymentRow {
    PaymentRow {
        id: SOME_UUID.to_string(),
        version: 1,
        total_amount: "10.99".to_string(),
        total_currency: "USD".to_string(),
        created_at: Timestamp { unix_nanos: 10 },
        source_type: "manual".to_string(),
        schedule_id: None,
        occurrence_date: None,
    }
}

#[test]
fn a_payment_row_reads_back_into_a_payment() {
    let payment = row_to_payment(&payment_row()).unwrap();
    assert_eq!(payment.id, SOME_ID);
    assert_eq!(payment.version, Version::from_u32(1));
    assert_eq!(payment.total, Money::from_parts("USD", "10.99").unwrap());
    assert_eq!(payment.source, PaymentSource::Manual);
}

#[test]
fn unreadable_payment_rows_are_persistence_errors() {
    let mut row = payment_row();
    row.total_amount = "10.999".to_string();
    assert_eq!(row_to_payment(&row), Err(PaymentError::Persistence));
    let mut row = payment_row();
    row.id = "nope".to_string();
    assert_eq!(row_to_payment(&row), Err(PaymentError::Persistence));
    let mut row = payment_row();
    row.source_type = "schedule".to_string();
    assert_eq!(row_to_payment(&row), Err(PaymentError::Persistence));
}

fn schedule_row() -> PaymentScheduleRow {
    PaymentScheduleRow {
        id: SOME_UUID.to_string(),
        version: 2,
        created_at: Timestamp { unix_nanos: 10 },
        updated_at: Timestamp { unix_nanos: 30 },
        total_amount: "5".to_string(),
        total_currency: "JPY".to_string(),
        recurrence_type: "monthly".to_string(),
        day_of_month: 12,
        status: "processing".to_string(),
        next_due_at: CalendarDate::new(2026, 5, 12).unwrap(),
    }
}

#[test]
fn a_schedule_row_reads_back_into_a_schedule() {
    let schedule = row_to_schedule(&schedule_row()).unwrap().unwrap();
    assert_eq!(schedule.id, SOME_ID);
    assert_eq!(schedule.version, Version::from_u32(2));
    assert_eq!(schedule.recurrence, Recurrence::Monthly { day_of_month: 12 });
    assert_eq!(schedule.status, PaymentScheduleStatus::Processing);
    assert_eq!(schedule.total.to_string(), "5 JPY");
    assert_eq!(schedule.next_due_at, CalendarDate::new(2026, 5, 12).unwrap());
}

#[test]
fn a_schedule_row_with_an_unusable_total_is_skipped() {
    let mut row = schedule_row();
    row.total_amount = "5.5".to_string();
    assert_eq!(row_to_schedule(&row), Ok(None));
    let mut row = schedule_row();
    row.status = "sleeping".to_string();
    assert_eq!(row_to_schedule(&row), Err(MalformedRow));
}
