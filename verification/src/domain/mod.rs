pub mod version;
pub mod calendar;
pub mod payment_schedule;
pub mod money;
pub mod id;
pub mod confirmation;
pub mod payment;
