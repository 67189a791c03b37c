//! The broker: it takes jobs from clients, queues them by the capability
//! they ask for, hands them to the workers that poll, and routes each result
//! back to the client that submitted the job. All of it is in memory and
//! lasts as long as the broker does.
//!
//! A broker is one value with one owner. Each of its operations acts on the
//! tables it needs and is over before the next one starts: no operation
//! sees another half done. Whoever shares a broker between threads decides
//! how they take turns; the broker holds no lock of its own. Everything that
//! is stated here of sequences of operations is stated of operations that
//! take turns in this way.

pub mod history;
pub mod server;
pub mod state;
pub mod status;
