//! A job-execution grid: the broker that queues jobs and routes results, the
//! exchange protocol that workers follow, and the supervisor that starts and
//! stops the grid's processes.

pub mod broker;
pub mod client;
pub mod clock;
pub mod descriptor;
pub mod job;
pub mod manager;
pub mod text;
pub mod worker;
