//! A newsletter service's rules, stated as contracts and proved.
//!
//! Two things are at the centre. Publishing an issue is idempotent: a
//! request carries a key, the first request under a key does the work, and
//! every later one gets the first one's response back (`idempotency`,
//! `publish`). Delivery is a queue of tasks, one per recipient, which
//! workers claim one at a time, retry after a failure and drop at a ceiling
//! (`delivery_queue`, `issues_delivery_worker`). `database` holds the state
//! of both in memory, and `laws` proves what holds of them in every state.
//!
//! Around them stand the rules of the pages and forms: who may subscribe
//! (`domain`, `subscriptions`, `subscriptions_confirm`), how credentials
//! are read and failures reported (`newsletters`, `login`, `password`), and
//! small things such as the dashboard page and the environment's name.
//!
//! Nothing here sends mail, reads a clock or talks to a database: a caller
//! performs what a function hands out and reports what came of it.

pub mod assoc;
pub mod configurations;
pub mod dashboard;
pub mod database;
pub mod delivery_queue;
pub mod domain;
pub mod idempotency;
pub mod issues;
pub mod issues_delivery_worker;
pub mod laws;
pub mod login;
pub mod newsletters;
pub mod password;
pub mod publish;
pub mod response;
pub mod subscriptions;
pub mod subscriptions_confirm;
pub mod table;
