//! Transactional coordination core of a vocabulary-learning backend.
//!
//! The library consists of a retrying transaction engine, a durable
//! recurring-job scheduler built on it, and a session store built on it.
//! All mutual exclusion is expressed through transactions against a store
//! with unique keys; the engine classifies failures and retries transient
//! ones up to a bound.

pub mod api;
pub mod config;
pub mod db;
pub mod error;
pub mod job_queue;
pub mod login;
pub mod password;
pub mod session;
pub mod session_id;
pub mod table;
pub mod time;
pub mod transactions;
pub mod user;
