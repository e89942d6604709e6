//! Scheduling of lessons.
//!
//! A lesson has a title, a description, teachers, and rules that say when it
//! occurs: once, daily, weekly or monthly. Accounts are granted read or
//! read-write access to lessons. The store keeps lessons, rules, links to
//! teachers and grants in tables, and every operation of a lesson changes all
//! of them together or none.
//!
//! - [`calendar`]: dates and times of day, day numbers and weekdays.
//! - [`repeat`]: the four kinds of rule, when each occurs, and their tables.
//! - [`table`]: rows that belong to lessons.
//! - [`transaction`]: the store, its transactions and its constraints.
//! - [`permission`]: grants and levels of access.
//! - [`lesson`]: creating, reading, updating and deleting a lesson, and
//!   resolving a date to the lessons that occur on it.
//! - [`laws`]: what holds of the store across several operations.
//! - [`authentication`]: the stage that lets only authenticated requests pass.
//! - [`access`]: the operations of a lesson on behalf of an authenticated
//!   account.

pub mod access;
pub mod account;
pub mod authentication;
pub mod calendar;
pub mod error;
pub mod laws;
pub mod lesson;
pub mod permission;
pub mod repeat;
pub mod table;
pub mod teacher;
pub mod transaction;
