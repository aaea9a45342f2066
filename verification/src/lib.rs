//! Verified core of a small organiser backend.
//!
//! Three resources — todos, notes and calendar events — are validated on
//! write and kept in a document store, modelled here as an in-memory
//! collection per resource. Each service exposes list / create / update /
//! delete plus one resource-specific field patch, and maps its errors to
//! HTTP statuses. Identifiers are 12-byte values parsed from 24-character
//! hexadecimal strings; timestamps are written as RFC 3339 text.

#![verifier::loop_isolation(false)]

pub mod calendar;
pub mod calendar_service;
pub mod config;
pub mod document;
pub mod http;
pub mod note;
pub mod notes_service;
pub mod oid;
pub mod time;
pub mod todo;
pub mod todo_service;
pub mod validation;
