//! Quiz-content backend core: categories and questions with choices, kept in a
//! relational store.  This crate holds the verified data-access layer: the
//! pagination calculator, the domain model with its validation rule, the
//! storage error taxonomy with its translation into the external error shape,
//! and the category / question store operations expressed over an explicit
//! table model.  The thin transport adapter and the live database driver sit
//! outside the crate and call into it with plain values.

pub mod apigateway;
pub mod models;
pub mod repositories;
pub mod responses;
pub mod sql;
pub mod text;
