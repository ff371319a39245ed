//! Building changelogs from fragments.
//!
//! # Terminology
//!
//! ## Changelogs
//!
//! *Changelogs* are files which document all notable changes between project versions.
//! Each version of the project has its own *entry* in the changelog.
//!
//! ## Fragments
//!
//! *Fragments* are small pieces of information, which, combined together, form changelog *entries*.
//!
//! Fragments contain three things:
//!
//! - *id*, usually bound to something like *pull requests*;
//! - *type*, for instance *change* or *feature*;
//! - *content*, which gets written to the changelog.
//!
//! Fragments are files which have names starting with `{id}.{type}` and contain
//! fragment contents.
//!
//! ## Entries
//!
//! *Entries* describe changes between project versions. They are composed of *sections*.
//!
//! ## Sections
//!
//! *Sections* group and describe specific changes, e.g. *features*, *fixes*, *deprecations*, etc.
//!
//! # Overview
//!
//! This library reads and writes no files. It is handed the names of the
//! files found in the fragments directory and what they hold, and what the
//! changelog holds, and returns what is to be written.
//!
//! - [`fragment`] parses names into fragments; [`sorting`] orders them, and
//!   [`sections`] groups them.
//! - [`builder`] renders titles and fragments with the templates of the
//!   configuration, wraps them and composes entries; [`changelog`] writes
//!   entries into changelogs.
//! - [`config`], [`options`], [`context`], [`workspace`] and [`date`] hold
//!   what the builder is made of; [`create`] makes new fragments.
//! - [`engine`] holds what is believed of the template engine, and
//!   [`inclusion`] tells which templates it can render without the risk of
//!   including each other without end; [`outside`] holds the types of the
//!   standard library that errors carry; [`text`], [`table`] and [`list`]
//!   are what the rest is built on.

pub mod builder;
pub mod changelog;
pub mod config;
pub mod context;
pub mod create;
pub mod date;
pub mod engine;
pub mod fragment;
pub mod inclusion;
pub mod list;
pub mod options;
pub mod outside;
pub mod sections;
pub mod sorting;
pub mod table;
pub mod text;
pub mod workspace;
