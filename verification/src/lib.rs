//! A SQL migration connector: it works out what has to change in a live database to make it
//! match a target schema, which of the changes lose data, and how each backend is told to make
//! them. The library decides and never touches a database: callers execute what it hands out.
//!
//! - [`schema`]: snapshots of a database's schema.
//! - [`features`], [`flavour`], [`identifier`]: what sets the backends apart.
//! - [`differ`]: from two snapshots to an ordered plan; [`ordering`] and [`convergence`] state
//!   what holds of every plan, over the model of a database in [`model`] and [`effects`].
//! - [`checker`]: which steps of a plan lose data.
//! - [`render`], [`text`]: the SQL for each step.
//! - [`history`], [`statements`], [`replay`]: the migration history and its replay on a shadow
//!   database.
//! - [`apply`], [`connector`]: applying a plan, and the operations of the connector under its
//!   lock.
//! - [`read`]: the read query AST.
pub mod apply;
pub mod checker;
pub mod connector;
pub mod convergence;
pub mod differ;
pub mod effects;
pub mod error;
pub mod features;
pub mod flavour;
pub mod history;
pub mod identifier;
pub mod model;
pub mod ordering;
pub mod read;
pub mod render;
pub mod replay;
pub mod schema;
pub mod statements;
pub mod text;

