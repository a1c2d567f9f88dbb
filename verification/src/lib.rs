//! A local, declarative apply/rollback engine for provisioning actions.
//!
//! A caller describes a desired end state as an ordered list of discrete,
//! independently reversible steps ("shifts"), executes them in order, and
//! automatically undoes the effects of any steps that already succeeded if a
//! later step fails, giving all-or-nothing semantics over an otherwise
//! non-transactional set of filesystem and process operations.
//!
//! The engine works over an explicit [`world::World`] value that models the
//! ambient state a plan reads and mutates: the file tree, the outcomes of
//! external command invocations, and the record of commands run so far.
//! Every decision the engine makes — sequencing, compensating rollback,
//! failure aggregation — is verified against the specification functions in
//! [`model`].

pub mod errors;
pub mod github;
pub mod laws;
pub mod model;
pub mod plan;
pub mod shift;
pub mod text;
pub mod world;
