//! Schema graphs for network API definitions: nodes held in an arena,
//! a mapping from type descriptors to nodes, reference escaping, the
//! unconstrained-type lint, the resolver and security scheme descriptors.

pub mod model;
pub mod typed;
pub mod escape;
pub mod mapper;
pub mod any;
pub mod resolve;
pub mod security;
pub mod declare;
pub mod operation;
