//! Compiles declarative virtual-machine provisioning descriptors: merges YAML
//! fragments, resolves their template expressions to a fixed point, decodes
//! the result against a closed-world schema, looks virtual machines up by
//! hostname, and derives stable identifiers for cluster resources.

pub mod ident;
pub mod text;
pub mod sources;
pub mod resolve;
pub mod yaml;
pub mod schema;
