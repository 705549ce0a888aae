//! TypeScript enums and Zod schemas generated from C# enum and record
//! declarations, together with the incremental engine that decides which
//! inputs are rebuilt and which outputs are replaced.

pub mod config;
pub mod csharp_type;
pub mod dto;
pub mod enums;
pub mod header;
pub mod paths;
pub mod patterns;
pub mod plan;
pub mod processor;
pub mod summary;
pub mod table;
pub mod text;
pub mod validation;
pub mod walk;
