//! The content-addressed provider.

pub mod modrinth;
