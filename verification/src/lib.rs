//! Orchestration core of a Kotlin binding generator: resolving per-component
//! configuration from a raw key-value document, linking package names across
//! the components of a build, and planning the on-disk layout of the emitted
//! binding sources.

use vstd::prelude::*;

pub mod config;
pub mod doc;
pub mod emit;
pub mod link;
pub mod paths;
pub mod resolve;

pub use config::{Config, ConfigError, ConfigKotlinTarget, PackageMap};
pub use doc::{DocTable, DocValue};
pub use emit::{Bindings, WriteAction};
pub use link::{Component, GenerationSettings, InterfaceDescription};

verus! {

/// Entry point of the generator: carries the single process-wide override,
/// the flag that forces Kotlin multiplatform output on for every component.
pub struct KotlinBindingGenerator {
    pub force_multiplatform: bool,
}

impl Default for KotlinBindingGenerator {
    fn default() -> (r: Self)
        ensures
            !r.force_multiplatform,
    {
        Self { force_multiplatform: false }
    }
}

impl KotlinBindingGenerator {
    pub fn new() -> (r: Self)
        ensures
            !r.force_multiplatform,
    {
        Self::default()
    }

    pub fn with_multiplatform(self, enabled: bool) -> (r: Self)
        ensures
            r.force_multiplatform == enabled,
    {
        let mut next = self;
        next.force_multiplatform = enabled;
        next
    }
}

} // verus!
