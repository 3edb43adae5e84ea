//! The configuration of the generator.

use crate::java::pom::Dependency;
use vstd::prelude::*;

verus! {

/// The configuration of the generator.
#[derive(Debug, Clone)]
pub struct Config {
    pub java_config: JavaConfig,
}

/// How Java projects are generated: the version of the language and what
/// every build descriptor starts with.
#[derive(Debug, Clone)]
pub struct JavaConfig {
    pub jdk_version: String,
    pub pom_parent: Dependency,
    pub pom_dependencies: Vec<Dependency>,
    pub pom_plugins: Vec<Dependency>,
}

} // verus!
