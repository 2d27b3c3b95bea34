//! Local development environments: the package names of a project's
//! dependencies, the environment its processes run in, and the supervision of
//! its long-running services.

pub mod package;
pub mod table;
pub mod model;
pub mod selection;
pub mod runner;
pub mod supervisor;
pub mod output;
pub mod environ;
pub mod paths;
pub mod project;
pub mod shell;
