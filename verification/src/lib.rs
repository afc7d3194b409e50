//! Resolution of a build identifier (a name-version-release string) into a
//! normalized build record.
//!
//! The library holds the logic that is worth stating precisely: validating an
//! untrusted identifier before it reaches a subprocess argument or a URL,
//! decomposing an identifier into its name, version and release components,
//! and scraping the line-oriented text report of the external build system
//! into a structured record. The surrounding service (listening, routing,
//! invoking the external tool) stays outside.

pub mod errors;
pub mod nvr;
pub mod report;
pub mod scrape;
pub mod text;
pub mod validate;

pub use errors::{DecompositionError, ScrapeError, ValidationError};
pub use nvr::{get_kojipkgs_url_prefix, split_nvr};
pub use scrape::{scrape_koji_cli, ArchRpms, KojiBuildInfo};
pub use validate::{validate_buildid, ValidatedBuildId};
