//! Package URL support: splitting helpers, and the per-type rules that a purl is
//! validated and canonicalized against.

pub mod bytes;
pub mod error;
pub mod purl;
pub mod share;
pub mod types;
pub mod utils;

pub use error::Error;
pub use purl::PackageUrl;
pub use share::{location_url, share_url};
pub use types::{canonicalize, rules, validate, Namespace, TypeRules};
pub use utils::{cut, rcut, to_lowercase};
pub mod laws;
