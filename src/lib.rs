//! Canonical, locale-aware aliases: a sentence built from a locale template
//! and a few fields, folded into a lowercase hyphen-separated slug.
pub mod alias;
pub mod flags;
pub mod locale;
pub mod normalize;
pub mod text;

pub use alias::{compose_raw, create_alias, AliasError};
pub use locale::LocaleTable;
pub use normalize::normalize_unicode;
