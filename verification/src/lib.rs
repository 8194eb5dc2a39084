pub mod canon;
pub mod giturl;
pub mod scheme;
pub mod strutil;

pub use giturl::{FromStrError, FromStrErrorKind, GitUrl};

pub use canon::{
    CanonicalUrl, NormalizeUrlError, NormalizeUrlErrorKind, UrlParseErrKind, normalize_url,
    string_contains_asperand_before_colon,
};
pub use scheme::Scheme;
