//! The closed set of URL schemes this library understands, with its
//! bidirectional string codec.

use vstd::prelude::*;
use vstd::string::*;
use crate::strutil::str_eq;

verus! {

broadcast use vstd::string::group_string_axioms;

/// Supported URL schemes for parsing.
#[derive(Debug, PartialEq, Eq, Clone, Copy, Structural)]
pub enum Scheme {
    /// Represents `file://` url scheme
    File,
    /// Represents `ftp://` url scheme
    Ftp,
    /// Represents `ftps://` url scheme
    Ftps,
    /// Represents `git://` url scheme
    Git,
    /// Represents `git+ssh://` url scheme
    GitSsh,
    /// Represents `http://` url scheme
    Http,
    /// Represents `https://` url scheme
    Https,
    /// Represents `ssh://` url scheme
    Ssh,
    /// Represents no url scheme
    Unspecified,
}

/// The canonical lowercase token of each scheme.
pub open spec fn scheme_token(s: Scheme) -> Seq<char> {
    match s {
        Scheme::File => "file"@,
        Scheme::Ftp => "ftp"@,
        Scheme::Ftps => "ftps"@,
        Scheme::Git => "git"@,
        Scheme::GitSsh => "git+ssh"@,
        Scheme::Http => "http"@,
        Scheme::Https => "https"@,
        Scheme::Ssh => "ssh"@,
        Scheme::Unspecified => "unspecified"@,
    }
}

/// Decoding of a token: the scheme whose canonical token it is, if any.
pub open spec fn scheme_decode(t: Seq<char>) -> Option<Scheme> {
    if t == "file"@ {
        Some(Scheme::File)
    } else if t == "ftp"@ {
        Some(Scheme::Ftp)
    } else if t == "ftps"@ {
        Some(Scheme::Ftps)
    } else if t == "git"@ {
        Some(Scheme::Git)
    } else if t == "git+ssh"@ {
        Some(Scheme::GitSsh)
    } else if t == "http"@ {
        Some(Scheme::Http)
    } else if t == "https"@ {
        Some(Scheme::Https)
    } else if t == "ssh"@ {
        Some(Scheme::Ssh)
    } else if t == "unspecified"@ {
        Some(Scheme::Unspecified)
    } else {
        None
    }
}

/// Failure of decoding a scheme token.
#[derive(Debug)]
#[non_exhaustive]
pub struct FromStrError {
    pub kind: FromStrErrorKind,
}

/// The kinds of scheme-decoding failure.
#[derive(Debug)]
pub enum FromStrErrorKind {
    /// The token matches no canonical scheme token.
    #[non_exhaustive]
    UnsupportedScheme(String),
}

impl Scheme {
    /// Decodes a token into the scheme it canonically names; a token outside
    /// the closed set is rejected, carried back inside the error.
    pub fn from_token(t: &str) -> (r: Result<Scheme, FromStrError>)
        ensures
            match r {
                Ok(s) => scheme_decode(t@) == Some(s),
                Err(e) => {
                    &&& scheme_decode(t@) is None
                    &&& e.kind matches FromStrErrorKind::UnsupportedScheme(u) && u@ == t@
                },
            },
    {
        if str_eq(t, "file") {
            Ok(Scheme::File)
        } else if str_eq(t, "ftp") {
            Ok(Scheme::Ftp)
        } else if str_eq(t, "ftps") {
            Ok(Scheme::Ftps)
        } else if str_eq(t, "git") {
            Ok(Scheme::Git)
        } else if str_eq(t, "git+ssh") {
            Ok(Scheme::GitSsh)
        } else if str_eq(t, "http") {
            Ok(Scheme::Http)
        } else if str_eq(t, "https") {
            Ok(Scheme::Https)
        } else if str_eq(t, "ssh") {
            Ok(Scheme::Ssh)
        } else if str_eq(t, "unspecified") {
            Ok(Scheme::Unspecified)
        } else {
            Err(FromStrError {
                kind: FromStrErrorKind::UnsupportedScheme(String::from_str(t)),
            })
        }
    }

    /// Encodes the scheme as its canonical token; total, never fails.
    pub fn token(&self) -> (r: String)
        ensures
            r@ == scheme_token(*self),
    {
        match self {
            Scheme::File => String::from_str("file"),
            Scheme::Ftp => String::from_str("ftp"),
            Scheme::Ftps => String::from_str("ftps"),
            Scheme::Git => String::from_str("git"),
            Scheme::GitSsh => String::from_str("git+ssh"),
            Scheme::Http => String::from_str("http"),
            Scheme::Https => String::from_str("https"),
            Scheme::Ssh => String::from_str("ssh"),
            Scheme::Unspecified => String::from_str("unspecified"),
        }
    }
}

impl core::str::FromStr for Scheme {
    type Err = FromStrError;

    fn from_str(s: &str) -> Result<Scheme, FromStrError> {
        Scheme::from_token(s)
    }
}

/// Law: the codec round-trips — decoding the canonical token of any supported
/// scheme yields that same scheme.
pub proof fn lemma_scheme_codec_round_trip(s: Scheme)
    ensures
        scheme_decode(scheme_token(s)) == Some(s),
{
    reveal_strlit("file");
    reveal_strlit("ftp");
    reveal_strlit("ftps");
    reveal_strlit("git");
    reveal_strlit("git+ssh");
    reveal_strlit("http");
    reveal_strlit("https");
    reveal_strlit("ssh");
    reveal_strlit("unspecified");
    assert("file"@.len() == 4);
    assert("ftp"@.len() == 3);
    assert("ftps"@.len() == 4);
    assert("git"@.len() == 3);
    assert("git+ssh"@.len() == 7);
    assert("http"@.len() == 4);
    assert("https"@.len() == 5);
    assert("ssh"@.len() == 3);
    assert("unspecified"@.len() == 11);
    assert("file"@[0] == 'f' && "file"@[1] == 'i');
    assert("ftp"@[0] == 'f' && "ftp"@[1] == 't');
    assert("ftps"@[0] == 'f' && "ftps"@[1] == 't');
    assert("git"@[0] == 'g');
    assert("http"@[0] == 'h');
    assert("ssh"@[0] == 's');
    match s {
        Scheme::File => assert(scheme_decode("file"@) == Some(Scheme::File)),
        Scheme::Ftp => assert(scheme_decode("ftp"@) == Some(Scheme::Ftp)),
        Scheme::Ftps => assert(scheme_decode("ftps"@) == Some(Scheme::Ftps)),
        Scheme::Git => assert(scheme_decode("git"@) == Some(Scheme::Git)),
        Scheme::GitSsh => assert(scheme_decode("git+ssh"@) == Some(Scheme::GitSsh)),
        Scheme::Http => assert(scheme_decode("http"@) == Some(Scheme::Http)),
        Scheme::Https => assert(scheme_decode("https"@) == Some(Scheme::Https)),
        Scheme::Ssh => assert(scheme_decode("ssh"@) == Some(Scheme::Ssh)),
        Scheme::Unspecified => assert(scheme_decode("unspecified"@) == Some(Scheme::Unspecified)),
    }
}

} // verus!
