//! The normalizer: maps raw text into the canonical intermediate URL, with
//! the trusted boundary to the generic URL parser.

use vstd::prelude::*;
use vstd::string::*;
use crate::scheme::{Scheme, scheme_decode, scheme_token, lemma_scheme_codec_round_trip};
use crate::strutil::{
    contains_char, contains_seq, contains_str, find_char, index_of_first, replace_git_short,
    replace_git_short_str, split_seq, split_str, starts_with, str_eq, trim_end_char,
    trim_end_char_str, lemma_concat_no_char, lemma_split_seq_no_char, lemma_trim_end_keeps_prefix,
    lemma_trim_end_no_char,
};

verus! {

broadcast use vstd::string::group_string_axioms;

/// Spec-level image of a canonical URL: its parts as character sequences.
pub struct UrlV {
    pub scheme: Seq<char>,
    pub host: Option<Seq<char>>,
    pub user: Seq<char>,
    pub token: Option<Seq<char>>,
    pub port: Option<u16>,
    pub path: Seq<char>,
}

/// The canonical intermediate URL that normalization produces: scheme token,
/// optional host, userinfo, optional port, and path, all as plain values.
#[derive(Debug, Clone, PartialEq, Eq)]
pub struct CanonicalUrl {
    /// The scheme token, lower case, without the `:` delimiter.
    pub scheme: String,
    /// The host, if the URL has an authority with one.
    pub host: Option<String>,
    /// The username part of the userinfo; empty when absent.
    pub user: String,
    /// The password part of the userinfo, if present.
    pub token: Option<String>,
    /// The port, if one is present and not the scheme's default.
    pub port: Option<u16>,
    /// The path part.
    pub path: String,
}

impl View for CanonicalUrl {
    type V = UrlV;

    open spec fn view(&self) -> UrlV {
        UrlV {
            scheme: self.scheme@,
            host: match self.host {
                Some(h) => Some(h@),
                None => None,
            },
            user: self.user@,
            token: match self.token {
                Some(t) => Some(t@),
                None => None,
            },
            port: self.port,
            path: self.path@,
        }
    }
}

/// How this library reads the generic parser's failure: the one diagnostic
/// its control flow turns on, against all others.
#[derive(Debug, Clone, Copy, PartialEq, Eq, Structural)]
pub enum UrlParseErrKind {
    /// The text has no scheme and cannot stand as a relative reference
    /// without a base.
    RelativeUrlWithoutBase,
    /// Any other diagnostic of the generic parser.
    Other,
}

/// What the generic URL parser makes of a text: its canonical URL, or the
/// kind of its refusal. The outcome depends on the text alone.
pub uninterp spec fn url_parse_of(s: Seq<char>) -> Result<UrlV, UrlParseErrKind>;

/// Relies on url::Url::parse for the generic URL parse, reading the parts
/// out through the accessors scheme, host_str, username, password, port and
/// path. A text that begins with a scheme head such as `ssh:` or `file:` can
/// only parse with that scheme, since the parser takes the scheme to be the
/// text before the first colon, lower-cased. A URL with a host has an
/// authority, after which the serialized path is empty or begins with `/`.
#[verifier::external_body]
fn url_parse(s: &str) -> (r: Result<CanonicalUrl, UrlParseErrKind>)
    ensures
        match r {
            Ok(u) => url_parse_of(s@) == Ok::<UrlV, UrlParseErrKind>(u@),
            Err(e) => url_parse_of(s@) == Err::<UrlV, UrlParseErrKind>(e),
        },
        r matches Ok(u) ==> ((s@.len() >= 4 && s@.subrange(0, 4) == "ssh:"@) ==> u@.scheme
            == "ssh"@),
        r matches Ok(u) ==> ((s@.len() >= 5 && s@.subrange(0, 5) == "file:"@) ==> u@.scheme
            == "file"@),
        r matches Ok(u) ==> (u@.host is Some ==> u@.path.len() == 0 || u@.path[0] == '/'),
{
    match url::Url::parse(s) {
        Ok(u) => Ok(CanonicalUrl {
            scheme: u.scheme().to_string(),
            host: u.host_str().map(|h| h.to_string()),
            user: u.username().to_string(),
            token: u.password().map(|p| p.to_string()),
            port: u.port(),
            path: u.path().to_string(),
        }),
        Err(url::ParseError::RelativeUrlWithoutBase) => Err(UrlParseErrKind::RelativeUrlWithoutBase),
        Err(_) => Err(UrlParseErrKind::Other),
    }
}

/// Relies on url::Url::from_file_path, read out through the same accessors:
/// it refuses a non-absolute path, and any URL it yields is built as
/// `file://` plus host and a rooted path, with no userinfo and no port.
#[verifier::external_body]
fn url_from_file_path(s: &str) -> (r: Option<CanonicalUrl>)
    ensures
        r matches Some(u) ==> u@.scheme == "file"@,
        r matches Some(u) ==> (u@.user == Seq::<char>::empty() && u@.token is None && u@.port
            is None),
        r matches Some(u) ==> (u@.path.len() == 0 || u@.path[0] == '/'),
{
    match url::Url::from_file_path(s) {
        Ok(u) => Some(CanonicalUrl {
            scheme: u.scheme().to_string(),
            host: u.host_str().map(|h| h.to_string()),
            user: u.username().to_string(),
            token: u.password().map(|p| p.to_string()),
            port: u.port(),
            path: u.path().to_string(),
        }),
        Err(()) => None,
    }
}

/// Failure of normalization.
#[derive(Debug)]
#[non_exhaustive]
pub struct NormalizeUrlError {
    pub kind: NormalizeUrlErrorKind,
}

/// The kinds of normalization failure.
#[derive(Debug)]
pub enum NormalizeUrlErrorKind {
    /// The input held a null byte.
    #[non_exhaustive]
    NullBytes,
    /// The generic parser refused the text; its diagnostic is kept as cause.
    #[non_exhaustive]
    UrlParse(UrlParseErrKind),
    /// The text split on `:` into neither two nor three parts.
    #[non_exhaustive]
    UnsupportedSshPattern { url: String },
    /// The scheme is outside the supported set.
    #[non_exhaustive]
    UnsupportedScheme,
}

/// Spec-level image of a normalization failure.
pub enum NormErrV {
    NullBytes,
    UrlParse(UrlParseErrKind),
    UnsupportedSshPattern(Seq<char>),
    UnsupportedScheme,
}

impl View for NormalizeUrlErrorKind {
    type V = NormErrV;

    open spec fn view(&self) -> NormErrV {
        match self {
            NormalizeUrlErrorKind::NullBytes => NormErrV::NullBytes,
            NormalizeUrlErrorKind::UrlParse(e) => NormErrV::UrlParse(*e),
            NormalizeUrlErrorKind::UnsupportedSshPattern { url } => {
                NormErrV::UnsupportedSshPattern(url@)
            },
            NormalizeUrlErrorKind::UnsupportedScheme => NormErrV::UnsupportedScheme,
        }
    }
}

impl View for NormalizeUrlError {
    type V = NormErrV;

    open spec fn view(&self) -> NormErrV {
        self.kind@
    }
}

/// The failure of normalization, in words.
pub open spec fn normalize_error_message(e: NormErrV) -> Seq<char> {
    match e {
        NormErrV::NullBytes => "input URL contains null bytes"@,
        NormErrV::UrlParse(_) => "unable to parse URL"@,
        NormErrV::UnsupportedSshPattern(url) => "unsupported SSH pattern `"@ + url + "`"@,
        NormErrV::UnsupportedScheme => "unsupported URL scheme"@,
    }
}

impl NormalizeUrlError {
    /// The failure in words, as a printable line.
    pub fn message(&self) -> (r: String)
        ensures
            r@ == normalize_error_message(self@),
    {
        match &self.kind {
            NormalizeUrlErrorKind::NullBytes => String::from_str("input URL contains null bytes"),
            NormalizeUrlErrorKind::UrlParse(_) => String::from_str("unable to parse URL"),
            NormalizeUrlErrorKind::UnsupportedSshPattern { url } => String::from_str(
                "unsupported SSH pattern `",
            ).concat(url.as_str()).concat("`"),
            NormalizeUrlErrorKind::UnsupportedScheme => String::from_str("unsupported URL scheme"),
        }
    }
}

/// A normalization result seen at the spec level.
pub open spec fn norm_result_view(r: Result<CanonicalUrl, NormalizeUrlError>) -> Result<
    UrlV,
    NormErrV,
> {
    match r {
        Ok(c) => Ok(c@),
        Err(e) => Err(e@),
    }
}

/// Whether the trimmed text uses the short `git:` notation: a `git:` head
/// whose next character, if any, is not `/`.
pub open spec fn git_short_form(t: Seq<char>) -> bool {
    t.len() >= 4 && t.subrange(0, 4) == "git:"@ && !(t.len() >= 5 && t[4] == '/')
}

/// The text as handed to the generic parser: under the short `git:`
/// notation, every `git:` rewritten to `git://`; otherwise unchanged.
pub open spec fn to_parse_of(t: Seq<char>) -> Seq<char> {
    if git_short_form(t) {
        replace_git_short(t)
    } else {
        t
    }
}

/// Whether the first `@` of the text precedes its first `:`.
pub open spec fn asperand_before_colon(s: Seq<char>) -> bool {
    match (index_of_first(s, '@'), index_of_first(s, ':')) {
        (Some(a), Some(b)) => a < b,
        _ => false,
    }
}

/// The authority form composed from colon-separated ssh shorthand: two parts
/// give `ssh://host/path`, three give `ssh://host:port/path`.
pub open spec fn ssh_composed(t: Seq<char>) -> Option<Seq<char>> {
    let parts = split_seq(t, ':');
    if parts.len() == 2 {
        Some("ssh://"@ + parts[0] + "/"@ + parts[1])
    } else if parts.len() == 3 {
        Some("ssh://"@ + parts[0] + ":"@ + parts[1] + "/"@ + parts[2])
    } else {
        None
    }
}

/// Normalization of an already-composed authority-form text, as the full
/// normalization pipeline would treat it: the null-byte check first, then
/// trailing slashes trimmed, then the generic parse, whose refusal is kept
/// as cause.
pub open spec fn composed_norm(s: Seq<char>) -> Result<UrlV, NormErrV> {
    if s.contains('\0') {
        Err(NormErrV::NullBytes)
    } else {
        match url_parse_of(trim_end_char(s, '/')) {
            Ok(u) => Ok(u),
            Err(e) => Err(NormErrV::UrlParse(e)),
        }
    }
}

/// Normalization through the ssh-shorthand route: the composed authority
/// form normalized, or the refusal of the shorthand pattern.
pub open spec fn ssh_norm_spec(t: Seq<char>) -> Result<UrlV, NormErrV> {
    match ssh_composed(t) {
        Some(s) => composed_norm(s),
        None => Err(NormErrV::UnsupportedSshPattern(t)),
    }
}

/// A null-free shorthand text composes to a null-free authority form, so
/// the shorthand route never reports null bytes for it.
proof fn lemma_ssh_norm_no_null(t: Seq<char>)
    requires
        !t.contains('\0'),
    ensures
        !(ssh_norm_spec(t) matches Err(e) && e is NullBytes),
{
    reveal_strlit("ssh://");
    reveal_strlit("/");
    reveal_strlit(":");
    assert(!"ssh://"@.contains('\0'));
    assert(!"/"@.contains('\0'));
    assert(!":"@.contains('\0'));
    lemma_split_seq_no_char(t, ':', '\0');
    let parts = split_seq(t, ':');
    if parts.len() == 2 {
        lemma_concat_no_char("ssh://"@, parts[0], '\0');
        lemma_concat_no_char("ssh://"@ + parts[0], "/"@, '\0');
        lemma_concat_no_char("ssh://"@ + parts[0] + "/"@, parts[1], '\0');
    } else if parts.len() == 3 {
        lemma_concat_no_char("ssh://"@, parts[0], '\0');
        lemma_concat_no_char("ssh://"@ + parts[0], ":"@, '\0');
        lemma_concat_no_char("ssh://"@ + parts[0] + ":"@, parts[1], '\0');
        lemma_concat_no_char("ssh://"@ + parts[0] + ":"@ + parts[1], "/"@, '\0');
        lemma_concat_no_char("ssh://"@ + parts[0] + ":"@ + parts[1] + "/"@, parts[2], '\0');
    }
}

/// A null-free text keeps the `file://` fallback free of null bytes too.
proof fn lemma_file_fallback_no_null(t: Seq<char>)
    requires
        !t.contains('\0'),
    ensures
        !(composed_norm("file://"@ + t) matches Err(e) && e is NullBytes),
{
    reveal_strlit("file://");
    assert(!"file://"@.contains('\0'));
    lemma_concat_no_char("file://"@, t, '\0');
}

/// Whether the first `@` of the string comes before its first `:`; the
/// heuristic that tells ssh shorthand from a local path.
pub fn string_contains_asperand_before_colon(s: &str) -> (r: bool)
    ensures
        r == asperand_before_colon(s@),
{
    let a = find_char(s, '@');
    let b = find_char(s, ':');
    match (a, b) {
        (Some(x), Some(y)) => x < y,
        _ => false,
    }
}

/// Normalizes a composed authority-form text (one starting `ssh:` or
/// `file:`) as the full pipeline would: refuses null bytes, trims trailing
/// slashes and hands it to the generic parser.
fn normalize_composed(s: &str) -> (r: Result<CanonicalUrl, NormalizeUrlError>)
    requires
        (s@.len() >= 4 && s@.subrange(0, 4) == "ssh:"@) || (s@.len() >= 5 && s@.subrange(0, 5)
            == "file:"@),
    ensures
        norm_result_view(r) == composed_norm(s@),
        (s@.len() >= 4 && s@.subrange(0, 4) == "ssh:"@) ==> (r matches Ok(c) ==> c@.scheme
            == "ssh"@),
        (s@.len() >= 5 && s@.subrange(0, 5) == "file:"@) ==> (r matches Ok(c) ==> c@.scheme
            == "file"@),
        r matches Ok(c) ==> (c@.host is Some ==> c@.path.len() == 0 || c@.path[0] == '/'),
{
    if contains_char(s, '\0') {
        return Err(NormalizeUrlError { kind: NormalizeUrlErrorKind::NullBytes });
    }
    proof {
        reveal_strlit("ssh:");
        reveal_strlit("file:");
        if s@.len() >= 4 && s@.subrange(0, 4) == "ssh:"@ {
            assert(s@.subrange(0, 4)[3] == s@[3]);
            assert(s@[3] == ':');
            lemma_trim_end_keeps_prefix(s@, '/', 4);
            assert(trim_end_char(s@, '/').subrange(0, 4) == "ssh:"@);
        } else {
            assert(s@.subrange(0, 5)[4] == s@[4]);
            assert(s@[4] == ':');
            lemma_trim_end_keeps_prefix(s@, '/', 5);
            assert(trim_end_char(s@, '/').subrange(0, 5) == "file:"@);
        }
    }
    let t = trim_end_char_str(s, '/');
    match url_parse(t) {
        Ok(c) => Ok(c),
        Err(e) => Err(NormalizeUrlError { kind: NormalizeUrlErrorKind::UrlParse(e) }),
    }
}

/// Rewrites colon-separated ssh shorthand (`host:path`, or `host:port:path`)
/// to an explicit `ssh://` URL and normalizes it; any other colon count is
/// an unsupported ssh pattern.
pub(crate) fn normalize_ssh_url(url: &str) -> (r: Result<CanonicalUrl, NormalizeUrlError>)
    ensures
        norm_result_view(r) == ssh_norm_spec(url@),
        r matches Ok(c) ==> c@.scheme == "ssh"@,
        r matches Ok(c) ==> (c@.host is Some ==> c@.path.len() == 0 || c@.path[0] == '/'),
{
    proof {
        reveal_strlit("ssh://");
        reveal_strlit("ssh:");
        reveal_strlit("/");
        reveal_strlit(":");
    }
    let parts = split_str(url, ':');
    if parts.len() == 2 {
        let composed = String::from_str("ssh://").concat(parts[0].as_str()).concat("/").concat(
            parts[1].as_str(),
        );
        proof {
            assert(composed@ =~= "ssh://"@ + parts.deep_view()[0] + "/"@ + parts.deep_view()[1]);
            assert(composed@.subrange(0, 4) =~= "ssh:"@);
        }
        normalize_composed(composed.as_str())
    } else if parts.len() == 3 {
        let composed = String::from_str("ssh://").concat(parts[0].as_str()).concat(":").concat(
            parts[1].as_str(),
        ).concat("/").concat(parts[2].as_str());
        proof {
            assert(composed@ =~= "ssh://"@ + parts.deep_view()[0] + ":"@ + parts.deep_view()[1]
                + "/"@ + parts.deep_view()[2]);
            assert(composed@.subrange(0, 4) =~= "ssh:"@);
        }
        normalize_composed(composed.as_str())
    } else {
        Err(NormalizeUrlError {
            kind: NormalizeUrlErrorKind::UnsupportedSshPattern { url: String::from_str(url) },
        })
    }
}

/// Converts a local filesystem path to a `file` URL through the platform
/// conversion; a path it refuses falls back to prefixing `file://` and
/// normalizing that. Either the platform conversion decided (then the URL
/// carries no userinfo and no port), or the result is exactly that of the
/// fallback; any URL produced carries the scheme `file`.
fn normalize_file_path(filepath: &str) -> (r: Result<CanonicalUrl, NormalizeUrlError>)
    ensures
        r matches Ok(c) ==> c@.scheme == "file"@,
        r matches Ok(c) ==> (c@.host is Some ==> c@.path.len() == 0 || c@.path[0] == '/'),
        (r matches Ok(c) && c@.user == Seq::<char>::empty() && c@.token is None && c@.port
            is None && (c@.path.len() == 0 || c@.path[0] == '/')) || norm_result_view(r)
            == composed_norm("file://"@ + filepath@),
{
    match url_from_file_path(filepath) {
        Some(c) => Ok(c),
        None => {
            proof {
                reveal_strlit("file://");
                reveal_strlit("file:");
            }
            let composed = String::from_str("file://").concat(filepath);
            proof {
                assert(composed@ =~= "file://"@ + filepath@);
                assert(composed@.subrange(0, 5) =~= "file:"@);
            }
            normalize_composed(composed.as_str())
        },
    }
}

/// Maps a raw string into the canonical URL representation, resolving the
/// short `git:` notation, ssh shorthand, and bare filesystem paths; a text
/// that declared its scheme with an explicit `://` marker but whose token is
/// outside the supported set is refused. Exact on every route but the
/// platform path conversion, of which it still holds that any URL produced
/// carries the `file` scheme. Any URL produced has a decodable scheme token.
pub fn normalize_url(url: &str) -> (r: Result<CanonicalUrl, NormalizeUrlError>)
    ensures
        url@.contains('\0') <==> (r matches Err(e) && e@ is NullBytes),
        r matches Ok(c) ==> scheme_decode(c@.scheme) is Some,
        r matches Ok(c) ==> (c@.host is Some ==> c@.path.len() == 0 || c@.path[0] == '/'),
        !url@.contains('\0') ==> {
            let t = trim_end_char(url@, '/');
            match url_parse_of(to_parse_of(t)) {
                Ok(u) => {
                    if scheme_decode(u.scheme) is Some {
                        r matches Ok(c) && c@ == u
                    } else if contains_seq(t, "://"@) {
                        r matches Err(x) && x@ == NormErrV::UnsupportedScheme
                    } else {
                        norm_result_view(r) == ssh_norm_spec(t)
                    }
                },
                Err(UrlParseErrKind::RelativeUrlWithoutBase) => {
                    if asperand_before_colon(t) {
                        norm_result_view(r) == ssh_norm_spec(t)
                    } else {
                        (r matches Ok(c) ==> c@.scheme == "file"@) && ((r matches Ok(c)
                            && c@.user == Seq::<char>::empty() && c@.token is None && c@.port
                            is None && (c@.path.len() == 0 || c@.path[0] == '/'))
                            || norm_result_view(r) == composed_norm("file://"@ + t))
                    }
                },
                Err(e) => r matches Err(x) && x@ == NormErrV::UrlParse(e),
            }
        },
{
    if contains_char(url, '\0') {
        return Err(NormalizeUrlError { kind: NormalizeUrlErrorKind::NullBytes });
    }
    proof {
        reveal_strlit("git:");
    }
    let trimmed = trim_end_char_str(url, '/');
    let gs = starts_with(trimmed, "git:");
    let n_t = trimmed.unicode_len();
    let git_short = gs && !(n_t >= 5 && trimmed.get_char(4) == '/');
    proof {
        assert(git_short == git_short_form(trimmed@));
    }
    let to_parse: String = if git_short {
        replace_git_short_str(trimmed)
    } else {
        String::from_str(trimmed)
    };
    let r = match url_parse(to_parse.as_str()) {
        Ok(c) => {
            match Scheme::from_token(c.scheme.as_str()) {
                Ok(_) => Ok(c),
                Err(_) => {
                    if contains_str(trimmed, "://") {
                        Err(NormalizeUrlError { kind: NormalizeUrlErrorKind::UnsupportedScheme })
                    } else {
                        normalize_ssh_url(trimmed)
                    }
                },
            }
        },
        Err(UrlParseErrKind::RelativeUrlWithoutBase) => {
            if string_contains_asperand_before_colon(trimmed) {
                normalize_ssh_url(trimmed)
            } else {
                normalize_file_path(trimmed)
            }
        },
        Err(e) => Err(NormalizeUrlError { kind: NormalizeUrlErrorKind::UrlParse(e) }),
    };
    proof {
        if r is Ok {
            lemma_scheme_codec_round_trip(Scheme::Ssh);
            lemma_scheme_codec_round_trip(Scheme::File);
            assert(scheme_token(Scheme::Ssh) == "ssh"@);
            assert(scheme_token(Scheme::File) == "file"@);
        }
        if !url@.contains('\0') {
            lemma_trim_end_no_char(url@, '/', '\0');
            lemma_ssh_norm_no_null(trim_end_char(url@, '/'));
            lemma_file_fallback_no_null(trim_end_char(url@, '/'));
        }
    }
    r
}

} // verus!
