//! The parsed result value: metadata extracted from a git remote URL, the
//! parsing pipeline that produces it, and its canonical string rendering.

use vstd::prelude::*;
use vstd::string::*;
use crate::scheme::{Scheme, scheme_decode, scheme_token};
use crate::canon::{
    CanonicalUrl, NormErrV, NormalizeUrlError, UrlParseErrKind, UrlV,
    asperand_before_colon, composed_norm, normalize_url, ssh_norm_spec, to_parse_of, url_parse_of,
};
use crate::strutil::{
    contains_seq, contains_str, dec_rep, ends_with, filter_nonempty, lemma_nonempty_of_elements,
    nonempty_of, rsplit_terminator_seq, rsplit_terminator_str, split_seq, starts_with, str_eq,
    trim_dot_git, trim_dot_git_str, trim_end_char, u16_to_dec,
};

verus! {

broadcast use vstd::string::group_string_axioms;

/// GitUrl represents an input url that is a url used by git. During parsing
/// the url is sanitized, a generic URL parser performs the majority of the
/// parsing effort, and some extra handling exposes the metadata used by many
/// git hosting services.
#[derive(Debug, PartialEq, Eq, Clone)]
pub struct GitUrl {
    /// The fully qualified domain name (FQDN) or IP of the repo
    pub host: Option<String>,
    /// The name of the repo
    pub name: String,
    /// The owner/account/project name
    pub owner: Option<String>,
    /// The organization name. Supported by Azure DevOps
    pub organization: Option<String>,
    /// The full name of the repo, formatted as "owner/name"
    pub fullname: String,
    /// The git url scheme
    pub scheme: Scheme,
    /// The authentication user
    pub user: Option<String>,
    /// The oauth token (could appear in the https urls)
    pub token: Option<String>,
    /// The non-conventional port where git service is hosted
    pub port: Option<u16>,
    /// The path to repo w/ respect to user + hostname
    pub path: String,
    /// Indicate if url uses the .git suffix
    pub git_suffix: bool,
    /// Indicate if url explicitly uses its scheme
    pub scheme_prefix: bool,
}

/// Spec-level image of a parsed result: its fields as character sequences.
#[verifier::ext_equal]
pub struct GitUrlV {
    pub host: Option<Seq<char>>,
    pub name: Seq<char>,
    pub owner: Option<Seq<char>>,
    pub organization: Option<Seq<char>>,
    pub fullname: Seq<char>,
    pub scheme: Scheme,
    pub user: Option<Seq<char>>,
    pub token: Option<Seq<char>>,
    pub port: Option<u16>,
    pub path: Seq<char>,
    pub git_suffix: bool,
    pub scheme_prefix: bool,
}

impl View for GitUrl {
    type V = GitUrlV;

    open spec fn view(&self) -> GitUrlV {
        GitUrlV {
            host: match self.host {
                Some(h) => Some(h@),
                None => None,
            },
            name: self.name@,
            owner: match self.owner {
                Some(o) => Some(o@),
                None => None,
            },
            organization: match self.organization {
                Some(o) => Some(o@),
                None => None,
            },
            fullname: self.fullname@,
            scheme: self.scheme,
            user: match self.user {
                Some(u) => Some(u@),
                None => None,
            },
            token: match self.token {
                Some(t) => Some(t@),
                None => None,
            },
            port: self.port,
            path: self.path@,
            git_suffix: self.git_suffix,
            scheme_prefix: self.scheme_prefix,
        }
    }
}

/// Failure of parsing a git URL.
#[derive(Debug)]
#[non_exhaustive]
pub struct FromStrError {
    /// The original input.
    pub url: String,
    /// What went wrong.
    pub kind: FromStrErrorKind,
}

/// The kinds of parsing failure.
#[derive(Debug)]
pub enum FromStrErrorKind {
    /// Normalization refused the input; its failure is kept as cause.
    #[non_exhaustive]
    NormalizeUrl(NormalizeUrlError),
    /// No host could be isolated from the canonical URL.
    #[non_exhaustive]
    UrlHost,
    /// The scheme is outside the supported set, or is not supported for the
    /// host's layout.
    #[non_exhaustive]
    UnsupportedScheme,
    /// The path yields no usable repository metadata.
    #[non_exhaustive]
    MalformedGitUrl,
}

/// Spec-level image of a parsing failure kind.
pub enum FromStrKindV {
    NormalizeUrl(NormErrV),
    UrlHost,
    UnsupportedScheme,
    MalformedGitUrl,
}

/// Spec-level image of a parsing failure.
#[verifier::ext_equal]
pub struct FromStrErrV {
    pub url: Seq<char>,
    pub kind: FromStrKindV,
}

impl View for FromStrErrorKind {
    type V = FromStrKindV;

    open spec fn view(&self) -> FromStrKindV {
        match self {
            FromStrErrorKind::NormalizeUrl(e) => FromStrKindV::NormalizeUrl(e@),
            FromStrErrorKind::UrlHost => FromStrKindV::UrlHost,
            FromStrErrorKind::UnsupportedScheme => FromStrKindV::UnsupportedScheme,
            FromStrErrorKind::MalformedGitUrl => FromStrKindV::MalformedGitUrl,
        }
    }
}

impl View for FromStrError {
    type V = FromStrErrV;

    open spec fn view(&self) -> FromStrErrV {
        FromStrErrV { url: self.url@, kind: self.kind@ }
    }
}

/// The hosts whose path layout embeds an organization segment.
pub open spec fn host_with_organization(host: Seq<char>) -> bool {
    host == "dev.azure.com"@ || host == "ssh.dev.azure.com"@
}

/// The owner, organization and fullname derived from the path segments under
/// the host's layout rules; `sp` is the list of non-empty segments, rightmost
/// first, `all_len` the length of the raw right-to-left split (empty pieces
/// included) that the at-least-two-segments demand is made of, and `name`
/// the repository name already stripped of `.git`.
pub open spec fn ownership_spec(
    raw: Seq<char>,
    u: UrlV,
    scheme: Scheme,
    sp: Seq<Seq<char>>,
    all_len: int,
    name: Seq<char>,
) -> Result<(Option<Seq<char>>, Option<Seq<char>>, Seq<char>), FromStrKindV> {
    if scheme == Scheme::File {
        Ok((None, None, name))
    } else {
        match u.host {
            None => Err(FromStrKindV::UrlHost),
            Some(host) => {
                if host_with_organization(host) {
                    if scheme == Scheme::Ssh {
                        if sp.len() >= 3 {
                            Ok(
                                (
                                    Some(sp[1]),
                                    Some(sp[2]),
                                    sp[2] + "/"@ + sp[1] + "/"@ + name,
                                ),
                            )
                        } else {
                            Err(FromStrKindV::MalformedGitUrl)
                        }
                    } else if scheme == Scheme::Https {
                        if sp.len() >= 4 {
                            Ok(
                                (
                                    Some(sp[2]),
                                    Some(sp[3]),
                                    sp[3] + "/"@ + sp[2] + "/"@ + name,
                                ),
                            )
                        } else {
                            Err(FromStrKindV::MalformedGitUrl)
                        }
                    } else {
                        Err(FromStrKindV::UnsupportedScheme)
                    }
                } else {
                    if !(raw.len() >= 3 && raw.subrange(0, 3) == "ssh"@) && all_len < 2 {
                        Err(FromStrKindV::MalformedGitUrl)
                    } else {
                        let position: int = if sp.len() == 1 {
                            0
                        } else {
                            1
                        };
                        Ok((Some(sp[position]), None, sp[position] + "/"@ + name))
                    }
                }
            },
        }
    }
}

/// The path handed to segmentation: for the `ssh` scheme the one leading
/// separator that normalization introduced is dropped.
pub open spec fn seg_path_spec(u: UrlV, scheme: Scheme) -> Seq<char> {
    if scheme == Scheme::Ssh && u.path.len() >= 1 {
        u.path.drop_first()
    } else {
        u.path
    }
}

/// Metadata extraction from a canonical URL, given the raw input text: the
/// full parsed result, or the kind of its refusal.
pub open spec fn extract_spec(raw: Seq<char>, u: UrlV) -> Result<GitUrlV, FromStrKindV> {
    match scheme_decode(u.scheme) {
        None => Err(FromStrKindV::UnsupportedScheme),
        Some(scheme) => {
            let urlpath = seg_path_spec(u, scheme);
            let sp_all = rsplit_terminator_seq(urlpath, '/');
            let sp = nonempty_of(sp_all);
            if sp.len() == 0 {
                Err(FromStrKindV::MalformedGitUrl)
            } else {
                let name = trim_dot_git(sp[0]);
                if name.len() == 0 {
                    Err(FromStrKindV::MalformedGitUrl)
                } else {
                    match ownership_spec(raw, u, scheme, sp, sp_all.len() as int, name) {
                        Err(k) => Err(k),
                        Ok(own) => Ok(
                            GitUrlV {
                                host: if scheme == Scheme::File {
                                    None
                                } else {
                                    u.host
                                },
                                name: name,
                                owner: own.0,
                                organization: own.1,
                                fullname: own.2,
                                scheme: scheme,
                                user: if u.user.len() == 0 {
                                    None
                                } else {
                                    Some(u.user)
                                },
                                token: u.token,
                                port: u.port,
                                path: if scheme == Scheme::File {
                                    match u.host {
                                        Some(h) => h + urlpath,
                                        None => urlpath,
                                    }
                                } else {
                                    urlpath
                                },
                                git_suffix: urlpath.len() >= 4 && urlpath.subrange(
                                    urlpath.len() - 4,
                                    urlpath.len() as int,
                                ) == ".git"@,
                                scheme_prefix: contains_seq(raw, "://"@) || (raw.len() >= 4
                                    && raw.subrange(0, 4) == "git:"@),
                            },
                        ),
                    }
                }
            }
        },
    }
}

/// Clones an optional string.
fn clone_opt_string(o: &Option<String>) -> (r: Option<String>)
    ensures
        match (o, r) {
            (Some(a), Some(b)) => a@ == b@,
            (None, None) => true,
            _ => false,
        },
{
    match o {
        Some(s) => Some(s.clone()),
        None => None,
    }
}

/// A parse result seen at the spec level.
pub open spec fn parse_result_view(r: Result<GitUrl, FromStrError>) -> Result<
    GitUrlV,
    FromStrErrV,
> {
    match r {
        Ok(g) => Ok(g@),
        Err(e) => Err(e@),
    }
}

/// Extraction with its refusal wrapped into the full error, carrying the raw
/// input.
pub open spec fn map_extract(raw: Seq<char>, u: UrlV) -> Result<GitUrlV, FromStrErrV> {
    match extract_spec(raw, u) {
        Ok(g) => Ok(g),
        Err(k) => Err(FromStrErrV { url: raw, kind: k }),
    }
}

/// Parsing through the ssh-shorthand route: extraction from its canonical
/// URL, or the normalization failure wrapped as cause.
pub open spec fn ssh_parse_spec(raw: Seq<char>, t: Seq<char>) -> Result<GitUrlV, FromStrErrV> {
    match ssh_norm_spec(t) {
        Ok(u) => map_extract(raw, u),
        Err(e) => Err(FromStrErrV { url: raw, kind: FromStrKindV::NormalizeUrl(e) }),
    }
}

/// What holds of a parse that went through the local-path route: either the
/// platform path conversion decided, and the result is an extraction from
/// some canonical URL of scheme `file` with a rooted or empty path and
/// without userinfo or port; or the result is exactly that of the `file://`
/// fallback parse, its failure wrapped as cause.
pub open spec fn file_route_spec(raw: Seq<char>, r: Result<GitUrl, FromStrError>) -> bool {
    ||| exists|u: UrlV|
        u.scheme == "file"@ && u.user == Seq::<char>::empty() && u.token is None && u.port is None
            && (u.path.len() == 0 || u.path[0] == '/') && parse_result_view(r)
            == #[trigger] map_extract(raw, u)
    ||| match composed_norm("file://"@ + trim_end_char(raw, '/')) {
        Ok(u2) => parse_result_view(r) == map_extract(raw, u2),
        Err(e) => r matches Err(x) && x@ == (FromStrErrV {
            url: raw,
            kind: FromStrKindV::NormalizeUrl(e),
        }),
    }
}

/// For a canonical URL whose path is rooted (or empty) whenever a host is
/// present — which holds of everything the generic parser or the platform
/// path conversion yields — the `git_suffix` flag of a successful extraction
/// agrees with the reported path: it is set exactly when that path ends in
/// `.git`.
pub proof fn lemma_extract_git_suffix(raw: Seq<char>, u: UrlV)
    requires
        u.host is Some ==> (u.path.len() == 0 || u.path[0] == '/'),
    ensures
        extract_spec(raw, u) matches Ok(g) ==> (g.git_suffix <==> (g.path.len() >= 4
            && g.path.subrange(g.path.len() - 4, g.path.len() as int) == ".git"@)),
{
    reveal_strlit(".git");
    if extract_spec(raw, u) matches Ok(g) {
        let scheme = scheme_decode(u.scheme)->Some_0;
        let urlpath = seg_path_spec(u, scheme);
        if scheme == Scheme::File && u.host is Some {
            let h = u.host->Some_0;
            let p = h + urlpath;
            assert(urlpath == u.path);
            let sp_all = rsplit_terminator_seq(urlpath, '/');
            let sp = nonempty_of(sp_all);
            if urlpath.len() == 0 {
                assert(split_seq(urlpath, '/') =~= seq![Seq::<char>::empty()]);
                assert(sp_all =~= Seq::<Seq<char>>::empty());
                assert(false);
            }
            assert(urlpath[0] == '/');
            if urlpath.len() >= 4 {
                assert(p.subrange(p.len() - 4, p.len() as int) =~= urlpath.subrange(
                    urlpath.len() - 4,
                    urlpath.len() as int,
                ));
            } else {
                if p.len() >= 4 && p.subrange(p.len() - 4, p.len() as int) == ".git"@ {
                    let k = p.len() - urlpath.len();
                    assert(p[k as int] == urlpath[0]);
                    let j = k - (p.len() - 4);
                    assert(p.subrange(p.len() - 4, p.len() as int)[j as int] == p[k as int]);
                    assert(".git"@[j as int] == '/');
                    assert(false);
                }
            }
        }
    }
}

/// Extraction never refuses with a normalization kind: its failures are
/// `UrlHost`, `UnsupportedScheme` or `MalformedGitUrl`.
pub proof fn lemma_extract_err_kinds(raw: Seq<char>, u: UrlV)
    ensures
        extract_spec(raw, u) matches Err(k) ==> !(k is NormalizeUrl),
{
}

/// Invariants of every successful extraction: the name is never empty; an
/// organization only ever comes together with an owner, and neither is ever
/// the empty string; an embedded user is never the empty string; the File
/// scheme carries no host, owner or organization; and the fullname always
/// ends in the name.
pub proof fn lemma_extract_invariants(raw: Seq<char>, u: UrlV)
    ensures
        extract_spec(raw, u) matches Ok(g) ==> g.name.len() > 0,
        extract_spec(raw, u) matches Ok(g) ==> (g.organization is Some ==> g.owner is Some),
        extract_spec(raw, u) matches Ok(g) ==> (g.owner matches Some(o) ==> o.len() > 0),
        extract_spec(raw, u) matches Ok(g) ==> (g.organization matches Some(o) ==> o.len() > 0),
        extract_spec(raw, u) matches Ok(g) ==> (g.user matches Some(w) ==> w.len() > 0),
        extract_spec(raw, u) matches Ok(g) ==> (g.scheme == Scheme::File ==> g.host is None
            && g.owner is None && g.organization is None),
        extract_spec(raw, u) matches Ok(g) ==> g.fullname.len() >= g.name.len()
            && g.fullname.subrange(g.fullname.len() - g.name.len(), g.fullname.len() as int)
            == g.name,
{
    if extract_spec(raw, u) matches Ok(g) {
        let scheme = scheme_decode(u.scheme)->Some_0;
        let urlpath = seg_path_spec(u, scheme);
        let sp_all = rsplit_terminator_seq(urlpath, '/');
        let sp = nonempty_of(sp_all);
        let name = trim_dot_git(sp[0]);
        lemma_nonempty_of_elements(sp_all);
        match ownership_spec(raw, u, scheme, sp, sp_all.len() as int, name) {
            Ok(own) => {
                assert(own.2.subrange(own.2.len() - name.len(), own.2.len() as int) =~= name);
            },
            Err(_) => {},
        }
    }
}

impl GitUrl {
    /// Derives the repository metadata from a canonical URL, given the raw
    /// text it was normalized from; exact against `extract_spec`.
    pub fn from_canonical(url: &str, normalized: &CanonicalUrl) -> (r: Result<GitUrl, FromStrError>)
        ensures
            match r {
                Ok(g) => extract_spec(url@, normalized@) == Ok::<GitUrlV, FromStrKindV>(g@),
                Err(e) => extract_spec(url@, normalized@) == Err::<GitUrlV, FromStrKindV>(e.kind@)
                    && e@.url == url@,
            },
    {
        let ghost uv = normalized@;
        proof {
            reveal_strlit(".git");
            reveal_strlit("git:");
            reveal_strlit("/");
        }
        let scheme = match Scheme::from_token(normalized.scheme.as_str()) {
            Ok(s) => s,
            Err(_) => {
                return Err(FromStrError {
                    url: String::from_str(url),
                    kind: FromStrErrorKind::UnsupportedScheme,
                });
            },
        };
        let path_len = normalized.path.as_str().unicode_len();
        let urlpath: String = if scheme == Scheme::Ssh && path_len >= 1 {
            let tail = normalized.path.as_str().substring_char(1, path_len);
            String::from_str(tail)
        } else {
            normalized.path.clone()
        };
        proof {
            if scheme == Scheme::Ssh && uv.path.len() >= 1 {
                assert(urlpath@ =~= uv.path.drop_first());
            }
            assert(urlpath@ == seg_path_spec(uv, scheme));
        }
        let git_suffix = ends_with(urlpath.as_str(), ".git");
        let splitpath_all = rsplit_terminator_str(urlpath.as_str(), '/');
        let splitpath = filter_nonempty(&splitpath_all);
        let ghost sp_all = rsplit_terminator_seq(urlpath@, '/');
        let ghost sp = nonempty_of(sp_all);
        proof {
            assert(forall|k: int|
                0 <= k < splitpath@.len() ==> #[trigger] splitpath.deep_view()[k]
                    == splitpath@[k]@);
        }
        if splitpath.len() == 0 {
            return Err(FromStrError {
                url: String::from_str(url),
                kind: FromStrErrorKind::MalformedGitUrl,
            });
        }
        let name_str = trim_dot_git_str(splitpath[0].as_str());
        let name = String::from_str(name_str);
        proof {
            assert(name@ == trim_dot_git(sp[0]));
        }
        if name.as_str().unicode_len() == 0 {
            return Err(FromStrError {
                url: String::from_str(url),
                kind: FromStrErrorKind::MalformedGitUrl,
            });
        }
        let triple: (Option<String>, Option<String>, String) = if scheme == Scheme::File {
            (None, None, name.clone())
        } else {
            match &normalized.host {
                None => {
                    return Err(FromStrError {
                        url: String::from_str(url),
                        kind: FromStrErrorKind::UrlHost,
                    });
                },
                Some(h) => {
                    let is_org_host = str_eq(h.as_str(), "dev.azure.com") || str_eq(
                        h.as_str(),
                        "ssh.dev.azure.com",
                    );
                    if is_org_host {
                        if scheme == Scheme::Ssh {
                            if splitpath.len() >= 3 {
                                let fullname = splitpath[2].clone().concat("/").concat(
                                    splitpath[1].as_str(),
                                ).concat("/").concat(name.as_str());
                                (Some(splitpath[1].clone()), Some(splitpath[2].clone()), fullname)
                            } else {
                                return Err(FromStrError {
                                    url: String::from_str(url),
                                    kind: FromStrErrorKind::MalformedGitUrl,
                                });
                            }
                        } else if scheme == Scheme::Https {
                            if splitpath.len() >= 4 {
                                let fullname = splitpath[3].clone().concat("/").concat(
                                    splitpath[2].as_str(),
                                ).concat("/").concat(name.as_str());
                                (Some(splitpath[2].clone()), Some(splitpath[3].clone()), fullname)
                            } else {
                                return Err(FromStrError {
                                    url: String::from_str(url),
                                    kind: FromStrErrorKind::MalformedGitUrl,
                                });
                            }
                        } else {
                            return Err(FromStrError {
                                url: String::from_str(url),
                                kind: FromStrErrorKind::UnsupportedScheme,
                            });
                        }
                    } else {
                        let raw_ssh = starts_with(url, "ssh");
                        proof {
                            reveal_strlit("ssh");
                        }
                        if !raw_ssh && splitpath_all.len() < 2 {
                            return Err(FromStrError {
                                url: String::from_str(url),
                                kind: FromStrErrorKind::MalformedGitUrl,
                            });
                        }
                        let position: usize = if splitpath.len() == 1 {
                            0
                        } else {
                            1
                        };
                        let owner = splitpath[position].clone();
                        let fullname = owner.clone().concat("/").concat(name.as_str());
                        (Some(owner), None, fullname)
                    }
                },
            }
        };
        let final_host: Option<String> = if scheme == Scheme::File {
            None
        } else {
            clone_opt_string(&normalized.host)
        };
        let final_path: String = if scheme == Scheme::File {
            match &normalized.host {
                Some(h) => h.clone().concat(urlpath.as_str()),
                None => urlpath.clone(),
            }
        } else {
            urlpath.clone()
        };
        let user_len = normalized.user.as_str().unicode_len();
        let user: Option<String> = if user_len == 0 {
            None
        } else {
            Some(normalized.user.clone())
        };
        let token = clone_opt_string(&normalized.token);
        let scheme_prefix = contains_str(url, "://") || starts_with(url, "git:");
        let g = GitUrl {
            host: final_host,
            name,
            owner: triple.0,
            organization: triple.1,
            fullname: triple.2,
            scheme,
            user,
            token,
            port: normalized.port,
            path: final_path,
            git_suffix,
            scheme_prefix,
        };
        proof {
            assert(extract_spec(url@, uv) is Ok);
            assert(g@ =~= extract_spec(url@, uv)->Ok_0);
        }
        Ok(g)
    }

    /// Normalizes and parses `url` for metadata. Exact on every route but
    /// the platform path conversion, where extraction still comes from some
    /// canonical URL of scheme `file`.
    pub fn parse(url: &str) -> (r: Result<GitUrl, FromStrError>)
        ensures
            url@.contains('\0') <==> (r matches Err(e) && e@.kind == FromStrKindV::NormalizeUrl(
                NormErrV::NullBytes,
            )),
            r matches Err(e) ==> e@.url == url@,
            !url@.contains('\0') ==> (match url_parse_of(
                to_parse_of(trim_end_char(url@, '/')),
            ) {
                Ok(u) => {
                    if scheme_decode(u.scheme) is Some {
                        parse_result_view(r) == map_extract(url@, u)
                    } else if contains_seq(trim_end_char(url@, '/'), "://"@) {
                        r matches Err(x) && x@ == (FromStrErrV {
                            url: url@,
                            kind: FromStrKindV::NormalizeUrl(NormErrV::UnsupportedScheme),
                        })
                    } else {
                        parse_result_view(r) == ssh_parse_spec(url@, trim_end_char(url@, '/'))
                    }
                },
                Err(UrlParseErrKind::RelativeUrlWithoutBase) => {
                    if asperand_before_colon(trim_end_char(url@, '/')) {
                        parse_result_view(r) == ssh_parse_spec(url@, trim_end_char(url@, '/'))
                    } else {
                        file_route_spec(url@, r)
                    }
                },
                Err(e) => (r matches Err(x) && x@ == (FromStrErrV {
                    url: url@,
                    kind: FromStrKindV::NormalizeUrl(NormErrV::UrlParse(e)),
                })),
            }),
    {
        let ghost t = trim_end_char(url@, '/');
        match normalize_url(url) {
            Ok(c) => {
                let ghost cv = c@;
                let r = GitUrl::from_canonical(url, &c);
                proof {
                    assert(parse_result_view(r) == map_extract(url@, cv)) by {
                        match r {
                            Ok(g) => {},
                            Err(x) => {
                                assert(x@ =~= (FromStrErrV { url: url@, kind: x@.kind }));
                            },
                        }
                    }
                    if r is Err {
                        lemma_extract_err_kinds(url@, cv);
                    }
                    if !url@.contains('\0') {
                        match url_parse_of(to_parse_of(t)) {
                            Ok(u) => {
                                if scheme_decode(u.scheme) is Some {
                                    assert(cv == u);
                                } else if contains_seq(t, "://"@) {
                                    assert(false);
                                } else {
                                    assert(ssh_norm_spec(t) == Ok::<UrlV, NormErrV>(cv));
                                }
                            },
                            Err(UrlParseErrKind::RelativeUrlWithoutBase) => {
                                if asperand_before_colon(t) {
                                    assert(ssh_norm_spec(t) == Ok::<UrlV, NormErrV>(cv));
                                } else {
                                    assert(cv.scheme == "file"@);
                                    if cv.user == Seq::<char>::empty() && cv.token is None
                                        && cv.port is None && (cv.path.len() == 0 || cv.path[0]
                                        == '/') {
                                        assert(file_route_spec(url@, r));
                                    } else {
                                        assert(composed_norm("file://"@ + t) == Ok::<
                                            UrlV,
                                            NormErrV,
                                        >(cv));
                                        assert(file_route_spec(url@, r));
                                    }
                                }
                            },
                            Err(e2) => {
                                assert(false);
                            },
                        }
                    }
                }
                r
            },
            Err(e) => {
                let ghost ev = e@;
                let err = FromStrError {
                    url: String::from_str(url),
                    kind: FromStrErrorKind::NormalizeUrl(e),
                };
                proof {
                    assert(err@ =~= (FromStrErrV {
                        url: url@,
                        kind: FromStrKindV::NormalizeUrl(ev),
                    }));
                    if !url@.contains('\0') {
                        match url_parse_of(to_parse_of(t)) {
                            Ok(u) => {
                                if scheme_decode(u.scheme) is Some {
                                    assert(false);
                                } else if contains_seq(t, "://"@) {
                                    assert(ev == NormErrV::UnsupportedScheme);
                                } else {
                                    assert(ssh_norm_spec(t) == Err::<UrlV, NormErrV>(ev));
                                }
                            },
                            Err(UrlParseErrKind::RelativeUrlWithoutBase) => {
                                if asperand_before_colon(t) {
                                    assert(ssh_norm_spec(t) == Err::<UrlV, NormErrV>(ev));
                                } else {
                                    assert(composed_norm("file://"@ + t) == Err::<
                                        UrlV,
                                        NormErrV,
                                    >(ev));
                                }
                            },
                            Err(e2) => {
                                assert(ev == NormErrV::UrlParse(e2));
                            },
                        }
                    }
                }
                Err(err)
            },
        }
    }

    /// Returns `GitUrl` after removing `user` and `token` values.
    /// Intended use-case is for non-destructive printing GitUrl excluding
    /// any embedded auth info: every other field is carried over unchanged.
    pub fn trim_auth(&self) -> (r: GitUrl)
        ensures
            r@ == (GitUrlV { user: None, token: None, ..self@ }),
    {
        let r = GitUrl {
            host: clone_opt_string(&self.host),
            name: self.name.clone(),
            owner: clone_opt_string(&self.owner),
            organization: clone_opt_string(&self.organization),
            fullname: self.fullname.clone(),
            scheme: self.scheme,
            user: None,
            token: None,
            port: self.port,
            path: self.path.clone(),
            git_suffix: self.git_suffix,
            scheme_prefix: self.scheme_prefix,
        };
        proof {
            assert(r@ =~= GitUrlV { user: None, token: None, ..self@ });
        }
        r
    }
}

/// The canonical string rendering of a parsed result: the scheme prefix when
/// the original text declared one, the auth segment by scheme family, host,
/// `:port` when present, and the scheme-appropriate path form.
pub open spec fn render_spec(g: GitUrlV) -> Seq<char> {
    let scheme_prefix = if g.scheme_prefix {
        scheme_token(g.scheme) + "://"@
    } else {
        Seq::<char>::empty()
    };
    let auth_info = match g.scheme {
        Scheme::Ssh | Scheme::Git | Scheme::GitSsh => match g.user {
            Some(u) => u + "@"@,
            None => Seq::<char>::empty(),
        },
        Scheme::Http | Scheme::Https => match (g.user, g.token) {
            (Some(u), Some(t)) => u + ":"@ + t + "@"@,
            (Some(u), None) => u + "@"@,
            (None, Some(t)) => t + "@"@,
            (None, None) => Seq::<char>::empty(),
        },
        _ => Seq::<char>::empty(),
    };
    let host = match g.host {
        Some(h) => h,
        None => Seq::<char>::empty(),
    };
    let port = match g.port {
        Some(p) => ":"@ + dec_rep(p as nat),
        None => Seq::<char>::empty(),
    };
    let path = match g.scheme {
        Scheme::Ssh => if g.port is Some {
            "/"@ + g.path
        } else {
            ":"@ + g.path
        },
        _ => g.path,
    };
    scheme_prefix + auth_info + host + port + path
}

impl GitUrl {
    /// Builds the printable form of the GitUrl from its components: a
    /// deterministic canonical rendering, not a verbatim echo of the input.
    #[verifier::rlimit(60)]
    pub fn to_url_string(&self) -> (r: String)
        ensures
            r@ == render_spec(self@),
    {
        let ghost g = self@;
        let ghost part_prefix: Seq<char> = if g.scheme_prefix {
            scheme_token(g.scheme) + "://"@
        } else {
            Seq::<char>::empty()
        };
        let ghost part_auth: Seq<char> = match g.scheme {
            Scheme::Ssh | Scheme::Git | Scheme::GitSsh => match g.user {
                Some(u) => u + "@"@,
                None => Seq::<char>::empty(),
            },
            Scheme::Http | Scheme::Https => match (g.user, g.token) {
                (Some(u), Some(t)) => u + ":"@ + t + "@"@,
                (Some(u), None) => u + "@"@,
                (None, Some(t)) => t + "@"@,
                (None, None) => Seq::<char>::empty(),
            },
            _ => Seq::<char>::empty(),
        };
        let ghost part_host: Seq<char> = match g.host {
            Some(h) => h,
            None => Seq::<char>::empty(),
        };
        let ghost part_port: Seq<char> = match g.port {
            Some(p) => ":"@ + dec_rep(p as nat),
            None => Seq::<char>::empty(),
        };
        let ghost part_path: Seq<char> = match g.scheme {
            Scheme::Ssh => if g.port is Some {
                "/"@ + g.path
            } else {
                ":"@ + g.path
            },
            _ => g.path,
        };
        let mut out = String::new();
        if self.scheme_prefix {
            let tok = self.scheme.token();
            out.append(tok.as_str());
            out.append("://");
        }
        proof {
            assert(out@ =~= part_prefix);
        }
        match self.scheme {
            Scheme::Ssh | Scheme::Git | Scheme::GitSsh => {
                if let Some(u) = &self.user {
                    out.append(u.as_str());
                    out.append("@");
                }
            },
            Scheme::Http | Scheme::Https => {
                match (&self.user, &self.token) {
                    (Some(u), Some(t)) => {
                        out.append(u.as_str());
                        out.append(":");
                        out.append(t.as_str());
                        out.append("@");
                    },
                    (Some(u), None) => {
                        out.append(u.as_str());
                        out.append("@");
                    },
                    (None, Some(t)) => {
                        out.append(t.as_str());
                        out.append("@");
                    },
                    (None, None) => {},
                }
            },
            _ => {},
        }
        proof {
            assert(out@ =~= part_prefix + part_auth);
        }
        if let Some(h) = &self.host {
            out.append(h.as_str());
        }
        proof {
            assert(out@ =~= part_prefix + part_auth + part_host);
        }
        if let Some(p) = self.port {
            out.append(":");
            let d = u16_to_dec(p);
            out.append(d.as_str());
        }
        proof {
            assert(out@ =~= part_prefix + part_auth + part_host + part_port);
        }
        match self.scheme {
            Scheme::Ssh => {
                if self.port.is_some() {
                    out.append("/");
                } else {
                    out.append(":");
                }
                out.append(self.path.as_str());
            },
            _ => {
                out.append(self.path.as_str());
            },
        }
        proof {
            assert(out@ =~= part_prefix + part_auth + part_host + part_port + part_path);
            assert(render_spec(g) == part_prefix + part_auth + part_host + part_port + part_path);
        }
        out
    }
}

/// The failure of a parse, in words.
pub open spec fn from_str_error_message(e: FromStrErrV) -> Seq<char> {
    match e.kind {
        FromStrKindV::NormalizeUrl(_) => "unable to normalize URL `"@ + e.url + "`"@,
        FromStrKindV::UrlHost => "could not isolate host from URL `"@ + e.url + "`"@,
        FromStrKindV::UnsupportedScheme => "unsupported scheme`"@,
        FromStrKindV::MalformedGitUrl => "unknown format of git URL `"@ + e.url + "`"@,
    }
}

impl FromStrError {
    /// The failure in words, as a printable line.
    pub fn message(&self) -> (r: String)
        ensures
            r@ == from_str_error_message(self@),
    {
        match &self.kind {
            FromStrErrorKind::NormalizeUrl(_) => String::from_str(
                "unable to normalize URL `",
            ).concat(self.url.as_str()).concat("`"),
            FromStrErrorKind::UrlHost => String::from_str(
                "could not isolate host from URL `",
            ).concat(self.url.as_str()).concat("`"),
            FromStrErrorKind::UnsupportedScheme => String::from_str("unsupported scheme`"),
            FromStrErrorKind::MalformedGitUrl => String::from_str(
                "unknown format of git URL `",
            ).concat(self.url.as_str()).concat("`"),
        }
    }
}

impl core::str::FromStr for GitUrl {
    type Err = FromStrError;

    fn from_str(s: &str) -> Result<GitUrl, FromStrError> {
        GitUrl::parse(s)
    }
}

impl Default for GitUrl {
    /// The empty result: no metadata, the unspecified scheme, empty strings.
    fn default() -> (r: Self)
        ensures
            r@ == (GitUrlV {
                host: None,
                name: Seq::<char>::empty(),
                owner: None,
                organization: None,
                fullname: Seq::<char>::empty(),
                scheme: Scheme::Unspecified,
                user: None,
                token: None,
                port: None,
                path: Seq::<char>::empty(),
                git_suffix: false,
                scheme_prefix: false,
            }),
    {
        let r = GitUrl {
            host: None,
            name: String::new(),
            owner: None,
            organization: None,
            fullname: String::new(),
            scheme: Scheme::Unspecified,
            user: None,
            token: None,
            port: None,
            path: String::new(),
            git_suffix: false,
            scheme_prefix: false,
        };
        proof {
            assert(r@ =~= GitUrlV {
                host: None,
                name: Seq::<char>::empty(),
                owner: None,
                organization: None,
                fullname: Seq::<char>::empty(),
                scheme: Scheme::Unspecified,
                user: None,
                token: None,
                port: None,
                path: Seq::<char>::empty(),
                git_suffix: false,
                scheme_prefix: false,
            });
        }
        r
    }
}

} // verus!
