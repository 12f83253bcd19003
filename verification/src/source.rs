//! The source-provider resolver and the compute half of the content fetcher:
//! turning a service identifier into a raw-content base URL, a `Config` plus
//! sub-path into the exact URL to fetch, and a directory-listing body into the
//! file names it holds. The HTTP transport itself lives outside the library;
//! callers hand its results in as plain values.

use vstd::prelude::*;

verus! {

use vstd::string::StringExecFns;

use crate::config::Config;
use crate::config::ConfigValue;
use crate::config::table_str;
use crate::strings::contains_seq;
use crate::strings::eq_ignore_case;
use crate::strings::lower;
use crate::strings::str_eq;
use crate::strings::str_eq_ignore_case;

/// Why resolving a source URL failed.
#[derive(Debug, Clone, Copy, PartialEq, Eq, Structural)]
pub enum LoadError {
    /// The service identifier is outside the recognized set.
    UnknownService,
    /// The data-source mode is outside the recognized set.
    UnknownSourceMode,
    /// The mode's payload is missing a field or holds the wrong type.
    MalformedSourceConfig,
    /// The transport reported a network failure or a non-success status.
    /// Raised by the caller that performs the request, never by resolution.
    TransportFailure,
}

/// The raw-content base URL a github repository serves files from.
pub open spec fn github_base(name: Seq<char>, branch: Seq<char>) -> Seq<char> {
    "https://raw.githubusercontent.com/"@ + name + "/"@ + branch
}

/// The raw-content base URL a gitee repository serves files from.
pub open spec fn gitee_base(name: Seq<char>, branch: Seq<char>) -> Seq<char> {
    "https://gitee.com/"@ + name + "/raw/"@ + branch
}

/// Maps a service identifier, matched without regard to ASCII case, to the
/// raw-content base URL of that host; `None` for a service outside the
/// recognized set.
pub fn get_raw_data_url(service: &str, name: &str, branch: &str) -> (r: Option<String>)
    ensures
        eq_ignore_case(service@, "github"@) ==> (r matches Some(u) && u@ == github_base(
            name@,
            branch@,
        )),
        eq_ignore_case(service@, "gitee"@) ==> (r matches Some(u) && u@ == gitee_base(
            name@,
            branch@,
        )),
        !eq_ignore_case(service@, "github"@) && !eq_ignore_case(service@, "gitee"@) ==> r is None,
{
    proof {
        reveal_strlit("github");
        reveal_strlit("gitee");
        assert(lower("github"@).len() == 6);
        assert(lower("gitee"@).len() == 5);
    }
    if str_eq_ignore_case(service, "github") {
        let mut url = String::new();
        url.append("https://raw.githubusercontent.com/");
        url.append(name);
        url.append("/");
        url.append(branch);
        proof {
            assert(url@ =~= github_base(name@, branch@));
        }
        Some(url)
    } else if str_eq_ignore_case(service, "gitee") {
        let mut url = String::new();
        url.append("https://gitee.com/");
        url.append(name);
        url.append("/raw/");
        url.append(branch);
        proof {
            assert(url@ =~= gitee_base(name@, branch@));
        }
        Some(url)
    } else {
        None
    }
}

/// Law: either recognized service's base URL carries the repository name and
/// the branch verbatim, as contiguous runs of the URL.
pub proof fn lemma_base_url_carries_coordinates(name: Seq<char>, branch: Seq<char>)
    ensures
        contains_seq(github_base(name, branch), name),
        contains_seq(github_base(name, branch), branch),
        contains_seq(gitee_base(name, branch), name),
        contains_seq(gitee_base(name, branch), branch),
{
    let nl = name.len() as int;
    let bl = branch.len() as int;
    let gh = github_base(name, branch);
    let ghp = "https://raw.githubusercontent.com/"@.len() as int;
    let sep = "/"@.len() as int;
    assert(gh.subrange(ghp, ghp + nl) =~= name);
    assert(gh.subrange(ghp + nl + sep, ghp + nl + sep + bl) =~= branch);
    let ge = gitee_base(name, branch);
    let gep = "https://gitee.com/"@.len() as int;
    let raw = "/raw/"@.len() as int;
    assert(ge.subrange(gep, gep + nl) =~= name);
    assert(ge.subrange(gep + nl + raw, gep + nl + raw + bl) =~= branch);
}

/// The `{service, name, branch}` string fields of a repository table, when all
/// three are present with string values.
pub open spec fn repo_fields(entries: Seq<(String, ConfigValue)>) -> Option<
    (Seq<char>, Seq<char>, Seq<char>),
> {
    match (table_str(entries, "service"@), table_str(entries, "name"@), table_str(
        entries,
        "branch"@,
    )) {
        (Some(s), Some(n), Some(b)) => Some((s, n, b)),
        _ => None,
    }
}

/// The base URL for a service/name/branch triple, or `UnknownService`.
pub open spec fn base_of(service: Seq<char>, name: Seq<char>, branch: Seq<char>) -> Result<
    Seq<char>,
    LoadError,
> {
    if eq_ignore_case(service, "github"@) {
        Ok(github_base(name, branch))
    } else if eq_ignore_case(service, "gitee"@) {
        Ok(gitee_base(name, branch))
    } else {
        Err(LoadError::UnknownService)
    }
}

/// The URL a raw-content fetch must GET for `sub_path`, under the config's
/// sourcing mode. An independent repository appends the sub-path to the base
/// with no separator; sub-path mode inserts `/{sub_folder}/` between them.
pub open spec fn fetch_url_spec(config: Config, sub_path: Seq<char>) -> Result<
    Seq<char>,
    LoadError,
> {
    if eq_ignore_case(config.data_source.mode@, "independent-repository"@) {
        match config.data_source.data {
            ConfigValue::Table(t) => match repo_fields(t.entries@) {
                Some((s, n, b)) => match base_of(s, n, b) {
                    Ok(base) => Ok(base + sub_path),
                    Err(e) => Err(e),
                },
                None => Err(LoadError::MalformedSourceConfig),
            },
            _ => Err(LoadError::MalformedSourceConfig),
        }
    } else if eq_ignore_case(config.data_source.mode@, "sub-path"@) {
        match config.data_source.data {
            ConfigValue::Str(folder) => match base_of(
                config.repository.service@,
                config.repository.name@,
                config.repository.branch@,
            ) {
                Ok(base) => Ok(base + "/"@ + folder@ + "/"@ + sub_path),
                Err(e) => Err(e),
            },
            _ => Err(LoadError::MalformedSourceConfig),
        }
    } else {
        Err(LoadError::UnknownSourceMode)
    }
}

/// Resolves the URL that fetching `sub_path` must GET. This is the pure half
/// of the text fetch; the caller performs one GET against the result and
/// treats any transport failure as `TransportFailure`, with no retry.
pub fn resolve_fetch_url(config: &Config, sub_path: &str) -> (r: Result<String, LoadError>)
    ensures
        match r {
            Ok(u) => fetch_url_spec(*config, sub_path@) == Ok::<Seq<char>, LoadError>(u@),
            Err(e) => fetch_url_spec(*config, sub_path@) == Err::<Seq<char>, LoadError>(e),
        },
{
    if str_eq_ignore_case(config.data_source.mode.as_str(), "independent-repository") {
        match &config.data_source.data {
            ConfigValue::Table(t) => {
                let service = t.get_str("service");
                let name = t.get_str("name");
                let branch = t.get_str("branch");
                match (service, name, branch) {
                    (Some(s), Some(n), Some(b)) => {
                        match get_raw_data_url(s.as_str(), n.as_str(), b.as_str()) {
                            Some(base) => {
                                let url = base.concat(sub_path);
                                Ok(url)
                            },
                            None => Err(LoadError::UnknownService),
                        }
                    },
                    _ => Err(LoadError::MalformedSourceConfig),
                }
            },
            _ => Err(LoadError::MalformedSourceConfig),
        }
    } else if str_eq_ignore_case(config.data_source.mode.as_str(), "sub-path") {
        match &config.data_source.data {
            ConfigValue::Str(folder) => {
                match get_raw_data_url(
                    config.repository.service.as_str(),
                    config.repository.name.as_str(),
                    config.repository.branch.as_str(),
                ) {
                    Some(base) => {
                        let mut url = base;
                        url.append("/");
                        url.append(folder.as_str());
                        url.append("/");
                        url.append(sub_path);
                        Ok(url)
                    },
                    None => Err(LoadError::UnknownService),
                }
            },
            _ => Err(LoadError::MalformedSourceConfig),
        }
    } else {
        Err(LoadError::UnknownSourceMode)
    }
}

/// The URL the directory-listing metadata API answers for `sub_path`. The
/// listing endpoint is the github contents API in either mode; only the
/// repository coordinates and sub-folder come from the config.
pub open spec fn listing_url_spec(config: Config, sub_path: Seq<char>) -> Result<
    Seq<char>,
    LoadError,
> {
    if eq_ignore_case(config.data_source.mode@, "independent-repository"@) {
        match config.data_source.data {
            ConfigValue::Table(t) => match (table_str(t.entries@, "name"@), table_str(
                t.entries@,
                "branch"@,
            )) {
                (Some(n), Some(b)) => Ok(
                    "https://api.github.com/repos/"@ + n + "/contents/"@ + sub_path + "?ref="@ + b,
                ),
                _ => Err(LoadError::MalformedSourceConfig),
            },
            _ => Err(LoadError::MalformedSourceConfig),
        }
    } else if eq_ignore_case(config.data_source.mode@, "sub-path"@) {
        match config.data_source.data {
            ConfigValue::Str(folder) => Ok(
                "https://api.github.com/repos/"@ + config.repository.name@ + "/contents/"@
                    + folder@ + "/"@ + sub_path + "?ref="@ + config.repository.branch@,
            ),
            _ => Err(LoadError::MalformedSourceConfig),
        }
    } else {
        Err(LoadError::UnknownSourceMode)
    }
}

/// Resolves the URL the directory listing must GET. Errors here are advisory:
/// the listing contract degrades every failure to an empty listing, so the
/// caller turns an `Err` into no files rather than propagating it.
pub fn resolve_listing_url(config: &Config, sub_path: &str) -> (r: Result<String, LoadError>)
    ensures
        match r {
            Ok(u) => listing_url_spec(*config, sub_path@) == Ok::<Seq<char>, LoadError>(u@),
            Err(e) => listing_url_spec(*config, sub_path@) == Err::<Seq<char>, LoadError>(e),
        },
{
    if str_eq_ignore_case(config.data_source.mode.as_str(), "independent-repository") {
        match &config.data_source.data {
            ConfigValue::Table(t) => {
                let name = t.get_str("name");
                let branch = t.get_str("branch");
                match (name, branch) {
                    (Some(n), Some(b)) => {
                        let mut url = String::new();
                        url.append("https://api.github.com/repos/");
                        url.append(n.as_str());
                        url.append("/contents/");
                        url.append(sub_path);
                        url.append("?ref=");
                        url.append(b.as_str());
                        proof {
                            assert(Ok::<Seq<char>, LoadError>(url@) =~= listing_url_spec(
                                *config,
                                sub_path@,
                            ));
                        }
                        Ok(url)
                    },
                    _ => Err(LoadError::MalformedSourceConfig),
                }
            },
            _ => Err(LoadError::MalformedSourceConfig),
        }
    } else if str_eq_ignore_case(config.data_source.mode.as_str(), "sub-path") {
        match &config.data_source.data {
            ConfigValue::Str(folder) => {
                let mut url = String::new();
                url.append("https://api.github.com/repos/");
                url.append(config.repository.name.as_str());
                url.append("/contents/");
                url.append(folder.as_str());
                url.append("/");
                url.append(sub_path);
                url.append("?ref=");
                url.append(config.repository.branch.as_str());
                proof {
                    assert(Ok::<Seq<char>, LoadError>(url@) =~= listing_url_spec(
                        *config,
                        sub_path@,
                    ));
                }
                Ok(url)
            },
            _ => Err(LoadError::MalformedSourceConfig),
        }
    } else {
        Err(LoadError::UnknownSourceMode)
    }
}

/// What parsing a directory-listing body yields, reduced to what the engine
/// reads of each entry: `None` when the body is not a JSON array, otherwise
/// one pair per array element, in array order, holding the element's `type`
/// and `name` string fields where those are present with string values.
pub uninterp spec fn listing_of(s: Seq<char>) -> Option<
    Seq<(Option<Seq<char>>, Option<Seq<char>>)>,
>;

/// Relies on `serde_json::from_str::<Vec<serde_json::Value>>` to parse a JSON
/// array and on `serde_json::Value::{get, as_str}` to read each element's
/// `type` and `name` string fields; the result is a function of the body
/// alone.
#[verifier::external_body]
fn parse_listing(body: &str) -> (r: Option<Vec<(Option<String>, Option<String>)>>)
    ensures
        match listing_of(body@) {
            Some(entries) => r matches Some(v) && v.deep_view() == entries,
            None => r is None,
        },
{
    let values: Vec<serde_json::Value> = match serde_json::from_str(body) {
        Ok(v) => v,
        Err(_) => return None,
    };
    let mut out: Vec<(Option<String>, Option<String>)> = Vec::new();
    for value in values.iter() {
        let kind = value.get("type").and_then(|f| f.as_str()).map(|s| s.to_owned());
        let name = value.get("name").and_then(|f| f.as_str()).map(|s| s.to_owned());
        out.push((kind, name));
    }
    Some(out)
}

/// A listing has the shape the engine reads when every entry carries a string
/// `type`, and every `file` entry also carries a string `name`.
pub open spec fn listing_shape_ok(entries: Seq<(Option<Seq<char>>, Option<Seq<char>>)>) -> bool {
    forall|i: int|
        0 <= i < entries.len() ==> (#[trigger] entries[i]).0 is Some && (entries[i].0 == Some(
            "file"@,
        ) ==> entries[i].1 is Some)
}

/// The names of the `file` entries of a listing, in listing order.
pub open spec fn file_names_of(entries: Seq<(Option<Seq<char>>, Option<Seq<char>>)>) -> Seq<
    Seq<char>,
>
    decreases entries.len(),
{
    if entries.len() == 0 {
        Seq::empty()
    } else {
        let rest = file_names_of(entries.drop_last());
        if entries.last().0 == Some("file"@) && entries.last().1 is Some {
            rest.push(entries.last().1->Some_0)
        } else {
            rest
        }
    }
}

/// What a directory listing contributes to the page loader: the `file` entry
/// names, or nothing at all when the body fails to parse or an entry lacks a
/// field the engine reads. Failure never propagates past this point.
pub open spec fn listing_file_names_spec(s: Seq<char>) -> Seq<Seq<char>> {
    match listing_of(s) {
        Some(entries) => if listing_shape_ok(entries) {
            file_names_of(entries)
        } else {
            Seq::empty()
        },
        None => Seq::empty(),
    }
}

/// Extracts the file names a listing body offers: the `name` of each entry
/// whose `type` is `file`, in listing order, and the empty vector on any
/// parse or shape failure — the deliberate best-effort degrade of the
/// listing call.
pub fn listing_file_names(body: &str) -> (r: Vec<String>)
    ensures
        r.deep_view() == listing_file_names_spec(body@),
{
    let entries = match parse_listing(body) {
        Some(e) => e,
        None => {
            let empty: Vec<String> = Vec::new();
            proof {
                assert(empty.deep_view() =~= listing_file_names_spec(body@));
            }
            return empty;
        },
    };
    let ghost ev = entries.deep_view();
    let mut out: Vec<String> = Vec::new();
    let n = entries.len();
    let mut i: usize = 0;
    proof {
        assert(out.deep_view() =~= file_names_of(ev.take(0)));
    }
    while i < n
        invariant
            i <= n,
            n == entries@.len(),
            ev == entries.deep_view(),
            listing_of(body@) == Some(ev),
            forall|j: int|
                0 <= j < i ==> (#[trigger] ev[j]).0 is Some && (ev[j].0 == Some("file"@)
                    ==> ev[j].1 is Some),
            out.deep_view() == file_names_of(ev.take(i as int)),
        decreases n - i,
    {
        proof {
            assert(ev[i as int] == (entries@[i as int].0.deep_view(),
            entries@[i as int].1.deep_view()));
            assert(ev.take(i + 1).drop_last() =~= ev.take(i as int));
            assert(ev.take(i + 1).last() == ev[i as int]);
        }
        let entry = &entries[i];
        let keep: bool = match &entry.0 {
            Some(kind) => str_eq(kind.as_str(), "file"),
            None => {
                let empty: Vec<String> = Vec::new();
                proof {
                    assert(!listing_shape_ok(ev));
                    assert(empty.deep_view() =~= listing_file_names_spec(body@));
                }
                return empty;
            },
        };
        if keep {
            match &entry.1 {
                Some(name) => {
                    out.push(name.clone());
                    proof {
                        assert(out.deep_view() =~= file_names_of(ev.take(i + 1)));
                    }
                },
                None => {
                    let empty: Vec<String> = Vec::new();
                    proof {
                        assert(!listing_shape_ok(ev));
                        assert(empty.deep_view() =~= listing_file_names_spec(body@));
                    }
                    return empty;
                },
            }
        } else {
            proof {
                assert(out.deep_view() =~= file_names_of(ev.take(i + 1)));
            }
        }
        i += 1;
    }
    proof {
        assert(ev.take(n as int) =~= ev);
        assert(listing_shape_ok(ev));
    }
    out
}

} // verus!
