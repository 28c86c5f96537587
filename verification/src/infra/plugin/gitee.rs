//! The Gitee market: a repository's card and default branch from its detail
//! response, the request addresses and the error messages. The requests are
//! the caller's.
use vstd::prelude::*;

use crate::domain::DomainError;
use crate::infra::plugin::github::{full_name_check, validate_full_name, MarketItem};
use crate::text::{chars_of, extend_str, is_blank, is_blank_vec, owned, string_of};

verus! {

/// A repository's market entry and default branch.
#[derive(Debug, Clone, PartialEq, Eq)]
pub struct RepoMeta {
    /// The market entry.
    pub item: MarketItem,
    /// The default branch (`master`, `main`, ...).
    pub default_branch: String,
}

/// The fields of a repository detail response that are read (each may be
/// missing; a missing star count is 0).
#[derive(Debug)]
pub struct RepoDetail {
    /// Description.
    pub description: Option<String>,
    /// Stars.
    pub stargazers_count: i64,
    /// Owner.
    pub owner: Option<RepoOwner>,
    /// Page URL.
    pub html_url: Option<String>,
    /// Default branch.
    pub default_branch: Option<String>,
}

/// The owner of a repository: its path (the owner part of the name) and
/// login.
#[derive(Debug)]
pub struct RepoOwner {
    /// Path.
    pub path: Option<String>,
    /// Login.
    pub login: Option<String>,
}

/// A present, non-blank text.
pub open spec fn non_blank(s: Option<String>) -> Option<Seq<char>> {
    match s {
        Some(t) => if is_blank(t@) { None } else { Some(t@) },
        None => None,
    }
}

/// The author shown for an owner: its path, else its login, else empty.
pub open spec fn author_of(o: Option<RepoOwner>) -> Seq<char> {
    match o {
        Some(RepoOwner { path: Some(p), .. }) => p@,
        Some(RepoOwner { path: None, login: Some(l) }) => l@,
        _ => Seq::empty(),
    }
}

fn take_non_blank(s: Option<String>) -> (r: Option<String>)
    ensures
        match r {
            Some(t) => non_blank(s) == Some(t@),
            None => non_blank(s) is None,
        },
{
    match s {
        Some(t) => if is_blank_vec(&chars_of(t.as_str())) { None } else { Some(t) },
        None => None,
    }
}

/// The market entry and default branch of `full_name` (already checked)
/// from its detail: the description when not blank, the stars, the owner's
/// path or login, the page URL or `https://gitee.com/<full_name>`, and the
/// default branch when not blank, else `master`.
pub fn repo_meta(d: RepoDetail, full_name: &str) -> (r: RepoMeta)
    ensures
        r.item.full_name@ == full_name@,
        match r.item.description {
            Some(t) => non_blank(d.description) == Some(t@),
            None => non_blank(d.description) is None,
        },
        r.item.stars == d.stargazers_count,
        r.item.author@ == author_of(d.owner),
        r.item.url@ == match d.html_url {
            Some(u) => u@,
            None => "https://gitee.com/"@ + full_name@,
        },
        r.default_branch@ == match non_blank(d.default_branch) {
            Some(b) => b,
            None => "master"@,
        },
{
    let author = match d.owner {
        Some(o) => match o.path {
            Some(p) => p,
            None => match o.login {
                Some(l) => l,
                None => String::new(),
            },
        },
        None => String::new(),
    };
    let url = match d.html_url {
        Some(u) => u,
        None => {
            let mut v = chars_of("https://gitee.com/");
            extend_str(&mut v, full_name);
            string_of(&v)
        },
    };
    let branch = match take_non_blank(d.default_branch) {
        Some(b) => b,
        None => owned("master"),
    };
    proof {
        reveal_strlit("https://gitee.com/");
    }
    RepoMeta {
        item: MarketItem {
            full_name: owned(full_name),
            description: take_non_blank(d.description),
            stars: d.stargazers_count,
            author,
            url,
        },
        default_branch: branch,
    }
}

/// The detail address of a repository.
pub fn detail_url(full_name: &str) -> (r: Result<String, DomainError>)
    ensures
        match full_name_check(full_name@) {
            Ok((o, p)) => r matches Ok(u) && u@ == "https://gitee.com/api/v5/repos/"@ + o + "/"@ + p,
            Err(m) => r matches Err(DomainError::Validation(e)) && e@ == m,
        },
{
    let (owner, repo) = validate_full_name(full_name)?;
    let mut v = chars_of("https://gitee.com/api/v5/repos/");
    extend_str(&mut v, owner.as_str());
    extend_str(&mut v, "/");
    extend_str(&mut v, repo.as_str());
    Ok(string_of(&v))
}

/// The address of the archive of a repository's branch.
pub fn archive_url(full_name: &str, branch: &str) -> (r: Result<String, DomainError>)
    ensures
        match full_name_check(full_name@) {
            Ok((o, p)) => r matches Ok(u) && u@ == "https://gitee.com/"@ + o + "/"@ + p
                + "/repository/archive/"@ + branch@ + ".zip"@,
            Err(m) => r matches Err(DomainError::Validation(e)) && e@ == m,
        },
{
    let (owner, repo) = validate_full_name(full_name)?;
    let mut v = chars_of("https://gitee.com/");
    extend_str(&mut v, owner.as_str());
    extend_str(&mut v, "/");
    extend_str(&mut v, repo.as_str());
    extend_str(&mut v, "/repository/archive/");
    extend_str(&mut v, branch);
    extend_str(&mut v, ".zip");
    Ok(string_of(&v))
}

/// The message of a failed detail request: missing repository for 404,
/// rate limiting for 403, the status otherwise.
pub fn detail_error(status: u16, status_text: &str, full_name: &str) -> (r: String)
    ensures
        status == 404 ==> r@ == "Gitee 仓库不存在："@ + full_name@,
        status == 403 ==> r@ == "Gitee 请求被限流，请稍后重试"@,
        status != 404 && status != 403 ==> r@ == "Gitee 请求失败：HTTP "@ + status_text@,
{
    if status == 404 {
        let mut v = chars_of("Gitee 仓库不存在：");
        extend_str(&mut v, full_name);
        string_of(&v)
    } else if status == 403 {
        owned("Gitee 请求被限流，请稍后重试")
    } else {
        let mut v = chars_of("Gitee 请求失败：HTTP ");
        extend_str(&mut v, status_text);
        string_of(&v)
    }
}

/// The message of a failed download.
pub fn download_error(status_text: &str) -> (r: String)
    ensures
        r@ == "Gitee 仓库下载失败：HTTP "@ + status_text@,
{
    let mut v = chars_of("Gitee 仓库下载失败：HTTP ");
    extend_str(&mut v, status_text);
    string_of(&v)
}

} // verus!
