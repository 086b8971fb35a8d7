//! The remote directory service as the cascade sees it: the requests it
//! sends, and what it reads from the bodies that come back.
use crate::json::{json_string_at, json_strings_in, string_at, strings_in};
use crate::model::{prs_of, GithubPr, PrModel};
use crate::ranking::{at_most, MatchModel, PullMatch, models_of};
use vstd::prelude::*;

verus! {

/// The most repositories that the fallback walks.
pub const MAX_REPOS: usize = 20;

/// A lookup that the cascade asks the service for.
#[derive(Clone, Debug, PartialEq, Eq)]
pub enum Request {
    /// The login that the credential belongs to.
    Identity,
    /// The open pull requests that a login authored, newest first.
    Search(String),
    /// The repositories that the credential can reach, newest first.
    Repos,
    /// The open pull requests of one repository (by full name), newest first.
    Pulls(String),
}

/// The mathematical value of a [`Request`].
pub enum RequestModel {
    Identity,
    Search(Seq<char>),
    Repos,
    Pulls(Seq<char>),
}

impl View for Request {
    type V = RequestModel;

    open spec fn view(&self) -> RequestModel {
        match self {
            Request::Identity => RequestModel::Identity,
            Request::Search(login) => RequestModel::Search(login@),
            Request::Repos => RequestModel::Repos,
            Request::Pulls(repo) => RequestModel::Pulls(repo@),
        }
    }
}

/// The address that a request is sent to.
pub open spec fn request_url(r: RequestModel) -> Seq<char> {
    match r {
        RequestModel::Identity => "https://api.github.com/user"@,
        RequestModel::Search(login) => "https://api.github.com/search/issues?q=is:pr+is:open+author:"@
            + login + "&per_page=3&sort=updated&order=desc"@,
        RequestModel::Repos => "https://api.github.com/user/repos?affiliation=owner,collaborator,organization_member&per_page=50&sort=updated"@,
        RequestModel::Pulls(repo) => "https://api.github.com/repos/"@ + repo
            + "/pulls?state=open&per_page=10&sort=updated&direction=desc"@,
    }
}

impl Request {
    /// The address that this request is sent to.
    pub fn url(&self) -> (r: String)
        ensures
            r@ == request_url(self@),
    {
        match self {
            Request::Identity => String::from_str("https://api.github.com/user"),
            Request::Search(login) => {
                let mut u = String::from_str("https://api.github.com/search/issues?q=is:pr+is:open+author:");
                u.append(login.as_str());
                u.append("&per_page=3&sort=updated&order=desc");
                u
            },
            Request::Repos => String::from_str(
                "https://api.github.com/user/repos?affiliation=owner,collaborator,organization_member&per_page=50&sort=updated",
            ),
            Request::Pulls(repo) => {
                let mut u = String::from_str("https://api.github.com/repos/");
                u.append(repo.as_str());
                u.append("/pulls?state=open&per_page=10&sort=updated&direction=desc");
                u
            },
        }
    }
}

/// The value of the authorization header that carries `token`.
pub fn authorization_value(token: &str) -> (r: String)
    ensures
        r@ == "Bearer "@ + token@,
{
    let mut v = String::from_str("Bearer ");
    v.append(token);
    v
}

/// The body that a response hands on to the cascade: its body where the
/// status is a success (2xx), nothing otherwise. A body that could not be
/// read is `None`.
pub fn accept_response(status: u16, body: Option<String>) -> (r: Option<String>)
    ensures
        r == if 200 <= status < 300 {
            body
        } else {
            None
        },
{
    if 200 <= status && status < 300 {
        body
    } else {
        None
    }
}

/// The smaller of two lengths.
pub open spec fn min_len(a: nat, b: nat) -> nat {
    if a <= b {
        a
    } else {
        b
    }
}

/// The text held by `o`, or the empty text.
pub open spec fn or_empty(o: Option<Seq<char>>) -> Seq<char> {
    match o {
        Some(s) => s,
        None => seq![],
    }
}

/// The login that an identity body names.
pub open spec fn login_in(body: Seq<char>) -> Option<Seq<char>> {
    json_string_at(body, "/login"@)
}

/// Over the first `n` entries of two parallel columns: a pull request for
/// each entry where both a title and an address are present.
pub open spec fn complete_pairs(
    titles: Seq<Option<Seq<char>>>,
    urls: Seq<Option<Seq<char>>>,
    n: nat,
) -> Seq<PrModel>
    decreases n,
{
    if n == 0 {
        seq![]
    } else {
        let earlier = complete_pairs(titles, urls, (n - 1) as nat);
        match (titles[n - 1], urls[n - 1]) {
            (Some(t), Some(u)) => earlier.push(PrModel { title: t, url: u }),
            _ => earlier,
        }
    }
}

/// The first three complete pull requests of a search body, in the order
/// returned; `None` where the body holds no list of items.
pub open spec fn search_hits(body: Seq<char>) -> Option<Seq<PrModel>> {
    match (
        json_strings_in(body, "/items"@, "/title"@),
        json_strings_in(body, "/items"@, "/html_url"@),
    ) {
        (Some(t), Some(u)) => Some(first_complete(t, u)),
        _ => None,
    }
}

/// The first three complete pull requests of two parallel columns.
pub open spec fn first_complete(titles: Seq<Option<Seq<char>>>, urls: Seq<Option<Seq<char>>>) -> Seq<PrModel> {
    at_most(complete_pairs(titles, urls, min_len(titles.len(), urls.len())), 3)
}

/// The texts present among the first `n` entries of a column, in order.
pub open spec fn present(col: Seq<Option<Seq<char>>>, n: nat) -> Seq<Seq<char>>
    decreases n,
{
    if n == 0 {
        seq![]
    } else {
        let earlier = present(col, (n - 1) as nat);
        match col[n - 1] {
            Some(s) => earlier.push(s),
            None => earlier,
        }
    }
}

/// The full names of the first twenty repositories of a listing body that
/// carry one, in the order returned; none where the body is no list.
pub open spec fn repo_names(body: Seq<char>) -> Seq<Seq<char>> {
    match json_strings_in(body, ""@, "/full_name"@) {
        Some(c) => first_names(c),
        None => seq![],
    }
}

/// The first twenty texts present in a column, in order.
pub open spec fn first_names(col: Seq<Option<Seq<char>>>) -> Seq<Seq<char>> {
    at_most(present(col, col.len()), MAX_REPOS as nat)
}

/// Over the first `n` entries of the four columns of a pull listing: a match
/// for each pull request whose author is `login`, missing texts read as empty.
pub open spec fn authored_by(
    authors: Seq<Option<Seq<char>>>,
    titles: Seq<Option<Seq<char>>>,
    urls: Seq<Option<Seq<char>>>,
    updated: Seq<Option<Seq<char>>>,
    login: Seq<char>,
    n: nat,
) -> Seq<MatchModel>
    decreases n,
{
    if n == 0 {
        seq![]
    } else {
        let earlier = authored_by(authors, titles, urls, updated, login, (n - 1) as nat);
        let i = n - 1;
        if or_empty(authors[i]) == login {
            earlier.push(
                MatchModel {
                    updated_at: or_empty(updated[i]),
                    pr: PrModel { title: or_empty(titles[i]), url: or_empty(urls[i]) },
                },
            )
        } else {
            earlier
        }
    }
}

/// The pull requests by `login` in a pull listing body, in the order
/// returned; `None` where the body is no list.
pub open spec fn pull_matches(body: Seq<char>, login: Seq<char>) -> Option<Seq<MatchModel>> {
    match (
        json_strings_in(body, ""@, "/user/login"@),
        json_strings_in(body, ""@, "/title"@),
        json_strings_in(body, ""@, "/html_url"@),
        json_strings_in(body, ""@, "/updated_at"@),
    ) {
        (Some(a), Some(t), Some(u), Some(d)) => Some(all_authored_by(a, t, u, d, login)),
        _ => None,
    }
}

/// Over the four columns of a pull listing, as far as all four reach: a
/// match for each pull request whose author is `login`, in order.
pub open spec fn all_authored_by(
    authors: Seq<Option<Seq<char>>>,
    titles: Seq<Option<Seq<char>>>,
    urls: Seq<Option<Seq<char>>>,
    updated: Seq<Option<Seq<char>>>,
    login: Seq<char>,
) -> Seq<MatchModel> {
    authored_by(
        authors,
        titles,
        urls,
        updated,
        login,
        min_len(min_len(authors.len(), titles.len()), min_len(urls.len(), updated.len())),
    )
}

proof fn lemma_at_most_push<T>(s: Seq<T>, x: T, n: nat)
    ensures
        at_most(s.push(x), n) == if s.len() < n {
            at_most(s, n).push(x)
        } else {
            at_most(s, n)
        },
{
    if s.len() < n {
        assert(at_most(s.push(x), n) =~= at_most(s, n).push(x));
    } else {
        assert(at_most(s.push(x), n) =~= at_most(s, n));
    }
}

/// The login that an identity body names.
pub fn read_login(body: &str) -> (r: Option<String>)
    ensures
        r.deep_view() == login_in(body@),
{
    string_at(body, "/login")
}

/// The text held by `o`, or the empty text.
fn text_or_empty(o: &Option<String>) -> (r: String)
    ensures
        r@ == or_empty(o.deep_view()),
{
    match o {
        Some(s) => s.clone(),
        None => String::new(),
    }
}

/// The first three complete pull requests of two parallel columns of
/// titles and addresses.
pub fn complete_prs(titles: &Vec<Option<String>>, urls: &Vec<Option<String>>) -> (r: Vec<GithubPr>)
    ensures
        prs_of(r@) == first_complete(titles.deep_view(), urls.deep_view()),
{
    let ghost tv = titles.deep_view();
    let ghost uv = urls.deep_view();
    let n = if titles.len() <= urls.len() {
        titles.len()
    } else {
        urls.len()
    };
    let mut out: Vec<GithubPr> = Vec::new();
    let mut i: usize = 0;
    while i < n
        invariant
            i <= n,
            n == min_len(tv.len(), uv.len()),
            tv == titles.deep_view(),
            uv == urls.deep_view(),
            prs_of(out@) == at_most(complete_pairs(tv, uv, i as nat), 3),
        decreases n - i,
    {
        let ghost before = complete_pairs(tv, uv, i as nat);
        proof {
            assert(tv[i as int] == titles@[i as int].deep_view());
            assert(uv[i as int] == urls@[i as int].deep_view());
        }
        match (&titles[i], &urls[i]) {
            (Some(a), Some(b)) => {
                let pr = GithubPr { title: a.clone(), url: b.clone() };
                proof {
                    lemma_at_most_push(before, pr@, 3);
                }
                if out.len() < 3 {
                    out.push(pr);
                    assert(prs_of(out@) =~= at_most(before, 3).push(pr@));
                }
            },
            _ => {},
        }
        i += 1;
    }
    out
}

/// The first three complete pull requests of a search body; `None` where
/// the body holds no list of items.
pub fn read_search_hits(body: &str) -> (r: Option<Vec<GithubPr>>)
    ensures
        match r {
            Some(v) => search_hits(body@) == Some(prs_of(v@)),
            None => search_hits(body@) is None,
        },
{
    let titles = strings_in(body, "/items", "/title");
    let urls = strings_in(body, "/items", "/html_url");
    match (titles, urls) {
        (Some(t), Some(u)) => Some(complete_prs(&t, &u)),
        _ => None,
    }
}

/// The first twenty texts present in a column, in order.
pub fn present_names(col: &Vec<Option<String>>) -> (r: Vec<String>)
    ensures
        r.deep_view() == first_names(col.deep_view()),
        r@.len() <= MAX_REPOS,
{
    let ghost cv = col.deep_view();
    let mut out: Vec<String> = Vec::new();
    let mut i: usize = 0;
    while i < col.len()
        invariant
            i <= col@.len(),
            cv == col.deep_view(),
            out.deep_view() == at_most(present(cv, i as nat), MAX_REPOS as nat),
        decreases col@.len() - i,
    {
        let ghost before = present(cv, i as nat);
        proof {
            assert(cv[i as int] == col@[i as int].deep_view());
        }
        match &col[i] {
            Some(name) => {
                let name = name.clone();
                proof {
                    lemma_at_most_push(before, name@, MAX_REPOS as nat);
                }
                if out.len() < MAX_REPOS {
                    let ghost o0 = out@;
                    out.push(name);
                    assert(out.deep_view() =~= at_most(before, MAX_REPOS as nat).push(name@)) by {
                        assert(out@ == o0.push(name));
                    }
                }
            },
            None => {},
        }
        i += 1;
    }
    out
}

/// The full names of the first twenty repositories of a listing body.
pub fn read_repo_names(body: &str) -> (r: Vec<String>)
    ensures
        r.deep_view() == repo_names(body@),
        r@.len() <= MAX_REPOS,
{
    match strings_in(body, "", "/full_name") {
        Some(c) => present_names(&c),
        None => Vec::new(),
    }
}

/// The pull requests by `login` among the four columns of a pull listing,
/// in order.
pub fn authored_matches(
    authors: &Vec<Option<String>>,
    titles: &Vec<Option<String>>,
    urls: &Vec<Option<String>>,
    updated: &Vec<Option<String>>,
    login: &String,
) -> (r: Vec<PullMatch>)
    ensures
        models_of(r@) == all_authored_by(
            authors.deep_view(),
            titles.deep_view(),
            urls.deep_view(),
            updated.deep_view(),
            login@,
        ),
{
    let n1 = if authors.len() <= titles.len() {
        authors.len()
    } else {
        titles.len()
    };
    let n2 = if urls.len() <= updated.len() {
        urls.len()
    } else {
        updated.len()
    };
    let n = if n1 <= n2 {
        n1
    } else {
        n2
    };
    let ghost av = authors.deep_view();
    let ghost tv = titles.deep_view();
    let ghost uv = urls.deep_view();
    let ghost dv = updated.deep_view();
    let ghost lv = login@;
    let mut out: Vec<PullMatch> = Vec::new();
    let mut i: usize = 0;
    while i < n
        invariant
            i <= n,
            n == min_len(min_len(av.len(), tv.len()), min_len(uv.len(), dv.len())),
            av == authors.deep_view(),
            tv == titles.deep_view(),
            uv == urls.deep_view(),
            dv == updated.deep_view(),
            lv == login@,
            models_of(out@) == authored_by(av, tv, uv, dv, lv, i as nat),
        decreases n - i,
    {
        proof {
            assert(av[i as int] == authors@[i as int].deep_view());
            assert(tv[i as int] == titles@[i as int].deep_view());
            assert(uv[i as int] == urls@[i as int].deep_view());
            assert(dv[i as int] == updated@[i as int].deep_view());
        }
        let author = text_or_empty(&authors[i]);
        if author.eq(login) {
            let m = PullMatch {
                updated_at: text_or_empty(&updated[i]),
                pr: GithubPr { title: text_or_empty(&titles[i]), url: text_or_empty(&urls[i]) },
            };
            let ghost o0 = out@;
            out.push(m);
            assert(models_of(out@) =~= models_of(o0).push(m@));
        }
        i += 1;
    }
    out
}

/// The pull requests by `login` in a pull listing body; `None` where the body
/// is no list.
pub fn read_pull_matches(body: &str, login: &String) -> (r: Option<Vec<PullMatch>>)
    ensures
        match r {
            Some(v) => pull_matches(body@, login@) == Some(models_of(v@)),
            None => pull_matches(body@, login@) is None,
        },
{
    let authors = strings_in(body, "", "/user/login");
    let titles = strings_in(body, "", "/title");
    let urls = strings_in(body, "", "/html_url");
    let updated = strings_in(body, "", "/updated_at");
    match (authors, titles, urls, updated) {
        (Some(a), Some(t), Some(u), Some(d)) => Some(authored_matches(&a, &t, &u, &d, login)),
        _ => None,
    }
}

} // verus!
