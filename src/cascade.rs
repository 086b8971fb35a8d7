//! One fetch cycle, as a state machine. The caller sends each request that a
//! step asks for and hands the body that came back (or `None` on any failure)
//! to the next step, until a step finishes the cycle with its outcome.
//!
//! The cascade: identify the credential's login; search the pull requests it
//! authored; where that search succeeds with no items, list the reachable
//! repositories and collect the login's pull requests from each, newest
//! first. Each stage fails softly into an outcome; a failing repository is
//! skipped.
use crate::directory::{
    login_in, pull_matches, read_login, read_pull_matches, read_repo_names, read_search_hits,
    repo_names, search_hits, Request, RequestModel, MAX_REPOS,
};
use crate::model::{GithubFetchResult, OutcomeModel, PrModel};
use crate::ranking::{models_of, newest_prs, newest_three, MatchModel, PullMatch};
use vstd::prelude::*;

verus! {

/// Which answer the cycle waits for.
#[derive(Clone, Copy, Debug, PartialEq, Eq, Structural)]
pub enum Stage {
    Identify,
    Search,
    Repos,
    Pulls,
    Done,
}

/// The state of one fetch cycle.
pub struct FetchCycle {
    stage: Stage,
    login: String,
    repos: Vec<String>,
    next_repo: usize,
    matches: Vec<PullMatch>,
}

/// The mathematical value of a [`FetchCycle`]: the stage, the login found,
/// the repositories to walk, the index of the one whose pulls are awaited,
/// and the matches collected so far.
pub struct CycleModel {
    pub stage: Stage,
    pub login: Seq<char>,
    pub repos: Seq<Seq<char>>,
    pub next_repo: nat,
    pub matches: Seq<MatchModel>,
}

/// What a step asks of the caller.
pub enum Step {
    /// Send this request and hand its body to the next step.
    Send(Request),
    /// The cycle is over with this outcome.
    Finish(GithubFetchResult),
}

/// The mathematical value of a [`Step`].
pub enum StepModel {
    Send(RequestModel),
    Finish(OutcomeModel),
}

impl View for Step {
    type V = StepModel;

    open spec fn view(&self) -> StepModel {
        match self {
            Step::Send(r) => StepModel::Send(r@),
            Step::Finish(o) => StepModel::Finish(o@),
        }
    }
}

impl View for FetchCycle {
    type V = CycleModel;

    closed spec fn view(&self) -> CycleModel {
        CycleModel {
            stage: self.stage,
            login: self.login@,
            repos: self.repos.deep_view(),
            next_repo: self.next_repo as nat,
            matches: models_of(self.matches@),
        }
    }
}

/// A connected outcome with the given items.
pub open spec fn connected_with(prs: Seq<PrModel>) -> OutcomeModel {
    OutcomeModel { connected: true, prs }
}

/// The first state of a cycle.
pub open spec fn initial_cycle() -> CycleModel {
    CycleModel {
        stage: Stage::Identify,
        login: seq![],
        repos: seq![],
        next_repo: 0,
        matches: seq![],
    }
}

/// The matches after the pull listing `response` of the awaited repository:
/// those found in it added, or none where it failed or is no list.
pub open spec fn after_pulls(
    matches: Seq<MatchModel>,
    response: Option<Seq<char>>,
    login: Seq<char>,
) -> Seq<MatchModel> {
    match response {
        Some(body) => match pull_matches(body, login) {
            Some(found) => matches + found,
            None => matches,
        },
        None => matches,
    }
}

/// The next state of a cycle in state `c` and what it asks for, given the
/// body of the response to its last request (`None`: the request failed).
pub open spec fn transition(c: CycleModel, response: Option<Seq<char>>) -> (CycleModel, StepModel) {
    let done = CycleModel { stage: Stage::Done, ..c };
    match c.stage {
        Stage::Identify => match response {
            Some(body) => match login_in(body) {
                Some(login) => (
                    CycleModel { stage: Stage::Search, login, ..c },
                    StepModel::Send(RequestModel::Search(login)),
                ),
                None => (done, StepModel::Finish(OutcomeModel { connected: false, prs: seq![] })),
            },
            None => (done, StepModel::Finish(OutcomeModel { connected: false, prs: seq![] })),
        },
        Stage::Search => match response {
            Some(body) => match search_hits(body) {
                Some(hits) => if hits.len() > 0 {
                    (done, StepModel::Finish(connected_with(hits)))
                } else {
                    (CycleModel { stage: Stage::Repos, ..c }, StepModel::Send(RequestModel::Repos))
                },
                None => (done, StepModel::Finish(connected_with(seq![]))),
            },
            None => (done, StepModel::Finish(connected_with(seq![]))),
        },
        Stage::Repos => match response {
            Some(body) => if repo_names(body).len() > 0 {
                (
                    CycleModel {
                        stage: Stage::Pulls,
                        repos: repo_names(body),
                        next_repo: 0,
                        matches: seq![],
                        ..c
                    },
                    StepModel::Send(RequestModel::Pulls(repo_names(body)[0])),
                )
            } else {
                (done, StepModel::Finish(connected_with(seq![])))
            },
            None => (done, StepModel::Finish(connected_with(seq![]))),
        },
        Stage::Pulls => {
            let matches = after_pulls(c.matches, response, c.login);
            let next = c.next_repo + 1;
            if next < c.repos.len() {
                (
                    CycleModel { next_repo: next, matches, ..c },
                    StepModel::Send(RequestModel::Pulls(c.repos[next as int])),
                )
            } else {
                (
                    CycleModel { stage: Stage::Done, next_repo: next, matches: seq![], ..c },
                    StepModel::Finish(connected_with(newest_prs(matches))),
                )
            }
        },
        Stage::Done => (c, StepModel::Finish(connected_with(seq![]))),
    }
}

/// Every outcome that a cycle finishes with has at most three items, and none
/// where it is disconnected.
pub proof fn lemma_outcome_well_formed(c: CycleModel, response: Option<Seq<char>>)
    ensures
        transition(c, response).1 matches StepModel::Finish(o) ==> o.wf(),
{
}

/// A repository whose pull listing fails, or is no list, is skipped: the
/// cycle keeps what the earlier repositories gave, goes on to the next one,
/// and after the last finishes connected with the newest of those matches.
pub proof fn lemma_failed_repo_is_skipped(c: CycleModel, response: Option<Seq<char>>)
    requires
        c.stage == Stage::Pulls,
        match response {
            Some(body) => pull_matches(body, c.login) is None,
            None => true,
        },
    ensures
        c.next_repo + 1 < c.repos.len() ==> transition(c, response) == (
            CycleModel { next_repo: c.next_repo + 1, ..c },
            StepModel::Send(RequestModel::Pulls(c.repos[c.next_repo + 1 as int])),
        ),
        c.next_repo + 1 >= c.repos.len() ==> transition(c, response).1 == StepModel::Finish(
            connected_with(newest_prs(c.matches)),
        ),
{
}

impl FetchCycle {
    /// The cycle's own bookkeeping holds: while repositories are walked, the
    /// awaited one is among them.
    pub closed spec fn wf(&self) -> bool {
        &&& self.repos@.len() <= MAX_REPOS
        &&& self.stage == Stage::Pulls ==> self.next_repo < self.repos@.len()
    }

    /// A new cycle, and the first request it asks for: the identity lookup.
    pub fn start() -> (r: (FetchCycle, Request))
        ensures
            r.0.wf(),
            r.0@ == initial_cycle(),
            r.1@ == RequestModel::Identity,
    {
        let c = FetchCycle {
            stage: Stage::Identify,
            login: String::new(),
            repos: Vec::new(),
            next_repo: 0,
            matches: Vec::new(),
        };
        assert(c.repos.deep_view() =~= seq![]);
        assert(models_of(c.matches@) =~= seq![]);
        (c, Request::Identity)
    }

    /// Whether the cycle is over.
    pub fn is_done(&self) -> (r: bool)
        ensures
            r == (self@.stage == Stage::Done),
    {
        self.stage == Stage::Done
    }

    /// Takes the body of the response to the last request (`None` where the
    /// request failed in transport, status or reading) and says what comes
    /// next.
    pub fn advance(&mut self, response: Option<String>) -> (r: Step)
        requires
            old(self).wf(),
            old(self)@.stage != Stage::Done,
        ensures
            final(self).wf(),
            (final(self)@, r@) == transition(old(self)@, response.deep_view()),
            r@ matches StepModel::Finish(o) ==> o.wf(),
    {
        proof {
            lemma_outcome_well_formed(self@, response.deep_view());
        }
        match self.stage {
            Stage::Identify => {
                let login = match &response {
                    Some(body) => read_login(body.as_str()),
                    None => None,
                };
                match login {
                    Some(l) => {
                        self.login = l.clone();
                        self.stage = Stage::Search;
                        Step::Send(Request::Search(l))
                    },
                    None => {
                        self.stage = Stage::Done;
                        Step::Finish(GithubFetchResult::disconnected())
                    },
                }
            },
            Stage::Search => {
                let hits = match &response {
                    Some(body) => read_search_hits(body.as_str()),
                    None => None,
                };
                match hits {
                    Some(h) => if h.len() > 0 {
                        self.stage = Stage::Done;
                        Step::Finish(GithubFetchResult::connected(h))
                    } else {
                        self.stage = Stage::Repos;
                        Step::Send(Request::Repos)
                    },
                    None => {
                        self.stage = Stage::Done;
                        let r = GithubFetchResult::connected(Vec::new());
                        assert(r@.prs =~= seq![]);
                        Step::Finish(r)
                    },
                }
            },
            Stage::Repos => {
                let names = match &response {
                    Some(body) => read_repo_names(body.as_str()),
                    None => Vec::new(),
                };
                if names.len() > 0 {
                    let first = names[0].clone();
                    assert(names.deep_view()[0] == names@[0]@);
                    self.repos = names;
                    self.next_repo = 0;
                    self.matches = Vec::new();
                    self.stage = Stage::Pulls;
                    assert(models_of(self.matches@) =~= seq![]);
                    Step::Send(Request::Pulls(first))
                } else {
                    self.stage = Stage::Done;
                    let r = GithubFetchResult::connected(Vec::new());
                    assert(r@.prs =~= seq![]);
                    Step::Finish(r)
                }
            },
            Stage::Pulls => {
                let ghost m0 = models_of(self.matches@);
                let found = match &response {
                    Some(body) => read_pull_matches(body.as_str(), &self.login),
                    None => None,
                };
                match found {
                    Some(mut f) => {
                        let ghost fm = models_of(f@);
                        self.matches.append(&mut f);
                        assert(models_of(self.matches@) =~= m0 + fm);
                    },
                    None => {},
                }
                self.next_repo = self.next_repo + 1;
                if self.next_repo < self.repos.len() {
                    let repo = self.repos[self.next_repo].clone();
                    assert(self.repos.deep_view()[self.next_repo as int] == self.repos@[self.next_repo as int]@);
                    Step::Send(Request::Pulls(repo))
                } else {
                    self.stage = Stage::Done;
                    let mut all: Vec<PullMatch> = Vec::new();
                    core::mem::swap(&mut all, &mut self.matches);
                    let prs = newest_three(all);
                    assert(models_of(self.matches@) =~= seq![]);
                    Step::Finish(GithubFetchResult::connected(prs))
                }
            },
            Stage::Done => {
                let r = GithubFetchResult::connected(Vec::new());
                assert(r@.prs =~= seq![]);
                Step::Finish(r)
            },
        }
    }
}

} // verus!
