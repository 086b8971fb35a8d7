use vstd::prelude::*;

verus! {

/// The most pull requests that one outcome carries.
pub const MAX_ITEMS: usize = 3;

/// A pull request as the presenter shows it: its title and its web address.
#[derive(Clone, Debug)]
pub struct GithubPr {
    pub title: String,
    pub url: String,
}

/// The mathematical value of a [`GithubPr`].
pub struct PrModel {
    pub title: Seq<char>,
    pub url: Seq<char>,
}

impl View for GithubPr {
    type V = PrModel;

    open spec fn view(&self) -> PrModel {
        PrModel { title: self.title@, url: self.url@ }
    }
}

impl GithubPr {
    /// A pull request with the given title and address.
    pub fn new(title: String, url: String) -> (r: GithubPr)
        ensures
            r.title@ == title@,
            r.url@ == url@,
    {
        GithubPr { title, url }
    }
}

/// The mathematical values of a sequence of pull requests.
pub open spec fn prs_of(v: Seq<GithubPr>) -> Seq<PrModel> {
    v.map_values(|p: GithubPr| p@)
}

/// What one fetch cycle ends with.
#[derive(Clone, Debug)]
pub struct GithubFetchResult {
    pub connected: bool,
    pub prs: Vec<GithubPr>,
}

/// The mathematical value of a [`GithubFetchResult`].
pub struct OutcomeModel {
    pub connected: bool,
    pub prs: Seq<PrModel>,
}

impl OutcomeModel {
    /// At most three items, and none unless connected.
    pub open spec fn wf(self) -> bool {
        &&& self.prs.len() <= MAX_ITEMS
        &&& !self.connected ==> self.prs.len() == 0
    }
}

impl View for GithubFetchResult {
    type V = OutcomeModel;

    open spec fn view(&self) -> OutcomeModel {
        OutcomeModel { connected: self.connected, prs: prs_of(self.prs@) }
    }
}

/// The mathematical value of an optional outcome.
pub open spec fn outcome_view(o: Option<GithubFetchResult>) -> Option<OutcomeModel> {
    match o {
        Some(r) => Some(r@),
        None => None,
    }
}

impl GithubFetchResult {
    /// The outcome of a cycle that could not authenticate: nothing to show.
    pub fn disconnected() -> (r: GithubFetchResult)
        ensures
            r@ == (OutcomeModel { connected: false, prs: seq![] }),
            r@.wf(),
    {
        let r = GithubFetchResult { connected: false, prs: Vec::new() };
        assert(r@.prs =~= seq![]);
        r
    }

    /// Whether this outcome has at most three items, and none unless
    /// connected.
    pub fn is_well_formed(&self) -> (r: bool)
        ensures
            r == self@.wf(),
    {
        self.prs.len() <= MAX_ITEMS && (self.connected || self.prs.len() == 0)
    }

    /// A connected outcome that carries the given pull requests.
    pub fn connected(prs: Vec<GithubPr>) -> (r: GithubFetchResult)
        ensures
            r@.connected,
            r.prs@ == prs@,
    {
        GithubFetchResult { connected: true, prs }
    }
}

/// How the presenter shows the link to the remote service.
#[derive(Clone, Copy, Debug, PartialEq, Eq, Structural)]
pub enum ConnectionStatus {
    Unknown,
    Connected,
    Disconnected,
}

} // verus!
