//! What the presenter shows of the pull-request feed: the connection status
//! and the current items, replaced wholesale by each outcome.
use crate::model::{prs_of, ConnectionStatus, GithubFetchResult, GithubPr, PrModel};
use vstd::prelude::*;

verus! {

/// The status that an outcome shows.
pub open spec fn status_for(connected: bool) -> ConnectionStatus {
    if connected {
        ConnectionStatus::Connected
    } else {
        ConnectionStatus::Disconnected
    }
}

/// The presenter's view of the feed.
pub struct PrFeed {
    status: ConnectionStatus,
    prs: Vec<GithubPr>,
}

/// The mathematical value of a [`PrFeed`].
pub struct FeedModel {
    pub status: ConnectionStatus,
    pub prs: Seq<PrModel>,
}

impl View for PrFeed {
    type V = FeedModel;

    closed spec fn view(&self) -> FeedModel {
        FeedModel { status: self.status, prs: prs_of(self.prs@) }
    }
}

impl PrFeed {
    /// Nothing known yet, nothing to show.
    pub fn new() -> (r: PrFeed)
        ensures
            r@ == (FeedModel { status: ConnectionStatus::Unknown, prs: seq![] }),
    {
        let r = PrFeed { status: ConnectionStatus::Unknown, prs: Vec::new() };
        assert(prs_of(r.prs@) =~= seq![]);
        r
    }

    /// A cycle has started: the status is unknown until its outcome comes;
    /// the items stay.
    pub fn mark_pending(&mut self)
        ensures
            final(self)@ == (FeedModel { status: ConnectionStatus::Unknown, prs: old(self)@.prs }),
    {
        self.status = ConnectionStatus::Unknown;
    }

    /// Shows `outcome`: its status, and its items in place of the old ones.
    pub fn show(&mut self, outcome: GithubFetchResult)
        ensures
            final(self)@ == (FeedModel { status: status_for(outcome@.connected), prs: outcome@.prs }),
    {
        self.status = if outcome.connected {
            ConnectionStatus::Connected
        } else {
            ConnectionStatus::Disconnected
        };
        self.prs = outcome.prs;
    }

    /// The current status.
    pub fn status(&self) -> (r: ConnectionStatus)
        ensures
            r == self@.status,
    {
        self.status
    }

    /// The current items, in order.
    pub fn prs(&self) -> (r: &Vec<GithubPr>)
        ensures
            prs_of(r@) == self@.prs,
    {
        &self.prs
    }
}

} // verus!
