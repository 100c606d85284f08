//! Handing out registered servers to a client that asks for `count` of
//! them. The servers are taken off the registry most recent first, and each
//! is kept only if it confirms that it is ready; confirming is the caller's
//! work (a round trip over the network), so the procedure is a state
//! machine: the caller asks for the next action, performs the check it
//! names, and reports the answer back.

use vstd::prelude::*;
use crate::server_list::{ServerInfo, ServerList};

verus! {

/// The servers among the first `results.len()` taken off `initial` (most
/// recent first) whose check succeeded, in the order they were taken.
pub open spec fn confirmed_servers(
    initial: Seq<(Seq<char>, usize)>,
    results: Seq<bool>,
) -> Seq<(Seq<char>, usize)>
    decreases results.len(),
{
    if results.len() == 0 {
        Seq::empty()
    } else {
        let prev = confirmed_servers(initial, results.drop_last());
        if results.last() {
            prev.push(initial[initial.len() - results.len()])
        } else {
            prev
        }
    }
}

/// How a request ends.
pub enum RequestOutcome {
    /// The servers that confirmed, in the order they were taken off.
    Endpoints(Vec<ServerInfo>),
    /// Fewer servers were registered than were asked for.
    Insufficient,
}

/// What the caller has to do next.
pub enum RequestAction {
    /// Ask the server at this URL to confirm that it is ready, then report
    /// the answer with `record_check`.
    Check(String),
    /// The request is over.
    Finished(RequestOutcome),
}

/// A request for servers in progress.
pub struct EndpointRequest {
    count: usize,
    searching: bool,
    finished: bool,
    endpoints: Vec<ServerInfo>,
    candidate: Option<ServerInfo>,
    initial: Ghost<Seq<(Seq<char>, usize)>>,
    requested: Ghost<nat>,
    results: Ghost<Seq<bool>>,
}

impl EndpointRequest {
    /// The registry as it was when the request began.
    pub closed spec fn initial(&self) -> Seq<(Seq<char>, usize)> {
        self.initial@
    }

    /// How many servers were asked for.
    pub closed spec fn requested(&self) -> nat {
        self.requested@
    }

    /// The answers reported so far, in order.
    pub closed spec fn results(&self) -> Seq<bool> {
        self.results@
    }

    /// Whether a check has been asked for and not yet reported.
    pub closed spec fn awaiting_check(&self) -> bool {
        self.candidate is Some
    }

    /// Whether the request has ended.
    pub closed spec fn is_finished(&self) -> bool {
        self.finished
    }

    /// The request is in a consistent state with respect to `registered`,
    /// the registry it works on.
    pub closed spec fn consistent(&self, registered: Seq<(Seq<char>, usize)>) -> bool {
        let n = self.initial@.len();
        let c = self.requested@;
        let m = self.results@.len();
        let taken = m + (if self.candidate is Some { 1int } else { 0int });
        &&& !self.finished
        &&& if self.searching {
            &&& c <= n
            &&& m <= c
            &&& self.count == c - m
            &&& (self.candidate is Some ==> m < c)
            &&& registered == self.initial@.take(n - taken)
            &&& (self.candidate matches Some(x) ==> x@ == self.initial@[n - 1 - m])
            &&& self.endpoints@.map_values(|i: ServerInfo| i@) == confirmed_servers(
                self.initial@,
                self.results@,
            )
        } else {
            &&& c > n
            &&& m == 0
            &&& self.candidate is None
            &&& self.count == c
            &&& registered == self.initial@
            &&& self.endpoints@.len() == 0
        }
    }

    /// Begins a request for `count` servers from `registered`. Servers are
    /// only taken off when at least `count` are registered.
    pub fn start(registered: &ServerList, count: usize) -> (r: Self)
        ensures
            r.initial() == registered@,
            r.requested() == count,
            r.results() == Seq::<bool>::empty(),
            !r.awaiting_check(),
            r.consistent(registered@),
    {
        let r = EndpointRequest {
            count,
            searching: registered.len() >= count,
            finished: false,
            endpoints: Vec::new(),
            candidate: None,
            initial: Ghost(registered@),
            requested: Ghost(count as nat),
            results: Ghost(Seq::empty()),
        };
        proof {
            assert(registered@.take(registered@.len() as int) =~= registered@);
            assert(r.endpoints@.map_values(|i: ServerInfo| i@) =~= Seq::<(Seq<char>, usize)>::empty());
        }
        r
    }

    /// The next step: either a check of the next server taken off the
    /// registry, or the end of the request with its outcome.
    ///
    /// A request for more servers than are registered ends with
    /// `Insufficient` and leaves the registry as it was. Otherwise the
    /// `count` most recent servers are taken off, one check each, and the
    /// request ends with those that confirmed.
    pub fn next_action(&mut self, registered: &mut ServerList) -> (r: RequestAction)
        requires
            old(self).consistent(old(registered)@),
            !old(self).awaiting_check(),
        ensures
            final(self).initial() == old(self).initial(),
            final(self).requested() == old(self).requested(),
            final(self).results() == old(self).results(),
            match r {
                RequestAction::Check(url) => {
                    let n = old(self).initial().len();
                    let m = old(self).results().len();
                    &&& m < old(self).requested() <= n
                    &&& url@ == old(self).initial()[n - 1 - m].0
                    &&& final(registered)@ == old(registered)@.drop_last()
                    &&& final(self).awaiting_check()
                    &&& final(self).consistent(final(registered)@)
                },
                RequestAction::Finished(RequestOutcome::Insufficient) => {
                    &&& old(self).requested() > old(self).initial().len()
                    &&& final(registered)@ == old(self).initial()
                    &&& final(self).is_finished()
                },
                RequestAction::Finished(RequestOutcome::Endpoints(servers)) => {
                    let n = old(self).initial().len();
                    let c = old(self).requested();
                    &&& c <= n
                    &&& old(self).results().len() == c
                    &&& servers@.map_values(|i: ServerInfo| i@) == confirmed_servers(
                        old(self).initial(),
                        old(self).results(),
                    )
                    &&& final(registered)@ == old(self).initial().take(n - c)
                    &&& final(self).is_finished()
                },
            },
    {
        if self.searching && self.count > 0 {
            let ghost before = registered@;
            match registered.pop() {
                Some(info) => {
                    let url = info.url.clone();
                    self.candidate = Some(info);
                    proof {
                        let n = self.initial@.len();
                        let m = self.results@.len();
                        assert(before.len() == n - m);
                        assert(before.last() == self.initial@[n - 1 - m]);
                        assert(before.drop_last() =~= self.initial@.take(n - (m + 1)));
                    }
                    return RequestAction::Check(url);
                },
                None => {
                    proof {
                        assert(before.len() == 0);
                    }
                },
            }
        }
        self.finished = true;
        if self.count > 0 {
            let ghost init = self.initial@;
            let ghost req = self.requested@;
            let ghost res = self.results@;
            let ghost reg = registered@;
            while self.endpoints.len() > 0
                invariant
                    self.endpoints@.len() == 0,
                    self.initial@ == init,
                    self.requested@ == req,
                    self.results@ == res,
                    registered@ == reg,
                    self.finished,
                decreases self.endpoints@.len(),
            {
                let info = self.endpoints.remove(0);
                registered.insert(info);
            }
            RequestAction::Finished(RequestOutcome::Insufficient)
        } else {
            let mut servers: Vec<ServerInfo> = Vec::new();
            std::mem::swap(&mut servers, &mut self.endpoints);
            proof {
                let n = self.initial@.len();
                assert(self.initial@.take(n - self.requested@) == registered@);
            }
            RequestAction::Finished(RequestOutcome::Endpoints(servers))
        }
    }

    /// Reports whether the server named by the last `Check` confirmed.
    pub fn record_check(&mut self, confirmed: bool)
        requires
            old(self).awaiting_check(),
        ensures
            final(self).initial() == old(self).initial(),
            final(self).requested() == old(self).requested(),
            final(self).results() == old(self).results().push(confirmed),
            !final(self).awaiting_check(),
            final(self).is_finished() == old(self).is_finished(),
            forall|reg: Seq<(Seq<char>, usize)>|
                old(self).consistent(reg) ==> #[trigger] final(self).consistent(reg),
    {
        let ghost old_results = self.results@;
        let ghost old_endpoints = self.endpoints@;
        let mut taken: Option<ServerInfo> = None;
        std::mem::swap(&mut taken, &mut self.candidate);
        match taken {
            Some(info) => {
                let ghost entry = info@;
                if confirmed {
                    self.endpoints.push(info);
                }
                if self.count > 0 {
                    self.count = self.count - 1;
                }
                self.results = Ghost(old_results.push(confirmed));
                proof {
                    let new_results = old_results.push(confirmed);
                    assert(new_results.drop_last() =~= old_results);
                    if confirmed {
                        assert(self.endpoints@.map_values(|i: ServerInfo| i@) =~= old_endpoints.map_values(
                            |i: ServerInfo| i@,
                        ).push(entry));
                    } else {
                        assert(self.endpoints@ =~= old_endpoints);
                    }
                }
            },
            None => {},
        }
    }
}

/// A request hands out no more servers than it took off the registry, and
/// only servers among those it took: the `m` most recent ones.
pub proof fn law_handed_out_servers_were_taken(
    initial: Seq<(Seq<char>, usize)>,
    results: Seq<bool>,
    e: (Seq<char>, usize),
)
    requires
        results.len() <= initial.len(),
    ensures
        confirmed_servers(initial, results).len() <= results.len(),
        confirmed_servers(initial, results).contains(e) ==> initial.skip(
            initial.len() - results.len(),
        ).contains(e),
    decreases results.len(),
{
    if results.len() > 0 {
        let m = results.len();
        let n = initial.len();
        law_handed_out_servers_were_taken(initial, results.drop_last(), e);
        let prev = confirmed_servers(initial, results.drop_last());
        let taken_before = initial.skip(n - (m - 1));
        let taken = initial.skip(n - m);
        if prev.contains(e) {
            let k = choose|k: int| 0 <= k < taken_before.len() && taken_before[k] == e;
            assert(taken[k + 1] == e);
        }
        if confirmed_servers(initial, results).contains(e) && !prev.contains(e) {
            let k = choose|k: int|
                0 <= k < confirmed_servers(initial, results).len() && confirmed_servers(initial, results)[k] == e;
            assert(results.last());
            assert(k == prev.len());
            assert(taken[0] == e);
        }
    }
}

/// Every check that succeeded hands out its server, in the order taken: as
/// many servers are handed out as checks succeeded, and the server taken
/// `j`-th (the `j`-th most recent, `initial[n - 1 - j]`) stands, when its
/// check succeeded, after the servers of the successful checks before it.
pub proof fn law_every_confirmed_server_is_handed_out(
    initial: Seq<(Seq<char>, usize)>,
    results: Seq<bool>,
)
    ensures
        confirmed_servers(initial, results).len() == results.filter(|b: bool| b).len(),
        forall|j: int|
            0 <= j < results.len() && results[j] ==> confirmed_servers(initial, results)[results.take(
                j,
            ).filter(|b: bool| b).len() as int] == initial[initial.len() - 1 - j],
    decreases results.len(),
{
    let p = |b: bool| b;
    if results.len() == 0 {
        reveal(Seq::filter);
    } else {
        let m = results.len();
        let r = results.drop_last();
        let b = results.last();
        law_every_confirmed_server_is_handed_out(initial, r);
        assert(results =~= r.push(b));
        r.lemma_filter_push(b, p);
        let prev = confirmed_servers(initial, r);
        assert forall|j: int|
            0 <= j < results.len() && results[j] implies confirmed_servers(initial, results)[results.take(
            j,
        ).filter(p).len() as int] == initial[initial.len() - 1 - j] by {
            if j < m - 1 {
                assert(results.take(j) =~= r.take(j));
                assert(results[j] == r[j]);
                assert(r.take(j + 1) =~= r.take(j).push(r[j]));
                r.take(j).lemma_filter_push(r[j], p);
                r.lemma_filter_take_len(p, j + 1);
                assert(r.take(j).filter(p).len() < r.filter(p).len());
            } else {
                assert(results.take(j) =~= r);
            }
        }
    }
}

} // verus!
