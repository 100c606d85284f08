//! The registry of TryCP servers that a manager keeps: one entry per URL,
//! the most recently registered last.

use vstd::prelude::*;
use crate::text::str_equal;

verus! {

/// What is known of a TryCP server that registered with a manager.
#[derive(Debug, PartialEq)]
pub struct ServerInfo {
    /// The URL at which the server is reached.
    pub url: String,
    /// Its memory, in megabytes.
    pub ram: usize,
}

impl View for ServerInfo {
    type V = (Seq<char>, usize);

    open spec fn view(&self) -> (Seq<char>, usize) {
        (self.url@, self.ram)
    }
}

/// The entries of `s` whose URL is not `url`, in their order.
pub open spec fn without_url(s: Seq<(Seq<char>, usize)>, url: Seq<char>) -> Seq<(Seq<char>, usize)>
    decreases s.len(),
{
    if s.len() == 0 {
        s
    } else {
        let rest = without_url(s.drop_last(), url);
        if s.last().0 == url {
            rest
        } else {
            rest.push(s.last())
        }
    }
}

/// The registry after `info` is registered: any entry with its URL is
/// dropped, and `info` goes last.
pub open spec fn with_server(s: Seq<(Seq<char>, usize)>, info: (Seq<char>, usize)) -> Seq<(Seq<char>, usize)> {
    without_url(s, info.0).push(info)
}

/// No two entries share a URL.
pub open spec fn urls_distinct(s: Seq<(Seq<char>, usize)>) -> bool {
    forall|i: int, j: int| 0 <= i < j < s.len() ==> #[trigger] s[i].0 != #[trigger] s[j].0
}

/// The registry of servers.
#[derive(Debug, PartialEq)]
pub struct ServerList {
    servers: Vec<ServerInfo>,
}

impl View for ServerList {
    type V = Seq<(Seq<char>, usize)>;

    closed spec fn view(&self) -> Seq<(Seq<char>, usize)> {
        self.servers@.map_values(|i: ServerInfo| i@)
    }
}

impl ServerList {
    /// An empty registry.
    pub fn new() -> (r: Self)
        ensures
            r@ == Seq::<(Seq<char>, usize)>::empty(),
    {
        let r = ServerList { servers: Vec::new() };
        assert(r@ =~= Seq::<(Seq<char>, usize)>::empty());
        r
    }

    /// Takes out the most recently registered entry.
    pub fn pop(&mut self) -> (r: Option<ServerInfo>)
        ensures
            old(self)@.len() == 0 ==> r is None && final(self)@ == old(self)@,
            old(self)@.len() > 0 ==> (r matches Some(info) && info@ == old(self)@.last()
                && final(self)@ == old(self)@.drop_last()),
    {
        let r = self.servers.pop();
        proof {
            assert(self@ =~= old(self)@.take(self@.len() as int));
            if old(self)@.len() > 0 {
                assert(self@ =~= old(self)@.drop_last());
            }
        }
        r
    }

    /// Drops every entry whose URL is `url`, keeping the others in order.
    pub fn remove(&mut self, url: &str)
        ensures
            final(self)@ == without_url(old(self)@, url@),
    {
        let ghost orig = self@;
        let mut i: usize = 0;
        let ghost mut j: int = 0;
        assert(orig.take(0) =~= Seq::<(Seq<char>, usize)>::empty());
        assert(orig.skip(0) =~= orig);
        assert(self@.take(0) =~= Seq::<(Seq<char>, usize)>::empty());
        assert(self@.skip(0) =~= self@);
        while i < self.servers.len()
            invariant
                0 <= j <= orig.len(),
                i <= self.servers.len(),
                self@.take(i as int) == without_url(orig.take(j), url@),
                self@.skip(i as int) == orig.skip(j),
            decreases self.servers.len() - i,
        {
            let ghost before = self@;
            assert(before.len() == self.servers.len());
            assert(before.skip(i as int).len() > 0);
            assert(j < orig.len());
            assert(before.skip(i as int)[0] == orig.skip(j)[0]);
            assert(orig.take(j + 1).drop_last() =~= orig.take(j));
            assert(orig.take(j + 1).last() == orig[j]);
            if str_equal(self.servers[i].url.as_str(), url) {
                self.servers.remove(i);
                proof {
                    assert(self@ =~= before.remove(i as int));
                    assert(self@.take(i as int) =~= before.take(i as int));
                    assert(self@.skip(i as int) =~= before.skip(i as int).drop_first());
                    assert(orig.skip(j).drop_first() =~= orig.skip(j + 1));
                }
            } else {
                i = i + 1;
                proof {
                    assert(self@.take(i as int) =~= before.take(i - 1).push(before[i - 1]));
                    assert(self@.skip(i as int) =~= before.skip(i - 1).drop_first());
                    assert(orig.skip(j).drop_first() =~= orig.skip(j + 1));
                }
            }
            proof {
                j = j + 1;
            }
        }
        proof {
            assert(self@.skip(i as int).len() == 0);
            assert(orig.skip(j).len() == 0);
            assert(orig.take(j) =~= orig);
            assert(self@.take(i as int) =~= self@);
        }
    }

    /// Registers `info`, replacing any entry with the same URL; `info` is
    /// then the most recent entry.
    pub fn insert(&mut self, info: ServerInfo)
        ensures
            final(self)@ == with_server(old(self)@, info@),
    {
        self.remove(info.url.as_str());
        let ghost mid = self@;
        self.servers.push(info);
        assert(self@ =~= mid.push(info@));
    }

    /// The number of entries.
    pub fn len(&self) -> (r: usize)
        ensures
            r == self@.len(),
    {
        self.servers.len()
    }
}

/// An entry survives the removal of `url` exactly when it was there and
/// has another URL.
pub proof fn law_remove_keeps_exactly_other_urls(
    s: Seq<(Seq<char>, usize)>,
    url: Seq<char>,
    e: (Seq<char>, usize),
)
    ensures
        without_url(s, url).contains(e) <==> (s.contains(e) && e.0 != url),
    decreases s.len(),
{
    if s.len() > 0 {
        law_remove_keeps_exactly_other_urls(s.drop_last(), url, e);
        let rest = without_url(s.drop_last(), url);
        assert(s =~= s.drop_last().push(s.last()));
        if s.contains(e) && e.0 != url {
            let k = choose|k: int| 0 <= k < s.len() && s[k] == e;
            if k < s.len() - 1 {
                assert(s.drop_last()[k] == e);
            }
        }
        if without_url(s, url).contains(e) {
            if s.last().0 != url {
                let k = choose|k: int| 0 <= k < rest.push(s.last()).len() && rest.push(s.last())[k] == e;
                if k < rest.len() {
                    assert(rest[k] == e);
                } else {
                    assert(s[s.len() - 1] == e);
                }
            }
        }
        if s.drop_last().contains(e) {
            let k = choose|k: int| 0 <= k < s.drop_last().len() && s.drop_last()[k] == e;
            assert(s[k] == e);
        }
        if rest.contains(e) && s.last().0 != url {
            let k = choose|k: int| 0 <= k < rest.len() && rest[k] == e;
            assert(rest.push(s.last())[k] == e);
        }
        if e == s.last() && e.0 != url {
            assert(rest.push(s.last())[rest.len() as int] == e);
        }
    }
}

/// Removing a URL twice leaves what removing it once leaves.
pub proof fn law_remove_idempotent(s: Seq<(Seq<char>, usize)>, url: Seq<char>)
    ensures
        without_url(without_url(s, url), url) == without_url(s, url),
    decreases s.len(),
{
    if s.len() > 0 {
        law_remove_idempotent(s.drop_last(), url);
        let rest = without_url(s.drop_last(), url);
        if s.last().0 != url {
            assert(rest.push(s.last()).drop_last() =~= rest);
        }
    }
}

/// Removing a URL keeps URLs pairwise distinct.
pub proof fn law_remove_keeps_urls_distinct(s: Seq<(Seq<char>, usize)>, url: Seq<char>)
    requires
        urls_distinct(s),
    ensures
        urls_distinct(without_url(s, url)),
    decreases s.len(),
{
    if s.len() > 0 {
        assert(urls_distinct(s.drop_last()));
        law_remove_keeps_urls_distinct(s.drop_last(), url);
        let rest = without_url(s.drop_last(), url);
        if s.last().0 != url {
            let t = rest.push(s.last());
            assert forall|i: int, j: int| 0 <= i < j < t.len() implies #[trigger] t[i].0 != #[trigger] t[j].0 by {
                if j == t.len() - 1 {
                    assert(rest.contains(t[i]));
                    law_remove_keeps_exactly_other_urls(s.drop_last(), url, t[i]);
                    let k = choose|k: int| 0 <= k < s.drop_last().len() && s.drop_last()[k] == t[i];
                    assert(s[k] == t[i]);
                    assert(s[k].0 != s[s.len() - 1].0);
                } else {
                    assert(t[i] == rest[i]);
                    assert(t[j] == rest[j]);
                }
            }
        }
    }
}

/// After `info` is registered it is the last entry, no other entry has
/// its URL, and if URLs were pairwise distinct they still are.
pub proof fn law_register_single_entry(s: Seq<(Seq<char>, usize)>, info: (Seq<char>, usize))
    ensures
        with_server(s, info).last() == info,
        forall|i: int| 0 <= i < with_server(s, info).len() - 1 ==> #[trigger] with_server(s, info)[i].0 != info.0,
        urls_distinct(s) ==> urls_distinct(with_server(s, info)),
{
    let rest = without_url(s, info.0);
    let t = with_server(s, info);
    assert forall|i: int| 0 <= i < t.len() - 1 implies #[trigger] t[i].0 != info.0 by {
        assert(t[i] == rest[i]);
        assert(rest.contains(rest[i]));
        law_remove_keeps_exactly_other_urls(s, info.0, rest[i]);
    }
    if urls_distinct(s) {
        law_remove_keeps_urls_distinct(s, info.0);
        assert forall|i: int, j: int| 0 <= i < j < t.len() implies #[trigger] t[i].0 != #[trigger] t[j].0 by {
            if j == t.len() - 1 {
                assert(t[i].0 != info.0);
            } else {
                assert(t[i] == rest[i]);
                assert(t[j] == rest[j]);
            }
        }
    }
}

/// Registering a server with the URL of an earlier registration replaces
/// it: the registry is as if only the later one had been registered.
pub proof fn law_register_replaces_same_url(
    s: Seq<(Seq<char>, usize)>,
    first: (Seq<char>, usize),
    second: (Seq<char>, usize),
)
    requires
        first.0 == second.0,
    ensures
        with_server(with_server(s, first), second) == with_server(s, second),
{
    let rest = without_url(s, first.0);
    assert(rest.push(first).drop_last() =~= rest);
    law_remove_idempotent(s, first.0);
    assert(without_url(rest.push(first), first.0) == without_url(rest, first.0));
}

/// Whether an entry has a URL other than `url`.
pub open spec fn has_other_url(url: Seq<char>) -> spec_fn((Seq<char>, usize)) -> bool {
    |e: (Seq<char>, usize)| e.0 != url
}

/// Removing a URL keeps exactly the entries with another URL, in their
/// order: the subsequence of those entries.
pub proof fn law_remove_keeps_others_in_order(s: Seq<(Seq<char>, usize)>, url: Seq<char>)
    ensures
        without_url(s, url) == s.filter(has_other_url(url)),
    decreases s.len(),
{
    if s.len() == 0 {
        reveal(Seq::filter);
    } else {
        law_remove_keeps_others_in_order(s.drop_last(), url);
        assert(s =~= s.drop_last().push(s.last()));
        s.drop_last().lemma_filter_push(s.last(), has_other_url(url));
    }
}

/// Registering `info` keeps every entry with another URL, in order, and
/// puts `info` after them: an entry is there afterwards exactly when it is
/// `info` or it was there with another URL, and there is one entry more
/// than there were entries with another URL.
pub proof fn law_register_keeps_other_entries(
    s: Seq<(Seq<char>, usize)>,
    info: (Seq<char>, usize),
    e: (Seq<char>, usize),
)
    ensures
        with_server(s, info) == s.filter(has_other_url(info.0)).push(info),
        with_server(s, info).len() == s.filter(has_other_url(info.0)).len() + 1,
        with_server(s, info).contains(e) <==> (e == info || (s.contains(e) && e.0 != info.0)),
{
    law_remove_keeps_others_in_order(s, info.0);
    law_remove_keeps_exactly_other_urls(s, info.0, e);
    let rest = without_url(s, info.0);
    let t = rest.push(info);
    if t.contains(e) && e != info {
        let k = choose|k: int| 0 <= k < t.len() && t[k] == e;
        assert(rest[k] == e);
    }
    if rest.contains(e) {
        let k = choose|k: int| 0 <= k < rest.len() && rest[k] == e;
        assert(t[k] == e);
    }
    assert(t[rest.len() as int] == info);
}

} // verus!
