//! The state of a TryCP server: where its conductors keep their files, the
//! ports it hands out to them, and the servers registered with it when it
//! acts as a manager.

use vstd::prelude::*;
use crate::outside::{parse_url, url_parse_outcome};
use crate::paths::{joined, join_path, CONDUCTOR_CONFIG_FILENAME, CONDUCTOR_STDERR_LOG_FILENAME, CONDUCTOR_STDOUT_LOG_FILENAME};
use crate::port_range::PortRange;
use crate::rpc::{concat2, url_failure_message, url_parse_failure, ErrorKind, RpcError};
use crate::server_list::{with_server, ServerInfo, ServerList};
use crate::text::{decimal, push_decimal};

verus! {

/// One request for a port: the next port when it is still in the range
/// (and the port after it becomes the next), nothing otherwise.
pub open spec fn acquire_step(next: u16, range: PortRange) -> (u16, Option<u16>) {
    if next < range.end {
        ((next + 1) as u16, Some(next))
    } else {
        (next, None)
    }
}

/// The next port after `k` requests, starting from `next`.
pub open spec fn next_port_after(next: u16, range: PortRange, k: nat) -> u16
    decreases k,
{
    if k == 0 {
        next
    } else {
        acquire_step(next_port_after(next, range, (k - 1) as nat), range).0
    }
}

/// The message for a request for a port when none is left.
pub open spec fn ports_exhausted_message(range: PortRange) -> Seq<char> {
    "All available ports have been used up! Range: "@ + decimal(range.start as nat) + seq!['.', '.']
        + decimal(range.end as nat)
}

/// `after` is `before` after one request for a port, which gave `port`.
pub open spec fn acquire_transition(before: TrycpServer, after: TrycpServer, port: Option<u16>) -> bool {
    &&& (after.next_port, port) == acquire_step(before.next_port, before.port_range)
    &&& after.port_range == before.port_range
    &&& after.conductors_dir == before.conductors_dir
    &&& after.registered == before.registered
}

/// `after` is `before` after a reset: ports are handed out from the start
/// of the range again; the range and the registry stay.
pub open spec fn reset_transition(before: TrycpServer, after: TrycpServer) -> bool {
    &&& after.next_port == before.port_range.start
    &&& after.port_range == before.port_range
    &&& after.registered == before.registered
}

/// `states` is a run of requests for ports, the `i`-th giving `ports[i]`.
pub open spec fn acquire_run(states: Seq<TrycpServer>, ports: Seq<Option<u16>>) -> bool {
    &&& states.len() == ports.len() + 1
    &&& forall|i: int| 0 <= i < ports.len() ==> acquire_transition(#[trigger] states[i], states[i + 1], ports[i])
}

/// The state of a TryCP server.
pub struct TrycpServer {
    /// The directory under which each player's conductor keeps its files.
    pub conductors_dir: String,
    /// The port that the next request for a port is given.
    pub next_port: u16,
    /// The ports that may be handed out.
    pub port_range: PortRange,
    /// The servers registered with this one, when it acts as a manager.
    pub registered: ServerList,
}

impl TrycpServer {
    /// A server that hands out the ports of `port_range` from its start,
    /// keeps its conductors under `conductors_dir`, and knows of no other
    /// server.
    pub fn new(port_range: PortRange, conductors_dir: String) -> (r: Self)
        ensures
            r.conductors_dir@ == conductors_dir@,
            r.next_port == port_range.start,
            r.port_range == port_range,
            r.registered@ == Seq::<(Seq<char>, usize)>::empty(),
    {
        let start = port_range.start;
        TrycpServer { conductors_dir, next_port: start, port_range, registered: ServerList::new() }
    }

    /// Hands out the next port of the range, or fails once the range is
    /// used up, naming the range as `start..end`.
    pub fn acquire_port(&mut self) -> (r: Result<u16, String>)
        ensures
            acquire_transition(*old(self), *final(self), r.ok()),
            r matches Err(msg) ==> msg@ == ports_exhausted_message(old(self).port_range),
    {
        if self.next_port < self.port_range.end {
            let port = self.next_port;
            self.next_port = self.next_port + 1;
            Ok(port)
        } else {
            let mut msg = String::from_str("All available ports have been used up! Range: ");
            push_decimal(&mut msg, self.port_range.start);
            msg.append("..");
            push_decimal(&mut msg, self.port_range.end);
            proof {
                reveal_strlit("..");
                assert(msg@ =~= ports_exhausted_message(self.port_range));
            }
            Err(msg)
        }
    }

    /// Starts handing out ports from the start of the range again, and
    /// moves to `fresh_dir` when a fresh conductors directory could be made.
    pub fn reset(&mut self, fresh_dir: Option<String>)
        ensures
            reset_transition(*old(self), *final(self)),
            final(self).conductors_dir@ == match fresh_dir {
                Some(dir) => dir@,
                None => old(self).conductors_dir@,
            },
    {
        self.next_port = self.port_range.start;
        match fresh_dir {
            Some(dir) => {
                self.conductors_dir = dir;
            },
            None => {},
        }
    }

    /// The directory of the conductor of player `id`.
    pub fn get_conductor_dir(&self, id: &str) -> (r: String)
        ensures
            r@ == joined(self.conductors_dir@, id@),
    {
        join_path(self.conductors_dir.as_str(), id)
    }

    /// The configuration file of the conductor of player `id`.
    pub fn get_config_path(&self, id: &str) -> (r: String)
        ensures
            r@ == joined(joined(self.conductors_dir@, id@), CONDUCTOR_CONFIG_FILENAME@),
    {
        let dir = self.get_conductor_dir(id);
        join_path(dir.as_str(), CONDUCTOR_CONFIG_FILENAME)
    }

    /// The file that receives the standard output of player `id`'s conductor.
    pub fn get_stdout_log_path(&self, id: &str) -> (r: String)
        ensures
            r@ == joined(joined(self.conductors_dir@, id@), CONDUCTOR_STDOUT_LOG_FILENAME@),
    {
        let dir = self.get_conductor_dir(id);
        join_path(dir.as_str(), CONDUCTOR_STDOUT_LOG_FILENAME)
    }

    /// The file that receives the standard error of player `id`'s conductor.
    pub fn get_stderr_log_path(&self, id: &str) -> (r: String)
        ensures
            r@ == joined(joined(self.conductors_dir@, id@), CONDUCTOR_STDERR_LOG_FILENAME@),
    {
        let dir = self.get_conductor_dir(id);
        join_path(dir.as_str(), CONDUCTOR_STDERR_LOG_FILENAME)
    }

    /// Registers the server at `url` with `ram` megabytes, once `url` is
    /// known to parse; answers `registered <url>`.
    pub fn register(&mut self, url: String, ram: usize) -> (r: Result<String, RpcError>)
        ensures
            final(self).next_port == old(self).next_port,
            final(self).port_range == old(self).port_range,
            final(self).conductors_dir == old(self).conductors_dir,
            match url_parse_outcome(url@) {
                Ok(_) => r matches Ok(msg) && msg@ == "registered "@ + url@
                    && final(self).registered@ == with_server(old(self).registered@, (url@, ram)),
                Err(detail) => r matches Err(e) && e.kind == ErrorKind::InvalidRequest
                    && e.message@ == url_failure_message(url@, detail)
                    && final(self).registered@ == old(self).registered@,
            },
    {
        match parse_url(url.as_str()) {
            Err(detail) => Err(url_parse_failure(url.as_str(), detail.as_str())),
            Ok(_) => {
                let reply = concat2("registered ", url.as_str());
                self.registered.insert(ServerInfo { url, ram });
                Ok(reply)
            },
        }
    }
}

proof fn lemma_next_port_after(range: PortRange, k: nat)
    requires
        range.start <= range.end,
    ensures
        next_port_after(range.start, range, k) == (if range.start + k < range.end {
            range.start + k
        } else {
            range.end as int
        }),
    decreases k,
{
    if k > 0 {
        lemma_next_port_after(range, (k - 1) as nat);
    }
}

/// Between two resets the ports of the range are handed out in order,
/// each once: the request after `k` others gets `start + k` while that is
/// below `end`, and every later request fails. So exactly `end - start`
/// requests succeed.
pub proof fn law_ports_handed_out_in_order(range: PortRange, k: nat)
    requires
        range.start <= range.end,
    ensures
        acquire_step(next_port_after(range.start, range, k), range).1 == (if range.start + k
            < range.end {
            Some((range.start + k) as u16)
        } else {
            None::<u16>
        }),
{
    lemma_next_port_after(range, k);
}

/// A port handed out is in the range and is not one handed out since the
/// last reset, which are those from `start` up to the next port.
pub proof fn law_acquired_port_is_fresh(next: u16, range: PortRange)
    requires
        range.start <= next,
    ensures
        acquire_step(next, range).1 matches Some(p) ==> {
            &&& range.start <= p < range.end
            &&& !(range.start <= p < next)
            &&& acquire_step(next, range).0 == p + 1
        },
        acquire_step(next, range).1 is None ==> acquire_step(next, range).0 == next,
{
}

proof fn lemma_run_follows_steps(states: Seq<TrycpServer>, ports: Seq<Option<u16>>, i: nat)
    requires
        acquire_run(states, ports),
        i <= ports.len(),
    ensures
        states[i as int].next_port == next_port_after(states[0].next_port, states[0].port_range, i),
        states[i as int].port_range == states[0].port_range,
        states[i as int].registered == states[0].registered,
        i < ports.len() ==> ports[i as int] == acquire_step(
            next_port_after(states[0].next_port, states[0].port_range, i),
            states[0].port_range,
        ).1,
    decreases i,
{
    if i > 0 {
        lemma_run_follows_steps(states, ports, (i - 1) as nat);
        assert(acquire_transition(states[i - 1], states[i as int], ports[i - 1]));
    }
    if i < ports.len() {
        assert(acquire_transition(states[i as int], states[i + 1 as int], ports[i as int]));
    }
}

/// Any run of requests for ports that starts at the start of the range
/// (as after `new` or a reset) hands out `start, start + 1, ...` in
/// order, each port of the range once, and then fails on every request.
pub proof fn law_run_hands_out_range_in_order(states: Seq<TrycpServer>, ports: Seq<Option<u16>>)
    requires
        acquire_run(states, ports),
        states[0].next_port == states[0].port_range.start,
        states[0].port_range.start <= states[0].port_range.end,
    ensures
        forall|i: int|
            0 <= i < ports.len() ==> #[trigger] ports[i] == (if states[0].port_range.start + i
                < states[0].port_range.end {
                Some((states[0].port_range.start + i) as u16)
            } else {
                None::<u16>
            }),
{
    assert forall|i: int| 0 <= i < ports.len() implies #[trigger] ports[i] == (if states[0].port_range.start + i
        < states[0].port_range.end {
        Some((states[0].port_range.start + i) as u16)
    } else {
        None::<u16>
    }) by {
        lemma_run_follows_steps(states, ports, i as nat);
        law_ports_handed_out_in_order(states[0].port_range, i as nat);
    }
}

/// After any number of requests for ports, a reset brings the server back
/// to handing out the range from its start: the next port is the start,
/// and the range and the registry are those of the first state.
pub proof fn law_reset_restarts_ports(
    states: Seq<TrycpServer>,
    ports: Seq<Option<u16>>,
    after: TrycpServer,
)
    requires
        acquire_run(states, ports),
        reset_transition(states.last(), after),
    ensures
        after.next_port == states[0].port_range.start,
        after.port_range == states[0].port_range,
        after.registered == states[0].registered,
        acquire_step(after.next_port, after.port_range).1 == (if states[0].port_range.start
            < states[0].port_range.end {
            Some(states[0].port_range.start)
        } else {
            None::<u16>
        }),
{
    lemma_run_follows_steps(states, ports, ports.len());
}

} // verus!
