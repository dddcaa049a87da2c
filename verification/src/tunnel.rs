use vstd::prelude::*;

use crate::text::{
    all_dec_digits, contains_seq, contains_sub, dec_rep, dec_value, find_char_from, first_index,
    parse_u16, split_char, split_seq, u16_string,
};

verus! {

// Tunnel mode discovers the running jobs, learns the service port each one
// exposes on its compute node, and hands every job a distinct local port for
// a dedicated port-forward process. The remote queries, the bind probes and
// the forward processes are the embedding application's; the parsing of what
// comes back, the port bookkeeping and the forward arguments are verified
// here.

/// A job the accounting query reports as running on a service-capable node.
pub struct RunningJob {
    /// The scheduler's name for the job.
    pub name: String,
    /// The compute node the job occupies.
    pub node: String,
}

/// A running job with a confirmed listening port on its compute node.
pub struct Job {
    /// The scheduler's name for the job.
    pub name: String,
    /// The compute node the job occupies.
    pub node: String,
    /// The port its service listens on, read from the job's metadata file.
    pub remote_port: u16,
}

/// A fatal failure of tunnel mode; per-job parsing trouble is skipped, not
/// raised.
#[derive(Clone, Copy, PartialEq, Eq, Structural, Debug)]
pub enum TunnelError {
    /// The top-level accounting query itself failed.
    QueryFailed,
    /// No free local port is left in the scan range.
    PortExhaustion,
}

/// The accounting query that lists running jobs, one per line: the job name
/// and its node list as two pipe-delimited fields.
pub fn discovery_command() -> (r: String)
    ensures
        r@ == "sacct --format=JobName%22,Nodelist%8 --state=R -nPX"@,
{
    "sacct --format=JobName%22,Nodelist%8 --state=R -nPX".to_owned()
}

/// The substring that marks a node as hosting the dashboard service.
pub open spec fn service_node_mark() -> Seq<char> {
    "gpu"@
}

/// The job one discovery line names: the name before the first delimiter and
/// the node between the first delimiter and the next, kept only when the node
/// carries the service mark.
pub open spec fn parse_line(l: Seq<char>) -> Option<(Seq<char>, Seq<char>)> {
    let i = first_index(l, '|');
    if i == l.len() {
        None
    } else {
        let rest = l.skip(i + 1);
        let node = rest.take(first_index(rest, '|'));
        if contains_seq(node, service_node_mark()) {
            Some((l.take(i), node))
        } else {
            None
        }
    }
}

/// The service-capable jobs the discovery lines name, in order.
pub open spec fn discovered_of(lines: Seq<Seq<char>>) -> Seq<(Seq<char>, Seq<char>)>
    decreases lines.len(),
{
    if lines.len() == 0 {
        Seq::empty()
    } else {
        match parse_line(lines[0]) {
            Some(p) => seq![p] + discovered_of(lines.drop_first()),
            None => discovered_of(lines.drop_first()),
        }
    }
}

/// Reads one line of the accounting output; `None` skips the line, because it
/// is malformed or because its node hosts no dashboard service.
pub fn parse_sacct_line(l: &str) -> (r: Option<RunningJob>)
    ensures
        match r {
            Some(j) => parse_line(l@) == Some((j.name@, j.node@)),
            None => parse_line(l@) is None,
        },
{
    let n = l.unicode_len();
    let i = find_char_from(l, '|', 0);
    proof {
        assert(l@.skip(0) =~= l@);
    }
    if i == n {
        return None;
    }
    let rest = l.substring_char(i + 1, n);
    proof {
        assert(rest@ =~= l@.skip(i + 1));
    }
    let m = rest.unicode_len();
    let j = find_char_from(rest, '|', 0);
    proof {
        assert(rest@.skip(0) =~= rest@);
    }
    let node = rest.substring_char(0, j);
    proof {
        assert(node@ =~= rest@.take(j as int));
    }
    if contains_sub(node, "gpu") {
        let name = l.substring_char(0, i);
        proof {
            assert(name@ =~= l@.take(i as int));
        }
        Some(RunningJob { name: name.to_owned(), node: node.to_owned() })
    } else {
        None
    }
}

/// Reads the whole accounting output into the jobs worth tunnelling to, in
/// order: lines without both fields and lines whose node hosts no service are
/// skipped.
pub fn parse_discovery_output(output: &str) -> (jobs: Vec<RunningJob>)
    ensures
        jobs@.map_values(|j: RunningJob| (j.name@, j.node@)) == discovered_of(
            split_seq(output@, '\n'),
        ),
{
    let lines = split_char(output, '\n');
    let ghost line_views = lines@.map_values(|t: String| t@);
    let mut jobs: Vec<RunningJob> = Vec::new();
    let mut i: usize = 0;
    proof {
        assert(line_views.skip(0) =~= line_views);
    }
    while i < lines.len()
        invariant
            0 <= i <= lines@.len(),
            line_views == lines@.map_values(|t: String| t@),
            jobs@.map_values(|j: RunningJob| (j.name@, j.node@)) + discovered_of(
                line_views.skip(i as int),
            ) == discovered_of(line_views),
        decreases lines@.len() - i,
    {
        proof {
            assert(line_views.skip(i as int)[0] == line_views[i as int]);
            assert(line_views.skip(i as int).drop_first() =~= line_views.skip(i + 1));
        }
        let ghost jobs_before = jobs@;
        match parse_sacct_line(lines[i].as_str()) {
            Some(j) => {
                jobs.push(j);
                proof {
                    assert(jobs@.map_values(|j: RunningJob| (j.name@, j.node@)) =~= jobs_before
                        .map_values(|j: RunningJob| (j.name@, j.node@)) + seq![
                        (line_views[i as int].take(first_index(line_views[i as int], '|')), jobs@[
                        jobs@.len() - 1].node@)]);
                    assert(jobs@.map_values(|j: RunningJob| (j.name@, j.node@)) + discovered_of(
                        line_views.skip(i + 1),
                    ) =~= (jobs_before.map_values(|j: RunningJob| (j.name@, j.node@))
                        + discovered_of(line_views.skip(i as int))));
                }
            },
            None => {},
        }
        i += 1;
    }
    proof {
        assert(line_views.skip(lines@.len() as int) =~= Seq::<Seq<char>>::empty());
        assert(jobs@.map_values(|j: RunningJob| (j.name@, j.node@)) =~= jobs@.map_values(
            |j: RunningJob| (j.name@, j.node@),
        ) + discovered_of(line_views.skip(lines@.len() as int)));
    }
    jobs
}

/// The remote command that reads one job's service metadata file from its
/// results directory.
pub fn metadata_command(job_name: &str) -> (r: String)
    ensures
        r@ == "cat ~/jobs/"@ + job_name@ + ".zarr/gui"@,
{
    let mut out = "cat ~/jobs/".to_owned();
    out.append(job_name);
    out.append(".zarr/gui");
    out
}

/// The service port a metadata file names. The file holds `node:port`: the
/// port is the decimal field between the first delimiter and the next, and
/// anything else is malformed.
pub open spec fn metadata_port_of(s: Seq<char>) -> Option<int> {
    let i = first_index(s, ':');
    if i == s.len() {
        None
    } else {
        let rest = s.skip(i + 1);
        let fld = rest.take(first_index(rest, ':'));
        if fld.len() > 0 && all_dec_digits(fld) && dec_value(fld) <= u16::MAX {
            Some(dec_value(fld))
        } else {
            None
        }
    }
}

/// Reads the service port out of a metadata file's content; `None` marks the
/// file malformed, and the caller skips the job rather than failing.
pub fn parse_metadata(content: &str) -> (r: Option<u16>)
    ensures
        match r {
            Some(p) => metadata_port_of(content@) == Some(p as int),
            None => metadata_port_of(content@) is None,
        },
{
    let n = content.unicode_len();
    let i = find_char_from(content, ':', 0);
    proof {
        assert(content@.skip(0) =~= content@);
    }
    if i == n {
        return None;
    }
    let rest = content.substring_char(i + 1, n);
    proof {
        assert(rest@ =~= content@.skip(i + 1));
    }
    let j = find_char_from(rest, ':', 0);
    proof {
        assert(rest@.skip(0) =~= rest@);
    }
    let fld = rest.substring_char(0, j);
    proof {
        assert(fld@ =~= rest@.take(j as int));
    }
    parse_u16(fld)
}

/// Builds the job record once its metadata arrives; a malformed metadata file
/// skips the job, which may simply not have started its service yet.
pub fn job_from_metadata(discovered: &RunningJob, metadata: &str) -> (r: Option<Job>)
    ensures
        match r {
            Some(j) => j.name@ == discovered.name@ && j.node@ == discovered.node@
                && metadata_port_of(metadata@) == Some(j.remote_port as int),
            None => metadata_port_of(metadata@) is None,
        },
{
    match parse_metadata(metadata) {
        Some(p) => Some(
            Job { name: discovered.name.clone(), node: discovered.node.clone(), remote_port: p },
        ),
        None => None,
    }
}

/// First local port the allocator probes.
pub const PORT_SCAN_LO: u16 = 30000;

/// End of the local port scan range (exclusive).
pub const PORT_SCAN_HI: u16 = 45000;

/// Bookkeeping for the local ports handed to tunnels. The bind probe that
/// tests whether the operating system still has a port free belongs to the
/// embedding application; the allocator guarantees that, whatever those
/// probes report, no port is offered twice while a tunnel holds it.
pub struct PortAllocator {
    claimed: Vec<u16>,
}

impl PortAllocator {
    /// The ports handed out and not yet released, oldest first.
    pub closed spec fn claimed_ports(self) -> Seq<u16> {
        self.claimed@
    }

    /// Every claimed port lies in the scan range and none is claimed twice.
    pub open spec fn wf(self) -> bool {
        &&& forall|i: int|
            0 <= i < self.claimed_ports().len() ==> PORT_SCAN_LO <= #[trigger] self.claimed_ports()[i]
                < PORT_SCAN_HI
        &&& forall|i: int, j: int|
            0 <= i < j < self.claimed_ports().len() ==> self.claimed_ports()[i]
                != self.claimed_ports()[j]
    }

    /// `p` is currently held by a tunnel.
    pub open spec fn is_claimed(self, p: u16) -> bool {
        self.claimed_ports().contains(p)
    }

    pub fn new() -> (r: Self)
        ensures
            r.wf(),
            r.claimed_ports() == Seq::<u16>::empty(),
    {
        PortAllocator { claimed: Vec::new() }
    }

    /// Whether `p` is currently claimed.
    pub fn check_claimed(&self, p: u16) -> (r: bool)
        ensures
            r == self.is_claimed(p),
    {
        let mut i: usize = 0;
        while i < self.claimed.len()
            invariant
                0 <= i <= self.claimed@.len(),
                forall|k: int| 0 <= k < i ==> self.claimed@[k] != p,
            decreases self.claimed@.len() - i,
        {
            if self.claimed[i] == p {
                return true;
            }
            i += 1;
        }
        false
    }

    /// The lowest port in the scan range, at or above `from`, that no open
    /// tunnel holds; `None` when every remaining port is taken.
    pub fn lowest_unclaimed(&self, from: u16) -> (r: Option<u16>)
        ensures
            ({
                let start: u16 = if from < PORT_SCAN_LO {
                    PORT_SCAN_LO
                } else {
                    from
                };
                match r {
                    Some(p) => {
                        &&& start <= p < PORT_SCAN_HI
                        &&& !self.is_claimed(p)
                        &&& forall|q: u16| start <= q < p ==> self.is_claimed(q)
                    },
                    None => forall|q: u16| start <= q < PORT_SCAN_HI ==> self.is_claimed(q),
                }
            }),
    {
        let start: u16 = if from < PORT_SCAN_LO {
            PORT_SCAN_LO
        } else {
            from
        };
        if start >= PORT_SCAN_HI {
            return None;
        }
        let mut p = start;
        while p < PORT_SCAN_HI
            invariant
                start == if from < PORT_SCAN_LO {
                    PORT_SCAN_LO
                } else {
                    from
                },
                start <= p <= PORT_SCAN_HI,
                forall|q: u16| start <= q < p ==> self.is_claimed(q),
            decreases PORT_SCAN_HI - p,
        {
            if !self.check_claimed(p) {
                return Some(p);
            }
            p += 1;
        }
        None
    }

    /// Claims `p` for one tunnel, for the tunnel's lifetime.
    pub fn claim(&mut self, p: u16)
        requires
            old(self).wf(),
            PORT_SCAN_LO <= p < PORT_SCAN_HI,
            !old(self).is_claimed(p),
        ensures
            final(self).wf(),
            final(self).claimed_ports() == old(self).claimed_ports().push(p),
    {
        proof {
            assert forall|k: int| 0 <= k < self.claimed@.len() implies self.claimed@[k] != p by {
                if self.claimed@[k] == p {
                    assert(self.claimed@.contains(p));
                }
            }
        }
        self.claimed.push(p);
    }

    /// Releases `p` once its tunnel's forward process is terminated.
    pub fn release(&mut self, p: u16)
        requires
            old(self).wf(),
        ensures
            final(self).wf(),
            !final(self).is_claimed(p),
            forall|q: u16| q != p ==> final(self).is_claimed(q) == old(self).is_claimed(q),
    {
        let mut i: usize = 0;
        while i < self.claimed.len()
            invariant
                0 <= i <= self.claimed@.len(),
                self.claimed@ == old(self).claimed@,
                old(self).wf(),
                forall|k: int| 0 <= k < i ==> self.claimed@[k] != p,
            decreases self.claimed@.len() - i,
        {
            if self.claimed[i] == p {
                let ghost before = self.claimed@;
                self.claimed.remove(i);
                proof {
                    let after = self.claimed@;
                    assert(after =~= before.subrange(0, i as int) + before.subrange(
                        i + 1,
                        before.len() as int,
                    ));
                    assert forall|k: int| 0 <= k < after.len() implies after[k] != p by {
                        if k < i {
                            assert(after[k] == before[k]);
                        } else {
                            assert(after[k] == before[k + 1]);
                            assert(old(self).claimed_ports()[i as int] != old(
                                self,
                            ).claimed_ports()[k + 1]);
                        }
                    }
                    assert forall|a: int, b: int|
                        0 <= a < b < after.len() implies after[a] != after[b] by {
                        let a2: int = if a < i {
                            a
                        } else {
                            a + 1
                        };
                        let b2: int = if b < i {
                            b
                        } else {
                            b + 1
                        };
                        assert(after[a] == before[a2]);
                        assert(after[b] == before[b2]);
                        assert(old(self).claimed_ports()[a2] != old(self).claimed_ports()[b2]);
                    }
                    assert forall|k: int|
                        0 <= k < after.len() implies PORT_SCAN_LO <= #[trigger] after[k]
                            < PORT_SCAN_HI by {
                        if k < i {
                            assert(after[k] == before[k]);
                        } else {
                            assert(after[k] == before[k + 1]);
                        }
                        assert(PORT_SCAN_LO <= old(self).claimed_ports()[if k < i {
                            k
                        } else {
                            k + 1
                        }] < PORT_SCAN_HI);
                    }
                    assert(!after.contains(p)) by {
                        if after.contains(p) {
                            let k = choose|k: int| 0 <= k < after.len() && after[k] == p;
                        }
                    }
                    assert forall|q: u16| q != p implies after.contains(q) == before.contains(
                        q,
                    ) by {
                        if before.contains(q) {
                            let k = choose|k: int| 0 <= k < before.len() && before[k] == q;
                            if k < i {
                                assert(after[k] == q);
                            } else {
                                assert(before[k] != p);
                                assert(after[k - 1] == q);
                            }
                            assert(after.contains(q));
                        }
                        if after.contains(q) {
                            let k = choose|k: int| 0 <= k < after.len() && after[k] == q;
                            if k < i {
                                assert(before[k] == q);
                            } else {
                                assert(before[k + 1] == q);
                            }
                            assert(before.contains(q));
                        }
                    }
                }
                return ;
            }
            i += 1;
        }
        proof {
            assert(!self.claimed@.contains(p)) by {
                if self.claimed@.contains(p) {
                    let k = choose|k: int| 0 <= k < self.claimed@.len() && self.claimed@[k] == p;
                }
            }
            assert forall|k: int|
                0 <= k < self.claimed@.len() implies PORT_SCAN_LO <= #[trigger] self.claimed@[k]
                    < PORT_SCAN_HI by {
                assert(PORT_SCAN_LO <= old(self).claimed_ports()[k] < PORT_SCAN_HI);
            }
            assert forall|a: int, b: int|
                0 <= a < b < self.claimed@.len() implies self.claimed@[a] != self.claimed@[b] by {
                assert(old(self).claimed_ports()[a] != old(self).claimed_ports()[b]);
            }
        }
    }
}

/// No two open tunnels share a local port: any two distinct entries of the
/// claimed-port list differ.
pub proof fn lemma_claimed_ports_distinct(a: PortAllocator, i: int, j: int)
    requires
        a.wf(),
        0 <= i < a.claimed_ports().len(),
        0 <= j < a.claimed_ports().len(),
        i != j,
    ensures
        a.claimed_ports()[i] != a.claimed_ports()[j],
{
}

/// The forward specification handed to the port-forward process: local port,
/// the job's compute node, and the service port on that node.
pub open spec fn forward_of(local_port: u16, node: Seq<char>, remote_port: u16) -> Seq<char> {
    dec_rep(local_port as nat) + seq![':'] + node + seq![':'] + dec_rep(remote_port as nat)
}

/// The argument list of the per-job port-forward process: no remote command,
/// no terminal, one local-to-remote forward, through the configured identity
/// of `host`.
pub fn tunnel_args(host: &str, node: &str, remote_port: u16, local_port: u16) -> (args: Vec<
    String,
>)
    ensures
        args@.len() == 5,
        args@[0]@ == "-N"@,
        args@[1]@ == "-T"@,
        args@[2]@ == "-L"@,
        args@[3]@ == forward_of(local_port, node@, remote_port),
        args@[4]@ == host@,
{
    let mut fwd = u16_string(local_port);
    fwd.append(":");
    fwd.append(node);
    fwd.append(":");
    let rp = u16_string(remote_port);
    fwd.append(rp.as_str());
    proof {
        reveal_strlit(":");
        assert(fwd@ =~= forward_of(local_port, node@, remote_port));
    }
    let mut args: Vec<String> = Vec::new();
    args.push("-N".to_owned());
    args.push("-T".to_owned());
    args.push("-L".to_owned());
    args.push(fwd);
    args.push(host.to_owned());
    args
}

} // verus!
