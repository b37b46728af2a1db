//! Leader-relative rendering: the exact lines that a collection prints, in
//! summary mode (only the leader's records) or detail mode (every record,
//! prefixed by its address label), and the latency-focused variant.
//!
//! The leader's "host:port" label is resolved by an outside collaborator and
//! handed in; printing the returned lines is the caller's.

use vstd::prelude::*;
use vstd::string::StringExecFns;

use crate::extract::{first_token, first_token_of};
use crate::records::{AllStoredClocks, StoredClocks, StoredClocksView};

verus! {

/// The summary line of one record: its nine fields in fixed order,
/// space-separated.
pub open spec fn summary_line(r: StoredClocksView) -> Seq<char> {
    r.server + " "@ + r.time_since_heartbeat + " "@ + r.status_uptime + " "@
        + r.physical_time_utc + " "@ + r.hybrid_time_utc + " "@ + r.heartbeat_rtt + " "@ + r.cloud
        + " "@ + r.region + " "@ + r.zone
}

/// A record's detail line when rendering a stored snapshot: its address
/// label, a colon, and the summary fields.
pub open spec fn snapshot_detail_line(r: StoredClocksView) -> Seq<char> {
    r.hostname_port + ": "@ + summary_line(r)
}

/// A record's detail line when rendering an ad-hoc pass: its address label
/// and the summary fields, all space-separated.
pub open spec fn adhoc_detail_line(r: StoredClocksView) -> Seq<char> {
    r.hostname_port + " "@ + summary_line(r)
}

/// The latency line of one record: the leader, an arrow, the first token of
/// the record's server field, its heartbeat round-trip time, and its
/// placement in parentheses.
pub open spec fn latency_line(leader: Seq<char>, r: StoredClocksView) -> Seq<char> {
    leader + " -> "@ + first_token_of(r.server) + ": "@ + r.heartbeat_rtt + " RTT ("@ + r.cloud
        + " "@ + r.region + " "@ + r.zone + ")"@
}

/// The latency line of one record in detail mode: prefixed by the record's
/// address label.
pub open spec fn adhoc_detail_latency_line(leader: Seq<char>, r: StoredClocksView) -> Seq<char> {
    r.hostname_port + " "@ + latency_line(leader, r)
}

/// What one record contributes to a stored snapshot's rendering: its detail
/// line in detail mode, else its summary line exactly when it is the
/// leader's.
pub open spec fn snapshot_row_lines(r: StoredClocksView, leader: Seq<char>, details: bool) -> Seq<
    Seq<char>,
> {
    if details {
        seq![snapshot_detail_line(r)]
    } else if r.hostname_port == leader {
        seq![summary_line(r)]
    } else {
        Seq::empty()
    }
}

/// Every line of a stored snapshot's rendering, in record order.
pub open spec fn snapshot_lines(rows: Seq<StoredClocksView>, leader: Seq<char>, details: bool) -> Seq<
    Seq<char>,
>
    decreases rows.len(),
{
    if rows.len() == 0 {
        Seq::empty()
    } else {
        snapshot_lines(rows.drop_last(), leader, details) + snapshot_row_lines(
            rows.last(),
            leader,
            details,
        )
    }
}

/// What one record contributes to an ad-hoc rendering.
pub open spec fn adhoc_row_lines(r: StoredClocksView, leader: Seq<char>, details: bool) -> Seq<
    Seq<char>,
> {
    if details {
        seq![adhoc_detail_line(r)]
    } else if r.hostname_port == leader {
        seq![summary_line(r)]
    } else {
        Seq::empty()
    }
}

/// Every line of an ad-hoc rendering, in record order.
pub open spec fn adhoc_lines(rows: Seq<StoredClocksView>, leader: Seq<char>, details: bool) -> Seq<
    Seq<char>,
>
    decreases rows.len(),
{
    if rows.len() == 0 {
        Seq::empty()
    } else {
        adhoc_lines(rows.drop_last(), leader, details) + adhoc_row_lines(
            rows.last(),
            leader,
            details,
        )
    }
}

/// What one record contributes to a latency rendering.
pub open spec fn latency_row_lines(r: StoredClocksView, leader: Seq<char>, details: bool) -> Seq<
    Seq<char>,
> {
    if details {
        seq![adhoc_detail_latency_line(leader, r)]
    } else if r.hostname_port == leader {
        seq![latency_line(leader, r)]
    } else {
        Seq::empty()
    }
}

/// Every line of a latency rendering, in record order.
pub open spec fn latency_lines(rows: Seq<StoredClocksView>, leader: Seq<char>, details: bool) -> Seq<
    Seq<char>,
>
    decreases rows.len(),
{
    if rows.len() == 0 {
        Seq::empty()
    } else {
        latency_lines(rows.drop_last(), leader, details) + latency_row_lines(
            rows.last(),
            leader,
            details,
        )
    }
}

/// Build the summary line of one record.
fn summary_of(r: &StoredClocks) -> (s: String)
    ensures
        s@ == summary_line(r@),
{
    let mut s = String::new();
    s.append(r.server.as_str());
    s.append(" ");
    s.append(r.time_since_heartbeat.as_str());
    s.append(" ");
    s.append(r.status_uptime.as_str());
    s.append(" ");
    s.append(r.physical_time_utc.as_str());
    s.append(" ");
    s.append(r.hybrid_time_utc.as_str());
    s.append(" ");
    s.append(r.heartbeat_rtt.as_str());
    s.append(" ");
    s.append(r.cloud.as_str());
    s.append(" ");
    s.append(r.region.as_str());
    s.append(" ");
    s.append(r.zone.as_str());
    proof {
        assert(s@ =~= summary_line(r@));
    }
    s
}

/// Build the latency line of one record.
fn latency_of(leader: &String, r: &StoredClocks) -> (s: String)
    ensures
        s@ == latency_line(leader@, r@),
{
    let token = first_token(r.server.as_str());
    let mut s = String::new();
    s.append(leader.as_str());
    s.append(" -> ");
    s.append(token.as_str());
    s.append(": ");
    s.append(r.heartbeat_rtt.as_str());
    s.append(" RTT (");
    s.append(r.cloud.as_str());
    s.append(" ");
    s.append(r.region.as_str());
    s.append(" ");
    s.append(r.zone.as_str());
    s.append(")");
    proof {
        assert(s@ =~= latency_line(leader@, r@));
    }
    s
}

impl AllStoredClocks {
    /// The lines that rendering a stored snapshot prints: in detail mode one
    /// line per record, prefixed by its address label and a colon; otherwise
    /// one summary line per record of the leader, and nothing else.
    pub fn print(&self, leader_hostname: &String, details_enable: &bool) -> (lines: Vec<String>)
        ensures
            lines.deep_view() == snapshot_lines(self@, leader_hostname@, *details_enable),
    {
        let details = *details_enable;
        let mut lines: Vec<String> = Vec::new();
        let mut i: usize = 0;
        while i < self.stored_clocks.len()
            invariant
                0 <= i <= self.stored_clocks.len(),
                lines.deep_view() =~= snapshot_lines(
                    self@.take(i as int),
                    leader_hostname@,
                    details,
                ),
            decreases self.stored_clocks.len() - i,
        {
            let ghost pre = lines.deep_view();
            let row = &self.stored_clocks[i];
            if row.hostname_port == *leader_hostname && !details {
                lines.push(summary_of(row));
            }
            if details {
                let mut s = String::new();
                s.append(row.hostname_port.as_str());
                s.append(": ");
                let body = summary_of(row);
                s.append(body.as_str());
                proof {
                    assert(s@ =~= snapshot_detail_line(row@));
                }
                lines.push(s);
            }
            i = i + 1;
            proof {
                let target = snapshot_lines(self@.take(i as int), leader_hostname@, details);
                assert(self@.take(i as int).drop_last() =~= self@.take(i as int - 1));
                assert(self@.take(i as int).last() == self@[i - 1]);
                assert(self@[i - 1] == row@);
                assert(target == snapshot_lines(self@.take(i as int - 1), leader_hostname@, details)
                    + snapshot_row_lines(row@, leader_hostname@, details));
                assert(lines.deep_view() =~= target);
            }
        }
        proof {
            assert(self@.take(self.stored_clocks@.len() as int) =~= self@);
        }
        lines
    }

    /// The lines that rendering an ad-hoc pass prints: as [`Self::print`],
    /// but a detail line carries no colon after the address label.
    pub fn print_adhoc(&self, leader_hostname: &String, details_enable: &bool) -> (lines: Vec<
        String,
    >)
        ensures
            lines.deep_view() == adhoc_lines(self@, leader_hostname@, *details_enable),
    {
        let details = *details_enable;
        let mut lines: Vec<String> = Vec::new();
        let mut i: usize = 0;
        while i < self.stored_clocks.len()
            invariant
                0 <= i <= self.stored_clocks.len(),
                lines.deep_view() =~= adhoc_lines(self@.take(i as int), leader_hostname@, details),
            decreases self.stored_clocks.len() - i,
        {
            let row = &self.stored_clocks[i];
            if row.hostname_port == *leader_hostname && !details {
                lines.push(summary_of(row));
            }
            if details {
                let mut s = String::new();
                s.append(row.hostname_port.as_str());
                s.append(" ");
                let body = summary_of(row);
                s.append(body.as_str());
                proof {
                    assert(s@ =~= adhoc_detail_line(row@));
                }
                lines.push(s);
            }
            i = i + 1;
            proof {
                let target = adhoc_lines(self@.take(i as int), leader_hostname@, details);
                assert(self@.take(i as int).drop_last() =~= self@.take(i as int - 1));
                assert(self@.take(i as int).last() == self@[i - 1]);
                assert(self@[i - 1] == row@);
                assert(target == adhoc_lines(self@.take(i as int - 1), leader_hostname@, details)
                    + adhoc_row_lines(row@, leader_hostname@, details));
                assert(lines.deep_view() =~= target);
            }
        }
        proof {
            assert(self@.take(self.stored_clocks@.len() as int) =~= self@);
        }
        lines
    }

    /// The lines that the latency rendering of an ad-hoc pass prints: one
    /// latency line per record that the mode selects, leader-relative.
    pub fn print_adhoc_latency(&self, leader_hostname: &String, details_enable: &bool) -> (lines:
        Vec<String>)
        ensures
            lines.deep_view() == latency_lines(self@, leader_hostname@, *details_enable),
    {
        let details = *details_enable;
        let mut lines: Vec<String> = Vec::new();
        let mut i: usize = 0;
        while i < self.stored_clocks.len()
            invariant
                0 <= i <= self.stored_clocks.len(),
                lines.deep_view() =~= latency_lines(
                    self@.take(i as int),
                    leader_hostname@,
                    details,
                ),
            decreases self.stored_clocks.len() - i,
        {
            let row = &self.stored_clocks[i];
            if row.hostname_port == *leader_hostname && !details {
                lines.push(latency_of(leader_hostname, row));
            }
            if details {
                let mut s = String::new();
                s.append(row.hostname_port.as_str());
                s.append(" ");
                let body = latency_of(leader_hostname, row);
                s.append(body.as_str());
                proof {
                    assert(s@ =~= adhoc_detail_latency_line(leader_hostname@, row@));
                }
                lines.push(s);
            }
            i = i + 1;
            proof {
                let target = latency_lines(self@.take(i as int), leader_hostname@, details);
                assert(self@.take(i as int).drop_last() =~= self@.take(i as int - 1));
                assert(self@.take(i as int).last() == self@[i - 1]);
                assert(self@[i - 1] == row@);
                assert(target == latency_lines(self@.take(i as int - 1), leader_hostname@, details)
                    + latency_row_lines(row@, leader_hostname@, details));
                assert(lines.deep_view() =~= target);
            }
        }
        proof {
            assert(self@.take(self.stored_clocks@.len() as int) =~= self@);
        }
        lines
    }
}

} // verus!
