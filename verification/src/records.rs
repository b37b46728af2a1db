//! The record types of a collection pass: one parsed table row, the same row
//! tagged with its origin, and the collection that one pass produces.

use vstd::prelude::*;
use vstd::string::StringExecFns;

verus! {

/// One parsed diagnostic row from a node's clock table: a fixed set of named
/// string fields, one per expected column.
#[derive(Debug)]
pub struct Clocks {
    pub server: String,
    pub time_since_heartbeat: String,
    pub status_uptime: String,
    pub physical_time_utc: String,
    pub hybrid_time_utc: String,
    pub heartbeat_rtt: String,
    pub cloud: String,
    pub region: String,
    pub zone: String,
}

/// The fields of a [`Clocks`] record, each as a sequence of characters.
pub ghost struct ClocksView {
    pub server: Seq<char>,
    pub time_since_heartbeat: Seq<char>,
    pub status_uptime: Seq<char>,
    pub physical_time_utc: Seq<char>,
    pub hybrid_time_utc: Seq<char>,
    pub heartbeat_rtt: Seq<char>,
    pub cloud: Seq<char>,
    pub region: Seq<char>,
    pub zone: Seq<char>,
}

impl View for Clocks {
    type V = ClocksView;

    open spec fn view(&self) -> ClocksView {
        ClocksView {
            server: self.server@,
            time_since_heartbeat: self.time_since_heartbeat@,
            status_uptime: self.status_uptime@,
            physical_time_utc: self.physical_time_utc@,
            hybrid_time_utc: self.hybrid_time_utc@,
            heartbeat_rtt: self.heartbeat_rtt@,
            cloud: self.cloud@,
            region: self.region@,
            zone: self.zone@,
        }
    }
}

/// A clock record tagged with the "host:port" label of the node it came from
/// and the moment its fetch began, in microseconds since the Unix epoch.
#[derive(Debug)]
pub struct StoredClocks {
    pub hostname_port: String,
    pub timestamp: i64,
    pub server: String,
    pub time_since_heartbeat: String,
    pub status_uptime: String,
    pub physical_time_utc: String,
    pub hybrid_time_utc: String,
    pub heartbeat_rtt: String,
    pub cloud: String,
    pub region: String,
    pub zone: String,
}

/// The fields of a [`StoredClocks`] record.
pub ghost struct StoredClocksView {
    pub hostname_port: Seq<char>,
    pub timestamp: int,
    pub server: Seq<char>,
    pub time_since_heartbeat: Seq<char>,
    pub status_uptime: Seq<char>,
    pub physical_time_utc: Seq<char>,
    pub hybrid_time_utc: Seq<char>,
    pub heartbeat_rtt: Seq<char>,
    pub cloud: Seq<char>,
    pub region: Seq<char>,
    pub zone: Seq<char>,
}

impl View for StoredClocks {
    type V = StoredClocksView;

    open spec fn view(&self) -> StoredClocksView {
        StoredClocksView {
            hostname_port: self.hostname_port@,
            timestamp: self.timestamp as int,
            server: self.server@,
            time_since_heartbeat: self.time_since_heartbeat@,
            status_uptime: self.status_uptime@,
            physical_time_utc: self.physical_time_utc@,
            hybrid_time_utc: self.hybrid_time_utc@,
            heartbeat_rtt: self.heartbeat_rtt@,
            cloud: self.cloud@,
            region: self.region@,
            zone: self.zone@,
        }
    }
}

/// The stored record that a clock record yields once tagged with its origin
/// label and collection time.
pub open spec fn stored_of(hostname_port: Seq<char>, timestamp: int, c: ClocksView) -> StoredClocksView {
    StoredClocksView {
        hostname_port: hostname_port,
        timestamp: timestamp,
        server: c.server,
        time_since_heartbeat: c.time_since_heartbeat,
        status_uptime: c.status_uptime,
        physical_time_utc: c.physical_time_utc,
        hybrid_time_utc: c.hybrid_time_utc,
        heartbeat_rtt: c.heartbeat_rtt,
        cloud: c.cloud,
        region: c.region,
        zone: c.zone,
    }
}

/// Every stored record of one collection pass across the address space.
/// Aggregation order carries no meaning: two passes over the same responses
/// agree as multisets, not necessarily as sequences.
#[derive(Debug)]
pub struct AllStoredClocks {
    pub stored_clocks: Vec<StoredClocks>,
}

impl View for AllStoredClocks {
    type V = Seq<StoredClocksView>;

    open spec fn view(&self) -> Seq<StoredClocksView> {
        self.stored_clocks@.map_values(|r: StoredClocks| r@)
    }
}

impl Default for AllStoredClocks {
    /// An empty collection.
    fn default() -> (r: Self)
        ensures
            r@ == Seq::<StoredClocksView>::empty(),
    {
        let r = AllStoredClocks { stored_clocks: Vec::new() };
        proof {
            assert(r@ =~= Seq::<StoredClocksView>::empty());
        }
        r
    }
}

impl AllStoredClocks {
    /// A collection holding no records yet.
    pub fn new() -> (r: Self)
        ensures
            r@ == Seq::<StoredClocksView>::empty(),
    {
        Default::default()
    }
}

/// One cluster node's diagnostics endpoint.
#[derive(Debug)]
pub struct Address {
    pub host: String,
    pub port: String,
}

/// The host and port of an [`Address`], as sequences of characters.
pub ghost struct AddressView {
    pub host: Seq<char>,
    pub port: Seq<char>,
}

impl View for Address {
    type V = AddressView;

    open spec fn view(&self) -> AddressView {
        AddressView { host: self.host@, port: self.port@ }
    }
}

/// The "host:port" label under which records carry an address.
pub open spec fn spec_label(host: Seq<char>, port: Seq<char>) -> Seq<char> {
    host + ":"@ + port
}

impl Address {
    /// The "host:port" form of this address.
    pub fn label(&self) -> (r: String)
        ensures
            r@ == spec_label(self.host@, self.port@),
    {
        let mut s = String::new();
        s.append(self.host.as_str());
        s.append(":");
        s.append(self.port.as_str());
        proof {
            assert(s@ =~= spec_label(self.host@, self.port@));
        }
        s
    }
}

} // verus!

