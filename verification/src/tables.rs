use vstd::prelude::*;
use crate::types::{SocksTunnel, SshSession, TcpSegment};
use crate::classify::Metrics;

verus! {

/// The SOCKS session table: a register of observed tunnels.
pub struct SocksTable {
    pub tunnels: Vec<SocksTunnel>,
}

impl SocksTable {
    /// An empty table.
    pub fn new() -> (r: Self)
        ensures
            r.tunnels@.len() == 0,
    {
        SocksTable { tunnels: Vec::new() }
    }

    /// Registers one tunnel; the table owns it afterwards.
    pub fn register_tunnel(&mut self, tunnel: SocksTunnel)
        ensures
            final(self).tunnels@ == old(self).tunnels@.push(tunnel),
    {
        self.tunnels.push(tunnel);
    }
}

/// Registers observed SOCKS tunnels into the SOCKS table.
pub struct SocksProcessor {
    pub table: SocksTable,
    pub metrics: Metrics,
}

impl SocksProcessor {
    pub fn new(metrics: Metrics, table: SocksTable) -> (r: Self)
        ensures
            r.metrics == metrics,
            r.table == table,
    {
        SocksProcessor { metrics, table }
    }

    /// Registers one tunnel in the table.
    pub fn process(&mut self, tunnel: SocksTunnel)
        ensures
            final(self).table.tunnels@ == old(self).table.tunnels@.push(tunnel),
            final(self).metrics == old(self).metrics,
    {
        self.table.register_tunnel(tunnel);
    }
}

/// The SSH session table: a register of observed sessions.
pub struct SshTable {
    pub sessions: Vec<SshSession>,
}

impl SshTable {
    /// An empty table.
    pub fn new() -> (r: Self)
        ensures
            r.sessions@.len() == 0,
    {
        SshTable { sessions: Vec::new() }
    }

    /// Registers one session; the table owns it afterwards.
    pub fn register_session(&mut self, session: SshSession)
        ensures
            final(self).sessions@ == old(self).sessions@.push(session),
    {
        self.sessions.push(session);
    }
}

/// Registers observed SSH sessions into the SSH table.
pub struct SshProcessor {
    pub table: SshTable,
    pub metrics: Metrics,
}

impl SshProcessor {
    pub fn new(metrics: Metrics, table: SshTable) -> (r: Self)
        ensures
            r.metrics == metrics,
            r.table == table,
    {
        SshProcessor { metrics, table }
    }

    /// Registers one session in the table.
    pub fn process(&mut self, session: SshSession)
        ensures
            final(self).table.sessions@ == old(self).table.sessions@.push(session),
            final(self).metrics == old(self).metrics,
    {
        self.table.register_session(session);
    }
}

/// The TCP session table: a register of observed segments.
pub struct TcpTable {
    pub segments: Vec<TcpSegment>,
}

impl TcpTable {
    /// An empty table.
    pub fn new() -> (r: Self)
        ensures
            r.segments@.len() == 0,
    {
        TcpTable { segments: Vec::new() }
    }

    /// Registers one segment; the table owns it afterwards.
    pub fn register_segment(&mut self, segment: TcpSegment)
        ensures
            final(self).segments@ == old(self).segments@.push(segment),
    {
        self.segments.push(segment);
    }
}

/// Registers observed TCP segments into the TCP table.
pub struct TcpProcessor {
    pub tcp_table: TcpTable,
}

impl TcpProcessor {
    pub fn new(tcp_table: TcpTable) -> (r: Self)
        ensures
            r.tcp_table == tcp_table,
    {
        TcpProcessor { tcp_table }
    }

    /// Registers one segment in the table.
    pub fn process(&mut self, segment: TcpSegment)
        ensures
            final(self).tcp_table.segments@ == old(self).tcp_table.segments@.push(segment),
    {
        self.tcp_table.register_segment(segment);
    }
}

} // verus!
