use vstd::prelude::*;

verus! {

/// The largest TCP port number.
pub const MAX_PORT: u16 = 65535;

/// Accepts a start port: ports are numbered from one.
pub fn start_port_guard(input: &u16) -> (r: bool)
    ensures
        r == (*input > 0),
{
    *input > 0
}

/// Accepts an end port: it may be at most `MAX_PORT`.
pub fn end_port_guard(input: &u16) -> (r: bool)
    ensures
        r == (*input <= MAX_PORT),
{
    *input <= MAX_PORT
}

/// The host that a scan probes, as the octets of an IPv4 address or the
/// segments of an IPv6 address.
#[derive(Clone, Copy, Debug, PartialEq, Eq)]
pub enum Address {
    V4([u8; 4]),
    V6([u16; 8]),
}

impl Address {
    /// The IPv4 loopback address, 127.0.0.1, which a scan targets by default.
    pub fn loopback() -> (r: Address)
        ensures
            r matches Address::V4(o) && o@ == seq![127u8, 0u8, 0u8, 1u8],
    {
        let r = Address::V4([127u8, 0u8, 0u8, 1u8]);
        assert(r matches Address::V4(o) && o@ =~= seq![127u8, 0u8, 0u8, 1u8]);
        r
    }
}

/// Why a scan request was turned down.
#[derive(Clone, Copy, Debug, PartialEq, Eq, Structural)]
pub enum RequestError {
    /// The start port was zero.
    StartPortZero,
    /// The start port lay above the end port.
    StartAfterEnd,
}

/// What to scan: every port `p` with `start_port <= p < end_port` on `address`.
#[derive(Clone, Copy, Debug)]
pub struct ScanRequest {
    pub address: Address,
    pub start_port: u16,
    pub end_port: u16,
}

/// The ports of the half-open range `[start, end)`, ascending; empty when
/// `start >= end`.
pub open spec fn port_range(start: u16, end: u16) -> Seq<u16> {
    Seq::new(
        if start <= end { (end - start) as nat } else { 0 },
        |i: int| (start + i) as u16,
    )
}

impl ScanRequest {
    /// A request is well formed when its ports satisfy `0 < start_port <= end_port`.
    pub open spec fn wf(&self) -> bool {
        0 < self.start_port <= self.end_port
    }

    /// Builds a request, refusing a start port of zero and a start port above
    /// the end port.
    pub fn new(address: Address, start_port: u16, end_port: u16) -> (r: Result<
        ScanRequest,
        RequestError,
    >)
        ensures
            start_port == 0 ==> r == Err::<ScanRequest, RequestError>(RequestError::StartPortZero),
            start_port > 0 && start_port > end_port ==> r == Err::<ScanRequest, RequestError>(
                RequestError::StartAfterEnd,
            ),
            0 < start_port <= end_port ==> r == Ok::<ScanRequest, RequestError>(
                (ScanRequest { address, start_port, end_port }),
            ),
            r matches Ok(q) ==> q.wf(),
    {
        if !start_port_guard(&start_port) {
            Err(RequestError::StartPortZero)
        } else if start_port > end_port {
            Err(RequestError::StartAfterEnd)
        } else {
            Ok(ScanRequest { address, start_port, end_port })
        }
    }

    /// The ports to probe, one entry per port of `[start_port, end_port)`, in
    /// ascending order.
    pub fn ports(&self) -> (r: Vec<u16>)
        ensures
            r@ == port_range(self.start_port, self.end_port),
    {
        let mut r: Vec<u16> = Vec::new();
        if self.start_port >= self.end_port {
            assert(r@ =~= port_range(self.start_port, self.end_port));
            return r;
        }
        let mut p: u16 = self.start_port;
        while p < self.end_port
            invariant
                self.start_port <= p <= self.end_port,
                r@ =~= port_range(self.start_port, p),
            decreases self.end_port - p,
        {
            r.push(p);
            p = p + 1;
        }
        r
    }
}

} // verus!
