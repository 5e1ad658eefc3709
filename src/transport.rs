use vstd::prelude::*;

verus! {

/// The TCP transport over IPv4.
#[derive(Clone, Copy, Debug, PartialEq, Eq, Structural)]
pub struct TcpCommunication {}

impl TcpCommunication {
    pub fn new() -> (r: TcpCommunication)
        ensures
            r == (TcpCommunication {}),
    {
        TcpCommunication {}
    }
}

/// The in-process transport used in tests: endpoints are looked up in a
/// process-wide directory and joined by in-memory pipes.
#[derive(Clone, Copy, Debug, PartialEq, Eq, Structural)]
pub struct MemCom {}

impl MemCom {
    pub fn new() -> (r: MemCom)
        ensures
            r == (MemCom {}),
    {
        MemCom {}
    }
}

/// The transports that can coexist in one map.
#[derive(Clone, Copy, Debug, PartialEq, Eq, Structural)]
pub enum Transport {
    Tcp(TcpCommunication),
    MemCom(MemCom),
}

impl Transport {
    /// The transport that the configuration selects.
    pub fn select(use_memcom: bool) -> (r: Transport)
        ensures
            use_memcom ==> r == Transport::MemCom(MemCom {}),
            !use_memcom ==> r == Transport::Tcp(TcpCommunication {}),
    {
        if use_memcom {
            Transport::MemCom(MemCom::new())
        } else {
            Transport::Tcp(TcpCommunication::new())
        }
    }
}

} // verus!
