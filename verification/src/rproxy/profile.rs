//! Traffic counters of the reverse proxy.
use vstd::prelude::*;
use vstd::string::StringExecFns;

use crate::text::{decimal, u64_to_decimal};

verus! {

/// The text of the five counters: `ac=.., cc=.., pc=.., fd=.., bd=..`.
pub open spec fn profile_text_spec(ac: u64, cc: u64, pc: u64, fd: u64, bd: u64) -> Seq<char> {
    "ac="@ + decimal(ac as nat) + ", cc="@ + decimal(cc as nat) + ", pc="@ + decimal(pc as nat)
        + ", fd="@ + decimal(fd as nat) + ", bd="@ + decimal(bd as nat)
}

/// Counters of the proxy's connections and of the bytes it moved.
pub struct ReverseProxyProfile {
    active_conns: u64,
    closed_conns: u64,
    prohibited_conns: u64,
    forwarding_datas: u64,
    backwarding_datas: u64,
}

impl ReverseProxyProfile {
    /// The counters: active, closed and prohibited connections, bytes
    /// forwarded and bytes sent back.
    pub closed spec fn counters(&self) -> (u64, u64, u64, u64, u64) {
        (
            self.active_conns,
            self.closed_conns,
            self.prohibited_conns,
            self.forwarding_datas,
            self.backwarding_datas,
        )
    }

    /// The one-line summary `ac=.., cc=.., pc=.., fd=.., bd=..` of the
    /// counters, in this order.
    pub fn summary(&self) -> (s: String)
        ensures
            s@ == profile_text_spec(
                self.counters().0,
                self.counters().1,
                self.counters().2,
                self.counters().3,
                self.counters().4,
            ),
    {
        let mut s = String::from_str("ac=");
        s.append(u64_to_decimal(self.active_conns).as_str());
        s.append(", cc=");
        s.append(u64_to_decimal(self.closed_conns).as_str());
        s.append(", pc=");
        s.append(u64_to_decimal(self.prohibited_conns).as_str());
        s.append(", fd=");
        s.append(u64_to_decimal(self.forwarding_datas).as_str());
        s.append(", bd=");
        s.append(u64_to_decimal(self.backwarding_datas).as_str());
        s
    }
}

impl Default for ReverseProxyProfile {
    fn default() -> (r: ReverseProxyProfile)
        ensures
            r.counters() == (0u64, 0u64, 0u64, 0u64, 0u64),
    {
        ReverseProxyProfile {
            active_conns: 0,
            closed_conns: 0,
            prohibited_conns: 0,
            forwarding_datas: 0,
            backwarding_datas: 0,
        }
    }
}

} // verus!
