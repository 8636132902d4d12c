//! Where the server listens.

use vstd::prelude::*;

verus! {

/// The port tried when none is configured, or after a configured one.
pub const DEFAULT_PORT: u16 = 3000;

/// The ports to try binding, in order: the configured one, then the
/// default one unless that was the configured one, then port 0 (any free
/// port).
pub fn candidate_ports(configured: Option<u16>) -> (r: Vec<u16>)
    ensures
        r@ == (match configured {
            Some(p) => if p == DEFAULT_PORT {
                seq![p, 0u16]
            } else {
                seq![p, DEFAULT_PORT, 0u16]
            },
            None => seq![DEFAULT_PORT, 0u16],
        }),
{
    let mut ports: Vec<u16> = Vec::new();
    match configured {
        Some(p) => {
            ports.push(p);
            if p != DEFAULT_PORT {
                ports.push(DEFAULT_PORT);
            }
        },
        None => ports.push(DEFAULT_PORT),
    }
    ports.push(0);
    proof {
        match configured {
            Some(p) => if p == DEFAULT_PORT {
                assert(ports@ =~= seq![p, 0u16]);
            } else {
                assert(ports@ =~= seq![p, DEFAULT_PORT, 0u16]);
            },
            None => assert(ports@ =~= seq![DEFAULT_PORT, 0u16]),
        }
    }
    ports
}

} // verus!
