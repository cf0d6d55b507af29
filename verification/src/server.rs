//! The listen address grammar: `tcp://HOST:PORT` or `unix:/abs/path`.
use vstd::prelude::*;

use crate::error::Error;
use crate::text::{parse_u16, spec_parse_uint};

verus! {

/// Where the service listens.
#[derive(Clone, Debug)]
pub enum ListenAddress {
    /// A TCP host and port.
    Tcp { host: String, port: u16 },
    /// A unix domain socket path.
    Uds(String),
}

/// Whether `s` starts with the prefix `p`.
pub open spec fn starts_with(s: Seq<char>, p: Seq<char>) -> bool {
    s.len() >= p.len() && s.take(p.len() as int) == p
}

/// Whether the string starts with the prefix.
pub fn str_starts_with(s: &str, p: &str) -> (r: bool)
    ensures
        r == starts_with(s@, p@),
{
    let n: usize = s.unicode_len();
    let m: usize = p.unicode_len();
    if n < m {
        return false;
    }
    let mut i: usize = 0;
    while i < m
        invariant
            0 <= i <= m,
            m <= n,
            n == s@.len(),
            m == p@.len(),
            forall|t: int| 0 <= t < i ==> s@[t] == p@[t],
        decreases m - i,
    {
        if s.get_char(i) != p.get_char(i) {
            proof {
                assert(s@.take(m as int)[i as int] != p@[i as int]);
            }
            return false;
        }
        i = i + 1;
    }
    proof {
        assert(s@.take(m as int) =~= p@);
    }
    true
}

/// The index of the last colon of the sequence, or a negative value when
/// none exists.
pub open spec fn spec_last_colon(s: Seq<char>) -> int
    decreases s.len(),
{
    if s.len() == 0 {
        -1
    } else if s.last() == ':' {
        s.len() - 1
    } else {
        spec_last_colon(s.drop_last())
    }
}

/// Parses a listen address: `tcp://HOST:PORT` takes the text between the
/// scheme and the last colon as the host and the digits after it as the
/// port; `unix:PATH` takes the remainder as the socket path; anything else
/// is refused.
pub fn parse_listen_address(s: &str) -> (r: Result<ListenAddress, Error>)
    ensures
        match r {
            Ok(a) => match a {
                ListenAddress::Tcp { host, port } => {
                    &&& starts_with(s@, "tcp://"@)
                    &&& spec_last_colon(s@.skip(6)) >= 0
                    &&& host@ == s@.skip(6).take(spec_last_colon(s@.skip(6)))
                    &&& spec_parse_uint(
                        s@.skip(6).skip(spec_last_colon(s@.skip(6)) + 1),
                        u16::MAX as nat,
                    ) == Some(port as nat)
                },
                ListenAddress::Uds(p) => {
                    &&& !starts_with(s@, "tcp://"@)
                    &&& starts_with(s@, "unix:"@)
                    &&& p@ == s@.skip(5)
                },
            },
            Err(e) => {
                &&& e == Error::BadListenAddress
                &&& (starts_with(s@, "tcp://"@) ==> (spec_last_colon(s@.skip(6)) < 0
                    || spec_parse_uint(
                    s@.skip(6).skip(spec_last_colon(s@.skip(6)) + 1),
                    u16::MAX as nat,
                ) is None))
                &&& (!starts_with(s@, "tcp://"@) ==> !starts_with(s@, "unix:"@))
            },
        },
{
    proof {
        reveal_strlit("tcp://");
        reveal_strlit("unix:");
    }
    let n: usize = s.unicode_len();
    if str_starts_with(s, "tcp://") {
        let rest = s.substring_char(6, n);
        proof {
            assert(rest@ =~= s@.skip(6));
        }
        let m: usize = rest.unicode_len();
        let mut colon: usize = 0;
        let mut seen: bool = false;
        let mut i: usize = 0;
        proof {
            assert(spec_last_colon(rest@.take(0)) < 0);
        }
        while i < m
            invariant
                0 <= i <= m,
                m == rest@.len(),
                seen ==> 0 <= colon < i && spec_last_colon(rest@.take(i as int)) == colon,
                !seen ==> spec_last_colon(rest@.take(i as int)) < 0,
            decreases m - i,
        {
            proof {
                assert(rest@.take(i + 1).drop_last() =~= rest@.take(i as int));
                assert(rest@.take(i + 1).last() == rest@[i as int]);
            }
            if rest.get_char(i) == ':' {
                colon = i;
                seen = true;
            }
            i = i + 1;
        }
        proof {
            assert(rest@.take(m as int) =~= rest@);
        }
        if !seen {
            return Err(Error::BadListenAddress);
        }
        let host = rest.substring_char(0, colon).to_owned();
        let port_part = rest.substring_char(colon + 1, m);
        proof {
            assert(host@ =~= rest@.take(colon as int));
            assert(port_part@ =~= rest@.skip(colon + 1));
        }
        match parse_u16(port_part) {
            Some(port) => Ok(ListenAddress::Tcp { host, port }),
            None => Err(Error::BadListenAddress),
        }
    } else if str_starts_with(s, "unix:") {
        let path = s.substring_char(5, n).to_owned();
        proof {
            assert(path@ =~= s@.skip(5));
        }
        Ok(ListenAddress::Uds(path))
    } else {
        Err(Error::BadListenAddress)
    }
}

} // verus!
