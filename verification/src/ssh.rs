//! SSH connection parameters, the `user@host[:port]` and
//! `user@host[:port]:/remote/path` destination syntax, and the choice of
//! authentication method.

use crate::text::{find_char, parse_u16, spec_parse_u16, first_at};
use vstd::prelude::*;

verus! {

/// SSH connection parameters.
#[derive(Debug, Clone)]
pub struct SshConfig {
    pub host: String,
    pub port: u16,
    pub username: String,
    /// Optional password (or use key-based auth).
    pub password: Option<String>,
    /// Optional path to a private key.
    pub key_path: Option<String>,
}

/// The port used when none is given.
pub open spec fn default_port() -> u16 {
    22
}

impl SshConfig {
    /// Parameters for `username` at `host` on port 22, without password
    /// or key.
    pub fn new(host: &str, username: &str) -> (r: Self)
        ensures
            r.host@ == host@,
            r.username@ == username@,
            r.port == default_port(),
            r.password is None,
            r.key_path is None,
    {
        SshConfig {
            host: host.to_owned(),
            port: 22,
            username: username.to_owned(),
            password: None,
            key_path: None,
        }
    }

    /// How the session authenticates: a key file when one is set, else a
    /// password when one is set, else the SSH agent.
    pub fn auth_method(&self) -> (r: AuthMethod)
        ensures
            r == spec_auth_method(*self),
    {
        match &self.key_path {
            Some(k) => AuthMethod::PublicKey(k.clone()),
            None => match &self.password {
                Some(p) => AuthMethod::Password(p.clone()),
                None => AuthMethod::Agent,
            },
        }
    }
}

/// How an SSH session authenticates.
#[derive(Debug, Clone)]
pub enum AuthMethod {
    PublicKey(String),
    Password(String),
    Agent,
}

pub open spec fn spec_auth_method(c: SshConfig) -> AuthMethod {
    match c.key_path {
        Some(k) => AuthMethod::PublicKey(k),
        None => match c.password {
            Some(p) => AuthMethod::Password(p),
            None => AuthMethod::Agent,
        },
    }
}

/// A user, host and port, as in `user@host[:port]`.
#[derive(Debug, Clone)]
pub struct SshAddress {
    pub username: String,
    pub host: String,
    pub port: u16,
}

/// A remote destination, as in `user@host[:port]:/remote/path`.
#[derive(Debug, Clone)]
pub struct SshDestination {
    pub address: SshAddress,
    pub remote_path: String,
}

/// Why a destination could not be read.
#[derive(Debug, Clone, Copy, PartialEq, Eq, Structural)]
pub enum SshParseError {
    /// No `:` separates the address from the remote path.
    MissingRemotePath,
    /// No `@` separates the user from the host.
    MissingUser,
}

impl SshParseError {
    pub fn message(&self) -> (r: &'static str)
        ensures
            *self == SshParseError::MissingRemotePath ==> r@
                == "Invalid SSH destination format. Expected user@host[:port]:/remote/path"@,
            *self == SshParseError::MissingUser ==> r@
                == "Invalid SSH user@host format. Expected user@host[:port]"@,
    {
        match self {
            SshParseError::MissingRemotePath => "Invalid SSH destination format. Expected user@host[:port]:/remote/path",
            SshParseError::MissingUser => "Invalid SSH user@host format. Expected user@host[:port]",
        }
    }
}

/// The parts of `user@host[:port]`: the user is what precedes the first
/// `@`; after it, a `:` splits off the port, which falls back to 22 when
/// it is not a valid port number.
pub open spec fn spec_parse_address(s: Seq<char>) -> Option<(Seq<char>, Seq<char>, u16)> {
    if exists|i: int| first_at(s, '@', i) {
        let i = choose|i: int| first_at(s, '@', i);
        let user = s.take(i);
        let host_port = s.skip(i + 1);
        if exists|k: int| first_at(host_port, ':', k) {
            let k = choose|k: int| first_at(host_port, ':', k);
            let port = match spec_parse_u16(host_port.skip(k + 1)) {
                Some(p) => p,
                None => default_port(),
            };
            Some((user, host_port.take(k), port))
        } else {
            Some((user, host_port, default_port()))
        }
    } else {
        None
    }
}

/// Reads `user@host[:port]`.
pub fn parse_address(s: &str) -> (r: Result<SshAddress, SshParseError>)
    ensures
        match spec_parse_address(s@) {
            None => r == Err::<SshAddress, SshParseError>(SshParseError::MissingUser),
            Some((user, host, port)) => r matches Ok(a) && a.username@ == user && a.host@ == host
                && a.port == port,
        },
{
    let n = s.unicode_len();
    match find_char(s, '@') {
        None => Err(SshParseError::MissingUser),
        Some(i) => {
            let user = s.substring_char(0, i);
            let host_port = s.substring_char(i + 1, n);
            proof {
                assert(first_at(s@, '@', i as int));
            }
            let m = host_port.unicode_len();
            match find_char(host_port, ':') {
                Some(k) => {
                    let host = host_port.substring_char(0, k);
                    let port_text = host_port.substring_char(k + 1, m);
                    let port = match parse_u16(port_text) {
                        Some(p) => p,
                        None => 22,
                    };
                    proof {
                        assert(first_at(host_port@, ':', k as int));
                        assert(host_port@.skip(k + 1) =~= port_text@);
                        assert(host_port@.take(k as int) =~= host@);
                    }
                    Ok(SshAddress { username: user.to_owned(), host: host.to_owned(), port })
                },
                None => {
                    Ok(SshAddress { username: user.to_owned(), host: host_port.to_owned(), port: 22 })
                },
            }
        },
    }
}

/// The parts of `user@host[:port]:/remote/path`: the address is what
/// precedes the first `:`; when the text after it holds another `:` and
/// what lies between is a port number, that is the port and the path
/// follows the second `:`; otherwise the whole rest is the path.
pub open spec fn spec_parse_destination(s: Seq<char>) -> Option<Result<(Seq<char>, Seq<char>, u16, Seq<char>), SshParseError>> {
    if exists|i: int| first_at(s, ':', i) {
        let i = choose|i: int| first_at(s, ':', i);
        let user_host = s.take(i);
        let rest = s.skip(i + 1);
        let (port, path) = if exists|k: int| first_at(rest, ':', k) && spec_parse_u16(rest.take(k)) is Some {
            let k = choose|k: int| first_at(rest, ':', k) && spec_parse_u16(rest.take(k)) is Some;
            (spec_parse_u16(rest.take(k))->Some_0, rest.skip(k + 1))
        } else {
            (default_port(), rest)
        };
        match spec_parse_address(user_host) {
            None => Some(Err(SshParseError::MissingUser)),
            Some((user, host, _)) => Some(Ok((user, host, port, path))),
        }
    } else {
        None
    }
}

/// Reads `user@host[:port]:/remote/path`.
pub fn parse_destination(s: &str) -> (r: Result<SshDestination, SshParseError>)
    ensures
        match spec_parse_destination(s@) {
            None => r == Err::<SshDestination, SshParseError>(SshParseError::MissingRemotePath),
            Some(Err(e)) => r == Err::<SshDestination, SshParseError>(e),
            Some(Ok((user, host, port, path))) => r matches Ok(d) && d.address.username@ == user
                && d.address.host@ == host && d.address.port == port && d.remote_path@ == path,
        },
{
    let n = s.unicode_len();
    let i = match find_char(s, ':') {
        None => return Err(SshParseError::MissingRemotePath),
        Some(i) => i,
    };
    proof {
        assert(first_at(s@, ':', i as int));
    }
    let user_host = s.substring_char(0, i);
    let rest = s.substring_char(i + 1, n);
    assert(user_host@ =~= s@.take(i as int));
    assert(rest@ =~= s@.skip(i + 1));
    let m = rest.unicode_len();
    let mut port: u16 = 22;
    let mut path = rest;
    match find_char(rest, ':') {
        Some(k) => {
            let head = rest.substring_char(0, k);
            assert(head@ =~= rest@.take(k as int));
            assert(first_at(rest@, ':', k as int));
            match parse_u16(head) {
                Some(p) => {
                    port = p;
                    path = rest.substring_char(k + 1, m);
                    assert(path@ =~= rest@.skip(k + 1));
                },
                None => {
                    proof {
                        assert forall|k2: int| !(first_at(rest@, ':', k2) && spec_parse_u16(rest@.take(k2)) is Some) by {
                            if first_at(rest@, ':', k2) {
                                assert(k2 == k);
                            }
                        }
                    }
                },
            }
        },
        None => {},
    }
    let address = match parse_address(user_host) {
        Ok(a) => a,
        Err(e) => return Err(e),
    };
    Ok(SshDestination {
        address: SshAddress { username: address.username, host: address.host, port },
        remote_path: path.to_owned(),
    })
}

} // verus!
