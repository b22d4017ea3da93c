//! Configuration records for the engine: one remote endpoint, and the
//! process-wide settings. Loading and validating them from a file is a
//! collaborator's job; the engine treats every field as already valid.

use vstd::prelude::*;
use crate::bytes::clone_bytes;

verus! {

/// One remote endpoint: where to connect, whether the transport must be
/// encrypted, and which channels to join once identified.
#[derive(Debug, Clone)]
pub struct Server {
    pub host: Vec<u8>,
    pub port: u16,
    pub secure: bool,
    pub channels: Vec<Vec<u8>>,
}

/// Ghost record of a `Server`.
#[verifier::ext_equal]
pub struct ServerV {
    pub host: Seq<u8>,
    pub port: u16,
    pub secure: bool,
    pub channels: Seq<Seq<u8>>,
}

impl View for Server {
    type V = ServerV;

    open spec fn view(&self) -> ServerV {
        ServerV {
            host: self.host@,
            port: self.port,
            secure: self.secure,
            channels: Seq::new(self.channels@.len(), |i: int| self.channels@[i]@),
        }
    }
}

/// Process-wide settings shared by every engine instance.
#[derive(Debug, Clone)]
pub struct Config {
    pub servers: Vec<Server>,
    pub nick: Vec<u8>,
    pub alt: Vec<u8>,
    pub username: Vec<u8>,
    pub realname: Vec<u8>,
    pub admin_password: Vec<u8>,
    pub command_byte: u8,
}

/// Ghost record of a `Config`.
#[verifier::ext_equal]
pub struct ConfigV {
    pub servers: Seq<ServerV>,
    pub nick: Seq<u8>,
    pub alt: Seq<u8>,
    pub username: Seq<u8>,
    pub realname: Seq<u8>,
    pub admin_password: Seq<u8>,
    pub command_byte: u8,
}

impl View for Config {
    type V = ConfigV;

    open spec fn view(&self) -> ConfigV {
        ConfigV {
            servers: Seq::new(self.servers@.len(), |i: int| self.servers@[i]@),
            nick: self.nick@,
            alt: self.alt@,
            username: self.username@,
            realname: self.realname@,
            admin_password: self.admin_password@,
            command_byte: self.command_byte,
        }
    }
}

pub fn clone_server(s: &Server) -> (r: Server)
    ensures
        r@ == s@,
{
    let mut channels: Vec<Vec<u8>> = Vec::new();
    let n = s.channels.len();
    let mut i: usize = 0;
    while i < n
        invariant
            n == s.channels@.len(),
            0 <= i <= n,
            channels@.len() == i,
            forall|j: int| 0 <= j < i ==> channels@[j]@ == s.channels@[j]@,
        decreases n - i,
    {
        let c = clone_bytes(&s.channels[i]);
        channels.push(c);
        i = i + 1;
    }
    let r = Server { host: clone_bytes(&s.host), port: s.port, secure: s.secure, channels };
    proof {
        assert(r@.channels =~= s@.channels);
        assert(r@ =~= s@);
    }
    r
}

pub fn clone_config(c: &Config) -> (r: Config)
    ensures
        r@ == c@,
{
    let mut servers: Vec<Server> = Vec::new();
    let n = c.servers.len();
    let mut i: usize = 0;
    while i < n
        invariant
            n == c.servers@.len(),
            0 <= i <= n,
            servers@.len() == i,
            forall|j: int| 0 <= j < i ==> servers@[j]@ == c.servers@[j]@,
        decreases n - i,
    {
        let s = clone_server(&c.servers[i]);
        servers.push(s);
        i = i + 1;
    }
    let r = Config {
        servers,
        nick: clone_bytes(&c.nick),
        alt: clone_bytes(&c.alt),
        username: clone_bytes(&c.username),
        realname: clone_bytes(&c.realname),
        admin_password: clone_bytes(&c.admin_password),
        command_byte: c.command_byte,
    };
    proof {
        assert(r@.servers =~= c@.servers);
        assert(r@ =~= c@);
    }
    r
}

} // verus!
