//! The server: its configuration, its identity and the frames of its streams.

use vstd::prelude::*;

use crate::digits::hex_text;
use crate::frame;
use crate::frame::{frames, reads_frame, FrameError};
use crate::keys::{public_key, public_key_of};
use crate::protocol::{Message, WireError};
use crate::surroundings::text_in;
use crate::transport::{node_of, SocketAddress, DEFAULT_PORT};
use crate::trust::TrustManager;

verus! {

/// How a server is to be run.
pub struct ServerConfig {
    pub bind_addr: Option<SocketAddress>,
    pub secret_key: Option<String>,
    pub key_file: Option<String>,
    pub disable_udp: bool,
    pub disable_iroh: bool,
    pub trust_manager: Option<TrustManager>,
}

/// The address on which a server listens where none is given: the default port on every
/// interface.
pub open spec fn default_bind_addr() -> SocketAddress {
    SocketAddress::V4 { ip: 0, port: DEFAULT_PORT }
}

impl Default for ServerConfig {
    fn default() -> (r: Self)
        ensures
            r.bind_addr == Some(default_bind_addr()),
            r.secret_key is None,
            r.key_file is None,
            !r.disable_udp,
            !r.disable_iroh,
            r.trust_manager is None,
    {
        ServerConfig {
            bind_addr: Some(SocketAddress::V4 { ip: 0, port: DEFAULT_PORT }),
            secret_key: None,
            key_file: None,
            disable_udp: false,
            disable_iroh: false,
            trust_manager: None,
        }
    }
}

/// Where the server's key comes from.
#[derive(Debug, PartialEq, Eq)]
pub enum KeySource {
    /// This text is the key.
    Text(String),
    /// The key is in this file.
    File(String),
    /// The key is in one of the usual files, or is made anew.
    Search,
}

impl ServerConfig {
    /// Where the server's key comes from: a key that is given goes before a file that is given.
    pub fn key_source(&self) -> (r: KeySource)
        ensures
            match (text_in(self.secret_key), text_in(self.key_file)) {
                (Some(key), _) => r matches KeySource::Text(s) && s@ == key,
                (None, Some(path)) => r matches KeySource::File(s) && s@ == path,
                (None, None) => r == KeySource::Search,
            },
    {
        match &self.secret_key {
            Some(key) => KeySource::Text(key.clone()),
            None => match &self.key_file {
                Some(path) => KeySource::File(path.clone()),
                None => KeySource::Search,
            },
        }
    }

    /// The address on which the server listens for datagrams.
    pub open spec fn listens_on(&self) -> Option<SocketAddress> {
        if self.disable_udp {
            None
        } else {
            match self.bind_addr {
                Some(addr) => Some(addr),
                None => Some(default_bind_addr()),
            }
        }
    }

    /// The address on which the server listens for datagrams.
    pub fn udp_addr(&self) -> (r: Option<SocketAddress>)
        ensures
            r == self.listens_on(),
    {
        if self.disable_udp {
            None
        } else {
            match self.bind_addr {
                Some(addr) => Some(addr),
                None => Some(SocketAddress::V4 { ip: 0, port: DEFAULT_PORT }),
            }
        }
    }
}

/// A server that is set up.
pub struct JoycastServer {
    udp_addr: Option<SocketAddress>,
    secret_key: Option<[u8; 32]>,
    trust_manager: TrustManager,
}

impl JoycastServer {
    /// The address on which the server listens for datagrams.
    pub closed spec fn listens_on(&self) -> Option<SocketAddress> {
        self.udp_addr
    }

    /// The key under which the server is found by its Node ID.
    pub closed spec fn key(&self) -> Option<[u8; 32]> {
        self.secret_key
    }

    /// The clients that the server knows.
    pub closed spec fn trust(&self) -> TrustManager {
        self.trust_manager
    }

    /// Sets up a server. `usual_trust` is the trust store that is used where the configuration
    /// names none, `secret_key` the key that is used unless Iroh is disabled.
    pub fn bind(config: ServerConfig, usual_trust: TrustManager, secret_key: Option<[u8; 32]>) -> (r:
        Self)
        ensures
            r.listens_on() == config.listens_on(),
            r.key() == if config.disable_iroh {
                None
            } else {
                secret_key
            },
            r.trust() == match config.trust_manager {
                Some(t) => t,
                None => usual_trust,
            },
    {
        let udp_addr = config.udp_addr();
        let secret_key = if config.disable_iroh {
            None
        } else {
            secret_key
        };
        let trust_manager = match config.trust_manager {
            Some(t) => t,
            None => usual_trust,
        };
        JoycastServer { udp_addr, secret_key, trust_manager }
    }

    /// The address on which the server listens for datagrams.
    pub fn udp_addr(&self) -> (r: Option<SocketAddress>)
        ensures
            r == self.listens_on(),
    {
        self.udp_addr
    }

    /// The server's Iroh Node ID (if Iroh is enabled). Servers with one key have one Node ID, and
    /// its text is a Node ID.
    pub fn iroh_node_id(&self) -> (r: Option<[u8; 32]>)
        ensures
            match self.key() {
                Some(key) => r matches Some(node) && node@ == public_key_of(key@) && node_of(
                    hex_text(node@),
                ) == Some(node@),
                None => r is None,
            },
    {
        match &self.secret_key {
            Some(key) => Some(public_key(key)),
            None => None,
        }
    }

    /// Return reference to TrustManager.
    pub fn trust_manager(&self) -> (r: &TrustManager)
        ensures
            *r == self.trust(),
    {
        &self.trust_manager
    }

    /// Hands over the TrustManager.
    pub fn into_trust_manager(self) -> (r: TrustManager)
        ensures
            r == self.trust(),
    {
        self.trust_manager
    }

    /// Reads a message from the front of a stream, and tells how many bytes it took.
    pub fn read_frame(stream: &[u8]) -> (r: Result<(Message, usize), FrameError>)
        ensures
            reads_frame(r, stream@),
    {
        frame::read_frame(stream)
    }

    /// The message as it is written to a stream. Where the message is within the limit, reading
    /// the stream gives it back, whatever follows it.
    pub fn write_frame(msg: &Message) -> (r: Result<Vec<u8>, WireError>)
        ensures
            r is Ok,
            frames(r->Ok_0@, msg@),
    {
        frame::write_frame(msg)
    }
}

/// A server listens for datagrams unless that is disabled: where it is told to, else on port 12398 of
/// every interface.
pub proof fn law_where_a_server_listens(config: ServerConfig)
    ensures
        config.disable_udp <==> config.listens_on() is None,
        !config.disable_udp && config.bind_addr is Some ==> config.listens_on() == config.bind_addr,
        !config.disable_udp && config.bind_addr is None ==> config.listens_on() == Some(
            SocketAddress::V4 { ip: 0, port: 12398 },
        ),
{
}

} // verus!
