//! The configuration data model: servers, their backends and the log sink.
//!
//! A server keeps its backends keyed by name and a configuration keeps its
//! servers keyed by name, both in the order in which the names first
//! appeared.

use vstd::prelude::*;

verus! {

/// The protocol tag of a virtual server.
#[derive(Debug, Clone, Copy, PartialEq, Eq, Structural)]
pub enum Protocol {
    Tcp,
    Http,
    Https,
}

/// One backend address a server forwards to.
#[derive(Debug, Clone, PartialEq, Eq)]
pub struct BackendConfig {
    pub host: String,
    pub port: u16,
    /// Talk cleartext HTTP/2 to this backend instead of HTTP/1.1.
    pub enable_h2c: bool,
}

/// Where log output goes.
#[derive(Debug, Clone, PartialEq, Eq)]
pub struct LogConfig {
    pub log_path: String,
}

/// The position of the first occurrence of `name` in `names`, or the length
/// of `names` when it does not occur.
pub open spec fn position(names: Seq<Seq<char>>, name: Seq<char>) -> int
    decreases names.len(),
{
    if names.len() == 0 {
        0
    } else if names[0] == name {
        0
    } else {
        1 + position(names.drop_first(), name)
    }
}

/// `position` finds the first occurrence, or nothing.
pub proof fn lemma_position(names: Seq<Seq<char>>, name: Seq<char>)
    ensures
        0 <= position(names, name) <= names.len(),
        position(names, name) < names.len() ==> names[position(names, name)] == name,
        forall|i: int| 0 <= i < position(names, name) ==> names[i] != name,
    decreases names.len(),
{
    if names.len() > 0 && names[0] != name {
        let rest = names.drop_first();
        lemma_position(rest, name);
        assert forall|i: int| 0 <= i < position(names, name) implies names[i] != name by {
            if i > 0 {
                assert(rest[i - 1] == names[i]);
            }
        }
    }
}

/// Finds `name` among `names`: the index of its first occurrence, or the
/// number of names when it is not there.
fn find(names: &Vec<String>, name: &str) -> (at: usize)
    ensures
        at == position(names@.map_values(|n: String| n@), name@),
        at <= names.len(),
{
    let ghost views = names@.map_values(|n: String| n@);
    let mut i: usize = 0;
    while i < names.len()
        invariant
            i <= names.len(),
            views == names@.map_values(|n: String| n@),
            forall|j: int| 0 <= j < i ==> views[j] != name@,
        decreases names.len() - i,
    {
        if str_equal(names[i].as_str(), name) {
            proof {
                assert(views[i as int] == names[i as int]@);
                lemma_position_at(views, name@, i as int);
            }
            return i;
        }
        proof {
            assert(views[i as int] == names[i as int]@);
        }
        i += 1;
    }
    proof {
        lemma_position_at(views, name@, i as int);
    }
    i
}

/// Whether two strings hold the same text.
fn str_equal(a: &str, b: &str) -> (same: bool)
    ensures
        same == (a@ == b@),
{
    let left = a.to_owned();
    let right = b.to_owned();
    left == right
}

/// The first occurrence is where the name is and nothing before it is.
proof fn lemma_position_at(names: Seq<Seq<char>>, name: Seq<char>, at: int)
    requires
        0 <= at <= names.len(),
        forall|j: int| 0 <= j < at ==> names[j] != name,
        at < names.len() ==> names[at] == name,
    ensures
        position(names, name) == at,
    decreases names.len(),
{
    if names.len() > 0 && at > 0 {
        let rest = names.drop_first();
        assert forall|j: int| 0 <= j < at - 1 implies rest[j] != name by {
            assert(rest[j] == names[j + 1]);
        }
        lemma_position_at(rest, name, at - 1);
    }
}

/// One virtual server: where it listens and where it forwards to.
#[derive(Debug, PartialEq, Eq)]
pub struct ServerConfig {
    name: String,
    port: u16,
    protocol: Protocol,
    backend_names: Vec<String>,
    backends: Vec<BackendConfig>,
}

impl ServerConfig {
    /// Every backend has a name, and no name is used twice.
    #[verifier::type_invariant]
    spec fn well_formed(self) -> bool {
        &&& self.backend_names.len() == self.backends.len()
        &&& self.names().no_duplicates()
    }

    /// The server's name.
    pub closed spec fn name_text(&self) -> Seq<char> {
        self.name@
    }

    /// The port the server listens on.
    pub closed spec fn listen_port(&self) -> u16 {
        self.port
    }

    /// The server's protocol tag.
    pub closed spec fn protocol_tag(&self) -> Protocol {
        self.protocol
    }

    /// The names of the backends, in the order they were first inserted.
    pub closed spec fn names(&self) -> Seq<Seq<char>> {
        self.backend_names@.map_values(|n: String| n@)
    }

    /// The backend definitions, each at the place of its name.
    pub closed spec fn definitions(&self) -> Seq<BackendConfig> {
        self.backends@
    }

    /// A server without backends.
    pub fn new(name: String, port: u16, protocol: Protocol) -> (server: ServerConfig)
        ensures
            server.name_text() == name@,
            server.listen_port() == port,
            server.protocol_tag() == protocol,
            server.names() == Seq::<Seq<char>>::empty(),
            server.definitions() == Seq::<BackendConfig>::empty(),
    {
        let backend_names: Vec<String> = Vec::new();
        assert(backend_names@.map_values(|n: String| n@) =~= Seq::<Seq<char>>::empty());
        ServerConfig { name, port, protocol, backend_names, backends: Vec::new() }
    }

    /// The server's name.
    pub fn name(&self) -> (name: &str)
        ensures
            name@ == self.name_text(),
    {
        self.name.as_str()
    }

    /// The port the server listens on.
    pub fn port(&self) -> (port: u16)
        ensures
            port == self.listen_port(),
    {
        self.port
    }

    /// The server's protocol tag.
    pub fn protocol(&self) -> (protocol: Protocol)
        ensures
            protocol == self.protocol_tag(),
    {
        self.protocol
    }

    /// The backend definitions, in the order their names were first
    /// inserted; as many as there are names, and no name is there twice.
    pub fn backends(&self) -> (backends: &[BackendConfig])
        ensures
            backends@ == self.definitions(),
            backends@.len() == self.names().len(),
            self.names().no_duplicates(),
    {
        proof {
            use_type_invariant(self);
        }
        self.backends.as_slice()
    }

    /// The names of the backends, in the order they were first inserted.
    pub fn backend_names(&self) -> (names: &[String])
        ensures
            names@.map_values(|n: String| n@) == self.names(),
    {
        self.backend_names.as_slice()
    }

    /// The definition of the backend called `name`, if there is one.
    pub fn backend(&self, name: &str) -> (found: Option<&BackendConfig>)
        ensures
            match found {
                Some(backend) => {
                    &&& position(self.names(), name@) < self.names().len()
                    &&& *backend == self.definitions()[position(self.names(), name@)]
                },
                None => position(self.names(), name@) == self.names().len(),
            },
    {
        proof {
            use_type_invariant(self);
        }
        let at = find(&self.backend_names, name);
        if at < self.backends.len() {
            Some(&self.backends[at])
        } else {
            None
        }
    }

    /// Puts `backend` under `name`. A definition already under that name is
    /// replaced where it stands, and the answer is `false`; a new name goes
    /// last, and the answer is `true`.
    pub fn insert_backend(self, name: String, backend: BackendConfig) -> (inserted: (
        ServerConfig,
        bool,
    ))
        ensures
            inserted.0.name_text() == self.name_text(),
            inserted.0.listen_port() == self.listen_port(),
            inserted.0.protocol_tag() == self.protocol_tag(),
            inserted.1 == (position(self.names(), name@) == self.names().len()),
            inserted.1 ==> inserted.0.names() == self.names().push(name@)
                && inserted.0.definitions() == self.definitions().push(backend),
            !inserted.1 ==> inserted.0.names() == self.names() && inserted.0.definitions()
                == self.definitions().update(position(self.names(), name@), backend),
    {
        proof {
            use_type_invariant(&self);
            lemma_position(self.names(), name@);
        }
        let at = find(&self.backend_names, &name);
        let ServerConfig { name: own, port, protocol, backend_names, backends } = self;
        let mut backend_names = backend_names;
        let mut backends = backends;
        let fresh = at == backends.len();
        if fresh {
            backend_names.push(name);
            backends.push(backend);
        } else {
            backends.set(at, backend);
        }
        proof {
            let names = backend_names@.map_values(|n: String| n@);
            if fresh {
                assert(names =~= self.names().push(name@));
                assert forall|i: int, j: int|
                    0 <= i < names.len() && 0 <= j < names.len() && i != j implies names[i]
                    != names[j] by {
                    if i < self.names().len() && j < self.names().len() {
                        assert(self.names()[i] != self.names()[j]);
                    }
                }
            } else {
                assert(names =~= self.names());
            }
        }
        (ServerConfig { name: own, port, protocol, backend_names, backends }, fresh)
    }
}

/// The whole configuration: an optional log sink and the servers.
#[derive(Debug, PartialEq, Eq)]
pub struct Config {
    log_config: Option<LogConfig>,
    server_names: Vec<String>,
    servers: Vec<ServerConfig>,
}

impl Config {
    /// Every server is listed under its own name, and no name is used twice.
    #[verifier::type_invariant]
    spec fn well_formed(self) -> bool {
        &&& self.server_names.len() == self.servers.len()
        &&& forall|i: int|
            0 <= i < self.servers.len() ==> self.server_names[i]@
                == (#[trigger] self.servers[i]).name_text()
        &&& self.names().no_duplicates()
    }

    /// The log sink, if one is configured.
    pub closed spec fn log_sink(&self) -> Option<LogConfig> {
        self.log_config
    }

    /// The names of the servers, in the order they were first inserted.
    pub closed spec fn names(&self) -> Seq<Seq<char>> {
        self.server_names@.map_values(|n: String| n@)
    }

    /// The servers, each at the place of its name.
    pub closed spec fn entries(&self) -> Seq<ServerConfig> {
        self.servers@
    }

    /// A configuration without servers.
    pub fn new(log_config: Option<LogConfig>) -> (config: Config)
        ensures
            config.log_sink() == log_config,
            config.names() == Seq::<Seq<char>>::empty(),
            config.entries() == Seq::<ServerConfig>::empty(),
    {
        let server_names: Vec<String> = Vec::new();
        assert(server_names@.map_values(|n: String| n@) =~= Seq::<Seq<char>>::empty());
        Config { log_config, server_names, servers: Vec::new() }
    }

    /// The log sink, if one is configured.
    pub fn log_config(&self) -> (log_config: &Option<LogConfig>)
        ensures
            *log_config == self.log_sink(),
    {
        &self.log_config
    }

    /// The servers, in the order their names were first inserted; each is
    /// listed under its own name, and no name is there twice.
    pub fn servers(&self) -> (servers: &[ServerConfig])
        ensures
            servers@ == self.entries(),
            servers@.len() == self.names().len(),
            forall|i: int|
                0 <= i < servers@.len() ==> self.names()[i] == (#[trigger] servers@[i]).name_text(),
            self.names().no_duplicates(),
    {
        proof {
            use_type_invariant(self);
        }
        self.servers.as_slice()
    }

    /// Adds `server` unless a server of that name is there already: names
    /// are the key, and the first server of a name stays. The answer says
    /// whether the server was added.
    pub fn insert_server(self, server: ServerConfig) -> (inserted: (Config, bool))
        ensures
            inserted.0.log_sink() == self.log_sink(),
            inserted.1 == (position(self.names(), server.name_text()) == self.names().len()),
            inserted.1 ==> inserted.0.names() == self.names().push(server.name_text())
                && inserted.0.entries() == self.entries().push(server),
            !inserted.1 ==> inserted.0.names() == self.names() && inserted.0.entries()
                == self.entries(),
    {
        proof {
            use_type_invariant(&self);
            lemma_position(self.names(), server.name_text());
        }
        let at = find(&self.server_names, server.name());
        if at < self.servers.len() {
            return (self, false);
        }
        let Config { log_config, server_names, servers } = self;
        let mut server_names = server_names;
        let mut servers = servers;
        server_names.push(server.name().to_owned());
        servers.push(server);
        proof {
            let names = server_names@.map_values(|n: String| n@);
            assert(names =~= self.names().push(server.name_text()));
            assert forall|i: int, j: int|
                0 <= i < names.len() && 0 <= j < names.len() && i != j implies names[i]
                != names[j] by {
                if i < self.names().len() && j < self.names().len() {
                    assert(self.names()[i] != self.names()[j]);
                }
            }
        }
        (Config { log_config, server_names, servers }, true)
    }
}

} // verus!
