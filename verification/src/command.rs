//! What the command line asks for.
use crate::server::Server;
use crate::session::{IpAddr, ServerState};
use crate::shared::ForwardingEndpoint;
use std::ops::RangeInclusive;
use vstd::prelude::*;

verus! {

/// What to run, as it was given on the command line.
#[derive(Debug)]
pub enum Command {
    /// Starts a local proxy to the remote server.
    Local {
        /// The local port to expose.
        local_port: u16,
        /// The local host to expose.
        local_host: String,
        /// Address of the remote server to expose local ports to.
        to: Option<String>,
        /// Optional port on the remote server to select.
        port: u16,
        /// Expose the port via HTTP[S] on the remote server.
        http: bool,
        /// Optional secret for authentication.
        secret: Option<String>,
    },
    /// Runs the remote proxy server.
    Server {
        /// Minimum accepted TCP port number.
        min_port: u16,
        /// Maximum accepted TCP port number.
        max_port: u16,
        /// Optional secret for authentication.
        secret: Option<String>,
        /// IP address to bind to, clients must reach this.
        bind_addr: IpAddr,
        /// IP address where tunnels will listen on, defaults to the one to bind to.
        bind_tunnels: Option<IpAddr>,
        /// UNIX socket to create for HTTP connections.
        http_socket: Option<Vec<u8>>,
    },
}

/// What the config file says.
#[derive(Debug)]
pub struct Config {
    /// Address of the remote server.
    pub server: Option<String>,
    /// Secret for authentication with that server.
    pub secret: Option<String>,
}

impl Default for Config {
    /// What holds without a config file.
    fn default() -> (config: Config)
        ensures
            config.server is None,
            config.secret is None,
    {
        Config { server: None, secret: None }
    }
}

/// The path of `name` in the directory `dir`.
pub open spec fn path_in(dir: Seq<u8>, name: Seq<char>) -> Seq<u8> {
    let separator = if dir.len() == 0 || dir.last() == 47 {
        Seq::empty()
    } else {
        seq![47u8]
    };
    dir + separator + vstd::utf8::encode_utf8(name)
}

/// The path of `name`, which is relative, in the directory `dir`.
fn join(dir: Vec<u8>, name: &str) -> (path: Vec<u8>)
    ensures
        path@ == path_in(dir@, name@),
{
    let mut path = dir;
    if path.len() > 0 && path[path.len() - 1] != 47 {
        path.push(47);
    }
    path.extend_from_slice(name.as_bytes());
    assert(path@ =~= path_in(dir@, name@));
    path
}

/// Where the config file is: in the directory for configs if one is set, else in `.config` in
/// the home directory.
pub fn config_path(config_home: Option<Vec<u8>>, home: Option<Vec<u8>>) -> (path: Vec<u8>)
    requires
        config_home is Some || home is Some,
    ensures
        path@ == path_in(
            match config_home {
                Some(dir) => dir@,
                None => path_in(home->0@, ".config"@),
            },
            "bore.toml"@,
        ),
{
    let dir = match (config_home, home) {
        (Some(dir), _) => dir,
        (None, Some(home)) => join(home, ".config"),
        (None, None) => Vec::new(),
    };
    join(dir, "bore.toml")
}

/// What a local proxy is started with.
#[derive(Debug, PartialEq, Eq)]
pub struct LocalProxy {
    /// The local host to expose.
    pub local_host: String,
    /// The local port to expose.
    pub local_port: u16,
    /// Address of the remote server.
    pub to: String,
    /// What to forward from the remote server.
    pub endpoint: ForwardingEndpoint,
    /// Secret for authentication with the remote server.
    pub secret: Option<String>,
}

/// What is to be run.
pub enum Plan {
    /// A local proxy.
    Local(LocalProxy),
    /// The remote proxy server.
    Server(Server),
}

/// Why the command line cannot be followed.
#[derive(Clone, Copy, Debug, PartialEq, Eq, Structural)]
pub enum UsageError {
    /// There is no server to connect to.
    NoServer,
    /// A TCP port and HTTP exclude each other.
    PortAndHttp,
    /// The server would have no port to forward.
    EmptyPortRange,
}

impl UsageError {
    /// What the user is told.
    pub open spec fn text(self) -> Seq<char> {
        match self {
            UsageError::NoServer => "no server was specified, and none was found in the config"@,
            UsageError::PortAndHttp => "both --port and --http were specified at the same time"@,
            UsageError::EmptyPortRange => "port range is empty"@,
        }
    }

    /// What the user is told.
    pub fn message(self) -> (text: &'static str)
        ensures
            text@ == self.text(),
    {
        match self {
            UsageError::NoServer => "no server was specified, and none was found in the config",
            UsageError::PortAndHttp => "both --port and --http were specified at the same time",
            UsageError::EmptyPortRange => "port range is empty",
        }
    }
}

/// The server to connect to and the secret for it: both from the command line if that names a
/// server, else both from the config file.
pub open spec fn remote(to: Option<String>, secret: Option<String>, config: Config) -> (
    Option<String>,
    Option<String>,
) {
    match to {
        Some(_) => (to, secret),
        None => (config.server, config.secret),
    }
}

/// The server that the command line describes.
pub open spec fn described_server(
    min_port: u16,
    max_port: u16,
    secret: Option<String>,
    bind_addr: IpAddr,
    bind_tunnels: Option<IpAddr>,
    http_socket: Option<Vec<u8>>,
) -> ServerState {
    ServerState {
        min_port,
        max_port,
        secret: match secret {
            Some(secret) => Some(secret@),
            None => None,
        },
        conns: Map::empty(),
        bind_addr,
        bind_tunnels: match bind_tunnels {
            Some(addr) => addr,
            None => bind_addr,
        },
        http_socket: match http_socket {
            Some(path) => Some(path@),
            None => None,
        },
    }
}

/// Whether `plan` is what the command leads to.
pub open spec fn is_plan(command: Command, config: Config, plan: Result<Plan, UsageError>) -> bool {
    match command {
        Command::Local { local_port, local_host, to, port, http, secret } => {
            match remote(to, secret, config) {
                (None, _) => plan == Err::<Plan, UsageError>(UsageError::NoServer),
                (Some(server), secret) => if http && port != 0 {
                    plan == Err::<Plan, UsageError>(UsageError::PortAndHttp)
                } else {
                    plan == Ok::<Plan, UsageError>(
                        Plan::Local(
                            LocalProxy {
                                local_host,
                                local_port,
                                to: server,
                                endpoint: if http {
                                    ForwardingEndpoint::Http
                                } else {
                                    ForwardingEndpoint::Tcp(port)
                                },
                                secret,
                            },
                        ),
                    )
                },
            }
        },
        Command::Server { min_port, max_port, secret, bind_addr, bind_tunnels, http_socket } => {
            if min_port > max_port {
                plan == Err::<Plan, UsageError>(UsageError::EmptyPortRange)
            } else {
                plan matches Ok(Plan::Server(server)) && server.wf() && server@
                    == described_server(
                    min_port,
                    max_port,
                    secret,
                    bind_addr,
                    bind_tunnels,
                    http_socket,
                )
            }
        },
    }
}

/// Work out what to run. Only a local proxy looks at the config.
pub fn run(command: Command, config: Config) -> (plan: Result<Plan, UsageError>)
    ensures
        is_plan(command, config, plan),
{
    match command {
        Command::Local { local_port, local_host, to, port, http, secret } => {
            let (to, secret) = match to {
                Some(to) => (Some(to), secret),
                None => (config.server, config.secret),
            };
            let to = match to {
                Some(to) => to,
                None => return Err(UsageError::NoServer),
            };
            let endpoint = if http {
                if port != 0 {
                    return Err(UsageError::PortAndHttp);
                }
                ForwardingEndpoint::Http
            } else {
                ForwardingEndpoint::Tcp(port)
            };
            Ok(Plan::Local(LocalProxy { local_host, local_port, to, endpoint, secret }))
        },
        Command::Server { min_port, max_port, secret, bind_addr, bind_tunnels, http_socket } => {
            if min_port > max_port {
                return Err(UsageError::EmptyPortRange);
            }
            let secret = match &secret {
                Some(secret) => Some(secret.as_str()),
                None => None,
            };
            let mut server = Server::new(RangeInclusive::new(min_port, max_port), secret);
            server.set_bind_addr(bind_addr);
            server.set_bind_tunnels(
                match bind_tunnels {
                    Some(addr) => addr,
                    None => bind_addr,
                },
            );
            server.set_http_socket(http_socket);
            Ok(Plan::Server(server))
        },
    }
}

/// A server on the command line settles the secret too: the config makes no difference then.
/// Without one, a secret on the command line makes no difference.
pub proof fn lemma_server_and_secret_go_together(
    local_port: u16,
    local_host: String,
    to: Option<String>,
    port: u16,
    http: bool,
    secret: Option<String>,
    other_secret: Option<String>,
    config: Config,
    other_config: Config,
    plan: Result<Plan, UsageError>,
)
    ensures
        to is Some ==> is_plan(
            Command::Local { local_port, local_host, to, port, http, secret },
            config,
            plan,
        ) == is_plan(
            Command::Local { local_port, local_host, to, port, http, secret },
            other_config,
            plan,
        ),
        to is None ==> is_plan(
            Command::Local { local_port, local_host, to, port, http, secret },
            config,
            plan,
        ) == is_plan(
            Command::Local { local_port, local_host, to, port, http, secret: other_secret },
            config,
            plan,
        ),
{
}

/// A local proxy exposes the port and the host that the command line names, of the server that it
/// names or else of the one in the config, with the secret from the same place, and forwards HTTP
/// or the port that was asked for. It is refused only where there is no server, or where both a
/// port and HTTP are asked for.
pub proof fn lemma_local_proxy_is_as_asked(
    local_port: u16,
    local_host: String,
    to: Option<String>,
    port: u16,
    http: bool,
    secret: Option<String>,
    config: Config,
    plan: Result<Plan, UsageError>,
)
    requires
        is_plan(Command::Local { local_port, local_host, to, port, http, secret }, config, plan),
    ensures
        match plan {
            Ok(Plan::Local(proxy)) => {
                &&& proxy.local_port == local_port
                &&& proxy.local_host == local_host
                &&& to is Some ==> to == Some(proxy.to) && proxy.secret == secret
                &&& to is None ==> config.server == Some(proxy.to) && proxy.secret == config.secret
                &&& http ==> port == 0 && proxy.endpoint == ForwardingEndpoint::Http
                &&& !http ==> proxy.endpoint == ForwardingEndpoint::Tcp(port)
            },
            Ok(Plan::Server(_)) => false,
            Err(UsageError::NoServer) => to is None && config.server is None,
            Err(UsageError::PortAndHttp) => http && port != 0 && (to is Some
                || config.server is Some),
            Err(UsageError::EmptyPortRange) => false,
        },
{
}

/// A server forwards the ports from the lowest to the highest that the command line names, and no
/// other; its secret, its addresses and its socket are those that are given there, and tunnels
/// listen where the control server does if nothing else is given. Nobody waits on it yet. It is
/// refused only where the lowest port is above the highest.
pub proof fn lemma_server_is_as_asked(
    min_port: u16,
    max_port: u16,
    secret: Option<String>,
    bind_addr: IpAddr,
    bind_tunnels: Option<IpAddr>,
    http_socket: Option<Vec<u8>>,
    config: Config,
    plan: Result<Plan, UsageError>,
    port: u16,
)
    requires
        is_plan(
            Command::Server { min_port, max_port, secret, bind_addr, bind_tunnels, http_socket },
            config,
            plan,
        ),
    ensures
        match plan {
            Ok(Plan::Server(server)) => {
                &&& min_port <= max_port
                &&& server.wf()
                &&& server@.allows(port) <==> min_port <= port && port <= max_port
                &&& server@.min_port == min_port
                &&& server@.max_port == max_port
                &&& secret is None <==> server@.secret is None
                &&& secret matches Some(text) ==> server@.secret == Some(text@)
                &&& server@.conns == Map::<u128, u64>::empty()
                &&& server@.bind_addr == bind_addr
                &&& bind_tunnels is None ==> server@.bind_tunnels == bind_addr
                &&& bind_tunnels matches Some(addr) ==> server@.bind_tunnels == addr
                &&& http_socket is None <==> server@.http_socket is None
                &&& http_socket matches Some(path) ==> server@.http_socket == Some(path@)
            },
            Ok(Plan::Local(_)) => false,
            Err(UsageError::EmptyPortRange) => min_port > max_port,
            Err(_) => false,
        },
{
}

/// A path begins with the directory and ends with the name. One slash stands between the two,
/// unless the directory ends with one or is empty; then there is nothing between.
pub proof fn lemma_path_in(dir: Seq<u8>, name: Seq<char>)
    ensures
        ({
            let path = path_in(dir, name);
            let bytes = vstd::utf8::encode_utf8(name);
            let between = path.len() - dir.len() - bytes.len();
            &&& path.take(dir.len() as int) == dir
            &&& path.skip(path.len() - bytes.len()) == bytes
            &&& between == 0 || between == 1
            &&& between == 0 <==> dir.len() == 0 || dir[dir.len() - 1] == 47
            &&& between == 1 ==> path[dir.len() as int] == 47
        }),
{
    let path = path_in(dir, name);
    let bytes = vstd::utf8::encode_utf8(name);
    assert(path.take(dir.len() as int) =~= dir);
    assert(path.skip(path.len() - bytes.len()) =~= bytes);
}

/// What the user is told about each error.
pub proof fn lemma_usage_errors(err: UsageError)
    ensures
        err is NoServer ==> err.text()
            == "no server was specified, and none was found in the config"@,
        err is PortAndHttp ==> err.text()
            == "both --port and --http were specified at the same time"@,
        err is EmptyPortRange ==> err.text() == "port range is empty"@,
{
}

} // verus!
