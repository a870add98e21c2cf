use bore::command::{config_path, run, Command, Config, LocalProxy, Plan, UsageError};
use bore::server::{ListenAction, ListenEvent};
use bore::session::{Action, Event, IpAddr, Session};
use bore::shared::{ClientMessage, ForwardingEndpoint};

fn owned(text: &str) -> Option<String> {
    Some(text.to_string())
}

fn local(to: Option<String>, port: u16, http: bool, secret: Option<String>) -> Command {
    Command::Local { local_port: 8000, local_host: "localhost".to_string(), to, port, http, secret }
}

fn config() -> Config {
    Config { server: owned("config.example"), secret: owned("config secret") }
}

fn proxy(to: &str, endpoint: ForwardingEndpoint, secret: Option<String>) -> LocalProxy {
    LocalProxy {
        local_host: "localhost".to_string(),
        local_port: 8000,
        to: to.to_string(),
        endpoint,
        secret,
    }
}

fn local_plan(command: Command, config: Config) -> Result<LocalProxy, UsageError> {
    match run(command, config) {
        Ok(Plan::Local(proxy)) => Ok(proxy),
        Ok(Plan::Server(_)) => panic!("a server was planned"),
        Err(err) => Err(err),
    }
}

#[test]
fn server_on_the_command_line() {
    assert_eq!(
        local_plan(local(owned("bore.pub"), 0, false, owned("flag secret")), config()),
        Ok(proxy("bore.pub", ForwardingEndpoint::Tcp(0), owned("flag secret")))
    );
    assert_eq!(
        local_plan(local(owned("bore.pub"), 9000, false, None), config()),
        Ok(proxy("bore.pub", ForwardingEndpoint::Tcp(9000), None))
    );
}

#[test]
fn server_in_the_config() {
    assert_eq!(
        local_plan(local(None, 0, false, owned("flag secret")), config()),
        Ok(proxy("config.example", ForwardingEndpoint::Tcp(0), owned("config secret")))
    );
}

#[test]
fn no_server_at_all() {
    let result = local_plan(local(None, 9000, true, None), Config::default());
    assert_eq!(result, Err(UsageError::NoServer));
    assert_eq!(
        UsageError::NoServer.message(),
        "no server was specified, and none was found in the config"
    );
}

#[test]
fn port_and_http_exclude_each_other() {
    assert_eq!(
        local_plan(local(owned("bore.pub"), 0, true, None), config()),
        Ok(proxy("bore.pub", ForwardingEndpoint::Http, None))
    );
    assert_eq!(
        local_plan(local(owned("bore.pub"), 1, true, None), config()),
        Err(UsageError::PortAndHttp)
    );
    assert_eq!(
        UsageError::PortAndHttp.message(),
        "both --port and --http were specified at the same time"
    );
}

#[test]
fn config_file_is_found() {
    let path = |config_home: Option<&str>, home: Option<&str>| {
        let bytes = |dir: &str| dir.as_bytes().to_vec();
        String::from_utf8(config_path(config_home.map(bytes), home.map(bytes))).unwrap()
    };
    assert_eq!(path(Some("/etc/xdg"), Some("/home/me")), "/etc/xdg/bore.toml");
    assert_eq!(path(Some("/etc/xdg/"), None), "/etc/xdg/bore.toml");
    assert_eq!(path(Some(""), None), "bore.toml");
    assert_eq!(path(None, Some("/home/me")), "/home/me/.config/bore.toml");
    assert_eq!(path(None, Some("/")), "/.config/bore.toml");
}

fn server(min_port: u16, max_port: u16, bind_tunnels: Option<IpAddr>) -> Result<Plan, UsageError> {
    run(
        Command::Server {
            min_port,
            max_port,
            secret: None,
            bind_addr: IpAddr::V4(1),
            bind_tunnels,
            http_socket: Some(b"/run/bore".to_vec()),
        },
        Config::default(),
    )
}

#[test]
fn port_range_must_not_be_empty() {
    assert!(matches!(server(2, 1, None), Err(UsageError::EmptyPortRange)));
    assert!(matches!(server(1, 1, None), Ok(Plan::Server(_))));
    assert_eq!(UsageError::EmptyPortRange.message(), "port range is empty");
}

#[test]
fn tunnels_default_to_the_control_address() {
    for (tunnels, expected) in [(None, IpAddr::V4(1)), (Some(IpAddr::V6(2)), IpAddr::V6(2))] {
        let mut server = match server(1024, 65535, tunnels) {
            Ok(Plan::Server(server)) => server,
            _ => panic!("no server"),
        };
        assert_eq!(
            server.listen(ListenEvent::Started),
            ListenAction::Bind { addr: IpAddr::V4(1), port: 7835 }
        );
        let mut session = Session::new();
        let _ = server.advance(&mut session, Event::Opened);
        let hello = ClientMessage::Hello(ForwardingEndpoint::Tcp(2000));
        assert_eq!(
            server.advance(&mut session, Event::Received(Some(hello))),
            Action::BindTcp { addr: expected, port: 2000 }
        );
    }
}
