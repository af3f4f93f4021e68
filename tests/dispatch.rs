use sv_manage::config::{AccountData, Cache, SVManage, ServerConf};
use sv_manage::dispatch::{list_servers, login, route_net_command, route_server_command, Dispatch, NetRoute};
use sv_manage::protocol::{LoginPacket, LoginResponse, NetCommand, Response, ServerCommand, ServerStatus};
use sv_manage::status::Status;
use sv_manage::supervisor::Command;
use sv_manage::wire::hash_pw;

fn conf() -> SVManage {
    SVManage {
        port: 4000,
        accounts: vec![(
            "alice".to_string(),
            AccountData {
                cache: Cache { notifications: Vec::new() },
                password: hash_pw("hunter2"),
                servers: vec![("survival".to_string(), ServerConf { running: false, path: "/srv/survival".to_string() })],
            },
        )],
    }
}

fn alice_servers() -> Vec<ServerStatus> {
    vec![ServerStatus { name: "survival".to_string(), path: "/srv/survival".to_string(), status: Status::Idle }]
}

#[test]
fn login_accepts_matching_digest() {
    let c = conf();
    let p = LoginPacket { user: "alice".to_string(), password: hash_pw("hunter2") };
    assert_eq!(login(&c, &p), LoginResponse::Success);
    assert_eq!(login(&c, &p), LoginResponse::Success);
}

#[test]
fn login_rejects_any_flipped_bit() {
    let c = conf();
    let good = hash_pw("hunter2");
    for i in 0..32 {
        for b in 0..8 {
            let mut pw = good;
            pw[i] ^= 1u8 << b;
            let p = LoginPacket { user: "alice".to_string(), password: pw };
            assert_eq!(login(&c, &p), LoginResponse::WrongCredentials);
        }
    }
}

#[test]
fn login_rejects_unknown_user() {
    let c = conf();
    let p = LoginPacket { user: "mallory".to_string(), password: hash_pw("hunter2") };
    assert_eq!(login(&c, &p), LoginResponse::WrongCredentials);
}

#[test]
fn unknown_server_is_reported() {
    let r = route_net_command(&alice_servers(), NetCommand::ServerCommand("ghost".to_string(), ServerCommand::Status));
    assert_eq!(r, NetRoute::Reply(Response::UnknownServer));
}

#[test]
fn console_while_idle_is_invalid() {
    let r = route_net_command(
        &alice_servers(),
        NetCommand::ServerCommand("survival".to_string(), ServerCommand::Console("say hi".to_string())),
    );
    assert_eq!(r, NetRoute::Server(0, Dispatch::Reply(Response::InvalidState)));
}

#[test]
fn backup_while_idle_is_forwarded() {
    let r = route_net_command(&alice_servers(), NetCommand::ServerCommand("survival".to_string(), ServerCommand::Backup));
    assert_eq!(r, NetRoute::Server(0, Dispatch::Forward(Command::Backup)));
    assert_eq!(route_server_command(Status::Running, ServerCommand::Backup), Dispatch::Reply(Response::InvalidState));
    assert_eq!(route_server_command(Status::Running, ServerCommand::Restore), Dispatch::Reply(Response::InvalidState));
    assert_eq!(
        route_server_command(Status::Running, ServerCommand::Console("x".to_string())),
        Dispatch::Forward(Command::Console("x".to_string()))
    );
    assert_eq!(route_server_command(Status::Idle, ServerCommand::Status), Dispatch::Describe);
    assert_eq!(route_server_command(Status::Idle, ServerCommand::Reboot), Dispatch::Reboot);
}

#[test]
fn listing_and_notifications_routes() {
    assert_eq!(route_net_command(&alice_servers(), NetCommand::ListServers), NetRoute::ListServers);
    assert_eq!(route_net_command(&alice_servers(), NetCommand::Notifications), NetRoute::Notifications);
    assert_eq!(list_servers(&alice_servers()), Response::List(alice_servers()));
}

#[test]
fn start_request_is_persisted() {
    let mut c = conf();
    c.set_running("alice", "survival", true);
    assert!(c.accounts[0].1.servers[0].1.running);
    assert_eq!(c.accounts[0].1.servers[0].1.path, "/srv/survival");
    c.set_running("alice", "ghost", false);
    assert!(c.accounts[0].1.servers[0].1.running);
    c.set_running("bob", "survival", false);
    assert!(c.accounts[0].1.servers[0].1.running);
    c.set_running("alice", "survival", false);
    assert!(!c.accounts[0].1.servers[0].1.running);
    assert_eq!(ServerConf::default().running, false);
}
