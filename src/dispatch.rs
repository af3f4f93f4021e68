use vstd::prelude::*;
use crate::config::SVManage;
use crate::protocol::{LoginPacket, LoginResponse, NetCommand, Response, ServerCommand, ServerStatus};
use crate::status::Status;
use crate::supervisor::Command;
use crate::text::same_text;

verus! {

/// Whether some account is called `user` and has password digest `pw`.
pub open spec fn credentials_match(conf: SVManage, user: Seq<char>, pw: Seq<u8>) -> bool {
    exists|i: int| 0 <= i < conf.accounts.len() && #[trigger] conf.accounts[i].0@ == user
        && conf.accounts[i].1.password@ == pw
}

/// Compares two password digests.
pub fn same_digest(a: &[u8; 32], b: &[u8; 32]) -> (r: bool)
    ensures
        r == (a@ == b@),
{
    let mut i: usize = 0;
    while i < 32
        invariant
            i <= 32,
            a@.len() == 32,
            b@.len() == 32,
            forall|k: int| 0 <= k < i ==> a@[k] == b@[k],
        decreases 32 - i,
    {
        if a[i] != b[i] {
            return false;
        }
        i = i + 1;
    }
    proof { assert(a@ =~= b@); }
    true
}

/// The account that the login packet authenticates, if any.
pub fn authenticate(conf: &SVManage, packet: &LoginPacket) -> (r: Option<usize>)
    ensures
        match r {
            Some(i) => i < conf.accounts.len() && conf.accounts[i as int].0@ == packet.user@
                && conf.accounts[i as int].1.password@ == packet.password@,
            None => !credentials_match(*conf, packet.user@, packet.password@),
        },
{
    let mut i: usize = 0;
    while i < conf.accounts.len()
        invariant
            i <= conf.accounts.len(),
            forall|k: int| 0 <= k < i ==> !(#[trigger] conf.accounts[k].0@ == packet.user@
                && conf.accounts[k].1.password@ == packet.password@),
        decreases conf.accounts.len() - i,
    {
        if same_text(conf.accounts[i].0.as_str(), packet.user.as_str())
            && same_digest(&conf.accounts[i].1.password, &packet.password) {
            return Some(i);
        }
        i = i + 1;
    }
    None
}

/// Answers a login: accepted exactly when the name and digest match an account.
pub fn login(conf: &SVManage, packet: &LoginPacket) -> (r: LoginResponse)
    ensures
        (r == LoginResponse::Success) == credentials_match(*conf, packet.user@, packet.password@),
{
    match authenticate(conf, packet) {
        Some(_) => LoginResponse::Success,
        None => LoginResponse::WrongCredentials,
    }
}

/// The digest `pw` with bit `bit` of byte `i` flipped.
pub open spec fn flip_bit(pw: Seq<u8>, i: int, bit: u8) -> Seq<u8> {
    pw.update(i, pw[i] ^ (1u8 << bit))
}

/// A password digest that logs in keeps logging in, and flipping any single bit of
/// it makes the login fail.
pub proof fn lemma_login_single_bit(conf: SVManage, user: Seq<char>, pw: Seq<u8>, i: int, bit: u8)
    requires
        conf.well_formed(),
        pw.len() == 32,
        credentials_match(conf, user, pw),
        0 <= i < 32,
        bit < 8,
    ensures
        credentials_match(conf, user, pw),
        !credentials_match(conf, user, flip_bit(pw, i, bit)),
{
    let x = pw[i];
    assert(x ^ (1u8 << bit) != x) by (bit_vector)
        requires bit < 8;
    let k = choose|k: int| 0 <= k < conf.accounts.len() && #[trigger] conf.accounts[k].0@ == user
        && conf.accounts[k].1.password@ == pw;
    if credentials_match(conf, user, flip_bit(pw, i, bit)) {
        let j = choose|j: int| 0 <= j < conf.accounts.len() && #[trigger] conf.accounts[j].0@ == user
            && conf.accounts[j].1.password@ == flip_bit(pw, i, bit);
        if j != k {
            assert(conf.accounts[j].0@ != conf.accounts[k].0@);
        }
        assert(flip_bit(pw, i, bit)[i] != pw[i]);
    }
}

/// What the connection handler does with a command for a known server.
#[derive(Debug, Clone, PartialEq, Eq)]
pub enum Dispatch {
    /// Answer at once, without reaching the server's worker.
    Reply(Response),
    Start,
    Stop,
    Reboot,
    /// Answer with the server's name, path and status.
    Describe,
    /// Hand the command to the server's worker and relay its answer.
    Forward(Command),
}

/// Whether `cmd` is legal for a server in `status`: console text needs a running
/// server, backup and restore an idle one.
pub open spec fn allowed_in(status: Status, cmd: ServerCommand) -> bool {
    match cmd {
        ServerCommand::Console(_) => status == Status::Running,
        ServerCommand::Backup => status == Status::Idle,
        ServerCommand::Restore => status == Status::Idle,
        _ => true,
    }
}

/// How a command for a server in `status` is routed: refused with `InvalidState`
/// where it is not legal, otherwise handled by the connection or forwarded.
pub open spec fn routed(status: Status, cmd: ServerCommand) -> Dispatch {
    if !allowed_in(status, cmd) {
        Dispatch::Reply(Response::InvalidState)
    } else {
        match cmd {
            ServerCommand::Start => Dispatch::Start,
            ServerCommand::Stop => Dispatch::Stop,
            ServerCommand::Reboot => Dispatch::Reboot,
            ServerCommand::Status => Dispatch::Describe,
            ServerCommand::Console(t) => Dispatch::Forward(Command::Console(t)),
            ServerCommand::Backup => Dispatch::Forward(Command::Backup),
            ServerCommand::Restore => Dispatch::Forward(Command::Restore),
            ServerCommand::ListMods(a, b) => Dispatch::Forward(Command::ListMods(a, b)),
            ServerCommand::QueryMod(m) => Dispatch::Forward(Command::QueryMod(m)),
            ServerCommand::InstallMod(p, f) => Dispatch::Forward(Command::InstallMod(p, f)),
            ServerCommand::UninstallMod(m) => Dispatch::Forward(Command::UninstallMod(m)),
            ServerCommand::UpdateMod(p, f) => Dispatch::Forward(Command::UpdateMod(p, f)),
            ServerCommand::GenerateModsZip => Dispatch::Forward(Command::GenerateModsZip),
        }
    }
}

/// Routes a command for a server whose current status is `status`.
pub fn route_server_command(status: Status, cmd: ServerCommand) -> (r: Dispatch)
    ensures
        r == routed(status, cmd),
{
    match cmd {
        ServerCommand::Start => Dispatch::Start,
        ServerCommand::Stop => Dispatch::Stop,
        ServerCommand::Reboot => Dispatch::Reboot,
        ServerCommand::Status => Dispatch::Describe,
        ServerCommand::Console(t) => {
            if status != Status::Running {
                Dispatch::Reply(Response::InvalidState)
            } else {
                Dispatch::Forward(Command::Console(t))
            }
        },
        ServerCommand::Backup => {
            if status != Status::Idle {
                Dispatch::Reply(Response::InvalidState)
            } else {
                Dispatch::Forward(Command::Backup)
            }
        },
        ServerCommand::Restore => {
            if status != Status::Idle {
                Dispatch::Reply(Response::InvalidState)
            } else {
                Dispatch::Forward(Command::Restore)
            }
        },
        ServerCommand::ListMods(a, b) => Dispatch::Forward(Command::ListMods(a, b)),
        ServerCommand::QueryMod(m) => Dispatch::Forward(Command::QueryMod(m)),
        ServerCommand::InstallMod(p, f) => Dispatch::Forward(Command::InstallMod(p, f)),
        ServerCommand::UninstallMod(m) => Dispatch::Forward(Command::UninstallMod(m)),
        ServerCommand::UpdateMod(p, f) => Dispatch::Forward(Command::UpdateMod(p, f)),
        ServerCommand::GenerateModsZip => Dispatch::Forward(Command::GenerateModsZip),
    }
}

/// The first server of the account called `name`.
pub fn find_server(servers: &Vec<ServerStatus>, name: &str) -> (r: Option<usize>)
    ensures
        match r {
            Some(i) => i < servers.len() && servers[i as int].name@ == name@
                && forall|k: int| 0 <= k < i ==> servers[k].name@ != name@,
            None => forall|k: int| 0 <= k < servers.len() ==> servers[k].name@ != name@,
        },
{
    let mut i: usize = 0;
    while i < servers.len()
        invariant
            i <= servers.len(),
            forall|k: int| 0 <= k < i ==> servers[k].name@ != name@,
        decreases servers.len() - i,
    {
        if same_text(servers[i].name.as_str(), name) {
            return Some(i);
        }
        i = i + 1;
    }
    None
}

/// What the connection handler does with the command of a logged-in account.
#[derive(Debug, Clone, PartialEq, Eq)]
pub enum NetRoute {
    /// Reply with every server's name, path and status.
    ListServers,
    /// Drain the account's outbox and reply with it.
    Notifications,
    /// Reply at once.
    Reply(Response),
    /// A command for the server at this index of the account's list.
    Server(usize, Dispatch),
}

/// Routes a logged-in account's command against the current status of its servers.
pub fn route_net_command(servers: &Vec<ServerStatus>, cmd: NetCommand) -> (r: NetRoute)
    ensures
        match cmd {
            NetCommand::ListServers => r == NetRoute::ListServers,
            NetCommand::Notifications => r == NetRoute::Notifications,
            NetCommand::ServerCommand(name, c) => match r {
                NetRoute::Reply(resp) => resp == Response::UnknownServer
                    && forall|k: int| 0 <= k < servers.len() ==> servers[k].name@ != name@,
                NetRoute::Server(i, d) => i < servers.len() && servers[i as int].name@ == name@
                    && (forall|k: int| 0 <= k < i ==> servers[k].name@ != name@)
                    && d == routed(servers[i as int].status, c),
                _ => false,
            },
        },
{
    match cmd {
        NetCommand::ListServers => NetRoute::ListServers,
        NetCommand::Notifications => NetRoute::Notifications,
        NetCommand::ServerCommand(name, c) => match find_server(servers, name.as_str()) {
            None => NetRoute::Reply(Response::UnknownServer),
            Some(i) => NetRoute::Server(i, route_server_command(servers[i].status, c)),
        },
    }
}

/// A copy of one server's name, path and status.
pub fn copy_status(s: &ServerStatus) -> (r: ServerStatus)
    ensures
        r == *s,
{
    ServerStatus { name: s.name.clone(), path: s.path.clone(), status: s.status }
}

/// The reply to a listing request.
pub fn list_servers(servers: &Vec<ServerStatus>) -> (r: Response)
    ensures
        r matches Response::List(v) && v@ == servers@,
{
    let mut out: Vec<ServerStatus> = Vec::new();
    let mut i: usize = 0;
    while i < servers.len()
        invariant
            i <= servers.len(),
            out@ == servers@.subrange(0, i as int),
        decreases servers.len() - i,
    {
        out.push(copy_status(&servers[i]));
        i = i + 1;
        proof { assert(out@ =~= servers@.subrange(0, i as int)); }
    }
    proof { assert(out@ =~= servers@); }
    Response::List(out)
}

} // verus!
