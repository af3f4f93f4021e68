use vstd::prelude::*;
use crate::mods::ModInfo;
use crate::notify::Notification;
use crate::status::Status;

verus! {

/// A request sent over the wire that expects a typed response.
pub trait Packet {
    type Response: PacketResponse;
}

/// A response sent back over the wire.
pub trait PacketResponse {}

/// Commands of the interactive client.
#[derive(Debug, Clone, PartialEq, Eq, Structural)]
pub enum Command {
    Notifications,
    ListServers,
    Start,
    Quit,
    Status,
}

/// The single command a logged-in connection carries.
#[derive(Debug, Clone, PartialEq, Eq)]
pub enum NetCommand {
    ListServers,
    ServerCommand(String, ServerCommand),
    Notifications,
}

/// What can be asked of one named server.
#[derive(Debug, Clone, PartialEq, Eq)]
pub enum ServerCommand {
    Start,
    Stop,
    Status,
    Reboot,
    Console(String),
    Backup,
    Restore,
    ListMods(u64, u64),
    QueryMod(String),
    InstallMod(String, String),
    UninstallMod(String),
    UpdateMod(String, String),
    GenerateModsZip,
}

impl Packet for NetCommand {
    type Response = Response;
}

/// Name, configured path and current status of one server.
#[derive(Debug, Clone, PartialEq, Eq)]
pub struct ServerStatus {
    pub name: String,
    pub path: String,
    pub status: Status,
}

/// The answer to exactly one command or protocol request.
#[derive(Debug, Clone, PartialEq, Eq)]
pub enum Response {
    Success,
    Failure,
    UnknownServer,
    InvalidState,
    NoBackup,
    Status(ServerStatus),
    List(Vec<ServerStatus>),
    CommandOutput(String),
    Notifications(Vec<Notification>),
    ModConflict,
    NoSuchMod,
    Mods(Vec<ModInfo>, bool),
    Mod(ModInfo),
}

impl PacketResponse for Response {}

/// A bare password digest.
pub struct PwMsg {
    pub hash: [u8; 32],
}

/// The first frame of a connection: who logs in, and the SHA-256 digest of the password.
#[derive(Debug, Clone, PartialEq, Eq)]
pub struct LoginPacket {
    pub user: String,
    pub password: [u8; 32],
}

impl Packet for LoginPacket {
    type Response = LoginResponse;
}

#[derive(Debug, Clone, Copy, PartialEq, Eq, Structural)]
pub enum LoginResponse {
    Success,
    WrongCredentials,
}

impl PacketResponse for LoginResponse {}

} // verus!
