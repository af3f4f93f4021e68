use vstd::prelude::*;
use crate::notify::Notification;
use crate::text::same_text;

verus! {

/// Persisted settings of one managed server.
#[derive(Debug, Clone)]
pub struct ServerConf {
    pub running: bool,
    pub path: String,
}

impl Default for ServerConf {
    fn default() -> (r: ServerConf)
        ensures
            !r.running,
            r.path@ == Seq::<char>::empty(),
    {
        ServerConf { running: false, path: String::new() }
    }
}

/// Notifications kept across restarts.
#[derive(Debug, Clone)]
pub struct Cache {
    pub notifications: Vec<Notification>,
}

/// One account: its password digest and its servers by name.
#[derive(Debug, Clone)]
pub struct AccountData {
    pub cache: Cache,
    pub password: [u8; 32],
    pub servers: Vec<(String, ServerConf)>,
}

/// The whole persisted configuration: the listening port and the accounts by name.
#[derive(Debug, Clone)]
pub struct SVManage {
    pub port: u16,
    pub accounts: Vec<(String, AccountData)>,
}

/// `after` is `before` with the `running` flag of server `server` set to `running`;
/// names, paths and everything else stay as they were.
pub open spec fn servers_with_running(before: Seq<(String, ServerConf)>, after: Seq<(String, ServerConf)>, server: Seq<char>, running: bool) -> bool {
    &&& after.len() == before.len()
    &&& forall|j: int| 0 <= j < before.len() ==> {
        &&& (#[trigger] after[j]).0 == before[j].0
        &&& after[j].1.path == before[j].1.path
        &&& after[j].1.running == (if before[j].0@ == server { running } else { before[j].1.running })
    }
}

fn set_running_in(servers: &mut Vec<(String, ServerConf)>, server: &str, running: bool)
    ensures
        servers_with_running(old(servers)@, final(servers)@, server@, running),
{
    let ghost start = servers@;
    let mut j: usize = 0;
    while j < servers.len()
        invariant
            servers@.len() == start.len(),
            j <= servers.len(),
            forall|k: int| 0 <= k < j ==> {
                &&& (#[trigger] servers@[k]).0 == start[k].0
                &&& servers@[k].1.path == start[k].1.path
                &&& servers@[k].1.running == (if start[k].0@ == server@ { running } else { start[k].1.running })
            },
            forall|k: int| j <= k < servers.len() ==> #[trigger] servers@[k] == start[k],
        decreases servers.len() - j,
    {
        if same_text(servers[j].0.as_str(), server) {
            let name = servers[j].0.clone();
            let path = servers[j].1.path.clone();
            servers.set(j, (name, ServerConf { running, path }));
        }
        j = j + 1;
    }
}

impl SVManage {
    /// Records whether a server should be running, as start and stop requests do.
    pub fn set_running(&mut self, account: &str, server: &str, running: bool)
        ensures
            final(self).port == old(self).port,
            final(self).accounts.len() == old(self).accounts.len(),
            forall|i: int| 0 <= i < old(self).accounts.len() ==> {
                &&& (#[trigger] final(self).accounts[i]).0 == old(self).accounts[i].0
                &&& final(self).accounts[i].1.password == old(self).accounts[i].1.password
                &&& final(self).accounts[i].1.cache == old(self).accounts[i].1.cache
                &&& if old(self).accounts[i].0@ == account@ {
                    servers_with_running(old(self).accounts[i].1.servers@, final(self).accounts[i].1.servers@, server@, running)
                } else {
                    final(self).accounts[i] == old(self).accounts[i]
                }
            },
    {
        let ghost start = self.accounts@;
        let ghost port = self.port;
        let mut i: usize = 0;
        while i < self.accounts.len()
            invariant
                self.port == port,
                port == old(self).port,
                start == old(self).accounts@,
                self.accounts@.len() == start.len(),
                i <= self.accounts.len(),
                forall|k: int| 0 <= k < i ==> {
                    &&& (#[trigger] self.accounts@[k]).0 == start[k].0
                    &&& self.accounts@[k].1.password == start[k].1.password
                    &&& self.accounts@[k].1.cache == start[k].1.cache
                    &&& if start[k].0@ == account@ {
                        servers_with_running(start[k].1.servers@, self.accounts@[k].1.servers@, server@, running)
                    } else {
                        self.accounts@[k] == start[k]
                    }
                },
                forall|k: int| i <= k < self.accounts.len() ==> #[trigger] self.accounts@[k] == start[k],
            decreases self.accounts.len() - i,
        {
            if same_text(self.accounts[i].0.as_str(), account) {
                let (name, mut data) = self.accounts.remove(i);
                set_running_in(&mut data.servers, server, running);
                self.accounts.insert(i, (name, data));
            }
            i = i + 1;
        }
    }


    /// Account names are unique.
    pub open spec fn well_formed(&self) -> bool {
        forall|i: int, j: int|
            0 <= i < self.accounts.len() && 0 <= j < self.accounts.len() && i != j
                ==> #[trigger] self.accounts[i].0@ != #[trigger] self.accounts[j].0@
    }
}

} // verus!
