//! An operating-system facade over two servers: one front door that boots
//! both servers and forwards file and process creation to the right one.

use vstd::prelude::*;

verus! {

/// The lifecycle state of a server.
pub enum State {
    New,
    Running,
    Sleeping,
    Restart,
    Zombie,
}

/// What every server can do: say its name, boot, and be killed, with or
/// without a restart.
pub trait Server: Sized {
    /// The server's name.
    spec fn spec_name(&self) -> Seq<char>;

    /// The server's lifecycle state.
    spec fn spec_state(&self) -> State;

    fn get_name(&self) -> (r: &String)
        ensures
            r@ == self.spec_name(),
    ;

    fn boot(&mut self)
        ensures
            final(self).spec_state() is Running,
            final(self).spec_name() == old(self).spec_name(),
    ;

    fn kill(&mut self, restart: bool)
        ensures
            final(self).spec_state() == if restart {
                State::Restart
            } else {
                State::Zombie
            },
            final(self).spec_name() == old(self).spec_name(),
    ;
}

/// The server that owns files.
pub struct FileServer {
    name: String,
    state: State,
}

impl Server for FileServer {
    closed spec fn spec_name(&self) -> Seq<char> {
        self.name@
    }

    closed spec fn spec_state(&self) -> State {
        self.state
    }

    fn get_name(&self) -> (r: &String) {
        &self.name
    }

    fn boot(&mut self) {
        self.state = State::Running;
    }

    fn kill(&mut self, restart: bool) {
        match restart {
            true => self.state = State::Restart,
            false => self.state = State::Zombie,
        }
    }
}

/// The wording of the file-creation report.
pub open spec fn create_file_msg(user: Seq<char>, name: Seq<char>, permissions: Seq<char>) -> Seq<
    char,
> {
    "trying to create the file '"@ + name + "' for user '"@ + user + "' with permissions "@
        + permissions
}

impl FileServer {
    /// A new, not yet booted file server.
    pub fn new() -> (s: FileServer)
        ensures
            s.spec_name() == "FileServer"@,
            s.spec_state() is New,
    {
        FileServer { name: String::from_str("FileServer"), state: State::New }
    }

    /// Reports the file-creation attempt it was asked for.
    pub fn create_file(&self, user: String, name: String, permissions: String) -> (r: String)
        ensures
            r@ == create_file_msg(user@, name@, permissions@),
    {
        String::from_str("trying to create the file '").concat(name.as_str()).concat(
            "' for user '",
        ).concat(user.as_str()).concat("' with permissions ").concat(permissions.as_str())
    }
}

/// The server that owns processes.
pub struct ProcessServer {
    name: String,
    state: State,
}

impl Server for ProcessServer {
    closed spec fn spec_name(&self) -> Seq<char> {
        self.name@
    }

    closed spec fn spec_state(&self) -> State {
        self.state
    }

    fn get_name(&self) -> (r: &String) {
        &self.name
    }

    fn boot(&mut self) {
        self.state = State::Running;
    }

    fn kill(&mut self, restart: bool) {
        match restart {
            true => self.state = State::Restart,
            false => self.state = State::Zombie,
        }
    }
}

/// The wording of the process-creation report.
pub open spec fn create_process_msg(user: Seq<char>, name: Seq<char>) -> Seq<char> {
    "trying to create the process '"@ + name + "' for user '"@ + user + "'"@
}

impl ProcessServer {
    /// A new, not yet booted process server.
    pub fn new() -> (s: ProcessServer)
        ensures
            s.spec_name() == "ProcessServer"@,
            s.spec_state() is New,
    {
        ProcessServer { name: String::from_str("ProcessServer"), state: State::New }
    }

    /// Reports the process-creation attempt it was asked for.
    pub fn create_process(&self, user: String, name: String) -> (r: String)
        ensures
            r@ == create_process_msg(user@, name@),
    {
        String::from_str("trying to create the process '").concat(name.as_str()).concat(
            "' for user '",
        ).concat(user.as_str()).concat("'")
    }
}

/// The facade: one front door over the file and process servers.
pub struct OperatingSystem {
    fs: FileServer,
    ps: ProcessServer,
}

impl OperatingSystem {
    /// The state of the file server behind the facade.
    pub closed spec fn fs_state(&self) -> State {
        self.fs.spec_state()
    }

    /// The state of the process server behind the facade.
    pub closed spec fn ps_state(&self) -> State {
        self.ps.spec_state()
    }

    /// An operating system whose two servers are new and not yet booted.
    pub fn new() -> (os: OperatingSystem)
        ensures
            os.fs_state() is New,
            os.ps_state() is New,
    {
        OperatingSystem { fs: FileServer::new(), ps: ProcessServer::new() }
    }

    /// Boots both servers.
    pub fn start(&mut self)
        ensures
            final(self).fs_state() is Running,
            final(self).ps_state() is Running,
    {
        self.fs.boot();
        self.ps.boot();
    }

    /// Forwards file creation to the file server and returns its report.
    pub fn create_file(&self, user: String, name: String, permissions: String) -> (r: String)
        ensures
            r@ == create_file_msg(user@, name@, permissions@),
    {
        self.fs.create_file(user, name, permissions)
    }

    /// Forwards process creation to the process server and returns its
    /// report.
    pub fn create_process(&self, user: String, name: String) -> (r: String)
        ensures
            r@ == create_process_msg(user@, name@),
    {
        self.ps.create_process(user, name)
    }
}

} // verus!
