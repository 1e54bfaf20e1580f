//! One connection after another: which step follows which event.
//!
//! The server itself touches no socket and starts no process. Whoever drives
//! it performs each `Action` and reports what came of it as the next `Event`.

use vstd::prelude::*;
use vstd::string::StringExecFns;
use crate::command::{docker_command_text, Docker};
use crate::protocol::{instruction, Instruction, InstructionView};
use crate::session::{fresh_session_name, is_session_name};
use crate::text::{as_strs, decimal, nonempty, nonempty_text, push_decimal, split, split_text, texts};

verus! {

/// The socket on which the server listens unless told otherwise.
pub const SOCKET_PATH: &'static str = "/tmp/dockerdoomd.socket";

/// The most that is read from a connection.
pub const READ_LIMIT: usize = 255;

/// Where the server stands.
#[derive(Clone, Copy, Debug, PartialEq, Eq, Structural)]
pub enum Phase {
    /// No connection is open; the next one is awaited.
    Accepting,
    /// A connection is open and its instruction is awaited.
    Reading,
    /// The backend has been asked for its resources.
    Listing,
    /// The backend has been asked to destroy a resource.
    Killing,
    /// The listener failed; nothing more is served.
    Stopped,
}

/// How a connection ended.
#[derive(Clone, Copy, Debug, PartialEq, Eq, Structural)]
pub enum Outcome {
    /// The backend listed its resources and they were sent.
    Listed,
    /// The backend could not be run or exited with an error; nothing was listed.
    ListingFailed,
    /// The backend destroyed the resource.
    Destroyed,
    /// The backend could not be run or exited with an error.
    DestroyFailed,
    /// The instruction was empty or its verb unknown.
    Rejected,
    /// Nothing could be read from the connection.
    Unreadable,
    /// An event was reported that the phase does not expect.
    OutOfTurn,
}

/// What happened outside since the last action.
#[derive(Debug, PartialEq, Eq)]
pub enum Event {
    /// A client connected.
    Connected,
    /// The listener could not accept.
    AcceptFailed,
    /// The client sent this text.
    Received(String),
    /// The read failed or gave nothing.
    ReadFailed,
    /// The command ran to its end, with this exit code and standard output.
    Exited { code: Option<i32>, stdout: String },
    /// The command could not be started.
    SpawnFailed,
}

/// An event as contracts speak of it.
pub enum EventView {
    Connected,
    AcceptFailed,
    Received(Seq<char>),
    ReadFailed,
    Exited { code: Option<i32>, stdout: Seq<char> },
    SpawnFailed,
}

impl View for Event {
    type V = EventView;

    open spec fn view(&self) -> EventView {
        match self {
            Event::Connected => EventView::Connected,
            Event::AcceptFailed => EventView::AcceptFailed,
            Event::Received(message) => EventView::Received(message@),
            Event::ReadFailed => EventView::ReadFailed,
            Event::Exited { code, stdout } => EventView::Exited { code: *code, stdout: stdout@ },
            Event::SpawnFailed => EventView::SpawnFailed,
        }
    }
}

impl Event {
    /// What a read gave: the text, or none where it failed. A read that gave
    /// no text counts as failed.
    pub fn received(read: Option<String>) -> (event: Event)
        ensures
            event@ == (match read {
                Some(text) => if text@.len() > 0 {
                    EventView::Received(text@)
                } else {
                    EventView::ReadFailed
                },
                None => EventView::ReadFailed,
            }),
    {
        match read {
            Some(text) => {
                if text.as_str().is_empty() {
                    Event::ReadFailed
                } else {
                    Event::Received(text)
                }
            },
            None => Event::ReadFailed,
        }
    }
}

/// What is to be done outside next.
#[derive(Debug, PartialEq, Eq)]
pub enum Action {
    /// Read once from the connection, `READ_LIMIT` bytes at most.
    Read,
    /// Run this command in a shell, wait for it, and capture its output.
    Run(String),
    /// Write this text to the connection, close its write side, and let the
    /// connection go.
    Reply(String, Outcome),
    /// Let the connection go without a reply.
    Close(Outcome),
    /// Give up serving.
    Stop,
}

/// An action as contracts speak of it.
pub enum ActionView {
    Read,
    Run(Seq<char>),
    Reply(Seq<char>, Outcome),
    Close(Outcome),
    Stop,
}

impl View for Action {
    type V = ActionView;

    open spec fn view(&self) -> ActionView {
        match self {
            Action::Read => ActionView::Read,
            Action::Run(command) => ActionView::Run(command@),
            Action::Reply(text, outcome) => ActionView::Reply(text@, *outcome),
            Action::Close(outcome) => ActionView::Close(*outcome),
            Action::Stop => ActionView::Stop,
        }
    }
}

/// The command that lists the backend's resources.
pub open spec fn state_list_command_text(base: Seq<char>) -> Seq<char> {
    base + " state list"@
}

/// The command that destroys the resource `name`.
pub open spec fn destroy_command_text(base: Seq<char>, name: Seq<char>) -> Seq<char> {
    base + " destroy -auto-approve -target "@ + name
}

/// The resources in what the listing command printed: its non-empty lines in
/// order, and none where it did not exit with 0.
pub open spec fn listing(code: Option<i32>, stdout: Seq<char>) -> Seq<Seq<char>> {
    if code == Some(0i32) {
        nonempty(split(stdout, '\n'))
    } else {
        Seq::<Seq<char>>::empty()
    }
}

/// The reply to `list`: each resource followed by a line feed.
pub open spec fn reply_text(resources: Seq<Seq<char>>) -> Seq<char>
    decreases resources.len(),
{
    if resources.len() == 0 {
        Seq::<char>::empty()
    } else {
        reply_text(resources.drop_last()) + resources.last() + seq!['\n']
    }
}

/// The arguments with which docker runs the display container.
pub open spec fn doom_args(container_name: Seq<char>, port: nat, socket: Seq<char>) -> Seq<Seq<char>> {
    seq![
        "run"@,
        "--rm=true"@,
        "--name=\""@ + container_name + "\""@,
        "-p "@ + decimal(port) + ":5900"@,
        "-v "@ + socket + ":/dockerdoom.socket"@,
        "doomvnc"@,
        "x11vnc"@,
        "-geometry 1280x960"@,
        "-forever"@,
        "-usepw"@,
        "-create"@,
    ]
}

/// What an instruction asks of the backend, or the rejection of what is none.
pub open spec fn dispatch(base: Seq<char>, message: Seq<char>) -> ActionView {
    match instruction(message) {
        Some(InstructionView::List) => ActionView::Run(state_list_command_text(base)),
        Some(InstructionView::Kill(name)) => ActionView::Run(destroy_command_text(base, name)),
        None => ActionView::Close(Outcome::Rejected),
    }
}

/// The phase in which the answer to an instruction is awaited.
pub open spec fn phase_after(message: Seq<char>) -> Phase {
    match instruction(message) {
        Some(InstructionView::List) => Phase::Listing,
        Some(InstructionView::Kill(_)) => Phase::Killing,
        None => Phase::Accepting,
    }
}

/// How a listing ended that exited with `code`.
pub open spec fn listing_outcome(code: Option<i32>) -> Outcome {
    if code == Some(0i32) {
        Outcome::Listed
    } else {
        Outcome::ListingFailed
    }
}

/// How a destruction ended that exited with `code`.
pub open spec fn destroy_outcome(code: Option<i32>) -> Outcome {
    if code == Some(0i32) {
        Outcome::Destroyed
    } else {
        Outcome::DestroyFailed
    }
}

/// The phase and the action that follow `event` in `phase`, for a server whose
/// terraform commands start with `base`.
pub open spec fn step(phase: Phase, base: Seq<char>, event: EventView) -> (Phase, ActionView) {
    match phase {
        Phase::Stopped => (Phase::Stopped, ActionView::Stop),
        Phase::Accepting => match event {
            EventView::Connected => (Phase::Reading, ActionView::Read),
            EventView::AcceptFailed => (Phase::Stopped, ActionView::Stop),
            _ => (Phase::Accepting, ActionView::Close(Outcome::OutOfTurn)),
        },
        Phase::Reading => match event {
            EventView::Received(message) => (phase_after(message), dispatch(base, message)),
            EventView::ReadFailed => (Phase::Accepting, ActionView::Close(Outcome::Unreadable)),
            _ => (Phase::Accepting, ActionView::Close(Outcome::OutOfTurn)),
        },
        Phase::Listing => match event {
            EventView::Exited { code, stdout } => (
                Phase::Accepting,
                ActionView::Reply(reply_text(listing(code, stdout)), listing_outcome(code)),
            ),
            EventView::SpawnFailed => (
                Phase::Accepting,
                ActionView::Reply(Seq::<char>::empty(), Outcome::ListingFailed),
            ),
            _ => (Phase::Accepting, ActionView::Close(Outcome::OutOfTurn)),
        },
        Phase::Killing => match event {
            EventView::Exited { code, .. } => (
                Phase::Accepting,
                ActionView::Close(destroy_outcome(code)),
            ),
            EventView::SpawnFailed => (Phase::Accepting, ActionView::Close(Outcome::DestroyFailed)),
            _ => (Phase::Accepting, ActionView::Close(Outcome::OutOfTurn)),
        },
    }
}

/// The command exited with 0.
pub fn succeeded(code: Option<i32>) -> (ok: bool)
    ensures
        ok == (code == Some(0i32)),
{
    match code {
        Some(status) => status == 0,
        None => false,
    }
}

/// The server: the command that its terraform calls start with, the socket it
/// listens on, the name of its display container, and where it stands.
#[derive(Debug)]
pub struct TfDoom {
    base: String,
    socket: String,
    container_name: String,
    phase: Phase,
}

/// A server as contracts speak of it.
pub struct TfDoomView {
    pub base: Seq<char>,
    pub socket: Seq<char>,
    pub container_name: Seq<char>,
    pub phase: Phase,
}

impl View for TfDoom {
    type V = TfDoomView;

    closed spec fn view(&self) -> TfDoomView {
        TfDoomView {
            base: self.base@,
            socket: self.socket@,
            container_name: self.container_name@,
            phase: self.phase,
        }
    }
}

impl TfDoom {
    /// A server that awaits its first connection, with a container name drawn
    /// at random.
    pub fn new(base: &str, socket_path: &str) -> (doom: TfDoom)
        ensures
            doom@.base == base@,
            doom@.socket == socket_path@,
            doom@.phase == Phase::Accepting,
            is_session_name(doom@.container_name),
    {
        TfDoom::with_container_name(base, socket_path, fresh_session_name())
    }

    /// A server that awaits its first connection, with the container name given.
    pub fn with_container_name(
        base: &str,
        socket_path: &str,
        container_name: String,
    ) -> (doom: TfDoom)
        ensures
            doom@ == (TfDoomView {
                base: base@,
                socket: socket_path@,
                container_name: container_name@,
                phase: Phase::Accepting,
            }),
    {
        TfDoom {
            base: String::from_str(base),
            socket: String::from_str(socket_path),
            container_name,
            phase: Phase::Accepting,
        }
    }

    /// The command that its terraform calls start with.
    pub fn base(&self) -> (base: &str)
        ensures
            base@ == self@.base,
    {
        self.base.as_str()
    }

    /// The socket it listens on.
    pub fn socket(&self) -> (socket: &str)
        ensures
            socket@ == self@.socket,
    {
        self.socket.as_str()
    }

    /// The name of its display container.
    pub fn container_name(&self) -> (name: &str)
        ensures
            name@ == self@.container_name,
    {
        self.container_name.as_str()
    }

    /// Where it stands.
    pub fn phase(&self) -> (phase: Phase)
        ensures
            phase == self@.phase,
    {
        self.phase
    }

    /// The command that lists the backend's resources.
    pub fn state_list_command(&self) -> (command: String)
        ensures
            command@ == state_list_command_text(self@.base),
    {
        let mut command = self.base.clone();
        command.append(" state list");
        command
    }

    /// The resources in what the listing command printed.
    pub fn tf_state_list(&self, code: Option<i32>, stdout: &str) -> (resources: Vec<String>)
        ensures
            texts(resources@) == listing(code, stdout@),
    {
        if succeeded(code) {
            nonempty_text(split_text(stdout, '\n'))
        } else {
            Vec::new()
        }
    }

    /// The command that destroys the resource `name`.
    pub fn tf_destroy(&self, name: &str) -> (command: String)
        ensures
            command@ == destroy_command_text(self@.base, name@),
    {
        let mut command = self.base.clone();
        command.append(" destroy -auto-approve -target ");
        command.append(name);
        command
    }

    /// The command that runs the display container, serving on `port`.
    pub fn run_doom(&self, port: usize) -> (command: String)
        ensures
            command@ == docker_command_text(
                doom_args(self@.container_name, port as nat, self@.socket),
            ),
    {
        let mut name = String::from_str("--name=\"");
        name.append(self.container_name.as_str());
        name.append("\"");
        let mut publish = String::from_str("-p ");
        push_decimal(&mut publish, port);
        publish.append(":5900");
        let mut volume = String::from_str("-v ");
        volume.append(self.socket.as_str());
        volume.append(":/dockerdoom.socket");
        let mut args: Vec<String> = Vec::new();
        args.push(String::from_str("run"));
        args.push(String::from_str("--rm=true"));
        args.push(name);
        args.push(publish);
        args.push(volume);
        args.push(String::from_str("doomvnc"));
        args.push(String::from_str("x11vnc"));
        args.push(String::from_str("-geometry 1280x960"));
        args.push(String::from_str("-forever"));
        args.push(String::from_str("-usepw"));
        args.push(String::from_str("-create"));
        assert(texts(args@) == doom_args(self@.container_name, port as nat, self@.socket));
        let refs = as_strs(&args);
        Docker::command(refs.as_slice())
    }

    /// The reply to `list`, from what the listing command printed.
    pub fn doom_list(&self, code: Option<i32>, stdout: &str) -> (reply: String)
        ensures
            reply@ == reply_text(listing(code, stdout@)),
    {
        let resources = self.tf_state_list(code, stdout);
        let mut reply = String::new();
        let mut i: usize = 0;
        while i < resources.len()
            invariant
                i <= resources.len(),
                reply@ == reply_text(texts(resources@).take(i as int)),
            decreases resources.len() - i,
        {
            proof {
                let next = texts(resources@).take(i + 1);
                assert(next.drop_last() == texts(resources@).take(i as int));
            }
            reply.append(resources[i].as_str());
            reply.push('\n');
            i += 1;
        }
        proof {
            assert(texts(resources@).take(resources@.len() as int) == texts(resources@));
        }
        reply
    }

    /// Takes what a client sent: says what its instruction asks for, and goes
    /// on to await the answer.
    pub fn handle_client(&mut self, message: &str) -> (action: Action)
        ensures
            action@ == dispatch(old(self)@.base, message@),
            final(self)@.phase == phase_after(message@),
            final(self)@.base == old(self)@.base,
            final(self)@.socket == old(self)@.socket,
            final(self)@.container_name == old(self)@.container_name,
    {
        match Instruction::parse(message) {
            Some(Instruction::List) => {
                self.phase = Phase::Listing;
                Action::Run(self.state_list_command())
            },
            Some(Instruction::Kill(name)) => {
                self.phase = Phase::Killing;
                Action::Run(self.tf_destroy(name.as_str()))
            },
            None => {
                self.phase = Phase::Accepting;
                Action::Close(Outcome::Rejected)
            },
        }
    }

    /// Takes the next event and says what is to be done.
    pub fn send_resources(&mut self, event: Event) -> (action: Action)
        ensures
            (final(self)@.phase, action@) == step(old(self)@.phase, old(self)@.base, event@),
            final(self)@.base == old(self)@.base,
            final(self)@.socket == old(self)@.socket,
            final(self)@.container_name == old(self)@.container_name,
    {
        match self.phase {
            Phase::Stopped => Action::Stop,
            Phase::Accepting => match event {
                Event::Connected => {
                    self.phase = Phase::Reading;
                    Action::Read
                },
                Event::AcceptFailed => {
                    self.phase = Phase::Stopped;
                    Action::Stop
                },
                _ => Action::Close(Outcome::OutOfTurn),
            },
            Phase::Reading => match event {
                Event::Received(message) => self.handle_client(message.as_str()),
                Event::ReadFailed => {
                    self.phase = Phase::Accepting;
                    Action::Close(Outcome::Unreadable)
                },
                _ => {
                    self.phase = Phase::Accepting;
                    Action::Close(Outcome::OutOfTurn)
                },
            },
            Phase::Listing => {
                self.phase = Phase::Accepting;
                match event {
                    Event::Exited { code, stdout } => {
                        let outcome = if succeeded(code) {
                            Outcome::Listed
                        } else {
                            Outcome::ListingFailed
                        };
                        Action::Reply(self.doom_list(code, stdout.as_str()), outcome)
                    },
                    Event::SpawnFailed => Action::Reply(String::new(), Outcome::ListingFailed),
                    _ => Action::Close(Outcome::OutOfTurn),
                }
            },
            Phase::Killing => {
                self.phase = Phase::Accepting;
                match event {
                    Event::Exited { code, .. } => {
                        if succeeded(code) {
                            Action::Close(Outcome::Destroyed)
                        } else {
                            Action::Close(Outcome::DestroyFailed)
                        }
                    },
                    Event::SpawnFailed => Action::Close(Outcome::DestroyFailed),
                    _ => Action::Close(Outcome::OutOfTurn),
                }
            },
        }
    }
}

} // verus!
