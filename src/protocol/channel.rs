use crate::protocol::command::{encoding, CommandView, ShellCommand};
use vstd::prelude::*;
use vstd::string::*;

verus! {

/// The descriptor that the wrapper script opens for this process.
pub const PARENT_FD: i32 = 3;

/// The OS error code of a write to a descriptor that is not open.
pub const BAD_DESCRIPTOR: i32 = 9;

/// Why a command did not reach the parent shell.
#[derive(Debug, Clone, Copy, PartialEq, Eq, Structural)]
pub enum TransportError {
    /// The command could not be written as text.
    Encode,
    /// The write failed, with the OS error code where there was one.
    Io { os_code: Option<i32> },
}

/// How a write of one line to the descriptor went.
#[derive(Debug, Clone, Copy, PartialEq, Eq, Structural)]
pub enum WriteOutcome {
    Written,
    Failed { os_code: Option<i32> },
}

/// What a write outcome means for the caller: a descriptor that is not open
/// means that no parent listens, which is no error; every other failure is one.
pub open spec fn settled(outcome: WriteOutcome) -> Result<(), TransportError> {
    match outcome {
        WriteOutcome::Written => Ok(()),
        WriteOutcome::Failed { os_code } => if os_code == Some(BAD_DESCRIPTOR) {
            Ok(())
        } else {
            Err(TransportError::Io { os_code })
        },
    }
}

/// The line that carries a command: its wire form and a newline.
pub open spec fn command_line(c: CommandView) -> Seq<char> {
    encoding(c) + seq!['\n']
}

/// Hands commands to the parent shell through an inherited descriptor. The
/// channel never opens or closes the descriptor: it queues the lines, and the
/// caller writes them and settles each write with [`EnvironmentChannel::settle`].
pub struct EnvironmentChannel {
    fd: i32,
    pending: Vec<String>,
}

impl EnvironmentChannel {
    /// The descriptor that lines are written to.
    pub closed spec fn spec_fd(&self) -> i32 {
        self.fd
    }

    /// The lines queued and not yet taken, oldest first.
    pub closed spec fn spec_pending(&self) -> Seq<Seq<char>> {
        self.pending@.map_values(|l: String| l@)
    }

    /// A channel on descriptor `fd`, with nothing queued.
    pub fn new(fd: i32) -> (r: Self)
        ensures
            r.spec_fd() == fd,
            r.spec_pending() == Seq::<Seq<char>>::empty(),
    {
        let r = EnvironmentChannel { fd, pending: Vec::new() };
        assert(r.spec_pending() =~= Seq::<Seq<char>>::empty());
        r
    }

    /// The descriptor that lines are written to.
    pub fn fd(&self) -> (r: i32)
        ensures
            r == self.spec_fd(),
    {
        self.fd
    }

    /// Queues the line of `command`.
    pub fn send(&mut self, command: &ShellCommand) -> (r: Result<(), TransportError>)
        ensures
            r is Ok,
            final(self).spec_fd() == old(self).spec_fd(),
            final(self).spec_pending() == old(self).spec_pending().push(command_line(command@)),
    {
        let mut line = match command.encode() {
            Ok(t) => t,
            Err(_) => return Err(TransportError::Encode),
        };
        proof {
            reveal_strlit("\n");
        }
        line.append("\n");
        assert(line@ =~= command_line(command@));
        self.pending.push(line);
        assert(self.spec_pending() =~= old(self).spec_pending().push(command_line(command@)));
        Ok(())
    }

    /// Queues a command that sets `key` to `value`.
    pub fn set_env(&mut self, key: &str, value: &str) -> (r: Result<(), TransportError>)
        requires
            key@.len() > 0,
        ensures
            r is Ok,
            final(self).spec_fd() == old(self).spec_fd(),
            final(self).spec_pending() == old(self).spec_pending().push(
                command_line(CommandView::SetEnv { key: key@, value: value@ }),
            ),
    {
        self.send(&ShellCommand::set_env(key, value))
    }

    /// Queues a command that removes `key`.
    pub fn unset_env(&mut self, key: &str) -> (r: Result<(), TransportError>)
        requires
            key@.len() > 0,
        ensures
            r is Ok,
            final(self).spec_fd() == old(self).spec_fd(),
            final(self).spec_pending() == old(self).spec_pending().push(
                command_line(CommandView::UnsetEnv { key: key@ }),
            ),
    {
        self.send(&ShellCommand::unset_env(key))
    }

    /// Hands out the queued lines, oldest first, and empties the queue.
    pub fn take_pending(&mut self) -> (r: Vec<String>)
        ensures
            final(self).spec_fd() == old(self).spec_fd(),
            r@.map_values(|l: String| l@) == old(self).spec_pending(),
            final(self).spec_pending() == Seq::<Seq<char>>::empty(),
    {
        let mut r: Vec<String> = Vec::new();
        std::mem::swap(&mut r, &mut self.pending);
        assert(self.spec_pending() =~= Seq::<Seq<char>>::empty());
        r
    }

    /// The result of one write: absorbs the bad-descriptor failure, passes on the rest.
    pub fn settle(&self, outcome: WriteOutcome) -> (r: Result<(), TransportError>)
        ensures
            r == settled(outcome),
    {
        match outcome {
            WriteOutcome::Written => Ok(()),
            WriteOutcome::Failed { os_code } => {
                if os_code == Some(BAD_DESCRIPTOR) {
                    Ok(())
                } else {
                    Err(TransportError::Io { os_code })
                }
            },
        }
    }
}

impl Default for EnvironmentChannel {
    /// The channel on the wrapper's descriptor.
    fn default() -> (r: Self)
        ensures
            r.spec_fd() == PARENT_FD,
            r.spec_pending() == Seq::<Seq<char>>::empty(),
    {
        EnvironmentChannel::new(PARENT_FD)
    }
}

/// Whatever command was queued, a write that finds no parent listening is a success.
pub proof fn lemma_no_listener_is_success()
    ensures
        settled(WriteOutcome::Failed { os_code: Some(BAD_DESCRIPTOR) }) == Ok::<(), TransportError>(()),
{
}

} // verus!
