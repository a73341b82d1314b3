//! Process sessions and the exec-status protocol.

use vstd::prelude::*;
use vstd::string::*;
use crate::text::{
    decimal, decimal_text, parse_i32, same, signed_value, within_i32, written_number_is_read_back,
};
use crate::uapi::bytes::{as_signed, read_i32, u32_at, with_u32, write_u32};
use crate::uapi::{invalid_input, says, Error, ErrorKind};

verus! {

/// Result of creating a background copy of a single-threaded process.
#[derive(Clone, Copy, Debug, PartialEq, Eq, Structural)]
pub enum Fork {
    Parent { child: Pid },
    Child,
}

/// A positive process identifier.
#[derive(Clone, Copy, Debug, PartialEq, Eq, Structural)]
pub struct Pid(i32);

impl Pid {
    /// The identifier is positive.
    #[verifier::type_invariant]
    pub closed spec fn positive(self) -> bool {
        self.0 > 0
    }

    /// The number.
    pub closed spec fn number(self) -> i32 {
        self.0
    }

    /// A positive number as an identifier.
    pub fn new(raw: i32) -> (result: Option<Self>)
        ensures
            match result {
                Some(pid) => raw > 0 && pid.number() == raw,
                None => raw <= 0,
            },
    {
        if raw > 0 {
            Some(Pid(raw))
        } else {
            None
        }
    }

    /// The number, which is positive.
    pub fn get(self) -> (result: i32)
        ensures
            result == self.number(),
            result > 0,
    {
        proof {
            use_type_invariant(self);
        }
        self.0
    }
}

/// What a fork returned: nothing for a failure, which is a negative number.
pub fn fork_result(raw: i32) -> (result: Option<Fork>)
    ensures
        match result {
            None => raw < 0,
            Some(Fork::Child) => raw == 0,
            Some(Fork::Parent { child }) => raw > 0 && child.number() == raw,
        },
{
    if raw < 0 {
        None
    } else {
        match Pid::new(raw) {
            Some(child) => Some(Fork::Parent { child }),
            None => Some(Fork::Child),
        }
    }
}

/// Signals used by process supervisors.
#[derive(Clone, Copy, Debug, PartialEq, Eq, Structural)]
pub enum Signal {
    Kill,
    Terminate,
}

impl Signal {
    /// The signal number.
    pub fn raw(self) -> (result: i32)
        ensures
            result == (if self == Signal::Kill {
                9int
            } else {
                15int
            }),
    {
        match self {
            Signal::Kill => 9,
            Signal::Terminate => 15,
        }
    }
}

/// Standard input and output of a supervised child; its diagnostics go to the
/// console.
#[derive(Clone, Copy, Debug, PartialEq, Eq, Structural)]
pub enum SessionIo {
    /// Null input and output.
    Background,
    /// Piped input and output.
    Piped,
}

/// A command that can only be launched through the session trampoline.
pub struct SessionCommand {
    pub program: String,
    pub arguments: Vec<String>,
    pub io: SessionIo,
}

/// The views of a list of arguments.
pub open spec fn argument_views(arguments: Seq<String>) -> Seq<Seq<char>> {
    Seq::new(arguments.len(), |i: int| arguments[i]@)
}

/// The trampoline's arguments for a command.
pub open spec fn launch_list(
    parent: nat,
    program: Seq<char>,
    arguments: Seq<Seq<char>>,
) -> Seq<Seq<char>> {
    seq![decimal(parent), "--"@, program] + arguments
}

/// An absolute path of a program.
pub open spec fn launchable(program: Seq<char>) -> bool {
    program.len() > 0 && program[0] == '/'
}

impl SessionCommand {
    /// An unstarted command.
    pub fn new(program: String, arguments: Vec<String>, io: SessionIo) -> (result: Self)
        ensures
            result.program@ == program@,
            result.arguments@ == arguments@,
            result.io == io,
    {
        SessionCommand { program, arguments, io }
    }

    /// The arguments of the trampoline: the parent, a separator, and the
    /// command. The program has to be an absolute path.
    pub fn launch_arguments(&self, parent: u32) -> (result: Result<Vec<String>, Error>)
        ensures
            match result {
                Ok(list) => {
                    &&& launchable(self.program@)
                    &&& argument_views(list@) == launch_list(
                        parent as nat,
                        self.program@,
                        argument_views(self.arguments@),
                    )
                },
                Err(error) => {
                    &&& !launchable(self.program@)
                    &&& says(
                        error,
                        ErrorKind::InvalidInput,
                        "session program must be a non-empty absolute path"@,
                    )
                },
            },
    {
        if !crate::host::filesystem::is_absolute(self.program.as_str()) {
            return Err(invalid_input("session program must be a non-empty absolute path"));
        }
        let mut list: Vec<String> = Vec::new();
        list.push(decimal_text(parent as u64));
        list.push("--".to_owned());
        list.push(self.program.clone());
        let ghost head = seq![decimal(parent as nat), "--"@, self.program@];
        assert(argument_views(list@) =~= head);
        let ghost all = argument_views(self.arguments@);
        assert(head + all.take(0) =~= head);
        let mut i: usize = 0;
        while i < self.arguments.len()
            invariant
                i <= self.arguments@.len(),
                all == argument_views(self.arguments@),
                argument_views(list@) == head + all.take(i as int),
            decreases self.arguments@.len() - i,
        {
            let ghost before = argument_views(list@);
            let argument = self.arguments[i].clone();
            list.push(argument);
            assert(argument_views(list@) =~= before.push(argument@));
            assert(all.take(i + 1) =~= all.take(i as int).push(all[i as int]));
            assert(argument_views(list@) =~= head + all.take(i + 1));
            i = i + 1;
        }
        assert(all.take(i as int) =~= all);
        Ok(list)
    }
}

/// What the trampoline is asked to do: the expected parent, and the position of
/// the program in the arguments.
#[derive(Clone, Copy, Debug, PartialEq, Eq, Structural)]
pub struct LaunchRequest {
    pub parent: Pid,
    pub program: usize,
}

/// The parent that the trampoline's arguments expect: a positive number, before
/// a separator and a program.
pub open spec fn launch_parent(list: Seq<Seq<char>>) -> Option<int> {
    if list.len() >= 3 && list[1] == "--"@ {
        match within_i32(signed_value(list[0])) {
            Some(parent) => if parent > 0 {
                Some(parent)
            } else {
                None
            },
            None => None,
        }
    } else {
        None
    }
}

/// Reads the trampoline's arguments, without its own name: a positive parent
/// number, a separator and a program. Anything else is a usage error.
pub fn parse_launch(arguments: &Vec<String>) -> (result: Option<LaunchRequest>)
    ensures
        match result {
            Some(request) => {
                &&& launch_parent(argument_views(arguments@)) == Some(
                    request.parent.number() as int,
                )
                &&& request.program == 2
            },
            None => launch_parent(argument_views(arguments@)) is None,
        },
{
    assert(argument_views(arguments@).len() == arguments@.len());
    if arguments.len() < 3 {
        return None;
    }
    assert(argument_views(arguments@)[0] == arguments@[0]@);
    assert(argument_views(arguments@)[1] == arguments@[1]@);
    let parent = match parse_i32(arguments[0].as_str()) {
        Some(number) => match Pid::new(number) {
            Some(parent) => parent,
            None => return None,
        },
        None => return None,
    };
    if !same(arguments[1].as_str(), "--") {
        return None;
    }
    Some(LaunchRequest { parent, program: 2 })
}

/// What a command asks of the trampoline is what the trampoline reads: the same
/// parent, the program where it is looked for, and the arguments after it.
pub proof fn launch_is_read_back(parent: u32, program: Seq<char>, arguments: Seq<Seq<char>>)
    requires
        0 < parent <= i32::MAX,
    ensures
        ({
            let list = launch_list(parent as nat, program, arguments);
            &&& launch_parent(list) == Some(parent as int)
            &&& list[2] == program
            &&& list.skip(3) == arguments
        }),
{
    let list = launch_list(parent as nat, program, arguments);
    written_number_is_read_back(parent as nat);
    assert(list[0] == decimal(parent as nat));
    assert(list.skip(3) =~= arguments);
}

/// Bytes of a published failure.
pub const EXEC_STATUS_ERROR_LEN: usize = 10;

/// Error number reported where the failure has none.
pub const DEFAULT_ERRNO: i32 = 5;

/// The header of a published failure, `LSEX` and a version.
pub open spec fn status_header() -> Seq<u8> {
    seq![76u8, 83, 69, 88, 1]
}

/// Why a session did not start.
#[derive(Clone, Copy, Debug, PartialEq, Eq, Structural)]
pub enum ExecStatusError {
    /// The trampoline published more than one failure.
    Exceeded,
    /// The publication is cut short or malformed.
    Truncated,
    /// The publication holds no valid error number.
    InvalidErrno,
    /// A stage of the trampoline failed.
    Failed { stage: u8, errno: i32 },
}

/// A publication in the form of a failure.
pub open spec fn framed(bytes: Seq<u8>) -> bool {
    &&& bytes.len() == EXEC_STATUS_ERROR_LEN
    &&& bytes.subrange(0, 5) == status_header()
    &&& 1 <= bytes[5] <= 6
}

/// What a publication means: nothing published is success.
pub open spec fn status_of(bytes: Seq<u8>) -> Result<(), ExecStatusError> {
    if bytes.len() == 0 {
        Ok(())
    } else if bytes.len() > EXEC_STATUS_ERROR_LEN {
        Err(ExecStatusError::Exceeded)
    } else if !framed(bytes) {
        Err(ExecStatusError::Truncated)
    } else if as_signed(u32_at(bytes, 6)) <= 0 {
        Err(ExecStatusError::InvalidErrno)
    } else {
        Err(
            ExecStatusError::Failed {
                stage: bytes[5],
                errno: as_signed(u32_at(bytes, 6)) as i32,
            },
        )
    }
}

/// Reads what the trampoline published until it closed its end; one byte more
/// than a failure is enough to reject it.
pub fn read_exec_status(publication: &[u8]) -> (result: Result<(), ExecStatusError>)
    ensures
        result == status_of(publication@),
{
    if publication.len() == 0 {
        return Ok(());
    }
    if publication.len() > EXEC_STATUS_ERROR_LEN {
        return Err(ExecStatusError::Exceeded);
    }
    if publication.len() != EXEC_STATUS_ERROR_LEN {
        return Err(ExecStatusError::Truncated);
    }
    let header = publication[0] == 76 && publication[1] == 83 && publication[2] == 69
        && publication[3] == 88 && publication[4] == 1;
    proof {
        let head = publication@.subrange(0, 5);
        if header {
            assert(head =~= status_header());
        } else {
            assert(head[0] == publication@[0] && head[1] == publication@[1] && head[2]
                == publication@[2] && head[3] == publication@[3] && head[4] == publication@[4]);
            assert(status_header()[0] == 76 && status_header()[1] == 83 && status_header()[2] == 69
                && status_header()[3] == 88 && status_header()[4] == 1);
        }
    }
    if !header || publication[5] < 1 || publication[5] > 6 {
        return Err(ExecStatusError::Truncated);
    }
    let errno: i32 = read_i32(publication, 6);
    if errno <= 0 {
        return Err(ExecStatusError::InvalidErrno);
    }
    Err(ExecStatusError::Failed { stage: publication[5], errno })
}

impl ExecStatusError {
    /// The start of the message for people.
    pub open spec fn text(self) -> Seq<char> {
        match self {
            ExecStatusError::Exceeded => "session trampoline exceeded the exec-status frame"@,
            ExecStatusError::Truncated => "session trampoline truncated the exec-status protocol"@,
            ExecStatusError::InvalidErrno => "session trampoline returned an invalid errno"@,
            ExecStatusError::Failed { stage, .. } => "session trampoline stage "@ + decimal(
                stage as nat,
            ),
        }
    }

    /// Writes the start of the message for people.
    pub fn message(self) -> (result: String)
        ensures
            result@ == self.text(),
    {
        match self {
            ExecStatusError::Exceeded => {
                "session trampoline exceeded the exec-status frame".to_owned()
            },
            ExecStatusError::Truncated => {
                "session trampoline truncated the exec-status protocol".to_owned()
            },
            ExecStatusError::InvalidErrno => {
                "session trampoline returned an invalid errno".to_owned()
            },
            ExecStatusError::Failed { stage, .. } => {
                let mut out = "session trampoline stage ".to_owned();
                out.append(decimal_text(stage as u64).as_str());
                out
            },
        }
    }
}

/// The publication of a failed stage.
pub open spec fn failure_frame(stage: u8, errno: int) -> Seq<u8> {
    with_u32(
        status_header() + seq![stage, 0u8, 0u8, 0u8, 0u8],
        6,
        if errno < 0 {
            errno + 0x1_0000_0000
        } else {
            errno
        },
    )
}

/// Writes the publication of a failed stage.
pub fn report_exec_failure(stage: u8, errno: Option<i32>) -> (result: Vec<u8>)
    ensures
        result@ == failure_frame(
            stage,
            match errno {
                Some(number) => number as int,
                None => DEFAULT_ERRNO as int,
            },
        ),
        result@.len() == EXEC_STATUS_ERROR_LEN,
{
    let mut frame: Vec<u8> = Vec::new();
    frame.push(76);
    frame.push(83);
    frame.push(69);
    frame.push(88);
    frame.push(1);
    frame.push(stage);
    frame.push(0);
    frame.push(0);
    frame.push(0);
    frame.push(0);
    assert(frame@ =~= status_header() + seq![stage, 0u8, 0u8, 0u8, 0u8]);
    let number: i32 = match errno {
        Some(number) => number,
        None => DEFAULT_ERRNO,
    };
    let raw: u32 = if number < 0 {
        (number as i64 + 0x1_0000_0000) as u32
    } else {
        number as u32
    };
    write_u32(frame.as_mut_slice(), 6, raw);
    frame
}

/// A failure published by the trampoline is read as that stage and error
/// number.
pub proof fn published_failure_is_read_back(stage: u8, errno: int)
    requires
        1 <= stage <= 6,
        0 < errno <= i32::MAX,
    ensures
        status_of(failure_frame(stage, errno)) == Err::<(), ExecStatusError>(
            ExecStatusError::Failed { stage, errno: errno as i32 },
        ),
{
    let blank = status_header() + seq![stage, 0u8, 0u8, 0u8, 0u8];
    let frame = failure_frame(stage, errno);
    crate::uapi::bytes::written_u32_is_read_back(blank, 6, errno, 5);
    assert(frame.subrange(0, 5) =~= status_header());
    assert(frame[5] == stage);
}

/// No proper part of a publication is taken for success or for a failure of a
/// stage.
pub proof fn partial_publications_are_rejected(bytes: Seq<u8>, length: int)
    requires
        framed(bytes),
        0 < length < bytes.len(),
    ensures
        status_of(bytes.take(length)) == Err::<(), ExecStatusError>(ExecStatusError::Truncated),
{
}

/// The window of a terminal.
#[derive(Clone, Copy, Debug, PartialEq, Eq, Structural)]
pub struct WindowSize {
    pub columns: u16,
    pub rows: u16,
    pub pixel_width: u16,
    pub pixel_height: u16,
}

/// The path of a terminal's other end.
pub open spec fn slave_path(index: nat) -> Seq<char> {
    "/dev/pts/"@ + decimal(index)
}

/// Writes the path of a terminal's other end.
pub fn pty_slave_path(index: u32) -> (result: String)
    ensures
        result@ == slave_path(index as nat),
{
    let mut out = "/dev/pts/".to_owned();
    out.append(decimal_text(index as u64).as_str());
    out
}

} // verus!
