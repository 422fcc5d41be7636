//! What the status of a call means, and how a kernel module is built from such calls.

use vstd::prelude::*;

use crate::error::{self, Error};
use crate::text::{chars_of, text_of};

verus! {

/// The status of a HIP, HIPRTC or rocBLAS call that succeeded.
pub const SUCCESS: i32 = 0;

/// Checks a HIP call. `message` is what HIP says about the status, where it says anything.
pub fn check(call: &str, status: i32, message: Option<String>) -> (checked: Result<(), Error>)
    ensures
        match checked {
            Ok(_) => status == SUCCESS,
            Err(e) => status != SUCCESS && (e matches Error::Hip { call: c, status: s, message: m }
                && c@ == call@ && s == status && m@ == match message {
                Some(text) => text@,
                None => "unknown HIP error"@,
            }),
        },
{
    if status == SUCCESS {
        return Ok(());
    }
    let message: String = match message {
        Some(text) => text,
        None => "unknown HIP error".to_owned(),
    };
    Err(Error::Hip { call: call.to_owned(), status, message })
}

/// Checks a rocBLAS call.
pub fn check_rocblas(call: &str, status: i32) -> (checked: Result<(), Error>)
    ensures
        match checked {
            Ok(_) => status == SUCCESS,
            Err(e) => status != SUCCESS && (e matches Error::Rocblas { call: c, status: s } && c@
                == call@ && s == status),
        },
{
    if status == SUCCESS {
        Ok(())
    } else {
        Err(Error::Rocblas { call: call.to_owned(), status })
    }
}

/// Checks a HIPRTC call. `log` is what was read of the log of the program, where there is a
/// program; where the log could not be read, that error is the one that counts.
pub fn check_hiprtc(call: &str, status: i32, log: Option<Result<String, Error>>) -> (checked: Result<
    (),
    Error,
>)
    ensures
        if status == SUCCESS {
            checked is Ok
        } else {
            match log {
                Some(Err(e)) => checked == Err::<(), Error>(e),
                Some(Ok(text)) => checked matches Err(Error::Hiprtc { call: c, status: s, log: l })
                    && c@ == call@ && s == status && l@ == text@,
                None => checked matches Err(Error::Hiprtc { call: c, status: s, log: l }) && c@
                    == call@ && s == status && l@.len() == 0,
            }
        },
{
    if status == SUCCESS {
        return Ok(());
    }
    match log {
        Some(Err(e)) => Err(e),
        Some(Ok(text)) => Err(Error::Hiprtc { call: call.to_owned(), status, log: text }),
        None => Err(Error::Hiprtc { call: call.to_owned(), status, log: String::new() }),
    }
}

/// A text without the NUL characters behind it.
pub open spec fn without_nuls(text: Seq<char>) -> Seq<char>
    decreases text.len(),
{
    if text.len() > 0 && text.last() == '\0' {
        without_nuls(text.drop_last())
    } else {
        text
    }
}

/// The log of a program: its text without the NUL characters behind it.
pub fn program_log(text: &str) -> (log: String)
    ensures
        log@ == without_nuls(text@),
{
    let chars: Vec<char> = chars_of(text);
    let mut end: usize = chars.len();
    proof {
        assert(text@.take(text@.len() as int) =~= text@);
    }
    while end > 0 && chars[end - 1] == '\0'
        invariant
            chars@ == text@,
            end <= chars@.len(),
            without_nuls(text@) == without_nuls(text@.take(end as int)),
        decreases end,
    {
        proof {
            assert(text@.take(end as int).drop_last() =~= text@.take(end as int - 1));
        }
        end = end - 1;
    }
    let log: String = text_of(chars.as_slice(), 0, end);
    proof {
        assert(text@.subrange(0, end as int) =~= text@.take(end as int));
    }
    log
}

/// The error for a call that succeeded without giving what it was called for.
pub fn returned_null(call: &str) -> (e: Error)
    ensures
        error::is_invalid(e, call@ + " returned null"@),
{
    let mut text = call.to_owned();
    text.append(" returned null");
    Error::InvalidInput(text)
}

/// The calls that build a kernel module, in their order.
#[derive(Clone, Copy, PartialEq, Eq, Structural, Debug)]
pub enum BuildCall {
    CreateProgram,
    CompileProgram,
    GetCodeSize,
    GetCode,
    DestroyProgram,
    LoadModule,
}

/// What follows a call.
#[derive(Clone, Copy, PartialEq, Eq, Structural, Debug)]
pub enum BuildStep {
    Call(BuildCall),
    /// The module is there.
    Done,
    /// The error of the call is reported, once the program has been destroyed where
    /// `destroy_program` says so.
    Fail { destroy_program: bool },
}

/// What follows a call, whose status was a success or not. A program that does not compile
/// is destroyed. The status of its destruction is not looked at.
pub open spec fn step_after(call: BuildCall, succeeded: bool) -> BuildStep {
    match call {
        BuildCall::DestroyProgram => BuildStep::Call(BuildCall::LoadModule),
        _ => if !succeeded {
            BuildStep::Fail { destroy_program: call == BuildCall::CompileProgram }
        } else {
            match call {
                BuildCall::CreateProgram => BuildStep::Call(BuildCall::CompileProgram),
                BuildCall::CompileProgram => BuildStep::Call(BuildCall::GetCodeSize),
                BuildCall::GetCodeSize => BuildStep::Call(BuildCall::GetCode),
                BuildCall::GetCode => BuildStep::Call(BuildCall::DestroyProgram),
                BuildCall::DestroyProgram => BuildStep::Call(BuildCall::LoadModule),
                BuildCall::LoadModule => BuildStep::Done,
            }
        },
    }
}

/// What follows a call of the build.
pub fn after(call: BuildCall, succeeded: bool) -> (step: BuildStep)
    ensures
        step == step_after(call, succeeded),
{
    match call {
        BuildCall::DestroyProgram => BuildStep::Call(BuildCall::LoadModule),
        _ => {
            if !succeeded {
                let compiling: bool = match call {
                    BuildCall::CompileProgram => true,
                    _ => false,
                };
                return BuildStep::Fail { destroy_program: compiling };
            }
            match call {
                BuildCall::CreateProgram => BuildStep::Call(BuildCall::CompileProgram),
                BuildCall::CompileProgram => BuildStep::Call(BuildCall::GetCodeSize),
                BuildCall::GetCodeSize => BuildStep::Call(BuildCall::GetCode),
                BuildCall::GetCode => BuildStep::Call(BuildCall::DestroyProgram),
                BuildCall::DestroyProgram => BuildStep::Call(BuildCall::LoadModule),
                BuildCall::LoadModule => BuildStep::Done,
            }
        },
    }
}

/// The name that a call is reported under, and whether the log of the program goes with
/// the report.
pub fn reported_as(call: BuildCall) -> (name: (&'static str, bool))
    ensures
        name.0@ == match call {
            BuildCall::CreateProgram => "hiprtcCreateProgram"@,
            BuildCall::CompileProgram => "hiprtcCompileProgram"@,
            BuildCall::GetCodeSize => "hiprtcGetCodeSize"@,
            BuildCall::GetCode => "hiprtcGetCode"@,
            BuildCall::DestroyProgram => "hiprtcDestroyProgram"@,
            BuildCall::LoadModule => "hipModuleLoadData"@,
        },
        name.1 == (call == BuildCall::CompileProgram || call == BuildCall::GetCodeSize || call
            == BuildCall::GetCode),
{
    match call {
        BuildCall::CreateProgram => ("hiprtcCreateProgram", false),
        BuildCall::CompileProgram => ("hiprtcCompileProgram", true),
        BuildCall::GetCodeSize => ("hiprtcGetCodeSize", true),
        BuildCall::GetCode => ("hiprtcGetCode", true),
        BuildCall::DestroyProgram => ("hiprtcDestroyProgram", false),
        BuildCall::LoadModule => ("hipModuleLoadData", false),
    }
}

/// The number of calls up to and including a call, from the first one on.
pub open spec fn build_rank(call: BuildCall) -> nat {
    match call {
        BuildCall::CreateProgram => 1,
        BuildCall::CompileProgram => 2,
        BuildCall::GetCodeSize => 3,
        BuildCall::GetCode => 4,
        BuildCall::DestroyProgram => 5,
        BuildCall::LoadModule => 6,
    }
}

/// A build whose calls succeed makes every call once, in order: it ends with the module,
/// and the program is destroyed in front of that. A build whose program does not compile
/// destroys it too.
pub proof fn builds_go_through_every_call(call: BuildCall)
    ensures
        match step_after(call, true) {
            BuildStep::Call(next) => build_rank(next) == build_rank(call) + 1,
            BuildStep::Done => call == BuildCall::LoadModule,
            BuildStep::Fail { .. } => false,
        },
        step_after(call, false) is Call ==> call == BuildCall::DestroyProgram,
        step_after(BuildCall::CompileProgram, false) == (BuildStep::Fail {
            destroy_program: true,
        }),
{
}

} // verus!
