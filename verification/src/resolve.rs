//! Resolution of a spawn-triggering message into a concrete invocation.
//!
//! The first non-upload message of a session must carry the command
//! field for the host operating system; each of its arguments must set
//! either a literal value or a binary reference, never both and never
//! neither. A binary reference resolves to the durable path of the
//! upload `binaries_dir/{session_id}_{name}`, with no existence check:
//! a dangling reference surfaces later, when the spawn fails.

use crate::bytes::clone_bytes;
use crate::protocol::Arg;
use crate::protocol::ErrorReason;
use crate::protocol::HostOs;
use crate::protocol::InboundMessage;
use crate::service::spec_upload_file_name;
use crate::service::upload_file_name;
use vstd::prelude::*;

verus! {

pub const PATH_SEPARATOR: u8 = 47;

/// The filesystem path a binary reference resolves to:
/// `binaries_dir/{session_id}_{name}`.
pub open spec fn spec_resolved_path(dir: Seq<u8>, session_id: u64, name: Seq<u8>) -> Seq<u8> {
    dir + seq![PATH_SEPARATOR] + spec_upload_file_name(session_id, name)
}

/// What one argument resolves to: its literal value, the resolved path
/// of its binary reference, or nothing where the either/or rule is
/// violated.
pub open spec fn spec_resolve_arg(dir: Seq<u8>, session_id: u64, arg: Arg) -> Option<Seq<u8>> {
    match (arg.regular, arg.binary) {
        (Some(r), None) => Some(r@),
        (None, Some(b)) => Some(spec_resolved_path(dir, session_id, b@)),
        _ => None,
    }
}

/// Whether every argument of a list obeys the either/or rule.
pub open spec fn spec_args_ok(dir: Seq<u8>, session_id: u64, args: Seq<Arg>) -> bool {
    forall|i: int| 0 <= i < args.len() ==> (#[trigger] spec_resolve_arg(dir, session_id, args[i])) is Some
}

/// The command field of a message for the host operating system.
pub open spec fn spec_command_field(os: HostOs, m: InboundMessage) -> Option<Vec<u8>> {
    match os {
        HostOs::Windows => m.command_windows,
        HostOs::Linux => m.command_linux,
        HostOs::Macos => m.command_macos,
    }
}

/// A fully resolved executable invocation, built once per session and
/// immutable afterwards.
pub struct Invocation {
    pub program: Vec<u8>,
    pub args: Vec<Vec<u8>>,
}

/// Selects the OS-appropriate command string of a spawn message;
/// its absence is a protocol error.
pub fn select_command(os: HostOs, msg: &InboundMessage) -> (r: Result<Vec<u8>, ErrorReason>)
    ensures
        match r {
            Ok(c) => spec_command_field(os, *msg) matches Some(v) && c@ == v@,
            Err(e) => spec_command_field(os, *msg) is None && e == ErrorReason::MissingCommand,
        },
{
    let field = match os {
        HostOs::Windows => &msg.command_windows,
        HostOs::Linux => &msg.command_linux,
        HostOs::Macos => &msg.command_macos,
    };
    match field {
        Some(c) => Ok(clone_bytes(c)),
        None => Err(ErrorReason::MissingCommand),
    }
}

/// Resolves one argument: a literal stays as it is; a binary reference
/// becomes the durable path of that upload, whether or not anything was
/// uploaded under it; setting both or neither is a protocol error.
pub fn resolve_arg(dir: &Vec<u8>, session_id: u64, arg: &Arg) -> (r: Result<Vec<u8>, ErrorReason>)
    ensures
        match r {
            Ok(p) => spec_resolve_arg(dir@, session_id, *arg) == Some(p@),
            Err(e) => spec_resolve_arg(dir@, session_id, *arg) is None && e
                == ErrorReason::ArgNotExclusive,
        },
{
    match (&arg.regular, &arg.binary) {
        (Some(r), None) => Ok(clone_bytes(r)),
        (None, Some(b)) => {
            let mut p = clone_bytes(dir);
            p.push(PATH_SEPARATOR);
            let mut file_name = upload_file_name(session_id, b);
            p.append(&mut file_name);
            proof {
                assert(dir@.push(PATH_SEPARATOR) + spec_upload_file_name(session_id, b@)
                    =~= spec_resolved_path(dir@, session_id, b@));
            }
            Ok(p)
        },
        _ => Err(ErrorReason::ArgNotExclusive),
    }
}

/// Resolves a spawn message's whole argument list, in order; any
/// argument violating the either/or rule rejects the list.
pub fn resolve_args(dir: &Vec<u8>, session_id: u64, args: &Vec<Arg>) -> (r: Result<
    Vec<Vec<u8>>,
    ErrorReason,
>)
    ensures
        match r {
            Ok(ps) => {
                &&& spec_args_ok(dir@, session_id, args@)
                &&& ps@.len() == args@.len()
                &&& forall|i: int|
                    0 <= i < args@.len() ==> spec_resolve_arg(dir@, session_id, args@[i]) == Some(
                        (#[trigger] ps@[i])@,
                    )
            },
            Err(e) => !spec_args_ok(dir@, session_id, args@) && e == ErrorReason::ArgNotExclusive,
        },
{
    let mut out: Vec<Vec<u8>> = Vec::new();
    let mut i: usize = 0;
    while i < args.len()
        invariant
            i <= args@.len(),
            out@.len() == i,
            forall|j: int|
                0 <= j < i ==> spec_resolve_arg(dir@, session_id, args@[j]) == Some(
                    (#[trigger] out@[j])@,
                ),
        decreases args@.len() - i,
    {
        match resolve_arg(dir, session_id, &args[i]) {
            Ok(p) => {
                out.push(p);
            },
            Err(e) => {
                return Err(e);
            },
        }
        i += 1;
    }
    proof {
        assert forall|j: int| 0 <= j < args@.len() implies (#[trigger] spec_resolve_arg(
            dir@,
            session_id,
            args@[j],
        )) is Some by {
            assert(spec_resolve_arg(dir@, session_id, args@[j]) == Some(out@[j]@));
        }
    }
    Ok(out)
}

} // verus!
