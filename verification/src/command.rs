use vstd::prelude::*;
use crate::text::str_equals;

verus! {

/// Process-creation flag: the new process gets a console of its own.
pub const CREATE_NEW_CONSOLE: u32 = 0x0000_0010;

/// Process-creation flag: the new process has no console.
pub const DETACHED_PROCESS: u32 = 0x0000_0008;

/// One quick command of the configuration.
pub struct CmdContext {
    pub quick_cmd_name: String,
    pub run_type: Option<String>,
    pub program_name: String,
    pub process_create_attr: String,
    pub work_dir: Option<String>,
    pub shortcut_key_name: String,
    /// Filled in from the key table when the command is loaded.
    pub shortcut_key_code: Option<u32>,
    pub args: Vec<String>,
}

/// The creation flag that a flag name of the configuration stands for.
pub open spec fn process_attr(name: Seq<char>) -> Option<u32> {
    if name == "CREATE_NEW_CONSOLE"@ {
        Some(CREATE_NEW_CONSOLE)
    } else if name == "DETACHED_PROCESS"@ {
        Some(DETACHED_PROCESS)
    } else {
        None
    }
}

/// Maps the name of a process-creation flag to its value; unknown names give `None`.
pub fn get_process_attr_from_name(process_create_flag: &str) -> (r: Option<u32>)
    ensures
        r == process_attr(process_create_flag@),
{
    if str_equals(process_create_flag, "CREATE_NEW_CONSOLE") {
        Some(CREATE_NEW_CONSOLE)
    } else if str_equals(process_create_flag, "DETACHED_PROCESS") {
        Some(DETACHED_PROCESS)
    } else {
        None
    }
}

/// How a command is to be started, beyond its program, directory and arguments.
#[derive(Debug, Clone, Copy, PartialEq, Eq, Structural)]
pub struct LaunchSettings {
    /// The creation flag to pass; `None` when the configured name is unknown,
    /// in which case the command is started without one and a warning is due.
    pub creation_flags: Option<u32>,
    /// Whether the child's standard output is piped rather than inherited.
    pub pipe_stdout: bool,
}

/// What starting a command needs decided: the creation flag, and whether its
/// output is piped (every known flag but `CREATE_NEW_CONSOLE`).
pub fn launch_settings(ctx: &CmdContext) -> (r: LaunchSettings)
    ensures
        r.creation_flags == process_attr(ctx.process_create_attr@),
        r.pipe_stdout == (r.creation_flags matches Some(f) && f != CREATE_NEW_CONSOLE),
{
    let flags = get_process_attr_from_name(ctx.process_create_attr.as_str());
    let pipe_stdout = match flags {
        Some(f) => f != CREATE_NEW_CONSOLE,
        None => false,
    };
    LaunchSettings { creation_flags: flags, pipe_stdout }
}

} // verus!

verus! {

/// Exactly the two flag names of the configuration are known:
/// `CREATE_NEW_CONSOLE` gives 0x10, `DETACHED_PROCESS` gives 0x8, and every
/// other name gives nothing.
pub proof fn only_two_flag_names_are_known(name: Seq<char>)
    ensures
        process_attr(name) is Some ==> name == "CREATE_NEW_CONSOLE"@ || name == "DETACHED_PROCESS"@,
        name == "CREATE_NEW_CONSOLE"@ ==> process_attr(name) == Some(0x10u32),
        name == "DETACHED_PROCESS"@ ==> process_attr(name) == Some(0x8u32),
{
    reveal_strlit("CREATE_NEW_CONSOLE");
    reveal_strlit("DETACHED_PROCESS");
    assert("CREATE_NEW_CONSOLE"@.len() != "DETACHED_PROCESS"@.len());
}

} // verus!
