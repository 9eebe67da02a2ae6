pub mod commands;

use vstd::prelude::*;

use crate::decimal::{decimal, push_decimal};
use crate::error::AppError;

verus! {

/// Why a command could not be executed.
#[derive(Clone, Copy, Debug, PartialEq, Eq, Structural)]
pub enum ExecuteError {
    Busy,
    Quit,
}

/// Remote target configuration for gdbserver connection
#[derive(Debug, Clone)]
pub struct RemoteTarget {
    /// Target type: "remote" or "extended-remote"
    pub target_type: String,
    /// Hostname or IP address of the gdbserver
    pub host: String,
    /// Port number of the gdbserver
    pub port: u16,
}

/// A builder for the command line GDB is launched with. Paths and program
/// arguments are held as text.
pub struct GDBBuilder {
    /// Path to the GDB executable
    pub gdb_path: String,
    /// Do not read ~/.gdbinit file (--nh)
    pub opt_nh: bool,
    /// Do not read any .gdbinit files in any directory (--nx)
    pub opt_nx: bool,
    /// Do not print version number on startup (--quiet)
    pub opt_quiet: bool,
    /// Change current directory to DIR (--cd=DIR)
    pub opt_cd: Option<String>,
    /// Set serial port baud rate used for remote debugging (-b BAUDRATE)
    pub opt_bps: Option<u32>,
    /// Read symbols from SYMFILE (--symbols=SYMFILE)
    pub opt_symbol_file: Option<String>,
    /// Analyze the core dump COREFILE (--core=COREFILE)
    pub opt_core_file: Option<String>,
    /// Attach to running process PID (--pid=PID)
    pub opt_proc_id: Option<u32>,
    /// Execute GDB commands from FILE (--command=FILE)
    pub opt_command: Option<String>,
    /// Search for source files in DIR (--directory=DIR)
    pub opt_source_dir: Option<String>,
    /// Arguments to be passed to the inferior program (--args)
    pub opt_args: Vec<String>,
    /// The executable file to debug
    pub opt_program: Option<String>,
    /// Use TTY for input/output by the program being debugged (--tty=TTY)
    pub opt_tty: Option<String>,
    /// Remote target configuration for connecting to gdbserver
    pub opt_remote_target: Option<RemoteTarget>,
}

/// What GDB is started with: the executable, its arguments (the machine
/// interface first), and the startup options a restart must repeat.
pub struct LaunchPlan {
    pub program: String,
    pub args: Vec<String>,
    pub init_options: Vec<String>,
}

/// One argument when `on` holds, none otherwise.
pub open spec fn flag_arg(on: bool, arg: Seq<char>) -> Seq<Seq<char>> {
    if on {
        seq![arg]
    } else {
        seq![]
    }
}

/// `prefix` followed by the path, when a path is given.
pub open spec fn path_arg(prefix: Seq<char>, path: Option<String>) -> Seq<Seq<char>> {
    match path {
        Some(p) => seq![prefix + p@],
        None => seq![],
    }
}

impl GDBBuilder {
    /// The arguments that name the program to debug and what it is passed.
    pub open spec fn spec_program_args(self) -> Seq<Seq<char>> {
        if self.opt_args.len() > 0 {
            seq!["--args"@, self.opt_program->0@] + self.opt_args.deep_view()
        } else {
            match self.opt_program {
                Some(p) => seq![p@],
                None => seq![],
            }
        }
    }

    /// The arguments that follow `--interpreter=mi`, in order.
    pub open spec fn spec_gdb_args(self) -> Seq<Seq<char>> {
        flag_arg(self.opt_nh, "--nh"@)
        + flag_arg(self.opt_nx, "--nx"@)
        + flag_arg(self.opt_quiet, "--quiet"@)
        + path_arg("--cd="@, self.opt_cd)
        + match self.opt_bps {
            Some(b) => seq!["-b"@, decimal(b as nat)],
            None => seq![],
        }
        + path_arg("--symbols="@, self.opt_symbol_file)
        + path_arg("--core="@, self.opt_core_file)
        + match self.opt_proc_id {
            Some(p) => seq!["--pid="@ + decimal(p as nat)],
            None => seq![],
        }
        + path_arg("--command="@, self.opt_command)
        + path_arg("--directory="@, self.opt_source_dir)
        + path_arg("--tty="@, self.opt_tty)
        + self.spec_program_args()
    }

    /// The options that concern the init files.
    pub open spec fn spec_init_options(self) -> Seq<Seq<char>> {
        flag_arg(self.opt_nh, "--nh"@) + flag_arg(self.opt_nx, "--nx"@)
    }

    /// Program arguments need a program to be passed to.
    pub open spec fn spec_launchable(self) -> bool {
        !(self.opt_args.len() > 0 && self.opt_program is None)
    }
}

fn push_owned_arg(args: &mut Vec<String>, arg: String)
    ensures
        final(args).deep_view() == old(args).deep_view().push(arg@),
{
    args.push(arg);
    assert(args.deep_view() =~= old(args).deep_view().push(arg@));
}

fn push_str_arg(args: &mut Vec<String>, arg: &str)
    ensures
        final(args).deep_view() == old(args).deep_view().push(arg@),
{
    push_owned_arg(args, String::from_str(arg));
}

fn push_path_arg(args: &mut Vec<String>, prefix: &str, path: &Option<String>)
    ensures
        final(args).deep_view() == old(args).deep_view() + path_arg(prefix@, *path),
{
    match path {
        Some(p) => {
            let arg = String::from_str(prefix).concat(p.as_str());
            args.push(arg);
            assert(args.deep_view() =~= old(args).deep_view() + path_arg(prefix@, *path));
        },
        None => {
            assert(args.deep_view() =~= old(args).deep_view() + path_arg(prefix@, *path));
        },
    }
}

impl GDBBuilder {
    /// A builder for the given GDB executable, with every option off.
    pub fn new(gdb: String) -> (b: GDBBuilder)
        ensures
            b.gdb_path == gdb,
            !b.opt_nh && !b.opt_nx && !b.opt_quiet,
            b.opt_cd is None && b.opt_bps is None && b.opt_symbol_file is None,
            b.opt_core_file is None && b.opt_proc_id is None && b.opt_command is None,
            b.opt_source_dir is None && b.opt_program is None && b.opt_tty is None,
            b.opt_args@.len() == 0,
            b.opt_remote_target is None,
    {
        GDBBuilder {
            gdb_path: gdb,
            opt_nh: false,
            opt_nx: false,
            opt_quiet: false,
            opt_cd: None,
            opt_bps: None,
            opt_symbol_file: None,
            opt_core_file: None,
            opt_proc_id: None,
            opt_command: None,
            opt_source_dir: None,
            opt_args: Vec::new(),
            opt_program: None,
            opt_tty: None,
            opt_remote_target: None,
        }
    }
}


fn push_flag_arg(args: &mut Vec<String>, on: bool, arg: &str)
    ensures
        final(args).deep_view() == old(args).deep_view() + flag_arg(on, arg@),
{
    if on {
        push_str_arg(args, arg);
    }
    assert(args.deep_view() =~= old(args).deep_view() + flag_arg(on, arg@));
}

fn push_number_arg(args: &mut Vec<String>, prefix: &str, n: u32)
    ensures
        final(args).deep_view() == old(args).deep_view().push(prefix@ + decimal(n as nat)),
{
    let mut arg = String::from_str(prefix);
    push_decimal(&mut arg, n as u64);
    args.push(arg);
    assert(args.deep_view() =~= old(args).deep_view().push(prefix@ + decimal(n as nat)));
}

fn push_all_args(args: &mut Vec<String>, more: &Vec<String>)
    ensures
        final(args).deep_view() == old(args).deep_view() + more.deep_view(),
{
    let mut i: usize = 0;
    while i < more.len()
        invariant
            i <= more.len(),
            args.deep_view() == old(args).deep_view() + more.deep_view().take(i as int),
        decreases more.len() - i,
    {
        push_owned_arg(args, more[i].clone());
        assert(more.deep_view().take(i + 1) =~= more.deep_view().take(i as int).push(more[i as int]@));
        assert(args.deep_view() =~= old(args).deep_view() + more.deep_view().take(i + 1));
        i = i + 1;
    }
    assert(more.deep_view().take(more.len() as int) =~= more.deep_view());
}

impl GDBBuilder {
    /// The arguments GDB is given after `--interpreter=mi`, or the refusal
    /// of program arguments without a program.
    pub fn gdb_args(&self) -> (r: Result<Vec<String>, AppError>)
        ensures
            self.spec_launchable() ==> (r matches Ok(a) && a.deep_view() == self.spec_gdb_args()),
            !self.spec_launchable() ==> (r matches Err(AppError::InvalidArgument(m))
                && m@ == "Program path is required if --args is provided"@),
    {
        let mut args: Vec<String> = Vec::new();
        push_flag_arg(&mut args, self.opt_nh, "--nh");
        push_flag_arg(&mut args, self.opt_nx, "--nx");
        push_flag_arg(&mut args, self.opt_quiet, "--quiet");
        push_path_arg(&mut args, "--cd=", &self.opt_cd);
        let ghost before_bps = args.deep_view();
        match self.opt_bps {
            Some(bps) => {
                push_str_arg(&mut args, "-b");
                push_number_arg(&mut args, "", bps);
                assert(""@ + decimal(bps as nat) =~= decimal(bps as nat)) by {
                    reveal_strlit("");
                }
            },
            None => {},
        }
        assert(args.deep_view() =~= before_bps + match self.opt_bps {
            Some(b) => seq!["-b"@, decimal(b as nat)],
            None => Seq::<Seq<char>>::empty(),
        });
        push_path_arg(&mut args, "--symbols=", &self.opt_symbol_file);
        push_path_arg(&mut args, "--core=", &self.opt_core_file);
        let ghost before_pid = args.deep_view();
        match self.opt_proc_id {
            Some(pid) => {
                push_number_arg(&mut args, "--pid=", pid);
            },
            None => {},
        }
        assert(args.deep_view() =~= before_pid + match self.opt_proc_id {
            Some(p) => seq!["--pid="@ + decimal(p as nat)],
            None => Seq::<Seq<char>>::empty(),
        });
        push_path_arg(&mut args, "--command=", &self.opt_command);
        push_path_arg(&mut args, "--directory=", &self.opt_source_dir);
        push_path_arg(&mut args, "--tty=", &self.opt_tty);
        let ghost before_program = args.deep_view();
        if self.opt_args.len() > 0 {
            match &self.opt_program {
                Some(program) => {
                    push_str_arg(&mut args, "--args");
                    push_owned_arg(&mut args, program.clone());
                    push_all_args(&mut args, &self.opt_args);
                },
                None => {
                    return Err(AppError::InvalidArgument(
                        String::from_str("Program path is required if --args is provided"),
                    ));
                },
            }
        } else {
            match &self.opt_program {
                Some(program) => {
                    push_owned_arg(&mut args, program.clone());
                },
                None => {},
            }
        }
        assert(args.deep_view() =~= before_program + self.spec_program_args());
        assert(args.deep_view() =~= self.spec_gdb_args());
        Ok(args)
    }
}

impl GDBBuilder {
    /// What GDB is launched with: the executable, `--interpreter=mi` and the
    /// arguments of the options set, and the init-file options.
    pub fn launch_plan(&self) -> (r: Result<LaunchPlan, AppError>)
        ensures
            r is Ok <==> self.spec_launchable(),
            r matches Ok(plan) ==> {
                &&& plan.program@ == self.gdb_path@
                &&& plan.args.deep_view() == seq!["--interpreter=mi"@] + self.spec_gdb_args()
                &&& plan.init_options.deep_view() == self.spec_init_options()
            },
            r matches Err(e) ==> (e matches AppError::InvalidArgument(m)
                && m@ == "Program path is required if --args is provided"@),
    {
        let gdb_args = match self.gdb_args() {
            Ok(a) => a,
            Err(e) => {
                return Err(e);
            },
        };
        let mut args: Vec<String> = Vec::new();
        push_str_arg(&mut args, "--interpreter=mi");
        push_all_args(&mut args, &gdb_args);
        let mut init_options: Vec<String> = Vec::new();
        push_flag_arg(&mut init_options, self.opt_nh, "--nh");
        push_flag_arg(&mut init_options, self.opt_nx, "--nx");
        assert(init_options.deep_view() =~= self.spec_init_options());
        Ok(LaunchPlan { program: self.gdb_path.clone(), args, init_options })
    }
}

/// The state of one GDB process that the server decides on: the executable
/// it was started from, its init-file options, and the next command token.
pub struct GDB {
    binary_path: String,
    init_options: Vec<String>,
    current_command_token: u64,
}

/// The token that follows `t`; tokens wrap around at the top of `u64`.
pub open spec fn next_token(t: u64) -> u64 {
    if t == u64::MAX {
        0
    } else {
        (t + 1) as u64
    }
}

impl GDB {
    pub closed spec fn spec_binary_path(&self) -> Seq<char> {
        self.binary_path@
    }

    pub closed spec fn spec_init_options(&self) -> Seq<Seq<char>> {
        self.init_options.deep_view()
    }

    /// The token the next command will carry.
    pub closed spec fn spec_token(&self) -> u64 {
        self.current_command_token
    }

    /// The state of a freshly launched GDB: its first command carries token 0.
    pub fn new(binary_path: String, init_options: Vec<String>) -> (g: GDB)
        ensures
            g.spec_binary_path() == binary_path@,
            g.spec_init_options() == init_options.deep_view(),
            g.spec_token() == 0,
    {
        GDB { binary_path, init_options, current_command_token: 0 }
    }

    pub fn binary_path(&self) -> (p: &str)
        ensures
            p@ == self.spec_binary_path(),
    {
        self.binary_path.as_str()
    }

    pub fn init_options(&self) -> (o: &[String])
        ensures
            o@.len() == self.spec_init_options().len(),
            forall|i: int| 0 <= i < o@.len() ==> #[trigger] o@[i]@ == self.spec_init_options()[i],
    {
        self.init_options.as_slice()
    }

    /// Hands out the current token and moves on to the next one.
    pub fn new_token(&mut self) -> (t: u64)
        ensures
            t == old(self).spec_token(),
            final(self).spec_token() == next_token(old(self).spec_token()),
            final(self).spec_binary_path() == old(self).spec_binary_path(),
            final(self).spec_init_options() == old(self).spec_init_options(),
    {
        let t = self.current_command_token;
        self.current_command_token = t.wrapping_add(1);
        t
    }
}


impl GDB {
    /// The first step of executing a command: a command sent while the
    /// program runs is refused and nothing changes; otherwise the command
    /// gets the current token.
    pub fn start_execute(&mut self, running: bool) -> (r: Result<u64, AppError>)
        ensures
            running ==> r == Err::<u64, AppError>(AppError::GDBBusy) && *final(self) == *old(self),
            !running ==> {
                &&& r == Ok::<u64, AppError>(old(self).spec_token())
                &&& final(self).spec_token() == next_token(old(self).spec_token())
                &&& final(self).spec_binary_path() == old(self).spec_binary_path()
                &&& final(self).spec_init_options() == old(self).spec_init_options()
            },
    {
        if running {
            return Err(AppError::GDBBusy);
        }
        Ok(self.new_token())
    }
}

/// The verdict on the record GDB sent back for the command sent under
/// `command_token`. `reply` is `None` when no record came, and otherwise the
/// record's token, if it has one. A record without a token answers only an
/// empty command.
pub fn check_reply(command_token: u64, reply: Option<Option<u64>>, command_is_empty: bool) -> (r:
    Result<(), AppError>)
    ensures
        reply == Some(Some(command_token)) ==> r is Ok,
        (reply matches Some(Some(t)) && t != command_token) ==> (r matches Err(
            AppError::InvalidArgument(m),
        ) && m@ == "Unexpected command token: "@ + decimal(reply->0->0 as nat)),
        (reply == Some(None::<u64>) && command_is_empty) ==> r is Ok,
        (reply == Some(None::<u64>) && !command_is_empty) ==> (r matches Err(AppError::GDBError(m))
            && m@ == "No command token, expecting "@ + decimal(command_token as nat)),
        reply is None ==> (r matches Err(AppError::GDBError(m)) && m@
            == "no result, expecting {}"@),
{
    match reply {
        Some(Some(token)) => {
            if token == command_token {
                Ok(())
            } else {
                let mut m = String::from_str("Unexpected command token: ");
                push_decimal(&mut m, token);
                Err(AppError::InvalidArgument(m))
            }
        },
        Some(None) => {
            if command_is_empty {
                Ok(())
            } else {
                let mut m = String::from_str("No command token, expecting ");
                push_decimal(&mut m, command_token);
                Err(AppError::GDBError(m))
            }
        },
        None => Err(AppError::GDBError(String::from_str("no result, expecting {}"))),
    }
}

/// What the `threads` entry of a `-thread-info` result holds, as far as the
/// session check reads it.
pub enum ThreadsField {
    Missing,
    NotArray,
    Array(usize),
}

/// A session is active while GDB lists at least one thread.
pub fn session_active(threads: ThreadsField) -> (r: Result<bool, AppError>)
    ensures
        threads matches ThreadsField::Array(n) ==> r == Ok::<bool, AppError>(n != 0),
        threads is NotArray ==> (r matches Err(AppError::GDBError(m)) && m@
            == "threads is not an array"@),
        threads is Missing ==> (r matches Err(AppError::GDBError(m)) && m@
            == "threads is not found"@),
{
    match threads {
        ThreadsField::Array(n) => Ok(n != 0),
        ThreadsField::NotArray => Err(AppError::GDBError(String::from_str("threads is not an array"))),
        ThreadsField::Missing => Err(AppError::GDBError(String::from_str("threads is not found"))),
    }
}


/// The token the command sent after `n` others carries, when the first of
/// them carried `start`.
pub open spec fn token_after(start: u64, n: nat) -> u64
    decreases n,
{
    if n == 0 {
        start
    } else {
        next_token(token_after(start, (n - 1) as nat))
    }
}

/// Tokens count the commands sent, modulo 2^64: the command sent after `n`
/// others carries `start + n` wrapped, so no token comes back before 2^64
/// commands have been sent.
pub proof fn law_tokens_count_commands(start: u64, n: nat)
    ensures
        token_after(start, n) == (start + n) % 0x1_0000_0000_0000_0000,
        0 < n < 0x1_0000_0000_0000_0000 ==> token_after(start, n) != start,
    decreases n,
{
    let m: int = 0x1_0000_0000_0000_0000;
    if n == 0 {
        vstd::arithmetic::div_mod::lemma_small_mod(start as nat, m as nat);
    } else {
        law_tokens_count_commands(start, (n - 1) as nat);
        let prev = token_after(start, (n - 1) as nat);
        assert(prev == (start + n - 1) % m);
        vstd::arithmetic::div_mod::lemma_add_mod_noop(start + n - 1, 1, m);
        vstd::arithmetic::div_mod::lemma_small_mod(1, m as nat);
        if prev == u64::MAX {
            vstd::arithmetic::div_mod::lemma_mod_self_0(m);
            assert((prev + 1) % m == 0);
        } else {
            vstd::arithmetic::div_mod::lemma_small_mod((prev + 1) as nat, m as nat);
        }
        assert(token_after(start, n) == (start + n) % m);
        if 0 < n < m {
            if token_after(start, n) == start {
                vstd::arithmetic::div_mod::lemma_small_mod(start as nat, m as nat);
                vstd::arithmetic::div_mod::lemma_mod_add_multiples_vanish(start as int, m);
                vstd::arithmetic::div_mod::lemma_fundamental_div_mod(start + n, m);
                assert(start + n < 2 * m);
                assert((start + n) / m == 0 || (start + n) / m == 1) by (nonlinear_arith)
                    requires
                        0 <= start + n < 2 * m,
                        m > 0,
                        (start + n) == m * ((start + n) / m) + (start + n) % m,
                        0 <= (start + n) % m < m,
                ;
            }
        }
    }
}


proof fn lemma_prefix_kept(p: Seq<Seq<char>>, q: Seq<Seq<char>>, pre: Seq<Seq<char>>)
    requires
        pre.len() <= p.len(),
        p.take(pre.len() as int) == pre,
    ensures
        pre.len() <= (p + q).len(),
        (p + q).take(pre.len() as int) == pre,
{
    assert((p + q).take(pre.len() as int) =~= pre);
}

/// The options a restart repeats are the first arguments GDB was given.
pub proof fn law_init_options_lead_args(b: GDBBuilder)
    ensures
        b.spec_gdb_args().take(b.spec_init_options().len() as int) == b.spec_init_options(),
{
    let init = b.spec_init_options();
    let s1 = init + flag_arg(b.opt_quiet, "--quiet"@);
    let s2 = s1 + path_arg("--cd="@, b.opt_cd);
    let s3 = s2 + match b.opt_bps {
        Some(x) => seq!["-b"@, decimal(x as nat)],
        None => seq![],
    };
    let s4 = s3 + path_arg("--symbols="@, b.opt_symbol_file);
    let s5 = s4 + path_arg("--core="@, b.opt_core_file);
    let s6 = s5 + match b.opt_proc_id {
        Some(p) => seq!["--pid="@ + decimal(p as nat)],
        None => seq![],
    };
    let s7 = s6 + path_arg("--command="@, b.opt_command);
    let s8 = s7 + path_arg("--directory="@, b.opt_source_dir);
    let s9 = s8 + path_arg("--tty="@, b.opt_tty);
    let s10 = s9 + b.spec_program_args();
    assert(init.take(init.len() as int) =~= init);
    lemma_prefix_kept(init, flag_arg(b.opt_quiet, "--quiet"@), init);
    lemma_prefix_kept(s1, path_arg("--cd="@, b.opt_cd), init);
    lemma_prefix_kept(s2, s3.skip(s2.len() as int), init);
    assert(s2 + s3.skip(s2.len() as int) =~= s3);
    lemma_prefix_kept(s3, path_arg("--symbols="@, b.opt_symbol_file), init);
    lemma_prefix_kept(s4, path_arg("--core="@, b.opt_core_file), init);
    lemma_prefix_kept(s5, s6.skip(s5.len() as int), init);
    assert(s5 + s6.skip(s5.len() as int) =~= s6);
    lemma_prefix_kept(s6, path_arg("--command="@, b.opt_command), init);
    lemma_prefix_kept(s7, path_arg("--directory="@, b.opt_source_dir), init);
    lemma_prefix_kept(s8, path_arg("--tty="@, b.opt_tty), init);
    lemma_prefix_kept(s9, b.spec_program_args(), init);
    assert(b.spec_gdb_args() == s10);
}

/// With program arguments, GDB's arguments end with `--args`, the program,
/// and those arguments in their order.
pub proof fn law_program_arguments_last(b: GDBBuilder)
    requires
        b.opt_args.len() > 0,
        b.opt_program is Some,
    ensures
        ({
            let all = b.spec_gdb_args();
            let tail = seq!["--args"@, b.opt_program->0@] + b.opt_args.deep_view();
            all.len() >= tail.len() && all.skip(all.len() - tail.len()) == tail
        }),
{
    let all = b.spec_gdb_args();
    let tail = seq!["--args"@, b.opt_program->0@] + b.opt_args.deep_view();
    let head = all.take(all.len() - b.spec_program_args().len());
    assert(b.spec_program_args() == tail);
    assert(all.skip(all.len() - tail.len()) =~= tail);
}


/// `x` directly followed by `y` somewhere in `s`.
pub open spec fn has_pair(s: Seq<Seq<char>>, x: Seq<char>, y: Seq<char>) -> bool {
    exists|i: int| 0 <= i && i + 1 < s.len() && #[trigger] s[i] == x && s[i + 1] == y
}

proof fn lemma_contains_left(a: Seq<Seq<char>>, b: Seq<Seq<char>>, x: Seq<char>)
    requires
        a.contains(x),
    ensures
        (a + b).contains(x),
{
    let i = choose|i: int| 0 <= i < a.len() && a[i] == x;
    assert((a + b)[i] == x);
}

proof fn lemma_contains_right(a: Seq<Seq<char>>, b: Seq<Seq<char>>, x: Seq<char>)
    requires
        b.contains(x),
    ensures
        (a + b).contains(x),
{
    let i = choose|i: int| 0 <= i < b.len() && b[i] == x;
    assert((a + b)[a.len() + i] == x);
}

proof fn lemma_pair_left(a: Seq<Seq<char>>, b: Seq<Seq<char>>, x: Seq<char>, y: Seq<char>)
    requires
        has_pair(a, x, y),
    ensures
        has_pair(a + b, x, y),
{
    let i = choose|i: int| 0 <= i && i + 1 < a.len() && #[trigger] a[i] == x && a[i + 1] == y;
    assert((a + b)[i] == x);
    assert((a + b)[i + 1] == y);
}

proof fn lemma_pair_right(a: Seq<Seq<char>>, b: Seq<Seq<char>>, x: Seq<char>, y: Seq<char>)
    requires
        has_pair(b, x, y),
    ensures
        has_pair(a + b, x, y),
{
    let i = choose|i: int| 0 <= i && i + 1 < b.len() && #[trigger] b[i] == x && b[i + 1] == y;
    assert((a + b)[a.len() + i] == x);
    assert((a + b)[a.len() + i + 1] == y);
}

/// 1 when `o` is given, 0 otherwise.
pub open spec fn given<T>(o: Option<T>) -> nat {
    if o is Some {
        1
    } else {
        0
    }
}

/// 1 when `on` holds, 0 otherwise.
pub open spec fn count(on: bool) -> nat {
    if on {
        1
    } else {
        0
    }
}

/// Every option that is set shows up among GDB's arguments, whatever the
/// other options are: each flag as itself, each path behind its own prefix,
/// the baud rate as `-b` directly followed by its decimal writing, and the
/// PID behind `--pid=`.
pub proof fn law_each_option_is_passed(b: GDBBuilder)
    ensures
        b.opt_nh ==> b.spec_gdb_args().contains("--nh"@),
        b.opt_nx ==> b.spec_gdb_args().contains("--nx"@),
        b.opt_quiet ==> b.spec_gdb_args().contains("--quiet"@),
        b.opt_cd matches Some(p) ==> b.spec_gdb_args().contains("--cd="@ + p@),
        b.opt_bps matches Some(n) ==> has_pair(b.spec_gdb_args(), "-b"@, decimal(n as nat)),
        b.opt_symbol_file matches Some(p) ==> b.spec_gdb_args().contains("--symbols="@ + p@),
        b.opt_core_file matches Some(p) ==> b.spec_gdb_args().contains("--core="@ + p@),
        b.opt_proc_id matches Some(n) ==> b.spec_gdb_args().contains("--pid="@ + decimal(n as nat)),
        b.opt_command matches Some(p) ==> b.spec_gdb_args().contains("--command="@ + p@),
        b.opt_source_dir matches Some(p) ==> b.spec_gdb_args().contains("--directory="@ + p@),
        b.opt_tty matches Some(p) ==> b.spec_gdb_args().contains("--tty="@ + p@),
{
    let p1 = flag_arg(b.opt_nh, "--nh"@);
    let p2 = flag_arg(b.opt_nx, "--nx"@);
    let p3 = flag_arg(b.opt_quiet, "--quiet"@);
    let p4 = path_arg("--cd="@, b.opt_cd);
    let p5 = match b.opt_bps {
        Some(x) => seq!["-b"@, decimal(x as nat)],
        None => Seq::<Seq<char>>::empty(),
    };
    let p6 = path_arg("--symbols="@, b.opt_symbol_file);
    let p7 = path_arg("--core="@, b.opt_core_file);
    let p8 = match b.opt_proc_id {
        Some(x) => seq!["--pid="@ + decimal(x as nat)],
        None => Seq::<Seq<char>>::empty(),
    };
    let p9 = path_arg("--command="@, b.opt_command);
    let p10 = path_arg("--directory="@, b.opt_source_dir);
    let p11 = path_arg("--tty="@, b.opt_tty);
    let p12 = b.spec_program_args();
    let s1 = p1;
    let s2 = s1 + p2;
    let s3 = s2 + p3;
    let s4 = s3 + p4;
    let s5 = s4 + p5;
    let s6 = s5 + p6;
    let s7 = s6 + p7;
    let s8 = s7 + p8;
    let s9 = s8 + p9;
    let s10 = s9 + p10;
    let s11 = s10 + p11;
    let s12 = s11 + p12;
    assert(b.spec_gdb_args() == s12);
    if b.opt_nh {
        assert(p1[0] == "--nh"@);
        assert(p1.contains("--nh"@));
        lemma_contains_left(s1, p2, "--nh"@);
        lemma_contains_left(s2, p3, "--nh"@);
        lemma_contains_left(s3, p4, "--nh"@);
        lemma_contains_left(s4, p5, "--nh"@);
        lemma_contains_left(s5, p6, "--nh"@);
        lemma_contains_left(s6, p7, "--nh"@);
        lemma_contains_left(s7, p8, "--nh"@);
        lemma_contains_left(s8, p9, "--nh"@);
        lemma_contains_left(s9, p10, "--nh"@);
        lemma_contains_left(s10, p11, "--nh"@);
        lemma_contains_left(s11, p12, "--nh"@);
    }
    if b.opt_nx {
        assert(p2[0] == "--nx"@);
        assert(p2.contains("--nx"@));
        lemma_contains_right(s1, p2, "--nx"@);
        lemma_contains_left(s2, p3, "--nx"@);
        lemma_contains_left(s3, p4, "--nx"@);
        lemma_contains_left(s4, p5, "--nx"@);
        lemma_contains_left(s5, p6, "--nx"@);
        lemma_contains_left(s6, p7, "--nx"@);
        lemma_contains_left(s7, p8, "--nx"@);
        lemma_contains_left(s8, p9, "--nx"@);
        lemma_contains_left(s9, p10, "--nx"@);
        lemma_contains_left(s10, p11, "--nx"@);
        lemma_contains_left(s11, p12, "--nx"@);
    }
    if b.opt_quiet {
        assert(p3[0] == "--quiet"@);
        assert(p3.contains("--quiet"@));
        lemma_contains_right(s2, p3, "--quiet"@);
        lemma_contains_left(s3, p4, "--quiet"@);
        lemma_contains_left(s4, p5, "--quiet"@);
        lemma_contains_left(s5, p6, "--quiet"@);
        lemma_contains_left(s6, p7, "--quiet"@);
        lemma_contains_left(s7, p8, "--quiet"@);
        lemma_contains_left(s8, p9, "--quiet"@);
        lemma_contains_left(s9, p10, "--quiet"@);
        lemma_contains_left(s10, p11, "--quiet"@);
        lemma_contains_left(s11, p12, "--quiet"@);
    }
    if b.opt_cd is Some {
        assert(p4[0] == "--cd="@ + b.opt_cd->0@);
        assert(p4.contains("--cd="@ + b.opt_cd->0@));
        lemma_contains_right(s3, p4, "--cd="@ + b.opt_cd->0@);
        lemma_contains_left(s4, p5, "--cd="@ + b.opt_cd->0@);
        lemma_contains_left(s5, p6, "--cd="@ + b.opt_cd->0@);
        lemma_contains_left(s6, p7, "--cd="@ + b.opt_cd->0@);
        lemma_contains_left(s7, p8, "--cd="@ + b.opt_cd->0@);
        lemma_contains_left(s8, p9, "--cd="@ + b.opt_cd->0@);
        lemma_contains_left(s9, p10, "--cd="@ + b.opt_cd->0@);
        lemma_contains_left(s10, p11, "--cd="@ + b.opt_cd->0@);
        lemma_contains_left(s11, p12, "--cd="@ + b.opt_cd->0@);
    }
    if b.opt_bps is Some {
        assert(p5[0] == "-b"@ && p5[1] == decimal(b.opt_bps->0 as nat));
        assert(has_pair(p5, "-b"@, decimal(b.opt_bps->0 as nat)));
        lemma_pair_right(s4, p5, "-b"@, decimal(b.opt_bps->0 as nat));
        lemma_pair_left(s5, p6, "-b"@, decimal(b.opt_bps->0 as nat));
        lemma_pair_left(s6, p7, "-b"@, decimal(b.opt_bps->0 as nat));
        lemma_pair_left(s7, p8, "-b"@, decimal(b.opt_bps->0 as nat));
        lemma_pair_left(s8, p9, "-b"@, decimal(b.opt_bps->0 as nat));
        lemma_pair_left(s9, p10, "-b"@, decimal(b.opt_bps->0 as nat));
        lemma_pair_left(s10, p11, "-b"@, decimal(b.opt_bps->0 as nat));
        lemma_pair_left(s11, p12, "-b"@, decimal(b.opt_bps->0 as nat));
    }
    if b.opt_symbol_file is Some {
        assert(p6[0] == "--symbols="@ + b.opt_symbol_file->0@);
        assert(p6.contains("--symbols="@ + b.opt_symbol_file->0@));
        lemma_contains_right(s5, p6, "--symbols="@ + b.opt_symbol_file->0@);
        lemma_contains_left(s6, p7, "--symbols="@ + b.opt_symbol_file->0@);
        lemma_contains_left(s7, p8, "--symbols="@ + b.opt_symbol_file->0@);
        lemma_contains_left(s8, p9, "--symbols="@ + b.opt_symbol_file->0@);
        lemma_contains_left(s9, p10, "--symbols="@ + b.opt_symbol_file->0@);
        lemma_contains_left(s10, p11, "--symbols="@ + b.opt_symbol_file->0@);
        lemma_contains_left(s11, p12, "--symbols="@ + b.opt_symbol_file->0@);
    }
    if b.opt_core_file is Some {
        assert(p7[0] == "--core="@ + b.opt_core_file->0@);
        assert(p7.contains("--core="@ + b.opt_core_file->0@));
        lemma_contains_right(s6, p7, "--core="@ + b.opt_core_file->0@);
        lemma_contains_left(s7, p8, "--core="@ + b.opt_core_file->0@);
        lemma_contains_left(s8, p9, "--core="@ + b.opt_core_file->0@);
        lemma_contains_left(s9, p10, "--core="@ + b.opt_core_file->0@);
        lemma_contains_left(s10, p11, "--core="@ + b.opt_core_file->0@);
        lemma_contains_left(s11, p12, "--core="@ + b.opt_core_file->0@);
    }
    if b.opt_proc_id is Some {
        assert(p8[0] == "--pid="@ + decimal(b.opt_proc_id->0 as nat));
        assert(p8.contains("--pid="@ + decimal(b.opt_proc_id->0 as nat)));
        lemma_contains_right(s7, p8, "--pid="@ + decimal(b.opt_proc_id->0 as nat));
        lemma_contains_left(s8, p9, "--pid="@ + decimal(b.opt_proc_id->0 as nat));
        lemma_contains_left(s9, p10, "--pid="@ + decimal(b.opt_proc_id->0 as nat));
        lemma_contains_left(s10, p11, "--pid="@ + decimal(b.opt_proc_id->0 as nat));
        lemma_contains_left(s11, p12, "--pid="@ + decimal(b.opt_proc_id->0 as nat));
    }
    if b.opt_command is Some {
        assert(p9[0] == "--command="@ + b.opt_command->0@);
        assert(p9.contains("--command="@ + b.opt_command->0@));
        lemma_contains_right(s8, p9, "--command="@ + b.opt_command->0@);
        lemma_contains_left(s9, p10, "--command="@ + b.opt_command->0@);
        lemma_contains_left(s10, p11, "--command="@ + b.opt_command->0@);
        lemma_contains_left(s11, p12, "--command="@ + b.opt_command->0@);
    }
    if b.opt_source_dir is Some {
        assert(p10[0] == "--directory="@ + b.opt_source_dir->0@);
        assert(p10.contains("--directory="@ + b.opt_source_dir->0@));
        lemma_contains_right(s9, p10, "--directory="@ + b.opt_source_dir->0@);
        lemma_contains_left(s10, p11, "--directory="@ + b.opt_source_dir->0@);
        lemma_contains_left(s11, p12, "--directory="@ + b.opt_source_dir->0@);
    }
    if b.opt_tty is Some {
        assert(p11[0] == "--tty="@ + b.opt_tty->0@);
        assert(p11.contains("--tty="@ + b.opt_tty->0@));
        lemma_contains_right(s10, p11, "--tty="@ + b.opt_tty->0@);
        lemma_contains_left(s11, p12, "--tty="@ + b.opt_tty->0@);
    }
}

/// The program, when no program arguments are given, is GDB's last
/// argument; and each option adds exactly its own arguments: the number of
/// arguments is the sum of what each option adds.
pub proof fn law_arguments_add_up(b: GDBBuilder)
    ensures
        (b.opt_args.len() == 0 && b.opt_program is Some) ==> (b.spec_gdb_args().len() > 0
            && b.spec_gdb_args().last() == b.opt_program->0@),
        b.spec_gdb_args().len() == count(b.opt_nh) + count(b.opt_nx) + count(b.opt_quiet) + given(
            b.opt_cd,
        ) + 2 * given(b.opt_bps) + given(b.opt_symbol_file) + given(b.opt_core_file) + given(
            b.opt_proc_id,
        ) + given(b.opt_command) + given(b.opt_source_dir) + given(b.opt_tty) + (if b.opt_args.len()
            > 0 {
            2 + b.opt_args.len()
        } else {
            given(b.opt_program) as int
        }),
{
    let p12 = b.spec_program_args();
    let head = flag_arg(b.opt_nh, "--nh"@) + flag_arg(b.opt_nx, "--nx"@) + flag_arg(
        b.opt_quiet,
        "--quiet"@,
    ) + path_arg("--cd="@, b.opt_cd) + match b.opt_bps {
        Some(x) => seq!["-b"@, decimal(x as nat)],
        None => Seq::<Seq<char>>::empty(),
    } + path_arg("--symbols="@, b.opt_symbol_file) + path_arg("--core="@, b.opt_core_file)
        + match b.opt_proc_id {
        Some(x) => seq!["--pid="@ + decimal(x as nat)],
        None => Seq::<Seq<char>>::empty(),
    } + path_arg("--command="@, b.opt_command) + path_arg("--directory="@, b.opt_source_dir)
        + path_arg("--tty="@, b.opt_tty);
    assert(b.spec_gdb_args() == head + p12);
    if b.opt_args.len() == 0 && b.opt_program is Some {
        assert(p12 == seq![b.opt_program->0@]);
        assert((head + p12).last() == p12.last());
    }
    if b.opt_args.len() > 0 {
        assert(p12.len() == 2 + b.opt_args.deep_view().len());
    }
}


/// The options a restart repeats are exactly the init-file flags that are
/// set: `--nh` is among them exactly when `opt_nh` holds, `--nx` exactly when
/// `opt_nx` holds, and there is nothing else.
pub proof fn law_init_options_are_the_init_flags(b: GDBBuilder)
    ensures
        b.spec_init_options().contains("--nh"@) <==> b.opt_nh,
        b.spec_init_options().contains("--nx"@) <==> b.opt_nx,
        b.spec_init_options().len() == count(b.opt_nh) + count(b.opt_nx),
        forall|i: int|
            0 <= i < b.spec_init_options().len() ==> #[trigger] b.spec_init_options()[i] == "--nh"@
                || b.spec_init_options()[i] == "--nx"@,
{
    reveal_strlit("--nh");
    reveal_strlit("--nx");
    assert("--nh"@[3] != "--nx"@[3]);
    let init = b.spec_init_options();
    let nh = flag_arg(b.opt_nh, "--nh"@);
    let nx = flag_arg(b.opt_nx, "--nx"@);
    assert(init == nh + nx);
    if b.opt_nh {
        assert(init[0] == "--nh"@);
    }
    if b.opt_nx {
        assert(init[init.len() - 1] == "--nx"@);
    }
    if init.contains("--nh"@) {
        let i = choose|i: int| 0 <= i < init.len() && init[i] == "--nh"@;
        if !b.opt_nh {
            assert(init[i] == nx[i]);
        }
    }
    if init.contains("--nx"@) {
        let i = choose|i: int| 0 <= i < init.len() && init[i] == "--nx"@;
        if !b.opt_nx {
            assert(init[i] == nh[i]);
        }
    }
}

} // verus!
