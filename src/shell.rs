use vstd::prelude::*;
use crate::env::{EnvStorage, expand_from, expand_env_vars, listed, MAX_ENTRY, MAX_NAME, MAX_VARS};
use crate::session::{ShellSession, ring_after_write};
use crate::text::{
    export_full,
    export_full_spec,
    export_invalid,
    export_invalid_spec,
    pwd_error_local,
    pwd_error_local_spec,
    cd_missing,
    cd_missing_spec,
    cd_no_dir,
    cd_no_dir_spec,
    cd_prefix,
    cd_prefix_spec,
    cmd_cd,
    cmd_cd_spec,
    cmd_echo,
    cmd_echo_spec,
    cmd_env,
    cmd_env_spec,
    cmd_exit,
    cmd_exit_spec,
    cmd_export,
    cmd_export_spec,
    cmd_ls,
    cmd_ls_spec,
    cmd_pwd,
    cmd_pwd_spec,
    cmd_threads,
    cmd_threads_spec,
    ls_error,
    ls_error_spec,
    newline,
    newline_spec,
    no_external,
    no_external_spec,
    pwd_error,
    pwd_error_spec,
    separator,
    separator_spec,
    session_closed,
    session_closed_spec,
    threads_prefix,
    threads_prefix_spec,
    threads_sep,
    threads_sep_spec,
};
use crate::util::{
    bytes_equal,
    decimal_spec,
    decimal_text,
    first_space,
    sort_entries,
    sorted_names,
    split_first_word,
    trim_newline,
    trim_spaces,
    trim_spaces_spec,
    trimmed_newline_len,
};

verus! {

/// Longest expansion an `echo` or `cd` argument keeps.
pub const EXPAND_CAP: usize = 512;

/// Work the interpreter needs from outside before a command can finish.
pub enum ShellRequest {
    /// The command is complete.
    Done,
    /// Print the working directory (see `builtin_pwd`).
    Pwd,
    /// Change to this directory (see `builtin_cd`).
    Cd(Vec<u8>),
    /// List this directory, `.` when empty (see `builtin_ls`).
    Ls(Vec<u8>),
}

/// What a `ShellRequest` asks for, over plain sequences.
pub enum Pending {
    Done,
    Pwd,
    Cd(Seq<u8>),
    Ls(Seq<u8>),
}

impl ShellRequest {
    pub open spec fn view(&self) -> Pending {
        match self {
            ShellRequest::Done => Pending::Done,
            ShellRequest::Pwd => Pending::Pwd,
            ShellRequest::Cd(p) => Pending::Cd(p@),
            ShellRequest::Ls(p) => Pending::Ls(p@),
        }
    }

    pub fn is_done(&self) -> (r: bool)
        ensures
            r == (self@ == Pending::Done),
    {
        match self {
            ShellRequest::Done => true,
            _ => false,
        }
    }
}

/// At most the first `n` bytes of `s`.
pub open spec fn cap_bytes(s: Seq<u8>, n: nat) -> Seq<u8> {
    if s.len() <= n {
        s
    } else {
        s.take(n as int)
    }
}

/// Index of the first `b` in `s`, if any.
pub open spec fn first_index(s: Seq<u8>, b: u8) -> Option<nat>
    decreases s.len(),
{
    if s.len() == 0 {
        None
    } else if s[0] == b {
        Some(0)
    } else {
        match first_index(s.drop_first(), b) {
            Some(i) => Some(i + 1),
            None => None,
        }
    }
}

/// The command line without its line ending.
pub open spec fn command_line(cmd: Seq<u8>) -> Seq<u8> {
    cmd.take(trimmed_newline_len(cmd) as int)
}

/// The first word of a line.
pub open spec fn program_of(c: Seq<u8>) -> Seq<u8> {
    match first_space(c) {
        Some(i) => c.take(i as int),
        None => c,
    }
}

/// Everything after the first space of a line.
pub open spec fn args_of(c: Seq<u8>) -> Seq<u8> {
    match first_space(c) {
        Some(i) => c.skip(i + 1 as int),
        None => seq![],
    }
}

/// Each text followed by a newline, all joined.
pub open spec fn lines_of(ts: Seq<Seq<u8>>) -> Seq<u8>
    decreases ts.len(),
{
    if ts.len() == 0 {
        seq![]
    } else {
        lines_of(ts.drop_last()) + ts.last() + newline_spec()
    }
}

/// Names joined by two spaces.
pub open spec fn join_names(ns: Seq<Seq<u8>>) -> Seq<u8>
    decreases ns.len(),
{
    if ns.len() == 0 {
        seq![]
    } else if ns.len() == 1 {
        ns[0]
    } else {
        join_names(ns.drop_last()) + separator_spec() + ns.last()
    }
}

/// What `echo ARGS` writes at the local prompt: the expanded arguments and a newline.
pub open spec fn local_echo_output(args: Seq<u8>, env: Seq<Seq<u8>>) -> Seq<u8> {
    cap_bytes(expand_from(args, 0, env), EXPAND_CAP as nat) + newline_spec()
}

/// What `echo ARGS` writes in a session: the trimmed, expanded arguments and a newline.
pub open spec fn echo_output(args: Seq<u8>, env: Seq<Seq<u8>>) -> Seq<u8> {
    local_echo_output(trim_spaces_spec(args), env)
}

/// What `threads` writes.
pub open spec fn threads_output(active: usize, total: usize) -> Seq<u8> {
    threads_prefix_spec() + decimal_spec(active as nat) + threads_sep_spec() + decimal_spec(
        total as nat,
    ) + newline_spec()
}

/// The table accepts `NAME=VALUE`.
pub open spec fn set_accepted(env: Seq<Seq<u8>>, name: Seq<u8>, value: Seq<u8>) -> bool {
    env.len() < MAX_VARS && name.len() <= MAX_NAME && name.len() + 1 + value.len() <= MAX_ENTRY
}

/// What `export ARGS` writes and the table after it. Without arguments it lists the table;
/// with `NAME=VALUE` (split at the first `=`) it appends the variable. At the local prompt
/// (`local`) a refused entry and a missing `=` are reported; in a session they are silent.
pub open spec fn export_effect(args: Seq<u8>, env: Seq<Seq<u8>>, local: bool) -> (
    Seq<u8>,
    Seq<Seq<u8>>,
) {
    let t = trim_spaces_spec(args);
    if t.len() == 0 {
        (lines_of(listed(env)), env)
    } else {
        match first_index(t, 61u8) {
            Some(i) => {
                let name = t.take(i as int);
                let value = t.skip(i + 1 as int);
                if set_accepted(env, name, value) {
                    (seq![], env.push(name + seq![61u8] + value))
                } else if local {
                    (export_full_spec(), env)
                } else {
                    (seq![], env)
                }
            },
            None => if local {
                (export_invalid_spec(), env)
            } else {
                (seq![], env)
            },
        }
    }
}

/// The view of an optional byte slice.
pub open spec fn opt_view(cwd: Option<&[u8]>) -> Option<Seq<u8>> {
    match cwd {
        Some(c) => Some(c@),
        None => None,
    }
}

/// What `pwd` writes for what `getcwd` gave: the directory and a newline, else an error
/// line. At the local prompt the directory must also be shorter than 512 bytes, and the
/// error line is the longer one.
pub open spec fn pwd_output(cwd: Option<Seq<u8>>, local: bool) -> Seq<u8> {
    match cwd {
        Some(c) => if c.len() > 0 && (!local || c.len() < 512) {
            c + newline_spec()
        } else if local {
            pwd_error_local_spec()
        } else {
            pwd_error_spec()
        },
        None => if local {
            pwd_error_local_spec()
        } else {
            pwd_error_spec()
        },
    }
}

/// Output, table and pending work of one command line. `local` selects the local prompt's
/// `echo` (arguments as given) and `export` (refusals reported).
pub open spec fn command_effect(
    cmd: Seq<u8>,
    env: Seq<Seq<u8>>,
    active: usize,
    total: usize,
    local: bool,
) -> (Seq<u8>, Seq<Seq<u8>>, Pending) {
    let c = command_line(cmd);
    let p = program_of(c);
    let a = args_of(c);
    if c.len() == 0 {
        (seq![], env, Pending::Done)
    } else if c == cmd_exit_spec() {
        (session_closed_spec(), env, Pending::Done)
    } else if p == cmd_pwd_spec() {
        (seq![], env, Pending::Pwd)
    } else if p == cmd_cd_spec() {
        let t = trim_spaces_spec(a);
        if t.len() == 0 {
            (cd_missing_spec(), env, Pending::Done)
        } else {
            (seq![], env, Pending::Cd(cap_bytes(expand_from(t, 0, env), EXPAND_CAP as nat)))
        }
    } else if p == cmd_ls_spec() {
        (seq![], env, Pending::Ls(trim_spaces_spec(a)))
    } else if p == cmd_echo_spec() {
        (
            if local {
                local_echo_output(a, env)
            } else {
                echo_output(a, env)
            },
            env,
            Pending::Done,
        )
    } else if p == cmd_export_spec() {
        (export_effect(a, env, local).0, export_effect(a, env, local).1, Pending::Done)
    } else if p == cmd_env_spec() {
        (export_effect(seq![], env, local).0, env, Pending::Done)
    } else if p == cmd_threads_spec() {
        (threads_output(active, total), env, Pending::Done)
    } else {
        (no_external_spec(), env, Pending::Done)
    }
}

/// Output, table and pending work of one command line in a session.
pub open spec fn session_command(cmd: Seq<u8>, env: Seq<Seq<u8>>, active: usize, total: usize) -> (
    Seq<u8>,
    Seq<Seq<u8>>,
    Pending,
) {
    command_effect(cmd, env, active, total, false)
}

/// Output, table and pending work of one built-in run at the local prompt.
pub open spec fn local_command(cmd: Seq<u8>, env: Seq<Seq<u8>>, active: usize, total: usize) -> (
    Seq<u8>,
    Seq<Seq<u8>>,
    Pending,
) {
    command_effect(cmd, env, active, total, true)
}

/// Appends `data` to `out`.
pub fn append_bytes(out: &mut Vec<u8>, data: &[u8])
    ensures
        final(out)@ == old(out)@ + data@,
{
    let mut i: usize = 0;
    while i < data.len()
        invariant
            i <= data@.len(),
            out@ == old(out)@ + data@.take(i as int),
        decreases data@.len() - i,
    {
        out.push(data[i]);
        proof {
            assert(old(out)@ + data@.take(i + 1) =~= (old(out)@ + data@.take(i as int)).push(
                data@[i as int],
            ));
        }
        i += 1;
    }
    proof {
        assert(data@.take(i as int) =~= data@);
    }
}

/// The expansion of `s`, at most 512 bytes of it.
fn expand_capped(s: &[u8], env: &EnvStorage) -> (r: Vec<u8>)
    ensures
        r@ == cap_bytes(expand_from(s@, 0, env@), EXPAND_CAP as nat),
{
    let mut buf: Vec<u8> = vec![0u8; EXPAND_CAP];
    let n = expand_env_vars(s, buf.as_mut_slice(), env);
    let mut out: Vec<u8> = Vec::new();
    let mut i: usize = 0;
    while i < n
        invariant
            i <= n,
            n <= buf@.len(),
            out@ == buf@.take(i as int),
        decreases n - i,
    {
        out.push(buf[i]);
        proof {
            assert(buf@.take(i + 1) =~= buf@.take(i as int).push(buf@[i as int]));
        }
        i += 1;
    }
    proof {
        let e = expand_from(s@, 0, env@);
        assert(buf@.take(n as int) =~= e.take(n as int));
        if e.len() <= EXPAND_CAP {
            assert(e.take(n as int) =~= e);
        }
    }
    out
}

pub proof fn lemma_first_index_bound(s: Seq<u8>, b: u8)
    ensures
        first_index(s, b) matches Some(j) ==> j < s.len() && s[j as int] == b,
    decreases s.len(),
{
    if s.len() > 0 && s[0] != b {
        lemma_first_index_bound(s.drop_first(), b);
    }
}

/// Index of the first `b` in `s`, if any.
fn find_byte(s: &[u8], b: u8) -> (r: Option<usize>)
    ensures
        match first_index(s@, b) {
            Some(i) => r == Some(i as usize) && i < s@.len(),
            None => r.is_none(),
        },
{
    let mut i: usize = 0;
    proof {
        assert(s@.skip(0) =~= s@);
        lemma_first_index_bound(s@, b);
    }
    while i < s.len()
        invariant
            i <= s@.len(),
            first_index(s@, b) == (match first_index(s@.skip(i as int), b) {
                Some(j) => Some((j + i) as nat),
                None => None::<nat>,
            }),
        decreases s@.len() - i,
    {
        assert(s@.skip(i as int).drop_first() =~= s@.skip(i + 1));
        if s[i] == b {
            return Some(i);
        }
        i += 1;
    }
    None
}

/// Every variable as a `NAME=VALUE` line.
fn env_listing(env: &EnvStorage) -> (r: Vec<u8>)
    ensures
        r@ == lines_of(listed(env@)),
{
    let entries = env.iter();
    let mut out: Vec<u8> = Vec::new();
    let mut i: usize = 0;
    while i < entries.len()
        invariant
            i <= entries@.len(),
            entries.deep_view() == listed(env@),
            out@ == lines_of(entries.deep_view().take(i as int)),
        decreases entries@.len() - i,
    {
        append_bytes(&mut out, entries[i].as_slice());
        let nl = newline();
        append_bytes(&mut out, nl.as_slice());
        proof {
            let d = entries.deep_view();
            assert(d.take(i + 1).drop_last() =~= d.take(i as int));
            assert(d[i as int] == entries@[i as int]@);
        }
        i += 1;
    }
    proof {
        assert(entries.deep_view().take(i as int) =~= entries.deep_view());
    }
    out
}

/// The session write every session built-in ends with.
fn write_all_output(session: &mut ShellSession, out: Vec<u8>)
    requires
        old(session).wf(),
    ensures
        final(session).wf(),
        final(session).written() == ring_after_write(old(session).written(), out@),
        final(session).read_cursor() == old(session).read_cursor(),
        final(session).input_spec() == old(session).input_spec(),
        final(session).active_spec() == old(session).active_spec(),
{
    session.write_output(out.as_slice());
}

/// `echo ARGS` at the local prompt: the expanded arguments (as given) and a newline.
pub fn builtin_echo(env: &EnvStorage, args: &[u8]) -> (r: Vec<u8>)
    ensures
        r@ == local_echo_output(args@, env@),
{
    let mut out = expand_capped(args, env);
    let nl = newline();
    append_bytes(&mut out, nl.as_slice());
    out
}

/// `echo ARGS` in a session: writes the trimmed, expanded arguments and a newline.
pub fn execute_builtin_echo(session: &mut ShellSession, env: &EnvStorage, args: &[u8])
    requires
        old(session).wf(),
    ensures
        final(session).wf(),
        final(session).written() == ring_after_write(old(session).written(), echo_output(args@, env@)),
        final(session).read_cursor() == old(session).read_cursor(),
        final(session).input_spec() == old(session).input_spec(),
        final(session).active_spec() == old(session).active_spec(),
{
    let t = trim_spaces(args);
    let out = builtin_echo(env, t);
    write_all_output(session, out);
}

/// Runs `export ARGS` on the table and returns what it writes (see `export_effect`).
fn export_step(env: &mut EnvStorage, args: &[u8], local: bool) -> (r: Vec<u8>)
    requires
        old(env).wf(),
    ensures
        final(env).wf(),
        r@ == export_effect(args@, old(env)@, local).0,
        final(env)@ == export_effect(args@, old(env)@, local).1,
{
    let t = trim_spaces(args);
    if t.len() == 0 {
        return env_listing(env);
    }
    match find_byte(t, 61u8) {
        Some(i) => {
            let name = vstd::slice::slice_subrange(t, 0, i);
            let value = vstd::slice::slice_subrange(t, i + 1, t.len());
            proof {
                assert(value@ =~= t@.skip(i + 1 as int));
            }
            if env.set(name, value) {
                let r: Vec<u8> = Vec::new();
                proof {
                    assert(r@ =~= seq![]);
                }
                r
            } else if local {
                export_full()
            } else {
                let r: Vec<u8> = Vec::new();
                proof {
                    assert(r@ =~= seq![]);
                }
                r
            }
        },
        None => {
            if local {
                export_invalid()
            } else {
                let r: Vec<u8> = Vec::new();
                proof {
                    assert(r@ =~= seq![]);
                }
                r
            }
        },
    }
}

/// `export ARGS` at the local prompt: lists the table, or sets `NAME=VALUE`, reporting a
/// refused entry or a missing `=`; returns what it prints.
pub fn builtin_export(env: &mut EnvStorage, args: &[u8]) -> (r: Vec<u8>)
    requires
        old(env).wf(),
    ensures
        final(env).wf(),
        r@ == export_effect(args@, old(env)@, true).0,
        final(env)@ == export_effect(args@, old(env)@, true).1,
{
    export_step(env, args, true)
}

/// `export ARGS` in a session: without arguments lists the table; with `NAME=VALUE` sets it.
pub fn execute_builtin_export(session: &mut ShellSession, env: &mut EnvStorage, args: &[u8])
    requires
        old(session).wf(),
        old(env).wf(),
    ensures
        final(session).wf(),
        final(env).wf(),
        final(session).written() == ring_after_write(
            old(session).written(),
            export_effect(args@, old(env)@, false).0,
        ),
        final(env)@ == export_effect(args@, old(env)@, false).1,
        final(session).read_cursor() == old(session).read_cursor(),
        final(session).input_spec() == old(session).input_spec(),
        final(session).active_spec() == old(session).active_spec(),
{
    let out = export_step(env, args, false);
    write_all_output(session, out);
}

/// What `threads` writes.
pub fn threads_text(active: usize, total: usize) -> (r: Vec<u8>)
    ensures
        r@ == threads_output(active, total),
{
    let mut out = threads_prefix();
    let a = decimal_text(active as u64);
    append_bytes(&mut out, a.as_slice());
    let sep = threads_sep();
    append_bytes(&mut out, sep.as_slice());
    let t = decimal_text(total as u64);
    append_bytes(&mut out, t.as_slice());
    let nl = newline();
    append_bytes(&mut out, nl.as_slice());
    out
}

/// `threads`: writes the number of registered threads and the registry's capacity.
pub fn builtin_threads(session: &mut ShellSession, active: usize, total: usize)
    requires
        old(session).wf(),
    ensures
        final(session).wf(),
        final(session).written() == ring_after_write(
            old(session).written(),
            threads_output(active, total),
        ),
        final(session).read_cursor() == old(session).read_cursor(),
        final(session).input_spec() == old(session).input_spec(),
        final(session).active_spec() == old(session).active_spec(),
{
    let out = threads_text(active, total);
    write_all_output(session, out);
}

fn pwd_text(cwd: Option<&[u8]>, local: bool) -> (r: Vec<u8>)
    ensures
        r@ == pwd_output(opt_view(cwd), local),
{
    match cwd {
        Some(c) => {
            if c.len() > 0 && (!local || c.len() < 512) {
                let mut out: Vec<u8> = Vec::new();
                append_bytes(&mut out, c);
                let nl = newline();
                append_bytes(&mut out, nl.as_slice());
                proof {
                    assert(out@ =~= c@ + newline_spec());
                }
                out
            } else if local {
                pwd_error_local()
            } else {
                pwd_error()
            }
        },
        None => if local {
            pwd_error_local()
        } else {
            pwd_error()
        },
    }
}

/// `pwd` at the local prompt, given what `getcwd` gave: the directory and a newline when it
/// is shorter than 512 bytes, else `pwd: error getting current directory`.
pub fn builtin_pwd(cwd: Option<&[u8]>) -> (r: Vec<u8>)
    ensures
        r@ == pwd_output(opt_view(cwd), true),
{
    pwd_text(cwd, true)
}

/// Finishes `pwd` in a session with what `getcwd` gave: the directory and a newline, or an
/// error line when there is none.
pub fn execute_builtin_pwd(session: &mut ShellSession, cwd: Option<&[u8]>)
    requires
        old(session).wf(),
    ensures
        final(session).wf(),
        final(session).written() == ring_after_write(
            old(session).written(),
            pwd_output(opt_view(cwd), false),
        ),
        final(session).read_cursor() == old(session).read_cursor(),
        final(session).input_spec() == old(session).input_spec(),
        final(session).active_spec() == old(session).active_spec(),
{
    let out = pwd_text(cwd, false);
    write_all_output(session, out);
}

/// What a failed `cd` writes.
pub open spec fn cd_failure_output(path: Seq<u8>) -> Seq<u8> {
    cd_prefix_spec() + path + cd_no_dir_spec()
}

/// What `cd PATH` writes once it is known whether the directory changed.
pub fn cd_text(path: &[u8], changed: bool) -> (r: Vec<u8>)
    ensures
        r@ == if changed {
            seq![]
        } else {
            cd_failure_output(path@)
        },
{
    if changed {
        let r: Vec<u8> = Vec::new();
        proof {
            assert(r@ =~= seq![]);
        }
        return r;
    }
    let mut out = cd_prefix();
    append_bytes(&mut out, path);
    let tail = cd_no_dir();
    append_bytes(&mut out, tail.as_slice());
    out
}

/// Finishes `cd PATH` with whether the directory was changed: nothing on success,
/// an error line naming the path otherwise.
pub fn builtin_cd(session: &mut ShellSession, path: &[u8], changed: bool)
    requires
        old(session).wf(),
    ensures
        final(session).wf(),
        final(session).written() == if changed {
            old(session).written()
        } else {
            ring_after_write(old(session).written(), cd_failure_output(path@))
        },
        final(session).read_cursor() == old(session).read_cursor(),
        final(session).input_spec() == old(session).input_spec(),
        final(session).active_spec() == old(session).active_spec(),
{
    proof {
        session.lemma_wf_bounds();
        assert(session.written() + seq![] =~= session.written());
    }
    let out = cd_text(path, changed);
    write_all_output(session, out);
}

/// What `ls` writes for the names it found: sorted, joined by two spaces, then a newline.
pub open spec fn ls_output(sorted: Seq<Seq<u8>>) -> Seq<u8> {
    if sorted.len() == 0 {
        seq![]
    } else {
        join_names(sorted) + newline_spec()
    }
}

/// What `ls` writes for the names read from the directory (`None` when it could not be
/// opened): the names in byte-wise order, joined by two spaces, with a final newline.
pub fn ls_text(names: Option<Vec<Vec<u8>>>) -> (r: Vec<u8>)
    ensures
        match names {
            None => r@ == ls_error_spec(),
            Some(ns) => exists|s: Seq<Vec<u8>>|
                {
                    &&& #[trigger] s.to_multiset() == ns@.to_multiset()
                    &&& sorted_names(s.map_values(|v: Vec<u8>| v@))
                    &&& r@ == ls_output(s.map_values(|v: Vec<u8>| v@))
                },
        },
{
    match names {
        None => ls_error(),
        Some(ns) => {
            let mut entries = ns;
            let ghost before = entries@;
            sort_entries(&mut entries);
            let mut out: Vec<u8> = Vec::new();
            let mut i: usize = 0;
            while i < entries.len()
                invariant
                    i <= entries@.len(),
                    out@ == join_names(entries.deep_view().take(i as int)),
                decreases entries@.len() - i,
            {
                let ghost d = entries.deep_view();
                if i > 0 {
                    let sep = separator();
                    append_bytes(&mut out, sep.as_slice());
                }
                append_bytes(&mut out, entries[i].as_slice());
                proof {
                    assert(d.take(i + 1).drop_last() =~= d.take(i as int));
                    assert(d[i as int] == entries@[i as int]@);
                    if i == 0 {
                        assert(join_names(d.take(0)) =~= seq![]);
                        assert(out@ =~= d.take(1)[0]);
                    }
                }
                i += 1;
            }
            if entries.len() > 0 {
                let nl = newline();
                append_bytes(&mut out, nl.as_slice());
            }
            proof {
                let d = entries.deep_view();
                assert(d.take(i as int) =~= d);
                assert forall|k: int| 0 <= k < d.len() implies d[k] == entries@.map_values(
                    |v: Vec<u8>| v@,
                )[k] by {}
                assert(d =~= entries@.map_values(|v: Vec<u8>| v@));
            }
            out
        },
    }
}

/// Finishes `ls` with the names read from the directory (`None` when it could not be
/// opened): writes them in byte-wise order, joined by two spaces, with a final newline.
pub fn builtin_ls(session: &mut ShellSession, names: Option<Vec<Vec<u8>>>)
    requires
        old(session).wf(),
    ensures
        final(session).wf(),
        match names {
            None => final(session).written() == ring_after_write(
                old(session).written(),
                ls_error_spec(),
            ),
            Some(ns) => exists|s: Seq<Vec<u8>>|
                {
                    &&& #[trigger] s.to_multiset() == ns@.to_multiset()
                    &&& sorted_names(s.map_values(|v: Vec<u8>| v@))
                    &&& final(session).written() == ring_after_write(
                        old(session).written(),
                        ls_output(s.map_values(|v: Vec<u8>| v@)),
                    )
                },
        },
        final(session).read_cursor() == old(session).read_cursor(),
        final(session).input_spec() == old(session).input_spec(),
        final(session).active_spec() == old(session).active_spec(),
{
    let ghost given = names;
    let out = ls_text(names);
    let ghost text = out@;
    write_all_output(session, out);
    proof {
        match given {
            None => {},
            Some(ns) => {
                let s = choose|s: Seq<Vec<u8>>|
                    {
                        &&& #[trigger] s.to_multiset() == ns@.to_multiset()
                        &&& sorted_names(s.map_values(|v: Vec<u8>| v@))
                        &&& text == ls_output(s.map_values(|v: Vec<u8>| v@))
                    };
                assert(s.to_multiset() == ns@.to_multiset());
            },
        }
    }
}

/// Runs one command line: what it writes, and the request for file-system work it
/// still needs (see `command_effect`).
fn command_step(env: &mut EnvStorage, active: usize, total: usize, cmd: &[u8], local: bool) -> (r: (
    Vec<u8>,
    ShellRequest,
))
    requires
        old(env).wf(),
    ensures
        final(env).wf(),
        r.0@ == command_effect(cmd@, old(env)@, active, total, local).0,
        final(env)@ == command_effect(cmd@, old(env)@, active, total, local).1,
        r.1@ == command_effect(cmd@, old(env)@, active, total, local).2,
{
    let empty: Vec<u8> = Vec::new();
    proof {
        assert(empty@ =~= seq![]);
    }
    let c = trim_newline(cmd);
    if c.len() == 0 {
        return (empty, ShellRequest::Done);
    }
    let exit = cmd_exit();
    if bytes_equal(c, exit.as_slice()) {
        return (session_closed(), ShellRequest::Done);
    }
    let (program, args) = split_first_word(c);
    proof {
        assert(program@ == program_of(c@));
        assert(args@ =~= args_of(c@));
    }
    let pwd = cmd_pwd();
    if bytes_equal(program, pwd.as_slice()) {
        return (empty, ShellRequest::Pwd);
    }
    let cd = cmd_cd();
    if bytes_equal(program, cd.as_slice()) {
        let t = trim_spaces(args);
        if t.len() == 0 {
            return (cd_missing(), ShellRequest::Done);
        }
        let p = expand_capped(t, env);
        return (empty, ShellRequest::Cd(p));
    }
    let ls = cmd_ls();
    if bytes_equal(program, ls.as_slice()) {
        let t = trim_spaces(args);
        let v = vstd::slice::slice_to_vec(t);
        return (empty, ShellRequest::Ls(v));
    }
    let echo = cmd_echo();
    if bytes_equal(program, echo.as_slice()) {
        if local {
            return (builtin_echo(env, args), ShellRequest::Done);
        }
        let t = trim_spaces(args);
        return (builtin_echo(env, t), ShellRequest::Done);
    }
    let export = cmd_export();
    if bytes_equal(program, export.as_slice()) {
        let out = export_step(env, args, local);
        return (out, ShellRequest::Done);
    }
    let envc = cmd_env();
    if bytes_equal(program, envc.as_slice()) {
        proof {
            assert(trim_spaces_spec(empty@) =~= seq![]);
        }
        let out = export_step(env, empty.as_slice(), local);
        return (out, ShellRequest::Done);
    }
    let threads = cmd_threads();
    if bytes_equal(program, threads.as_slice()) {
        return (threads_text(active, total), ShellRequest::Done);
    }
    (no_external(), ShellRequest::Done)
}

/// Runs one command line of a session. Built-ins that need the file system return the
/// request for it; everything else is finished here, its output written to the session.
pub fn execute_command_in_session(
    session: &mut ShellSession,
    env: &mut EnvStorage,
    active: usize,
    total: usize,
    cmd: &[u8],
) -> (r: ShellRequest)
    requires
        old(session).wf(),
        old(env).wf(),
    ensures
        final(session).wf(),
        final(env).wf(),
        final(session).written() == ring_after_write(
            old(session).written(),
            session_command(cmd@, old(env)@, active, total).0,
        ),
        final(env)@ == session_command(cmd@, old(env)@, active, total).1,
        r@ == session_command(cmd@, old(env)@, active, total).2,
        final(session).read_cursor() == old(session).read_cursor(),
        final(session).input_spec() == old(session).input_spec(),
        final(session).active_spec() == old(session).active_spec(),
{
    let (out, req) = command_step(env, active, total, cmd, false);
    write_all_output(session, out);
    req
}

/// Runs one built-in at the local prompt: returns what it prints and the request for
/// file-system work it still needs. `echo` takes its arguments as given and `export`
/// reports refusals (see `local_command`).
pub fn run_local_builtin(env: &mut EnvStorage, active: usize, total: usize, cmd: &[u8]) -> (r: (
    Vec<u8>,
    ShellRequest,
))
    requires
        old(env).wf(),
    ensures
        final(env).wf(),
        r.0@ == local_command(cmd@, old(env)@, active, total).0,
        final(env)@ == local_command(cmd@, old(env)@, active, total).1,
        r.1@ == local_command(cmd@, old(env)@, active, total).2,
{
    command_step(env, active, total, cmd, true)
}

/// What the local prompt does with a line.
pub enum LocalAction {
    /// Nothing to run.
    Nothing,
    /// Shut the process down.
    Exit,
    /// A built-in: run it with `run_local_builtin`.
    Builtin,
    /// Run this program from `PATH`.
    External(Vec<u8>),
}

/// The local prompt's programs that the interpreter runs.
pub open spec fn is_builtin_name(p: Seq<u8>) -> bool {
    p == cmd_cd_spec() || p == cmd_ls_spec() || p == cmd_pwd_spec() || p == cmd_export_spec() || p
        == cmd_echo_spec() || p == cmd_env_spec() || p == cmd_threads_spec()
}

/// Decides what the local prompt does with a line: nothing for an empty line, shutdown for
/// `exit`, the interpreter for a built-in, otherwise the named program.
pub fn execute_command(cmd: &[u8]) -> (r: LocalAction)
    ensures
        command_line(cmd@).len() == 0 ==> r is Nothing,
        command_line(cmd@).len() > 0 && command_line(cmd@) == cmd_exit_spec() ==> r is Exit,
        command_line(cmd@).len() > 0 && command_line(cmd@) != cmd_exit_spec() ==> (if is_builtin_name(
            program_of(command_line(cmd@)),
        ) {
            r is Builtin
        } else {
            r matches LocalAction::External(p) && p@ == program_of(command_line(cmd@))
        }),
{
    let c = trim_newline(cmd);
    if c.len() == 0 {
        return LocalAction::Nothing;
    }
    let exit = cmd_exit();
    if bytes_equal(c, exit.as_slice()) {
        return LocalAction::Exit;
    }
    let (program, _args) = split_first_word(c);
    let names = vec![cmd_cd(), cmd_ls(), cmd_pwd(), cmd_export(), cmd_echo(), cmd_env(), cmd_threads()];
    let mut i: usize = 0;
    while i < names.len()
        invariant
            i <= names@.len(),
            names@.len() == 7,
            names@[0]@ == cmd_cd_spec(),
            names@[1]@ == cmd_ls_spec(),
            names@[2]@ == cmd_pwd_spec(),
            names@[3]@ == cmd_export_spec(),
            names@[4]@ == cmd_echo_spec(),
            names@[5]@ == cmd_env_spec(),
            names@[6]@ == cmd_threads_spec(),
            c@ == command_line(cmd@),
            c@.len() > 0,
            c@ != cmd_exit_spec(),
            program@ == program_of(c@),
            forall|k: int| 0 <= k < i ==> program@ != (#[trigger] names@[k])@,
        decreases 7 - i,
    {
        if bytes_equal(program, names[i].as_slice()) {
            return LocalAction::Builtin;
        }
        i += 1;
    }
    proof {
        assert(program@ != names@[0]@);
        assert(program@ != names@[1]@);
        assert(program@ != names@[2]@);
        assert(program@ != names@[3]@);
        assert(program@ != names@[4]@);
        assert(program@ != names@[5]@);
        assert(program@ != names@[6]@);
    }
    LocalAction::External(vstd::slice::slice_to_vec(program))
}

} // verus!
