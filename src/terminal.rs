use vstd::prelude::*;
use crate::env::EnvStorage;
use crate::session::{ShellSession, ring_after_write, is_printable, MAX_INPUT};
use crate::shell::{
    builtin_cd,
    builtin_ls,
    execute_builtin_pwd,
    opt_view,
    pwd_output,
    cd_failure_output,
    execute_command_in_session,
    ls_output,
    session_command,
    Pending,
    ShellRequest,
};
use crate::text::{erase, erase_spec, newline, newline_spec, prompt, prompt_spec, welcome, welcome_spec};
use crate::util::{first_space, sorted_names, trim_spaces_spec, trimmed_newline_len};
use crate::shell::{command_line, program_of};
use crate::text::{cmd_cd_spec, cmd_exit_spec, cmd_ls_spec, cmd_pwd_spec};
use crate::session::MAX_OUTPUT;
use crate::ws::{decode_frame, decode_spec, encode_text_frame, text_frame_spec, OP_CLOSE, OP_PING, OP_TEXT};

verus! {

/// Largest payload of one outbound text frame, so that a frame fits a 1 KiB buffer.
pub const OUT_CHUNK: usize = 1020;

/// What the worker does with the bytes of one read.
pub enum FrameAction {
    /// Feed this text to the session, byte by byte.
    Input(Vec<u8>),
    /// Answer with a close frame and end the connection.
    Close,
    /// Answer with a pong frame.
    Pong,
    /// Nothing to do (no whole frame, or an opcode that is not handled).
    Ignore,
}

/// The action for a decoded frame.
pub open spec fn frame_action_spec(b: Seq<u8>) -> (u8, Seq<u8>) {
    match decode_spec(b) {
        Some((_, op, p)) => if op == OP_TEXT {
            (OP_TEXT, p)
        } else if op == OP_CLOSE {
            (OP_CLOSE, seq![])
        } else if op == OP_PING {
            (OP_PING, seq![])
        } else {
            (0u8, seq![])
        },
        None => (0u8, seq![]),
    }
}

/// Decides what to do with the bytes of one read (see `frame_action_spec`: TEXT feeds the
/// session, CLOSE ends the connection, PING is answered, anything else is ignored).
pub fn classify_frame(buf: &[u8]) -> (r: FrameAction)
    ensures
        frame_action_spec(buf@).0 == OP_TEXT ==> (r matches FrameAction::Input(p) && p@
            == frame_action_spec(buf@).1),
        frame_action_spec(buf@).0 == OP_CLOSE ==> r is Close,
        frame_action_spec(buf@).0 == OP_PING ==> r is Pong,
        frame_action_spec(buf@).0 == 0 ==> r is Ignore,
{
    match decode_frame(buf) {
        Some(f) => {
            if f.opcode == OP_TEXT {
                FrameAction::Input(f.payload)
            } else if f.opcode == OP_CLOSE {
                FrameAction::Close
            } else if f.opcode == OP_PING {
                FrameAction::Pong
            } else {
                FrameAction::Ignore
            }
        },
        None => FrameAction::Ignore,
    }
}

/// The minimal close frame a server sends.
pub fn close_frame() -> (r: Vec<u8>)
    ensures
        r@ == seq![0x88u8, 0x00u8],
{
    vec![0x88u8, 0x00u8]
}

/// The empty pong frame answering a ping.
pub fn pong_frame() -> (r: Vec<u8>)
    ensures
        r@ == seq![0x8Au8, 0x00u8],
{
    vec![0x8Au8, 0x00u8]
}

/// Greets a newly activated session.
pub fn start_session(session: &mut ShellSession)
    requires
        old(session).wf(),
    ensures
        final(session).wf(),
        final(session).written() == ring_after_write(old(session).written(), welcome_spec()),
        final(session).read_cursor() == old(session).read_cursor(),
        final(session).input_spec() == old(session).input_spec(),
        final(session).active_spec() == old(session).active_spec(),
{
    let w = welcome();
    session.write_output(w.as_slice());
}

/// Written bytes after a line is entered: the newline echo, the command's output, and
/// the prompt when the command is already complete.
pub open spec fn after_enter(w: Seq<u8>, out: Seq<u8>, p: Pending) -> Seq<u8> {
    let w2 = ring_after_write(ring_after_write(w, newline_spec()), out);
    if p == Pending::Done {
        ring_after_write(w2, prompt_spec())
    } else {
        w2
    }
}

/// Feeds one byte from the client to the session's line editor. Printable bytes are echoed
/// and added to the line; backspace (0x7F or 0x08) removes one byte and echoes an erase;
/// CR or LF runs the line, clears it, and returns any file-system work still owed.
pub fn session_input_byte(
    session: &mut ShellSession,
    env: &mut EnvStorage,
    active: usize,
    total: usize,
    ch: u8,
) -> (r: ShellRequest)
    requires
        old(session).wf(),
        old(env).wf(),
    ensures
        final(session).wf(),
        final(env).wf(),
        final(session).read_cursor() == old(session).read_cursor(),
        final(session).active_spec() == old(session).active_spec(),
        (ch == 10 || ch == 13) ==> {
            let (out, env2, p) = session_command(
                old(session).input_spec(),
                old(env)@,
                active,
                total,
            );
            &&& r@ == p
            &&& final(env)@ == env2
            &&& final(session).input_spec().len() == 0
            &&& final(session).written() == after_enter(old(session).written(), out, p)
        },
        (ch == 0x7f || ch == 0x08) ==> {
            &&& r@ == Pending::Done
            &&& final(env)@ == old(env)@
            &&& final(session).input_spec() == if old(session).input_spec().len() > 0 {
                old(session).input_spec().drop_last()
            } else {
                old(session).input_spec()
            }
            &&& final(session).written() == ring_after_write(old(session).written(), erase_spec())
        },
        is_printable(ch) ==> {
            &&& r@ == Pending::Done
            &&& final(env)@ == old(env)@
            &&& final(session).input_spec() == if old(session).input_spec().len() < MAX_INPUT {
                old(session).input_spec().push(ch)
            } else {
                old(session).input_spec()
            }
            &&& final(session).written() == ring_after_write(old(session).written(), seq![ch])
        },
        !(ch == 10 || ch == 13 || ch == 0x7f || ch == 0x08 || is_printable(ch)) ==> {
            &&& r@ == Pending::Done
            &&& final(env)@ == old(env)@
            &&& final(session).input_spec() == old(session).input_spec()
            &&& final(session).written() == old(session).written()
        },
{
    if ch == 10 || ch == 13 {
        let nl = newline();
        session.write_output(nl.as_slice());
        let line = session.input_bytes();
        session.clear_input();
        let req = execute_command_in_session(session, env, active, total, line.as_slice());
        if req.is_done() {
            let p = prompt();
            session.write_output(p.as_slice());
        }
        req
    } else if ch == 0x7f || ch == 0x08 {
        session.backspace_input();
        let e = erase();
        session.write_output(e.as_slice());
        ShellRequest::Done
    } else if 32 <= ch && ch <= 126 {
        session.append_input(ch);
        let v: Vec<u8> = vec![ch];
        proof {
            assert(v@ =~= seq![ch]);
        }
        session.write_output(v.as_slice());
        ShellRequest::Done
    } else {
        ShellRequest::Done
    }
}

/// Finishes a pending `pwd` with what `getcwd` gave, then shows the prompt.
pub fn complete_pwd(session: &mut ShellSession, cwd: Option<&[u8]>)
    requires
        old(session).wf(),
    ensures
        final(session).wf(),
        final(session).written() == ring_after_write(
            ring_after_write(
                old(session).written(),
                pwd_output(opt_view(cwd), false),
            ),
            prompt_spec(),
        ),
        final(session).read_cursor() == old(session).read_cursor(),
        final(session).input_spec() == old(session).input_spec(),
        final(session).active_spec() == old(session).active_spec(),
{
    execute_builtin_pwd(session, cwd);
    let p = prompt();
    session.write_output(p.as_slice());
}

/// Finishes a pending `cd` with whether the directory changed, then shows the prompt.
pub fn complete_cd(session: &mut ShellSession, path: &[u8], changed: bool)
    requires
        old(session).wf(),
    ensures
        final(session).wf(),
        final(session).written() == ring_after_write(
            if changed {
                old(session).written()
            } else {
                ring_after_write(old(session).written(), cd_failure_output(path@))
            },
            prompt_spec(),
        ),
        final(session).read_cursor() == old(session).read_cursor(),
        final(session).input_spec() == old(session).input_spec(),
        final(session).active_spec() == old(session).active_spec(),
{
    builtin_cd(session, path, changed);
    let p = prompt();
    session.write_output(p.as_slice());
}

/// Finishes a pending `ls` with the names read (`None` when the directory could not be
/// opened), then shows the prompt.
pub fn complete_ls(session: &mut ShellSession, names: Option<Vec<Vec<u8>>>)
    requires
        old(session).wf(),
    ensures
        final(session).wf(),
        final(session).read_cursor() == old(session).read_cursor(),
        final(session).input_spec() == old(session).input_spec(),
        final(session).active_spec() == old(session).active_spec(),
        exists|w: Seq<u8>|
            {
                &&& #[trigger] final(session).written() == ring_after_write(w, prompt_spec())
                &&& match names {
                    None => w == ring_after_write(
                        old(session).written(),
                        crate::text::ls_error_spec(),
                    ),
                    Some(ns) => exists|s: Seq<Vec<u8>>|
                        {
                            &&& #[trigger] s.to_multiset() == ns@.to_multiset()
                            &&& sorted_names(s.map_values(|v: Vec<u8>| v@))
                            &&& w == ring_after_write(
                                old(session).written(),
                                ls_output(s.map_values(|v: Vec<u8>| v@)),
                            )
                        },
                }
            },
{
    builtin_ls(session, names);
    let ghost w = session.written();
    let p = prompt();
    session.write_output(p.as_slice());
    proof {
        assert(session.written() == ring_after_write(w, prompt_spec()));
    }
}

/// The next outbound text frame: up to 1020 unread bytes of the session, which are then
/// marked read; `None` when nothing is unread.
pub fn next_outbound_frame(session: &mut ShellSession) -> (r: Option<Vec<u8>>)
    requires
        old(session).wf(),
    ensures
        final(session).wf(),
        final(session).written() == old(session).written(),
        final(session).input_spec() == old(session).input_spec(),
        final(session).active_spec() == old(session).active_spec(),
        old(session).unread().len() == 0 ==> r.is_none() && final(session).read_cursor()
            == old(session).read_cursor(),
        old(session).unread().len() > 0 ==> {
            let n = vstd::math::min(old(session).unread().len() as int, OUT_CHUNK as int);
            &&& r matches Some(f)
            &&& f@ == text_frame_spec(old(session).unread().take(n))
            &&& final(session).read_cursor() == old(session).read_cursor() + n
        },
{
    proof {
        session.lemma_wf_bounds();
    }
    if !session.has_output() {
        return None;
    }
    let mut buf: Vec<u8> = vec![0u8; OUT_CHUNK];
    let n = session.read_output(buf.as_mut_slice());
    let chunk = vstd::slice::slice_subrange(buf.as_slice(), 0, n);
    proof {
        assert(chunk@ =~= old(session).unread().take(n as int));
    }
    encode_text_frame(chunk)
}

/// Typing `ls` and Enter into a session with an empty line: the session echoes `l`, `s`
/// and a newline and asks for a listing of the working directory; once the sorted names
/// are given, it writes them joined by two spaces, a newline, and the prompt.
pub proof fn lemma_ls_scenario(
    w: Seq<u8>,
    env: Seq<Seq<u8>>,
    active: usize,
    total: usize,
    sorted: Seq<Seq<u8>>,
)
    requires
        w.len() + 3 + ls_output(sorted).len() + 2 <= MAX_OUTPUT,
    ensures
        Seq::<u8>::empty().push(108u8).push(115u8) == seq![108u8, 115u8],
        session_command(seq![108u8, 115u8], env, active, total) == (
            Seq::<u8>::empty(),
            env,
            Pending::Ls(seq![]),
        ),
        ring_after_write(
            ring_after_write(
                after_enter(
                    ring_after_write(ring_after_write(w, seq![108u8]), seq![115u8]),
                    seq![],
                    Pending::Ls(seq![]),
                ),
                ls_output(sorted),
            ),
            prompt_spec(),
        ) == w + seq![108u8, 115u8] + newline_spec() + ls_output(sorted) + prompt_spec(),
{
    let line = seq![108u8, 115u8];
    assert(Seq::<u8>::empty().push(108u8).push(115u8) =~= line);
    reveal_with_fuel(trimmed_newline_len, 3);
    reveal_with_fuel(first_space, 3);
    assert(line.take(2) =~= line);
    assert(command_line(line) == line);
    assert(line.drop_first().drop_first() =~= Seq::<u8>::empty());
    assert(first_space(line).is_none());
    assert(program_of(line) == line);
    assert(line != cmd_exit_spec());
    assert(line != cmd_pwd_spec());
    assert(line[0] != cmd_cd_spec()[0]);
    assert(line =~= cmd_ls_spec());
    assert(trim_spaces_spec(seq![]) =~= seq![]);
    let w2 = w + line;
    assert(ring_after_write(ring_after_write(w, seq![108u8]), seq![115u8]) =~= w2);
    assert(ring_after_write(w2, newline_spec()) == w2 + newline_spec());
    assert(ring_after_write(w2 + newline_spec(), seq![]) =~= w2 + newline_spec());
    assert(w2 + newline_spec() + ls_output(sorted) + prompt_spec() =~= w + line + newline_spec()
        + ls_output(sorted) + prompt_spec());
}

/// Typing `pwd` and Enter into a session with an empty line: the session echoes `pwd` and a
/// newline and asks for the working directory; once `getcwd` gives a path, it writes the
/// path, a newline, and the prompt.
pub proof fn lemma_pwd_scenario(
    w: Seq<u8>,
    env: Seq<Seq<u8>>,
    active: usize,
    total: usize,
    cwd: Seq<u8>,
)
    requires
        cwd.len() > 0,
        w.len() + 4 + cwd.len() + 1 + 2 <= MAX_OUTPUT,
    ensures
        Seq::<u8>::empty().push(112u8).push(119u8).push(100u8) == seq![112u8, 119u8, 100u8],
        session_command(seq![112u8, 119u8, 100u8], env, active, total) == (
            Seq::<u8>::empty(),
            env,
            Pending::Pwd,
        ),
        ring_after_write(
            ring_after_write(
                after_enter(
                    ring_after_write(
                        ring_after_write(ring_after_write(w, seq![112u8]), seq![119u8]),
                        seq![100u8],
                    ),
                    seq![],
                    Pending::Pwd,
                ),
                pwd_output(Some(cwd), false),
            ),
            prompt_spec(),
        ) == w + seq![112u8, 119u8, 100u8] + newline_spec() + cwd + newline_spec() + prompt_spec(),
{
    let line = seq![112u8, 119u8, 100u8];
    assert(Seq::<u8>::empty().push(112u8).push(119u8).push(100u8) =~= line);
    reveal_with_fuel(trimmed_newline_len, 3);
    reveal_with_fuel(first_space, 4);
    assert(line.take(3) =~= line);
    assert(command_line(line) == line);
    assert(line.drop_first().drop_first().drop_first() =~= Seq::<u8>::empty());
    assert(line.drop_first().drop_first() =~= seq![100u8]);
    assert(first_space(line).is_none());
    assert(program_of(line) == line);
    assert(line != cmd_exit_spec());
    assert(line =~= cmd_pwd_spec());
    let w3 = w + line;
    assert(ring_after_write(
        ring_after_write(ring_after_write(w, seq![112u8]), seq![119u8]),
        seq![100u8],
    ) =~= w3);
    assert(ring_after_write(w3, newline_spec()) == w3 + newline_spec());
    assert(ring_after_write(w3 + newline_spec(), seq![]) =~= w3 + newline_spec());
    assert(w3 + newline_spec() + (cwd + newline_spec()) + prompt_spec() =~= w + line
        + newline_spec() + cwd + newline_spec() + prompt_spec());
}

} // verus!
