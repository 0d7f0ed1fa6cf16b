use reshell::dirent::{collect_names, read_dirent_header, DirentParser};
use reshell::env::{expand_env_vars, EnvStorage};
use reshell::prompt::{EditStep, LineEditor};
use reshell::session::{allocate_session, free_session, get_session, write_session_output, SessionPool, ShellSession};
use reshell::shell::{
    builtin_echo, builtin_export, builtin_pwd, cd_text, execute_command, execute_command_in_session, ls_text,
    run_local_builtin, LocalAction, ShellRequest,
};
use reshell::startup::{find_in_path, initialize_environment, inherited_value, parse_port};
use reshell::terminal::{complete_cd, complete_ls, complete_pwd, next_outbound_frame, session_input_byte, start_session};
use reshell::threads::{
    cleanup_threads, get_thread_stats, register_thread, release_worker_slot, reserve_worker_slot, ThreadRegistry,
    ThreadStack, WorkerSlots,
};
use reshell::util::{bytes_equal, bytes_less_than, decimal_text, sort_entries, split_first_word, trim_newline, trim_spaces};
use reshell::ws::decode_frame;

fn drain(s: &mut ShellSession) -> Vec<u8> {
    let mut out = vec![0u8; 4096];
    let n = s.read_output(&mut out);
    out.truncate(n);
    out
}

fn feed(s: &mut ShellSession, env: &mut EnvStorage, text: &[u8]) -> Vec<ShellRequest> {
    text.iter().map(|&b| session_input_byte(s, env, 3, 256, b)).collect()
}

fn active_session() -> ShellSession {
    let mut s = ShellSession::new();
    s.activate();
    s
}

#[test]
fn ring_returns_concatenation_then_nothing() {
    let mut s = active_session();
    s.write_output(b"abc");
    s.write_output(b"");
    s.write_output(b"defg");
    assert!(s.has_output());
    assert_eq!(drain(&mut s), b"abcdefg".to_vec());
    assert!(!s.has_output());
    let mut buf = [0u8; 4096];
    assert_eq!(s.read_output(&mut buf), 0);
    s.write_output(b"h");
    assert_eq!(drain(&mut s), b"h".to_vec());
}

#[test]
fn ring_truncates_at_capacity() {
    let mut s = active_session();
    s.write_output(&vec![b'a'; 4000]);
    s.write_output(&vec![b'b'; 200]);
    let out = drain(&mut s);
    assert_eq!(out.len(), 4096);
    assert_eq!(&out[4000..], &vec![b'b'; 96][..]);
    s.write_output(b"more");
    assert!(!s.has_output());
}

#[test]
fn ring_reads_in_pieces() {
    let mut s = active_session();
    s.write_output(b"0123456789");
    let mut small = [0u8; 4];
    assert_eq!(s.read_output(&mut small), 4);
    assert_eq!(&small, b"0123");
    assert_eq!(drain(&mut s), b"456789".to_vec());
}

#[test]
fn input_editing() {
    let mut s = active_session();
    for &b in b"ab\x01c" {
        s.append_input(b);
    }
    assert_eq!(s.input_len(), 3);
    s.backspace_input();
    let mut out = [0u8; 8];
    assert_eq!(s.get_input(&mut out), 2);
    assert_eq!(&out[..2], b"ab");
    let mut tiny = [0u8; 1];
    assert_eq!(s.get_input(&mut tiny), 1);
    s.clear_input();
    assert_eq!(s.input_len(), 0);
    s.backspace_input();
    assert_eq!(s.input_len(), 0);
    for _ in 0..600 {
        s.append_input(b'x');
    }
    assert_eq!(s.input_len(), 512);
}

#[test]
fn sessions_are_isolated() {
    let mut pool = SessionPool::new();
    let a = allocate_session(&mut pool).unwrap();
    let b = allocate_session(&mut pool).unwrap();
    assert_eq!((a, b), (0, 1));
    for i in 0..10u8 {
        write_session_output(&mut pool, a, &[b'a', i]);
        write_session_output(&mut pool, b, &[b'b', i]);
    }
    let mut expect_a = Vec::new();
    let mut expect_b = Vec::new();
    for i in 0..10u8 {
        expect_a.extend_from_slice(&[b'a', i]);
        expect_b.extend_from_slice(&[b'b', i]);
    }
    assert_eq!(drain(pool.session_mut(a)), expect_a);
    assert_eq!(drain(pool.session_mut(b)), expect_b);
}

#[test]
fn pool_overflow_and_reuse() {
    let mut pool = SessionPool::new();
    for i in 0..16 {
        assert_eq!(allocate_session(&mut pool), Some(i));
    }
    assert_eq!(allocate_session(&mut pool), None);
    pool.session_mut(3).write_output(b"stale");
    free_session(&mut pool, 3);
    assert!(!get_session(&pool, 3).unwrap().is_active());
    assert!(get_session(&pool, 16).is_none());
    assert_eq!(allocate_session(&mut pool), Some(3));
    assert!(!get_session(&pool, 3).unwrap().has_output());
    free_session(&mut pool, 99);
}

#[test]
fn welcome_banner() {
    let mut s = active_session();
    start_session(&mut s);
    assert_eq!(drain(&mut s), b"Welcome to ReShell!\n$ ".to_vec());
}

#[test]
fn echo_scenario_with_ls() {
    let mut s = active_session();
    let mut env = EnvStorage::new();
    let reqs = feed(&mut s, &mut env, b"ls\r");
    assert!(matches!(reqs[0], ShellRequest::Done));
    match &reqs[2] {
        ShellRequest::Ls(p) => assert!(p.is_empty()),
        _ => panic!("expected a listing request"),
    }
    complete_ls(&mut s, Some(vec![b"zeta".to_vec(), b"alpha".to_vec(), b"Beta".to_vec()]));
    assert_eq!(drain(&mut s), b"ls\nBeta  alpha  zeta\n$ ".to_vec());
}

#[test]
fn ls_of_missing_directory() {
    let mut s = active_session();
    complete_ls(&mut s, None);
    assert_eq!(drain(&mut s), b"ls: cannot open directory\n$ ".to_vec());
    complete_ls(&mut s, Some(Vec::new()));
    assert_eq!(drain(&mut s), b"$ ".to_vec());
}

#[test]
fn pwd_scenario() {
    let mut s = active_session();
    let mut env = EnvStorage::new();
    let reqs = feed(&mut s, &mut env, b"pwd\r");
    assert!(matches!(reqs[3], ShellRequest::Pwd));
    complete_pwd(&mut s, Some(b"/home/alice"));
    assert_eq!(drain(&mut s), b"pwd\n/home/alice\n$ ".to_vec());
    complete_pwd(&mut s, None);
    assert_eq!(drain(&mut s), b"pwd: error\n$ ".to_vec());
}

#[test]
fn environment_expansion_scenario() {
    let mut s = active_session();
    let mut env = EnvStorage::new();
    assert!(env.set(b"USER", b"alice"));
    feed(&mut s, &mut env, b"echo hi $USER\r");
    let out = drain(&mut s);
    assert_eq!(out, b"echo hi $USER\nhi alice\n$ ".to_vec());
}

#[test]
fn cd_requests_and_failures() {
    let mut s = active_session();
    let mut env = EnvStorage::new();
    env.set(b"HOME", b"/home");
    let reqs = feed(&mut s, &mut env, b"cd $HOME/x\r");
    match reqs.last().unwrap() {
        ShellRequest::Cd(p) => {
            assert_eq!(p, &b"/home/x".to_vec());
            complete_cd(&mut s, p, false);
        }
        _ => panic!("expected a cd request"),
    }
    assert_eq!(drain(&mut s), b"cd $HOME/x\ncd: /home/x: No such directory\n$ ".to_vec());
    feed(&mut s, &mut env, b"cd\r");
    assert_eq!(drain(&mut s), b"cd\ncd: missing argument\n$ ".to_vec());
    complete_cd(&mut s, b"/", true);
    assert_eq!(drain(&mut s), b"$ ".to_vec());
}

#[test]
fn export_env_threads_exit_and_unknown() {
    let mut s = active_session();
    let mut env = EnvStorage::new();
    env.set(b"PATH", b"/bin");
    assert!(matches!(execute_command_in_session(&mut s, &mut env, 2, 256, b"export A=1 2\n"), ShellRequest::Done));
    assert!(matches!(execute_command_in_session(&mut s, &mut env, 2, 256, b"export novalue"), ShellRequest::Done));
    execute_command_in_session(&mut s, &mut env, 2, 256, b"env");
    assert_eq!(drain(&mut s), b"PATH=/bin\nA=1 2\n".to_vec());
    execute_command_in_session(&mut s, &mut env, 2, 256, b"threads");
    assert_eq!(drain(&mut s), b"Active threads: 2 / 256\n".to_vec());
    execute_command_in_session(&mut s, &mut env, 2, 256, b"exit\r\n");
    assert_eq!(drain(&mut s), b"Session closed\n".to_vec());
    execute_command_in_session(&mut s, &mut env, 2, 256, b"vim file");
    assert_eq!(drain(&mut s), b"External commands not yet supported in session mode\n".to_vec());
    execute_command_in_session(&mut s, &mut env, 2, 256, b"\r\n");
    assert!(!s.has_output());
}

#[test]
fn backspace_and_control_bytes() {
    let mut s = active_session();
    let mut env = EnvStorage::new();
    feed(&mut s, &mut env, b"ecx\x7fho\x01 ok\r");
    assert_eq!(drain(&mut s), b"ecx\x08 \x08ho ok\nok\n$ ".to_vec());
}

#[test]
fn outbound_frames_drain_in_chunks() {
    let mut s = active_session();
    assert!(next_outbound_frame(&mut s).is_none());
    s.write_output(&vec![b'q'; 1500]);
    let f1 = next_outbound_frame(&mut s).unwrap();
    assert_eq!(decode_frame(&f1).unwrap().payload.len(), 1020);
    let f2 = next_outbound_frame(&mut s).unwrap();
    assert_eq!(decode_frame(&f2).unwrap().payload.len(), 480);
    assert!(next_outbound_frame(&mut s).is_none());
}

#[test]
fn env_storage_rules() {
    let mut env = EnvStorage::new();
    assert!(env.set(b"A", b"first"));
    assert!(env.set(b"A", b"second"));
    let mut out = [0u8; 16];
    assert_eq!(env.get(b"A", &mut out), 6);
    assert_eq!(&out[..6], b"second");
    assert_eq!(env.get(b"B", &mut out), 0);
    let mut short = [0u8; 2];
    assert_eq!(env.get(b"A", &mut short), 2);
    assert!(!env.set(&vec![b'n'; 129], b""));
    assert!(env.set(&vec![b'n'; 128], b""));
    assert!(!env.set(b"LONG", &vec![b'v'; 251]));
    assert!(env.set(b"LONG", &vec![b'v'; 250]));
    while env.len() < 32 {
        assert!(env.set(b"X", b"y"));
    }
    assert!(!env.set(b"Y", b"z"));
    assert_eq!(env.iter().len(), 32);
}

#[test]
fn expansion_rules() {
    let mut env = EnvStorage::new();
    env.set(b"USER", b"alice");
    env.set(b"E", b"");
    let mut out = [0u8; 64];
    let n = expand_env_vars(b"$USER-$NOPE-$E-$-a$", &mut out, &env);
    assert_eq!(&out[..n], b"alice----a$");
    let n = expand_env_vars(b"x\0y", &mut out, &env);
    assert_eq!(&out[..n], b"x");
    let mut small = [0u8; 3];
    let n = expand_env_vars(b"$USER", &mut small, &env);
    assert_eq!(&small[..n], b"ali");
}

fn record(name: &[u8], reclen: u16) -> Vec<u8> {
    let mut r = vec![0u8; reclen as usize];
    r[0] = 7;
    r[16] = (reclen & 0xff) as u8;
    r[17] = (reclen >> 8) as u8;
    r[18] = 4;
    r[19..19 + name.len()].copy_from_slice(name);
    r
}

#[test]
fn dirent_records() {
    let mut buf = record(b".", 24);
    buf.extend(record(b"..", 24));
    buf.extend(record(b"notes.txt", 32));
    buf.extend(vec![1, 2, 3]);
    let h = read_dirent_header(&buf, 48);
    assert_eq!(h.d_reclen, 32);
    assert_eq!(h.d_ino, 7);
    assert_eq!(h.d_type, 4);
    let mut p = DirentParser::new(&buf);
    assert_eq!(p.next().unwrap().name, b".");
    assert_eq!(p.next().unwrap().name, b"..");
    assert_eq!(p.next().unwrap().name, b"notes.txt");
    assert!(p.next().is_none());
    let mut names = Vec::new();
    collect_names(&buf, &mut names);
    assert_eq!(names, vec![b"notes.txt".to_vec()]);
}

#[test]
fn dirent_listing_keeps_sixty_four() {
    let mut buf = Vec::new();
    for i in 0..70u8 {
        buf.extend(record(&[b'f', b'0' + i / 10, b'0' + i % 10], 24));
    }
    let mut names = Vec::new();
    collect_names(&buf, &mut names);
    assert_eq!(names.len(), 64);
    let zero = vec![0u8; 24];
    let mut p = DirentParser::new(&zero);
    assert!(p.next().is_none());
}

#[test]
fn utilities() {
    assert!(bytes_equal(b"ls", b"ls"));
    assert!(!bytes_equal(b"ls", b"lsx"));
    assert_eq!(trim_newline(b"pwd\r\n\n"), b"pwd");
    assert_eq!(trim_spaces(b"  a b \0 "), b"a b");
    assert_eq!(split_first_word(b"cd  /tmp"), (&b"cd"[..], &b" /tmp"[..]));
    assert_eq!(split_first_word(b"ls"), (&b"ls"[..], &b""[..]));
    assert!(bytes_less_than(b"ab", b"abc"));
    assert!(!bytes_less_than(b"b", b"abc"));
    assert!(!bytes_less_than(b"x", b"x"));
    let mut v = vec![b"b".to_vec(), b"a".to_vec(), b"ab".to_vec(), b"a".to_vec()];
    sort_entries(&mut v);
    assert_eq!(v, vec![b"a".to_vec(), b"a".to_vec(), b"ab".to_vec(), b"b".to_vec()]);
    assert_eq!(decimal_text(0), b"0".to_vec());
    assert_eq!(decimal_text(65535), b"65535".to_vec());
}

#[test]
fn thread_registry() {
    let mut reg = ThreadRegistry::new();
    assert!(register_thread(&mut reg, 101));
    assert!(register_thread(&mut reg, 0));
    assert!(register_thread(&mut reg, 102));
    assert_eq!(get_thread_stats(&reg), (3, 256));
    assert_eq!(cleanup_threads(&mut reg), vec![101, 102]);
    assert_eq!(get_thread_stats(&reg), (0, 256));
    for i in 0..256 {
        assert!(register_thread(&mut reg, i + 1));
    }
    assert!(!register_thread(&mut reg, 999));
}

#[test]
fn worker_slots_overflow_and_release() {
    let mut slots = WorkerSlots::new();
    for i in 0..16 {
        assert_eq!(reserve_worker_slot(&mut slots, 10 + i as i32), Some(i));
    }
    assert_eq!(reserve_worker_slot(&mut slots, 99), None);
    assert_eq!(slots.client_fd(5), 15);
    release_worker_slot(&mut slots, 5);
    assert!(!slots.is_active(5));
    assert_eq!(reserve_worker_slot(&mut slots, 42), Some(5));
    assert_eq!(slots.client_fd(5), 42);
}

#[test]
fn thread_stack_top_is_aligned() {
    let mut st = ThreadStack::new();
    assert_eq!(st.get_stack_top(), 0);
    assert!(!st.allocate(None));
    assert!(!st.allocate(Some(0)));
    assert!(st.allocate(Some(0x7000_0000_0008)));
    assert_eq!(st.get_stack_top(), (0x7000_0000_0008 + 131072) & !15);
    assert!(st.allocate(Some(0x1234)));
    assert!(st.is_allocated());
    let big = ThreadStack::new_large();
    assert_eq!(big.size(), 524288);
}

#[test]
fn line_editor() {
    let mut ed = LineEditor::new(8);
    let (step, echo) = ed.feed(b'l');
    assert!(matches!(step, EditStep::Continue));
    assert_eq!(echo, b"l".to_vec());
    let (_, echo) = ed.feed(9);
    assert_eq!(echo, b"\x08 \x08ls ".to_vec());
    assert_eq!(ed.line(), b"ls ".to_vec());
    let (_, echo) = ed.feed(9);
    assert_eq!(echo, b"\x07".to_vec());
    let (_, echo) = ed.feed(0x7f);
    assert_eq!(echo, b"\x08 \x08".to_vec());
    for &b in b"abcdefgh" {
        ed.feed(b);
    }
    assert_eq!(ed.line(), b"lsabcde".to_vec());
    let (step, echo) = ed.feed(b'\r');
    assert!(matches!(step, EditStep::Finished));
    assert_eq!(echo, b"\n".to_vec());
    assert_eq!(ed.line(), b"lsabcde\n".to_vec());
    let mut ed = LineEditor::new(8);
    ed.feed(b'x');
    let (step, echo) = ed.feed(3);
    assert!(matches!(step, EditStep::Aborted));
    assert_eq!(echo, b"^C\n".to_vec());
    assert!(ed.line().is_empty());
}

#[test]
fn local_command_decisions() {
    assert!(matches!(execute_command(b"\n"), LocalAction::Nothing));
    assert!(matches!(execute_command(b"exit\n"), LocalAction::Exit));
    assert!(matches!(execute_command(b"ls /tmp\n"), LocalAction::Builtin));
    match execute_command(b"uname -a\n") {
        LocalAction::External(p) => assert_eq!(p, b"uname".to_vec()),
        _ => panic!("expected an external program"),
    }
}

#[test]
fn startup_helpers() {
    assert_eq!(parse_port(b"8080"), Some(8080));
    assert_eq!(parse_port(b"80\0junk"), Some(80));
    assert_eq!(parse_port(b"0"), None);
    assert_eq!(parse_port(b"12a"), None);
    assert_eq!(parse_port(b"99999"), None);
    assert_eq!(parse_port(b"70000"), None);
    assert_eq!(parse_port(b"65535"), Some(65535));
    assert_eq!(parse_port(b"65536"), None);
    assert_eq!(parse_port(b""), None);
    let vars = vec![b"PATH=/opt/bin".to_vec(), b"USER=alice".to_vec(), b"HOME=".to_vec()];
    assert_eq!(inherited_value(&vars, b"USER"), Some(b"alice".to_vec()));
    assert_eq!(inherited_value(&vars, b"HOME"), None);
    let mut env = EnvStorage::new();
    initialize_environment(&mut env, &vars);
    let lines: Vec<Vec<u8>> = env.iter();
    assert_eq!(lines, vec![b"PATH=/opt/bin".to_vec(), b"HOME=/home".to_vec(), b"USER=alice".to_vec()]);
    assert_eq!(find_in_path(b"ls"), b"/bin/ls".to_vec());
    assert_eq!(find_in_path(b"/usr/bin/env"), b"/usr/bin/env".to_vec());
}

#[test]
fn graceful_shutdown_scenario() {
    let mut reg = ThreadRegistry::new();
    let mut slots = WorkerSlots::new();
    let mut pool = SessionPool::new();
    register_thread(&mut reg, 500);
    let mut workers = Vec::new();
    for fd in [7, 8] {
        let slot = reserve_worker_slot(&mut slots, fd).unwrap();
        register_thread(&mut reg, 501 + slot as i32);
        let idx = allocate_session(&mut pool).unwrap();
        workers.push((slot, idx));
    }
    let shutdown = true;
    assert!(matches!(
        reshell::http::route_connection(shutdown, b"GET / HTTP/1.1\r\n\r\n", b"", b""),
        reshell::http::ListenerAction::CloseServer
    ));
    for (slot, idx) in workers {
        free_session(&mut pool, idx);
        release_worker_slot(&mut slots, slot);
        assert!(!slots.is_active(slot));
        assert!(!get_session(&pool, idx).unwrap().is_active());
    }
    assert_eq!(cleanup_threads(&mut reg), vec![500, 501, 502]);
    assert_eq!(get_thread_stats(&reg), (0, 256));
}

#[test]
fn overflow_rejection_scenario() {
    let mut slots = WorkerSlots::new();
    let mut pool = SessionPool::new();
    for fd in 0..16 {
        let slot = reserve_worker_slot(&mut slots, 100 + fd).unwrap();
        let idx = allocate_session(&mut pool).unwrap();
        assert_eq!(slot, idx);
        pool.session_mut(idx).write_output(&[b'0' + fd as u8]);
    }
    assert_eq!(reserve_worker_slot(&mut slots, 116), None);
    assert_eq!(allocate_session(&mut pool), None);
    for i in 0..16 {
        assert!(slots.is_active(i));
        assert_eq!(slots.client_fd(i), 100 + i as i32);
        assert_eq!(drain(pool.session_mut(i)), vec![b'0' + i as u8]);
    }
}

#[test]
fn re_export_takes_effect() {
    let mut s = active_session();
    let mut env = EnvStorage::new();
    feed(&mut s, &mut env, b"export X=1\r");
    feed(&mut s, &mut env, b"export X=2\r");
    drain(&mut s);
    feed(&mut s, &mut env, b"echo $X\r");
    assert_eq!(drain(&mut s), b"echo $X\n2\n$ ".to_vec());
    let mut out = [0u8; 4];
    assert_eq!(env.get(b"X", &mut out), 1);
    assert_eq!(out[0], b'2');
}

#[test]
fn local_echo_keeps_arguments_as_given() {
    let mut env = EnvStorage::new();
    env.set(b"USER", b"alice");
    assert_eq!(builtin_echo(&env, b" hi $USER "), b" hi alice \n".to_vec());
    let (out, req) = run_local_builtin(&mut env, 1, 256, b"echo  a\n");
    assert_eq!(out, b" a\n".to_vec());
    assert!(matches!(req, ShellRequest::Done));
}

#[test]
fn local_export_reports_refusals() {
    let mut env = EnvStorage::new();
    assert_eq!(builtin_export(&mut env, b"novalue"), b"export: invalid format (use NAME=VALUE)\n".to_vec());
    assert_eq!(env.len(), 0);
    assert!(builtin_export(&mut env, b" A=1 ").is_empty());
    assert_eq!(builtin_export(&mut env, b""), b"A=1\n".to_vec());
    assert_eq!(builtin_export(&mut env, &[b'n'; 200]).len(), 40);
    let mut long = vec![b'n'; 129];
    long.push(b'=');
    assert_eq!(builtin_export(&mut env, &long), b"export: too many variables\n".to_vec());
    while env.len() < 32 {
        env.set(b"F", b"x");
    }
    assert_eq!(builtin_export(&mut env, b"B=2"), b"export: too many variables\n".to_vec());
    let (out, _) = run_local_builtin(&mut env, 1, 256, b"env\n");
    assert_eq!(out.len(), 4 + 31 * 4);
    let (out, _) = run_local_builtin(&mut env, 1, 256, b"export oops\n");
    assert_eq!(out, b"export: invalid format (use NAME=VALUE)\n".to_vec());
}

#[test]
fn local_listing_is_not_cut_short() {
    let mut env = EnvStorage::new();
    let value = vec![b'v'; 250];
    while env.len() < 32 {
        env.set(b"LONG", &value);
    }
    let (out, _) = run_local_builtin(&mut env, 1, 256, b"env");
    assert_eq!(out.len(), 32 * 256);
}

#[test]
fn local_pwd_cd_and_ls_texts() {
    assert_eq!(builtin_pwd(Some(b"/tmp")), b"/tmp\n".to_vec());
    assert_eq!(builtin_pwd(None), b"pwd: error getting current directory\n".to_vec());
    assert_eq!(builtin_pwd(Some(&[b'a'; 512])), b"pwd: error getting current directory\n".to_vec());
    assert!(cd_text(b"/", true).is_empty());
    assert_eq!(cd_text(b"/nope", false), b"cd: /nope: No such directory\n".to_vec());
    assert_eq!(ls_text(None), b"ls: cannot open directory\n".to_vec());
    assert_eq!(ls_text(Some(vec![b"b".to_vec(), b"a".to_vec()])), b"a  b\n".to_vec());
    let mut env = EnvStorage::new();
    let (out, req) = run_local_builtin(&mut env, 1, 256, b"pwd\n");
    assert!(out.is_empty());
    assert!(matches!(req, ShellRequest::Pwd));
}
