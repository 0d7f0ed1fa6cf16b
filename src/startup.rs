use vstd::prelude::*;
use crate::env::EnvStorage;
use crate::shell::append_bytes;
use crate::text::{
    bin_dir,
    bin_dir_spec,
    default_home,
    default_home_spec,
    default_path,
    default_path_spec,
    default_user,
    default_user_spec,
    var_home,
    var_home_spec,
    var_path,
    var_path_spec,
    var_user,
    var_user_spec,
};

verus! {

/// Port used when none is given.
pub const DEFAULT_PORT: u16 = 8000;

/// The port written in `s` from position `i` on, with the value `acc` read so far: decimal
/// digits up to the end or a NUL, forming a number from 1 to 65535; any other byte, a
/// larger number, or zero gives `None`.
pub open spec fn port_from(s: Seq<u8>, i: int, acc: nat) -> Option<u16>
    decreases s.len() - i,
{
    if i < 0 || i >= s.len() || s[i] == 0 {
        if 0 < acc <= 65535 {
            Some(acc as u16)
        } else {
            None
        }
    } else if 48 <= s[i] <= 57 {
        if acc * 10 + (s[i] - 48) > 65535 {
            None
        } else {
            port_from(s, i + 1, (acc * 10 + (s[i] - 48)) as nat)
        }
    } else {
        None
    }
}

/// The port given on the command line, if the argument is a decimal number from 1 to 65535.
pub fn parse_port(bytes: &[u8]) -> (r: Option<u16>)
    ensures
        r == port_from(bytes@, 0, 0),
{
    let mut port: u32 = 0;
    let mut i: usize = 0;
    while i < bytes.len() && bytes[i] != 0
        invariant
            i <= bytes@.len(),
            port <= 65535,
            port_from(bytes@, 0, 0) == port_from(bytes@, i as int, port as nat),
        decreases bytes@.len() - i,
    {
        let b = bytes[i];
        if 48 <= b && b <= 57 {
            let next: u32 = port * 10 + (b - 48) as u32;
            if next > 65535 {
                return None;
            }
            port = next;
        } else {
            return None;
        }
        i += 1;
    }
    if port > 0 {
        Some(port as u16)
    } else {
        None
    }
}

/// The text `s` is `NAME=VALUE` for the given name, with a value of at least one byte.
pub open spec fn is_assignment_of(s: Seq<u8>, name: Seq<u8>) -> bool {
    s.len() > name.len() + 1 && s.take(name.len() as int) == name && s[name.len() as int] == 61u8
}

/// The value of the first assignment of `name` among `vars`.
pub open spec fn inherited_from(vars: Seq<Seq<u8>>, name: Seq<u8>, from: int) -> Option<Seq<u8>>
    decreases vars.len() - from,
{
    if from < 0 || from >= vars.len() {
        None
    } else if is_assignment_of(vars[from], name) {
        Some(vars[from].skip(name.len() + 1 as int))
    } else {
        inherited_from(vars, name, from + 1)
    }
}

fn is_assignment(s: &[u8], name: &[u8]) -> (r: bool)
    ensures
        r == is_assignment_of(s@, name@),
{
    if name.len() >= s.len() || s.len() - name.len() < 2 {
        return false;
    }
    let mut k: usize = 0;
    while k < name.len()
        invariant
            name@.len() < s@.len(),
            k <= name@.len(),
            forall|m: int| 0 <= m < k ==> s@[m] == name@[m],
        decreases name@.len() - k,
    {
        if s[k] != name[k] {
            proof {
                assert(s@.take(name@.len() as int)[k as int] != name@[k as int]);
            }
            return false;
        }
        k += 1;
    }
    proof {
        assert(s@.take(name@.len() as int) =~= name@);
    }
    s[name.len()] == 61u8
}

/// The value that the process environment gives `name` (first `NAME=VALUE` with a
/// non-empty value).
pub fn inherited_value(vars: &Vec<Vec<u8>>, name: &[u8]) -> (r: Option<Vec<u8>>)
    ensures
        match inherited_from(vars.deep_view(), name@, 0) {
            Some(v) => r matches Some(x) && x@ == v,
            None => r.is_none(),
        },
{
    let mut i: usize = 0;
    while i < vars.len()
        invariant
            i <= vars@.len(),
            inherited_from(vars.deep_view(), name@, 0) == inherited_from(
                vars.deep_view(),
                name@,
                i as int,
            ),
        decreases vars@.len() - i,
    {
        proof {
            assert(vars.deep_view()[i as int] == vars@[i as int]@);
        }
        let s = vars[i].as_slice();
        if is_assignment(s, name) {
            let nl: usize = name.len();
            let sl: usize = s.len();
            assert(nl + 1 < sl);
            let v = vstd::slice::slice_subrange(s, nl + 1, sl);
            proof {
                assert(v@ =~= s@.skip(name@.len() + 1 as int));
            }
            return Some(vstd::slice::slice_to_vec(v));
        }
        i += 1;
    }
    None
}

/// The value to store for a variable at startup: the inherited one, else the default.
pub open spec fn startup_value(vars: Seq<Seq<u8>>, name: Seq<u8>, default: Seq<u8>) -> Seq<u8> {
    match inherited_from(vars, name, 0) {
        Some(v) => v,
        None => default,
    }
}

/// Seeds an empty table from the process environment: `PATH`, `HOME` and `USER` keep the
/// values inherited, and get defaults when they are absent. A value too long for the table
/// leaves its variable unset.
pub fn initialize_environment(env: &mut EnvStorage, vars: &Vec<Vec<u8>>)
    requires
        old(env).wf(),
        old(env)@.len() == 0,
    ensures
        final(env).wf(),
        final(env)@ == seq![
            var_path_spec() + seq![61u8] + startup_value(vars.deep_view(), var_path_spec(), default_path_spec()),
            var_home_spec() + seq![61u8] + startup_value(vars.deep_view(), var_home_spec(), default_home_spec()),
            var_user_spec() + seq![61u8] + startup_value(vars.deep_view(), var_user_spec(), default_user_spec()),
        ].filter(|e: Seq<u8>| e.len() <= 255),
{
    let names = vec![var_path(), var_home(), var_user()];
    let defaults = vec![default_path(), default_home(), default_user()];
    let ghost entries = seq![
        var_path_spec() + seq![61u8] + startup_value(vars.deep_view(), var_path_spec(), default_path_spec()),
        var_home_spec() + seq![61u8] + startup_value(vars.deep_view(), var_home_spec(), default_home_spec()),
        var_user_spec() + seq![61u8] + startup_value(vars.deep_view(), var_user_spec(), default_user_spec()),
    ];
    let mut i: usize = 0;
    proof {
        reveal(Seq::filter);
        assert(entries.take(0).filter(|e: Seq<u8>| e.len() <= 255) =~= seq![]);
    }
    while i < 3
        invariant
            i <= 3,
            env.wf(),
            names@.len() == 3,
            defaults@.len() == 3,
            names@[0]@ == var_path_spec(),
            names@[1]@ == var_home_spec(),
            names@[2]@ == var_user_spec(),
            defaults@[0]@ == default_path_spec(),
            defaults@[1]@ == default_home_spec(),
            defaults@[2]@ == default_user_spec(),
            entries.len() == 3,
            forall|k: int|
                0 <= k < 3 ==> #[trigger] entries[k] == names@[k]@ + seq![61u8] + startup_value(
                    vars.deep_view(),
                    names@[k]@,
                    defaults@[k]@,
                ),
            env@ == entries.take(i as int).filter(|e: Seq<u8>| e.len() <= 255),
        decreases 3 - i,
    {
        let value = match inherited_value(vars, names[i].as_slice()) {
            Some(v) => v,
            None => defaults[i].clone(),
        };
        proof {
            assert(value@ == startup_value(vars.deep_view(), names@[i as int]@, defaults@[i as int]@));
            assert(entries[i as int] == names@[i as int]@ + seq![61u8] + value@);
            assert(names@[i as int]@.len() <= 4);
            assert(entries.take(i + 1).drop_last() =~= entries.take(i as int));
            reveal(Seq::filter);
            entries.take(i as int).lemma_filter_len(|e: Seq<u8>| e.len() <= 255);
        }
        let _ = env.set(names[i].as_slice(), value.as_slice());
        i += 1;
    }
    proof {
        assert(entries.take(3) =~= entries);
    }
}

/// The executable for a command: an absolute path as given, otherwise under `/bin/`.
pub fn find_in_path(cmd: &[u8]) -> (r: Vec<u8>)
    ensures
        cmd@.len() > 0 && cmd@[0] == 47u8 ==> r@ == cmd@,
        !(cmd@.len() > 0 && cmd@[0] == 47u8) ==> r@ == bin_dir_spec() + cmd@,
{
    if cmd.len() > 0 && cmd[0] == 47u8 {
        return vstd::slice::slice_to_vec(cmd);
    }
    let mut out = bin_dir();
    append_bytes(&mut out, cmd);
    out
}

} // verus!
