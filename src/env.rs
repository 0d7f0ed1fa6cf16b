use vstd::prelude::*;

verus! {

/// Most variables the table holds.
pub const MAX_VARS: usize = 32;

/// Longest variable name.
pub const MAX_NAME: usize = 128;

/// Longest stored `NAME=VALUE` text.
pub const MAX_ENTRY: usize = 255;

/// The bytes of `s` before its first NUL.
pub open spec fn until_nul(s: Seq<u8>) -> Seq<u8>
    decreases s.len(),
{
    if s.len() == 0 || s[0] == 0 {
        seq![]
    } else {
        seq![s[0]] + until_nul(s.drop_first())
    }
}

/// `text` is `name`, then `=`, then something.
pub open spec fn defines(text: Seq<u8>, name: Seq<u8>) -> bool {
    text.len() > name.len() && text.take(name.len() as int) == name && text[name.len() as int] == 61u8
}

/// The value of `name` in the last of the first `n` entries that defines it.
pub open spec fn lookup_below(entries: Seq<Seq<u8>>, name: Seq<u8>, n: int) -> Option<Seq<u8>>
    decreases n,
{
    if n <= 0 || n > entries.len() {
        None
    } else if defines(until_nul(entries[n - 1]), name) {
        Some(until_nul(entries[n - 1]).skip(name.len() + 1 as int))
    } else {
        lookup_below(entries, name, n - 1)
    }
}

/// The value of `name`: the one set last.
pub open spec fn lookup(entries: Seq<Seq<u8>>, name: Seq<u8>) -> Option<Seq<u8>> {
    lookup_below(entries, name, entries.len() as int)
}

/// `s` holds no NUL byte.
pub open spec fn no_nul(s: Seq<u8>) -> bool {
    forall|i: int| 0 <= i < s.len() ==> s[i] != 0
}

pub proof fn lemma_until_nul_whole(s: Seq<u8>)
    requires
        no_nul(s),
    ensures
        until_nul(s) == s,
    decreases s.len(),
{
    if s.len() > 0 {
        lemma_until_nul_whole(s.drop_first());
        assert(seq![s[0]] + s.drop_first() =~= s);
    }
}

/// Setting a variable takes effect: after `NAME=VALUE` is appended, looking `NAME` up gives
/// `VALUE`, whatever earlier entries said (names and values without NUL bytes).
pub proof fn lemma_latest_set_wins(entries: Seq<Seq<u8>>, name: Seq<u8>, value: Seq<u8>)
    requires
        no_nul(name),
        no_nul(value),
    ensures
        lookup(entries.push(name + seq![61u8] + value), name) == Some(value),
{
    let e = name + seq![61u8] + value;
    let all = entries.push(e);
    assert(no_nul(e)) by {
        assert forall|i: int| 0 <= i < e.len() implies e[i] != 0 by {
            if i < name.len() {
                assert(e[i] == name[i]);
            } else if i > name.len() {
                assert(e[i] == value[i - name.len() - 1]);
            }
        }
    }
    lemma_until_nul_whole(e);
    assert(all[all.len() - 1] == e);
    assert(e.take(name.len() as int) =~= name);
    assert(e.skip(name.len() + 1 as int) =~= value);
}

/// The non-empty entry texts, in order.
pub open spec fn listed(entries: Seq<Seq<u8>>) -> Seq<Seq<u8>>
    decreases entries.len(),
{
    if entries.len() == 0 {
        seq![]
    } else {
        let sub = listed(entries.drop_last());
        let t = until_nul(entries.last());
        if t.len() > 0 {
            sub.push(t)
        } else {
            sub
        }
    }
}

/// A byte that may appear in a variable name after `$`.
pub open spec fn is_ident_byte(b: u8) -> bool {
    (48 <= b && b <= 57) || (65 <= b && b <= 90) || (97 <= b && b <= 122) || b == 95
}

/// End of the run of name bytes starting at `i`.
pub open spec fn ident_end(s: Seq<u8>, i: int) -> int
    decreases s.len() - i,
{
    if 0 <= i < s.len() && is_ident_byte(s[i]) {
        ident_end(s, i + 1)
    } else {
        i
    }
}

/// Expansion of `s` from position `i` on: `$NAME` becomes the value of NAME (nothing when
/// unset), a `$` before a non-name byte disappears, a final `$` stays, a NUL ends the text.
pub open spec fn expand_from(s: Seq<u8>, i: int, entries: Seq<Seq<u8>>) -> Seq<u8>
    decreases s.len() - i,
{
    if i < 0 || i >= s.len() || s[i] == 0 {
        seq![]
    } else if s[i] == 36u8 && i + 1 < s.len() {
        let e = ident_end(s, i + 1);
        let v = if e > i + 1 {
            match lookup(entries, s.subrange(i + 1, e)) {
                Some(v) => v,
                None => seq![],
            }
        } else {
            seq![]
        };
        v + expand_from(s, if i < e <= s.len() { e } else { i + 1 }, entries)
    } else {
        seq![s[i]] + expand_from(s, i + 1, entries)
    }
}

pub proof fn lemma_ident_end(s: Seq<u8>, i: int)
    requires
        0 <= i,
    ensures
        i <= ident_end(s, i),
        ident_end(s, i) <= if i <= s.len() { s.len() as int } else { i },
        forall|k: int| i <= k < ident_end(s, i) ==> is_ident_byte(#[trigger] s[k]),
    decreases s.len() - i,
{
    if 0 <= i < s.len() && is_ident_byte(s[i]) {
        lemma_ident_end(s, i + 1);
    }
}

/// The environment table: `NAME=VALUE` entries in the order they were set.
pub struct EnvStorage {
    vars: Vec<Vec<u8>>,
}

impl EnvStorage {
    /// The stored entries.
    pub closed spec fn view(&self) -> Seq<Seq<u8>> {
        self.vars@.map_values(|v: Vec<u8>| v@)
    }

    pub open spec fn wf(&self) -> bool {
        &&& self@.len() <= MAX_VARS
        &&& forall|i: int| 0 <= i < self@.len() ==> (#[trigger] self@[i]).len() <= MAX_ENTRY
    }

    /// An empty table.
    pub fn new() -> (r: Self)
        ensures
            r.wf(),
            r@.len() == 0,
    {
        let r = EnvStorage { vars: Vec::new() };
        proof {
            assert(r@ =~= Seq::<Seq<u8>>::empty());
        }
        r
    }

    /// Number of entries.
    pub fn len(&self) -> (r: usize)
        ensures
            r == self@.len(),
    {
        self.vars.len()
    }

    /// Appends `NAME=VALUE`. Fails, leaving the table unchanged, when the table is full,
    /// the name is longer than 128 bytes or the entry longer than 255 bytes.
    pub fn set(&mut self, name: &[u8], value: &[u8]) -> (r: bool)
        requires
            old(self).wf(),
        ensures
            final(self).wf(),
            r == (old(self)@.len() < MAX_VARS && name@.len() <= MAX_NAME && name@.len() + 1
                + value@.len() <= MAX_ENTRY),
            r ==> final(self)@ == old(self)@.push(name@ + seq![61u8] + value@),
            !r ==> final(self)@ == old(self)@,
    {
        if self.vars.len() >= MAX_VARS || name.len() > MAX_NAME || value.len() > MAX_ENTRY - 1
            - name.len() {
            return false;
        }
        let mut entry: Vec<u8> = Vec::new();
        let mut i: usize = 0;
        while i < name.len()
            invariant
                i <= name@.len(),
                entry@ == name@.take(i as int),
            decreases name@.len() - i,
        {
            entry.push(name[i]);
            proof {
                assert(name@.take(i + 1) =~= name@.take(i as int).push(name@[i as int]));
            }
            i += 1;
        }
        entry.push(61u8);
        let mut j: usize = 0;
        while j < value.len()
            invariant
                j <= value@.len(),
                entry@ == name@ + seq![61u8] + value@.take(j as int),
            decreases value@.len() - j,
        {
            entry.push(value[j]);
            proof {
                assert(name@ + seq![61u8] + value@.take(j + 1) =~= (name@ + seq![61u8] + value@.take(
                    j as int,
                )).push(value@[j as int]));
            }
            j += 1;
        }
        proof {
            assert(name@.take(name@.len() as int) =~= name@);
            assert(value@.take(value@.len() as int) =~= value@);
        }
        self.vars.push(entry);
        proof {
            assert(self@ =~= old(self)@.push(name@ + seq![61u8] + value@));
        }
        true
    }

    /// Text of entry `i` before its first NUL.
    fn entry_text(&self, i: usize) -> (r: Vec<u8>)
        requires
            i < self@.len(),
        ensures
            r@ == until_nul(self@[i as int]),
    {
        let e = &self.vars[i];
        let ghost s = e@;
        let mut out: Vec<u8> = Vec::new();
        let mut k: usize = 0;
        proof {
            assert(s.skip(0) =~= s);
            assert(out@ + until_nul(s) =~= until_nul(s));
        }
        while k < e.len() && e[k] != 0
            invariant
                s == e@,
                s == self@[i as int],
                k <= s.len(),
                forall|m: int| 0 <= m < k ==> s[m] != 0,
                out@ == s.take(k as int),
                until_nul(s) == out@ + until_nul(s.skip(k as int)),
            decreases s.len() - k,
        {
            proof {
                assert(s.skip(k as int).drop_first() =~= s.skip(k + 1));
                assert(out@ + until_nul(s.skip(k as int)) =~= out@.push(s[k as int]) + until_nul(
                    s.skip(k + 1),
                ));
            }
            out.push(e[k]);
            proof {
                assert(s.take(k + 1) =~= s.take(k as int).push(s[k as int]));
            }
            k += 1;
        }
        proof {
            assert(out@ =~= out@ + until_nul(s.skip(k as int)));
        }
        out
    }

    /// The value of `name`: the one in the last entry that defines it.
    pub fn lookup_value(&self, name: &[u8]) -> (r: Option<Vec<u8>>)
        ensures
            match r {
                Some(v) => lookup(self@, name@) == Some(v@),
                None => lookup(self@, name@).is_none(),
            },
    {
        let mut n: usize = self.vars.len();
        while n > 0
            invariant
                n <= self@.len(),
                self@.len() == self.vars@.len(),
                lookup(self@, name@) == lookup_below(self@, name@, n as int),
            decreases n,
        {
            let i = n - 1;
            let text = self.entry_text(i);
            if text.len() > name.len() && text[name.len()] == 61u8 {
                let mut j: usize = 0;
                let mut same = true;
                proof {
                    assert(text@.take(0) =~= name@.take(0));
                }
                while j < name.len()
                    invariant
                        j <= name@.len(),
                        name@.len() < text@.len(),
                        same == (text@.take(j as int) == name@.take(j as int)),
                    decreases name@.len() - j,
                {
                    proof {
                        assert(text@.take(j + 1) =~= text@.take(j as int).push(text@[j as int]));
                        assert(name@.take(j + 1) =~= name@.take(j as int).push(name@[j as int]));
                        if text@.take(j + 1) == name@.take(j + 1) {
                            assert(text@.take(j + 1)[j as int] == name@.take(j + 1)[j as int]);
                            assert(text@.take(j as int) =~= text@.take(j + 1).drop_last());
                            assert(name@.take(j as int) =~= name@.take(j + 1).drop_last());
                        }
                    }
                    same = same && text[j] == name[j];
                    j += 1;
                }
                proof {
                    assert(name@.take(name@.len() as int) =~= name@);
                }
                if same {
                    let mut v: Vec<u8> = Vec::new();
                    let mut k: usize = name.len() + 1;
                    while k < text.len()
                        invariant
                            name@.len() + 1 <= k <= text@.len(),
                            v@ == text@.subrange(name@.len() + 1 as int, k as int),
                        decreases text@.len() - k,
                    {
                        v.push(text[k]);
                        proof {
                            assert(text@.subrange(name@.len() + 1 as int, k + 1) =~= text@.subrange(
                                name@.len() + 1 as int,
                                k as int,
                            ).push(text@[k as int]));
                        }
                        k += 1;
                    }
                    proof {
                        assert(v@ =~= text@.skip(name@.len() + 1 as int));
                    }
                    return Some(v);
                }
            }
            n -= 1;
        }
        None
    }

    /// Copies the value of `name` into `out`, as much as fits; returns the number of bytes
    /// copied (zero when `name` is unset).
    pub fn get(&self, name: &[u8], out: &mut [u8]) -> (r: usize)
        ensures
            match lookup(self@, name@) {
                Some(v) => {
                    &&& r == vstd::math::min(v.len() as int, old(out)@.len() as int)
                    &&& final(out)@ == v.take(r as int) + old(out)@.skip(r as int)
                },
                None => r == 0 && final(out)@ == old(out)@,
            },
    {
        match self.lookup_value(name) {
            Some(v) => {
                let n: usize = if v.len() < out.len() { v.len() } else { out.len() };
                let ghost out0 = out@;
                let mut i: usize = 0;
                while i < n
                    invariant
                        n <= v@.len(),
                        n <= out@.len(),
                        out@.len() == out0.len(),
                        i <= n,
                        forall|k: int| 0 <= k < i ==> out@[k] == v@[k],
                        forall|k: int| i <= k < out@.len() ==> out@[k] == out0[k],
                    decreases n - i,
                {
                    out[i] = v[i];
                    i += 1;
                }
                proof {
                    assert(out@ =~= v@.take(n as int) + out0.skip(n as int));
                }
                n
            },
            None => 0,
        }
    }

    /// Every non-empty entry as `NAME=VALUE` text, in the order they were set.
    pub fn iter(&self) -> (r: Vec<Vec<u8>>)
        ensures
            r.deep_view() == listed(self@),
    {
        let mut r: Vec<Vec<u8>> = Vec::new();
        let mut i: usize = 0;
        proof {
            assert(r.deep_view() =~= listed(self@.take(0)));
        }
        while i < self.vars.len()
            invariant
                i <= self@.len(),
                self@.len() == self.vars@.len(),
                r.deep_view() == listed(self@.take(i as int)),
            decreases self@.len() - i,
        {
            let t = self.entry_text(i);
            proof {
                assert(self@.take(i + 1).drop_last() =~= self@.take(i as int));
                assert(self@.take(i + 1).last() == self@[i as int]);
            }
            if t.len() > 0 {
                let ghost rv = r.deep_view();
                let ghost r_old = r@;
                r.push(t);
                proof {
                    assert forall|k: int| 0 <= k < r@.len() implies r.deep_view()[k] == rv.push(
                        t@,
                    )[k] by {
                        if k < r_old.len() {
                            assert(r@[k] == r_old[k]);
                        }
                    }
                    assert(r.deep_view() =~= rv.push(t@));
                }
            }
            i += 1;
        }
        proof {
            assert(self@.take(i as int) =~= self@);
        }
        r
    }
}

/// Writes the expansion of `input` (see `expand_from`) at the start of `output`, as much as
/// fits; returns the number of bytes written.
pub fn expand_env_vars(input: &[u8], output: &mut [u8], env: &EnvStorage) -> (r: usize)
    ensures
        r == vstd::math::min(expand_from(input@, 0, env@).len() as int, old(output)@.len() as int),
        final(output)@ == expand_from(input@, 0, env@).take(r as int) + old(output)@.skip(r as int),
{
    let ghost s = input@;
    let ghost full = expand_from(s, 0, env@);
    let ghost out0 = output@;
    let ghost mut produced: Seq<u8> = seq![];
    let mut out_idx: usize = 0;
    let mut i: usize = 0;
    while i < input.len() && input[i] != 0
        invariant
            s == input@,
            full == expand_from(s, 0, env@),
            out0 == old(output)@,
            output@.len() == out0.len(),
            i <= s.len(),
            full == produced + expand_from(s, i as int, env@),
            out_idx == vstd::math::min(produced.len() as int, out0.len() as int),
            output@ == produced.take(out_idx as int) + out0.skip(out_idx as int),
        decreases s.len() - i,
    {
        if input[i] == 36u8 && i + 1 < input.len() {
            proof {
                lemma_ident_end(s, i + 1);
            }
            let ghost i0 = i;
            i += 1;
            let var_start = i;
            while i < input.len() && (is_ident(input[i]))
                invariant
                    s == input@,
                    var_start <= i <= s.len(),
                    ident_end(s, var_start as int) == ident_end(s, i as int),
                decreases s.len() - i,
            {
                i += 1;
            }
            let ghost v: Seq<u8> = seq![];
            if i > var_start {
                let name = vstd::slice::slice_subrange(input, var_start, i);
                match env.lookup_value(name) {
                    Some(val) => {
                        proof {
                            v = val@;
                        }
                        let mut k: usize = 0;
                        while k < val.len()
                            invariant
                                output@.len() == out0.len(),
                                k <= val@.len(),
                                out_idx == vstd::math::min(
                                    produced.len() + k as int,
                                    out0.len() as int,
                                ),
                                output@ == (produced + val@.take(k as int)).take(out_idx as int)
                                    + out0.skip(out_idx as int),
                            decreases val@.len() - k,
                        {
                            let ghost o = output@;
                            if out_idx < output.len() {
                                output[out_idx] = val[k];
                                proof {
                                    assert((produced + val@.take(k + 1)).take(out_idx + 1) =~= (
                                    produced + val@.take(k as int)).take(out_idx as int).push(
                                        val@[k as int],
                                    ));
                                    assert(output@ =~= (produced + val@.take(k + 1)).take(
                                        out_idx + 1,
                                    ) + out0.skip(out_idx + 1));
                                }
                                out_idx += 1;
                            } else {
                                proof {
                                    assert((produced + val@.take(k + 1)).take(out_idx as int) =~= (
                                    produced + val@.take(k as int)).take(out_idx as int));
                                }
                            }
                            k += 1;
                        }
                        proof {
                            assert(val@.take(k as int) =~= val@);
                        }
                    },
                    None => {},
                }
            }
            proof {
                assert(s.subrange(var_start as int, i as int) == s.subrange(i0 + 1, ident_end(s, i0 + 1)));
                assert(full == (produced + v) + expand_from(s, i as int, env@));
                produced = produced + v;
            }
        } else {
            if out_idx >= output.len() {
                proof {
                    assert(expand_from(s, i as int, env@) == seq![s[i as int]] + expand_from(s, i + 1, env@));
                    assert(full.len() >= produced.len() + 1);
                    assert(full.take(out_idx as int) =~= produced.take(out_idx as int));
                }
                return out_idx;
            }
            output[out_idx] = input[i];
            proof {
                assert((produced + seq![s[i as int]]).take(out_idx + 1) =~= produced.take(
                    out_idx as int,
                ).push(s[i as int]));
                assert(output@ =~= (produced + seq![s[i as int]]).take(out_idx + 1) + out0.skip(
                    out_idx + 1,
                ));
                assert(full == (produced + seq![s[i as int]]) + expand_from(s, i + 1, env@));
                produced = produced + seq![s[i as int]];
            }
            out_idx += 1;
            i += 1;
        }
    }
    proof {
        assert(expand_from(s, i as int, env@) =~= seq![]);
        assert(full =~= produced);
    }
    out_idx
}

fn is_ident(b: u8) -> (r: bool)
    ensures
        r == is_ident_byte(b),
{
    (48 <= b && b <= 57) || (65 <= b && b <= 90) || (97 <= b && b <= 122) || b == 95
}

} // verus!
