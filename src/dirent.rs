use vstd::prelude::*;
use crate::env::until_nul;

verus! {

/// Size of the fixed part of a `linux_dirent64` record as laid out in memory
/// (inode, offset, record length, type, padded to eight bytes).
pub const DIRENT_HEADER: usize = 24;

/// Offset of the name inside a record.
pub const DIRENT_NAME_OFFSET: usize = 19;

/// Most names one `ls` lists.
pub const MAX_LISTED: usize = 64;

/// The declared length of the record at `pos` (little-endian 16 bits at offset 16).
pub open spec fn rec_len(b: Seq<u8>, pos: int) -> int {
    b[pos + 16] as int + 256 * (b[pos + 17] as int)
}

/// A whole record with a non-zero length starts at `pos`.
pub open spec fn record_ok(b: Seq<u8>, pos: int) -> bool {
    &&& 0 <= pos
    &&& pos + DIRENT_HEADER <= b.len()
    &&& rec_len(b, pos) > 0
    &&& pos + rec_len(b, pos) <= b.len()
}

/// The name of the record at `pos`: from offset 19 up to a NUL or the record's end.
pub open spec fn record_name(b: Seq<u8>, pos: int) -> Seq<u8> {
    if rec_len(b, pos) <= DIRENT_NAME_OFFSET {
        seq![]
    } else {
        until_nul(b.subrange(pos + DIRENT_NAME_OFFSET, pos + rec_len(b, pos)))
    }
}

/// The names of the records from `pos` on, until a record is cut short.
pub open spec fn names_from(b: Seq<u8>, pos: int) -> Seq<Seq<u8>>
    decreases b.len() - pos,
{
    if record_ok(b, pos) {
        seq![record_name(b, pos)] + names_from(b, pos + rec_len(b, pos))
    } else {
        seq![]
    }
}

/// `.` and `..` are not listed.
pub open spec fn is_listed(n: Seq<u8>) -> bool {
    n != seq![46u8] && n != seq![46u8, 46u8]
}

/// The names of `names` that are listed, in order.
pub open spec fn listed_names(names: Seq<Seq<u8>>) -> Seq<Seq<u8>>
    decreases names.len(),
{
    if names.len() == 0 {
        seq![]
    } else if is_listed(names[0]) {
        seq![names[0]] + listed_names(names.drop_first())
    } else {
        listed_names(names.drop_first())
    }
}

/// The little-endian number in the `n` bytes of `b` from `pos` on.
pub open spec fn le_value(b: Seq<u8>, pos: int, n: nat) -> nat
    decreases n,
{
    if n == 0 {
        0
    } else {
        b[pos] as nat + 256 * le_value(b, pos + 1, (n - 1) as nat)
    }
}

/// The fixed part of a `linux_dirent64` record.
pub struct LinuxDirent64 {
    pub d_ino: u64,
    pub d_off: u64,
    pub d_reclen: u16,
    pub d_type: u8,
}

proof fn lemma_le_bound(b: Seq<u8>, pos: int, n: nat)
    requires
        0 <= pos,
        pos + n <= b.len(),
    ensures
        le_value(b, pos, n) < pow256(n),
    decreases n,
{
    if n > 0 {
        lemma_le_bound(b, pos + 1, (n - 1) as nat);
        assert(le_value(b, pos, n) <= 255 + 256 * (pow256((n - 1) as nat) - 1));
    }
}

/// `256` to the power `n`.
pub open spec fn pow256(n: nat) -> nat
    decreases n,
{
    if n == 0 {
        1
    } else {
        256 * pow256((n - 1) as nat)
    }
}

/// Reads a little-endian number of `n` (at most 8) bytes.
fn read_le(buf: &[u8], pos: usize, n: usize) -> (r: u64)
    requires
        n <= 8,
        pos + n <= buf.len(),
    ensures
        r as nat == le_value(buf@, pos as int, n as nat),
{
    let mut acc: u64 = 0;
    let mut k: usize = n;
    proof {
        reveal_with_fuel(pow256, 9);
        assert(pow256(8) == 0x1_0000_0000_0000_0000nat);
    }
    while k > 0
        invariant
            k <= n <= 8,
            pos + n <= buf.len(),
            pow256(8) == 0x1_0000_0000_0000_0000nat,
            acc as nat == le_value(buf@, pos + k, (n - k) as nat),
        decreases k,
    {
        proof {
            lemma_le_bound(buf@, pos + k, (n - k) as nat);
            lemma_pow256_mono((n - k) as nat, 7);
            assert(acc as nat * 256 + 255 < pow256(8)) by (nonlinear_arith)
                requires
                    acc < pow256((n - k) as nat),
                    pow256((n - k) as nat) <= pow256(7),
                    pow256(8) == 256 * pow256(7),
            ;
        }
        acc = acc * 256 + buf[pos + k - 1] as u64;
        k -= 1;
    }
    acc
}

proof fn lemma_pow256_mono(a: nat, b: nat)
    requires
        a <= b,
    ensures
        pow256(a) <= pow256(b),
    decreases b,
{
    if a < b {
        lemma_pow256_mono(a, (b - 1) as nat);
    }
}

/// Reads the record header at `pos`.
pub fn read_dirent_header(buf: &[u8], pos: usize) -> (r: LinuxDirent64)
    requires
        pos + DIRENT_HEADER <= buf.len(),
    ensures
        r.d_ino as nat == le_value(buf@, pos as int, 8),
        r.d_off as nat == le_value(buf@, pos + 8, 8),
        r.d_reclen as int == rec_len(buf@, pos as int),
        r.d_type == buf@[pos + 18],
{
    let ino = read_le(buf, pos, 8);
    let off = read_le(buf, pos + 8, 8);
    let reclen = read_le(buf, pos + 16, 2);
    proof {
        assert(le_value(buf@, pos + 16, 2) == rec_len(buf@, pos as int)) by {
            assert(le_value(buf@, pos + 18, 0) == 0);
            assert(le_value(buf@, pos + 17, 1) == buf@[pos + 17] as nat);
            assert(le_value(buf@, pos + 16, 2) == buf@[pos + 16] as nat + 256 * le_value(buf@, pos + 17, 1));
        }
        lemma_le_bound(buf@, pos + 16, 2);
        reveal_with_fuel(pow256, 3);
    }
    LinuxDirent64 { d_ino: ino, d_off: off, d_reclen: reclen as u16, d_type: buf[pos + 18] }
}

/// At most the first 64 of `s`.
pub open spec fn capped(s: Seq<Seq<u8>>) -> Seq<Seq<u8>> {
    if s.len() <= MAX_LISTED {
        s
    } else {
        s.take(MAX_LISTED as int)
    }
}

/// Walks the records of a buffer filled by `getdents64`.
pub struct DirentParser<'a> {
    buf: &'a [u8],
    pos: usize,
}

/// One directory entry: its name, borrowed from the buffer.
pub struct DirentEntry<'a> {
    pub name: &'a [u8],
}

impl<'a> DirentParser<'a> {
    pub closed spec fn bytes(&self) -> Seq<u8> {
        self.buf@
    }

    pub closed spec fn position(&self) -> int {
        self.pos as int
    }

    /// The names not yet returned.
    pub open spec fn remaining(&self) -> Seq<Seq<u8>> {
        names_from(self.bytes(), self.position())
    }

    pub closed spec fn wf(&self) -> bool {
        self.pos <= self.buf@.len()
    }

    /// A well-formed parser stands at or inside its buffer.
    pub proof fn lemma_position_bounds(&self)
        requires
            self.wf(),
        ensures
            0 <= self.position() <= self.bytes().len(),
    {
    }

    pub fn new(buf: &'a [u8]) -> (r: Self)
        ensures
            r.wf(),
            r.bytes() == buf@,
            r.position() == 0,
            0 <= r.position() <= r.bytes().len(),
    {
        DirentParser { buf, pos: 0 }
    }

    /// The next record's name, or `None` once no whole record is left.
    pub fn next(&mut self) -> (r: Option<DirentEntry<'a>>)
        requires
            old(self).wf(),
        ensures
            final(self).wf(),
            final(self).bytes() == old(self).bytes(),
            0 <= old(self).position() <= old(self).bytes().len(),
            0 <= final(self).position() <= final(self).bytes().len(),
            match r {
                Some(e) => {
                    &&& record_ok(old(self).bytes(), old(self).position())
                    &&& e.name@ == record_name(old(self).bytes(), old(self).position())
                    &&& final(self).position() == old(self).position() + rec_len(
                        old(self).bytes(),
                        old(self).position(),
                    )
                },
                None => !record_ok(old(self).bytes(), old(self).position()) && final(self).position()
                    == old(self).position(),
            },
            final(self).remaining() == if r.is_some() {
                old(self).remaining().drop_first()
            } else {
                old(self).remaining()
            },
    {
        let ghost b = self.buf@;
        if self.pos >= self.buf.len() || self.buf.len() - self.pos < DIRENT_HEADER {
            return None;
        }
        let header = read_dirent_header(self.buf, self.pos);
        let reclen: usize = header.d_reclen as usize;
        if reclen == 0 || reclen > self.buf.len() - self.pos {
            return None;
        }
        let name_start = self.pos + DIRENT_NAME_OFFSET;
        let end = self.pos + reclen;
        let mut name_end = name_start;
        if end > name_start {
            let ghost rec = b.subrange(name_start as int, end as int);
            proof {
                assert(rec.skip(0) =~= rec);
                assert(seq![] + until_nul(rec) =~= until_nul(rec));
            }
            while name_end < end && self.buf[name_end] != 0
                invariant
                    b == self.buf@,
                    name_start <= name_end <= end,
                    end <= b.len(),
                    rec == b.subrange(name_start as int, end as int),
                    b.subrange(name_start as int, name_end as int) == rec.take(name_end - name_start),
                    until_nul(rec) == b.subrange(name_start as int, name_end as int) + until_nul(
                        rec.skip(name_end - name_start),
                    ),
                decreases end - name_end,
            {
                proof {
                    let k = name_end - name_start;
                    assert(rec.skip(k).drop_first() =~= rec.skip(k + 1));
                    assert(b.subrange(name_start as int, name_end + 1) =~= b.subrange(
                        name_start as int,
                        name_end as int,
                    ).push(b[name_end as int]));
                    assert(b.subrange(name_start as int, name_end as int) + until_nul(rec.skip(k))
                        =~= b.subrange(name_start as int, name_end + 1) + until_nul(
                        rec.skip(k + 1),
                    ));
                    assert(rec.take(k + 1) =~= b.subrange(name_start as int, name_end + 1));
                }
                name_end += 1;
            }
            proof {
                assert(until_nul(rec.skip(name_end - name_start)) =~= seq![]);
                assert(b.subrange(name_start as int, name_end as int) + seq![] =~= b.subrange(
                    name_start as int,
                    name_end as int,
                ));
            }
        } else {
            proof {
                assert(b.subrange(name_start as int, name_end as int) =~= seq![]);
            }
        }
        let name = vstd::slice::slice_subrange(self.buf, name_start, name_end);
        self.pos = end;
        proof {
            assert(names_from(b, old(self).pos as int) =~= seq![record_name(b, old(self).pos as int)]
                + names_from(b, end as int));
            assert(names_from(b, old(self).pos as int).drop_first() =~= names_from(b, end as int));
        }
        Some(DirentEntry { name })
    }
}

/// Appends to `names` the listed names of the records in `buf` (see `listed_names`),
/// keeping at most 64 names in all.
pub fn collect_names(buf: &[u8], names: &mut Vec<Vec<u8>>)
    requires
        old(names)@.len() <= MAX_LISTED,
    ensures
        final(names).deep_view() == capped(old(names).deep_view() + listed_names(names_from(buf@, 0))),
{
    let ghost all = names_from(buf@, 0);
    let ghost start = names.deep_view();
    let mut parser = DirentParser::new(buf);
    let ghost mut seen: Seq<Seq<u8>> = seq![];
    proof {
        assert(names.deep_view().len() == names@.len());
        assert(listed_names(seen) =~= seq![]);
        assert(start + listed_names(seen) =~= start);
        assert(seen + parser.remaining() =~= all);
        assert(start + listed_names(seen) + listed_names(all) =~= start + listed_names(all));
    }
    while names.len() < MAX_LISTED
        invariant
            parser.wf(),
            parser.bytes() == buf@,
            all == names_from(buf@, 0),
            all == seen + parser.remaining(),
            names@.len() <= MAX_LISTED,
            names.deep_view() == capped(start + listed_names(seen)),
            start.len() <= MAX_LISTED,
            start == old(names).deep_view(),
            start + listed_names(all) == start + listed_names(seen) + listed_names(
                parser.remaining(),
            ),
        decreases buf@.len() - parser.position(),
    {
        let ghost rem = parser.remaining();
        let ghost p0 = parser.position();
        match parser.next() {
            Some(e) => {
                proof {
                    assert(rem =~= seq![rem[0]] + rem.drop_first());
                    assert(rec_len(buf@, p0) > 0);
                }
                let ghost nv = names.deep_view();
                let n = e.name;
                if !((n.len() == 1 && n[0] == 46u8) || (n.len() == 2 && n[0] == 46u8 && n[1] == 46u8)) {
                    proof {
                        assert(n@ != seq![46u8] ==> n@.len() != 1 || n@[0] != 46u8);
                        if n@ == seq![46u8] {
                            assert(n@.len() == 1 && n@[0] == 46u8);
                        }
                        if n@ == seq![46u8, 46u8] {
                            assert(n@.len() == 2 && n@[0] == 46u8 && n@[1] == 46u8);
                        }
                        assert(is_listed(rem[0]));
                    }
                    let v = vstd::slice::slice_to_vec(n);
                    let ghost old_names = names@;
                    names.push(v);
                    proof {
                        assert forall|k: int| 0 <= k < names@.len() implies names.deep_view()[k]
                            == nv.push(n@)[k] by {
                            if k < old_names.len() {
                                assert(names@[k] == old_names[k]);
                            }
                        }
                        assert(names.deep_view() =~= nv.push(n@));
                    }
                } else {
                    proof {
                        if n@.len() == 1 {
                            assert(n@ =~= seq![46u8]);
                        } else {
                            assert(n@ =~= seq![46u8, 46u8]);
                        }
                        assert(!is_listed(rem[0]));
                    }
                }
                proof {
                    lemma_listed_append(seen, rem[0]);
                    let seen2 = seen.push(rem[0]);
                    assert(seen + rem =~= seen2 + rem.drop_first());
                    assert(listed_names(seq![rem[0]] + rem.drop_first()) == if is_listed(rem[0]) {
                        seq![rem[0]] + listed_names(rem.drop_first())
                    } else {
                        listed_names(rem.drop_first())
                    });
                    if is_listed(rem[0]) {
                        assert(listed_names(seen2) =~= listed_names(seen).push(rem[0]));
                        assert(start + listed_names(seen) + listed_names(rem) =~= start
                            + listed_names(seen2) + listed_names(rem.drop_first()));
                        let x = start + listed_names(seen);
                        assert(nv.len() == names@.len() - 1);
                        assert(x.len() < MAX_LISTED);
                        assert(start + listed_names(seen2) =~= x.push(rem[0]));

                    } else {
                        assert(listed_names(seen2) =~= listed_names(seen));
                        assert(start + listed_names(seen) + listed_names(rem) =~= start
                            + listed_names(seen2) + listed_names(rem.drop_first()));
                    }
                    seen = seen2;
                }
            },
            None => {
                proof {
                    assert(parser.remaining() =~= seq![]);
                    assert(listed_names(parser.remaining()) =~= seq![]);
                    assert(start + listed_names(all) =~= start + listed_names(seen));
                }
                return ;
            },
        }
    }
    proof {
        assert(names.deep_view().len() == names@.len());
        assert((start + listed_names(seen)).len() >= MAX_LISTED);
        assert(capped(start + listed_names(all)) =~= capped(start + listed_names(seen)));
    }
}

/// Listing `seen` and then one more name appends that name when it is listed.
pub proof fn lemma_listed_append(seen: Seq<Seq<u8>>, n: Seq<u8>)
    ensures
        listed_names(seen.push(n)) == if is_listed(n) {
            listed_names(seen).push(n)
        } else {
            listed_names(seen)
        },
    decreases seen.len(),
{
    if seen.len() == 0 {
        assert(seq![n].drop_first() =~= Seq::<Seq<u8>>::empty());
        assert(listed_names(Seq::<Seq<u8>>::empty()) =~= seq![]);
        assert(seen.push(n) =~= seq![n]);
    } else {
        assert(seen.push(n).drop_first() =~= seen.drop_first().push(n));
        lemma_listed_append(seen.drop_first(), n);
        if is_listed(seen[0]) {
            assert(seq![seen[0]] + listed_names(seen.drop_first()).push(n) =~= (seq![seen[0]]
                + listed_names(seen.drop_first())).push(n));
        }
    }
}

} // verus!
