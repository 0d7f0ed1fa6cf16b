use vstd::prelude::*;

verus! {

/// Capacity of a session's line being edited.
pub const MAX_INPUT: usize = 512;

/// Capacity of a session's output buffer.
pub const MAX_OUTPUT: usize = 4096;

/// Number of sessions in a pool.
pub const MAX_SESSIONS: usize = 16;

/// A byte that the line editor keeps (printable ASCII).
pub open spec fn is_printable(b: u8) -> bool {
    32 <= b && b <= 126
}

/// The written bytes after appending `data`, dropping what does not fit.
pub open spec fn ring_after_write(written: Seq<u8>, data: Seq<u8>) -> Seq<u8> {
    if written.len() + data.len() <= MAX_OUTPUT {
        written + data
    } else {
        written + data.take(MAX_OUTPUT - written.len())
    }
}

/// One shell session: the line being edited and an output buffer that a single
/// reader drains in order.
pub struct ShellSession {
    input: Vec<u8>,
    output: Vec<u8>,
    read_pos: usize,
    active: bool,
}

impl ShellSession {
    /// The line being edited.
    pub closed spec fn input_spec(&self) -> Seq<u8> {
        self.input@
    }

    /// Every byte written since activation (the write cursor is its length).
    pub closed spec fn written(&self) -> Seq<u8> {
        self.output@
    }

    /// How many written bytes were already read.
    pub closed spec fn read_cursor(&self) -> nat {
        self.read_pos as nat
    }

    pub closed spec fn active_spec(&self) -> bool {
        self.active
    }

    /// Bytes written and not yet read.
    pub open spec fn unread(&self) -> Seq<u8> {
        self.written().skip(self.read_cursor() as int)
    }

    pub closed spec fn wf(&self) -> bool {
        &&& self.input@.len() <= MAX_INPUT
        &&& self.output@.len() <= MAX_OUTPUT
        &&& self.read_pos <= self.output@.len()
    }

    pub proof fn lemma_wf_bounds(&self)
        requires
            self.wf(),
        ensures
            self.input_spec().len() <= MAX_INPUT,
            self.written().len() <= MAX_OUTPUT,
            self.read_cursor() <= self.written().len(),
    {
    }

    /// An inactive session with nothing in it.
    pub fn new() -> (r: Self)
        ensures
            r.wf(),
            !r.active_spec(),
            r.input_spec().len() == 0,
            r.written().len() == 0,
            r.read_cursor() == 0,
    {
        ShellSession { input: Vec::new(), output: Vec::new(), read_pos: 0, active: false }
    }

    /// Empties the line and the output buffer and marks the session active.
    pub fn activate(&mut self)
        ensures
            final(self).wf(),
            final(self).active_spec(),
            final(self).input_spec().len() == 0,
            final(self).written().len() == 0,
            final(self).read_cursor() == 0,
    {
        self.input = Vec::new();
        self.output = Vec::new();
        self.read_pos = 0;
        self.active = true;
    }

    /// Marks the session free; its contents stay until the next activation.
    pub fn deactivate(&mut self)
        requires
            old(self).wf(),
        ensures
            final(self).wf(),
            !final(self).active_spec(),
            final(self).input_spec() == old(self).input_spec(),
            final(self).written() == old(self).written(),
            final(self).read_cursor() == old(self).read_cursor(),
    {
        self.active = false;
    }

    pub fn is_active(&self) -> (r: bool)
        ensures
            r == self.active_spec(),
    {
        self.active
    }

    /// Adds a printable byte to the line if there is room; ignores anything else.
    pub fn append_input(&mut self, ch: u8)
        requires
            old(self).wf(),
        ensures
            final(self).wf(),
            final(self).input_spec() == if is_printable(ch) && old(self).input_spec().len()
                < MAX_INPUT {
                old(self).input_spec().push(ch)
            } else {
                old(self).input_spec()
            },
            final(self).written() == old(self).written(),
            final(self).read_cursor() == old(self).read_cursor(),
            final(self).active_spec() == old(self).active_spec(),
    {
        if 32 <= ch && ch <= 126 && self.input.len() < MAX_INPUT {
            self.input.push(ch);
        }
    }

    /// Copies the line into `out`, as much as fits; returns the number of bytes copied.
    pub fn get_input(&self, out: &mut [u8]) -> (r: usize)
        requires
            self.wf(),
        ensures
            r == vstd::math::min(self.input_spec().len() as int, old(out)@.len() as int),
            final(out)@ == self.input_spec().take(r as int) + old(out)@.skip(r as int),
    {
        let n: usize = if self.input.len() < out.len() { self.input.len() } else { out.len() };
        let ghost out0 = out@;
        let mut i: usize = 0;
        while i < n
            invariant
                n <= self.input@.len(),
                n <= out@.len(),
                out@.len() == out0.len(),
                i <= n,
                forall|k: int| 0 <= k < i ==> out@[k] == self.input@[k],
                forall|k: int| i <= k < out@.len() ==> out@[k] == out0[k],
            decreases n - i,
        {
            out[i] = self.input[i];
            i += 1;
        }
        proof {
            assert(out@ =~= self.input@.take(n as int) + out0.skip(n as int));
        }
        n
    }

    /// The line as a new vector.
    pub fn input_bytes(&self) -> (r: Vec<u8>)
        ensures
            r@ == self.input_spec(),
    {
        self.input.clone()
    }

    pub fn clear_input(&mut self)
        requires
            old(self).wf(),
        ensures
            final(self).wf(),
            final(self).input_spec().len() == 0,
            final(self).written() == old(self).written(),
            final(self).read_cursor() == old(self).read_cursor(),
            final(self).active_spec() == old(self).active_spec(),
    {
        self.input = Vec::new();
    }

    /// Removes the last byte of the line, if any.
    pub fn backspace_input(&mut self)
        requires
            old(self).wf(),
        ensures
            final(self).wf(),
            final(self).input_spec() == if old(self).input_spec().len() > 0 {
                old(self).input_spec().drop_last()
            } else {
                old(self).input_spec()
            },
            final(self).written() == old(self).written(),
            final(self).read_cursor() == old(self).read_cursor(),
            final(self).active_spec() == old(self).active_spec(),
    {
        if self.input.len() > 0 {
            self.input.pop();
            proof {
                assert(self.input@ =~= old(self).input@.drop_last());
            }
        }
    }

    pub fn input_len(&self) -> (r: usize)
        ensures
            r == self.input_spec().len(),
    {
        self.input.len()
    }

    /// Appends `data` to the output buffer; what does not fit is dropped, and
    /// unread bytes are never overwritten.
    pub fn write_output(&mut self, data: &[u8])
        requires
            old(self).wf(),
        ensures
            final(self).wf(),
            final(self).written() == ring_after_write(old(self).written(), data@),
            final(self).read_cursor() == old(self).read_cursor(),
            final(self).input_spec() == old(self).input_spec(),
            final(self).active_spec() == old(self).active_spec(),
    {
        let ghost w0 = self.output@;
        let mut i: usize = 0;
        while i < data.len() && self.output.len() < MAX_OUTPUT
            invariant
                self.input@ == old(self).input@,
                self.read_pos == old(self).read_pos,
                self.active == old(self).active,
                w0 == old(self).output@,
                w0.len() <= MAX_OUTPUT,
                self.read_pos <= w0.len(),
                i <= data@.len(),
                self.output@ == w0 + data@.take(i as int),
                self.output@.len() <= MAX_OUTPUT,
            decreases data@.len() - i,
        {
            self.output.push(data[i]);
            proof {
                assert(w0 + data@.take(i + 1) =~= (w0 + data@.take(i as int)).push(data@[i as int]));
            }
            i += 1;
        }
        proof {
            if w0.len() + data@.len() <= MAX_OUTPUT {
                assert(data@.take(i as int) =~= data@);
            }
        }
    }

    /// Copies unread bytes into `out` in order, as many as fit, and marks them read;
    /// returns the number copied.
    pub fn read_output(&mut self, out: &mut [u8]) -> (r: usize)
        requires
            old(self).wf(),
        ensures
            final(self).wf(),
            r == vstd::math::min(old(self).unread().len() as int, old(out)@.len() as int),
            final(out)@ == old(self).unread().take(r as int) + old(out)@.skip(r as int),
            final(self).read_cursor() == old(self).read_cursor() + r,
            final(self).written() == old(self).written(),
            final(self).input_spec() == old(self).input_spec(),
            final(self).active_spec() == old(self).active_spec(),
    {
        let avail: usize = self.output.len() - self.read_pos;
        let n: usize = if avail < out.len() { avail } else { out.len() };
        let ghost out0 = out@;
        let start = self.read_pos;
        let mut i: usize = 0;
        while i < n
            invariant
                self.wf(),
                start == self.read_pos,
                n <= self.output@.len() - start,
                n <= out@.len(),
                out@.len() == out0.len(),
                i <= n,
                forall|k: int| 0 <= k < i ==> out@[k] == self.output@[start + k],
                forall|k: int| i <= k < out@.len() ==> out@[k] == out0[k],
            decreases n - i,
        {
            out[i] = self.output[start + i];
            i += 1;
        }
        proof {
            assert(out@ =~= self.output@.skip(start as int).take(n as int) + out0.skip(n as int));
        }
        self.read_pos = start + n;
        n
    }

    /// Some written byte is still unread.
    pub fn has_output(&self) -> (r: bool)
        requires
            self.wf(),
        ensures
            r == (self.read_cursor() < self.written().len()),
    {
        self.read_pos < self.output.len()
    }
}

/// The fixed set of sessions that connections are given.
pub struct SessionPool {
    sessions: Vec<ShellSession>,
}

impl SessionPool {
    pub closed spec fn view(&self) -> Seq<ShellSession> {
        self.sessions@
    }

    pub open spec fn wf(&self) -> bool {
        &&& self@.len() == MAX_SESSIONS
        &&& forall|i: int| 0 <= i < self@.len() ==> (#[trigger] self@[i]).wf()
    }

    /// Index of the first inactive session at or after `from`.
    pub open spec fn first_free_from(s: Seq<ShellSession>, from: int) -> Option<int>
        decreases s.len() - from,
    {
        if from >= s.len() || from < 0 {
            None
        } else if !s[from].active_spec() {
            Some(from)
        } else {
            Self::first_free_from(s, from + 1)
        }
    }

    /// A pool of inactive, empty sessions.
    pub fn new() -> (r: Self)
        ensures
            r.wf(),
            forall|i: int| 0 <= i < r@.len() ==> !(#[trigger] r@[i]).active_spec(),
    {
        let mut sessions: Vec<ShellSession> = Vec::new();
        let mut i: usize = 0;
        while i < MAX_SESSIONS
            invariant
                i <= MAX_SESSIONS,
                sessions@.len() == i,
                forall|k: int| 0 <= k < i ==> (#[trigger] sessions@[k]).wf() && !sessions@[k].active_spec(),
            decreases MAX_SESSIONS - i,
        {
            sessions.push(ShellSession::new());
            i += 1;
        }
        SessionPool { sessions }
    }

    /// The session at `idx` for changing it in place.
    pub fn session_mut(&mut self, idx: usize) -> (r: &mut ShellSession)
        requires
            old(self).wf(),
            idx < MAX_SESSIONS,
        ensures
            *r == old(self)@[idx as int],
            final(self)@ == old(self)@.update(idx as int, *final(r)),
    {
        &mut self.sessions[idx]
    }
}

/// The session at `idx`, if `idx` names one.
pub fn get_session(pool: &SessionPool, idx: usize) -> (r: Option<&ShellSession>)
    requires
        pool.wf(),
    ensures
        idx < MAX_SESSIONS <==> r.is_some(),
        r.is_some() ==> *r.unwrap() == pool@[idx as int],
{
    if idx < MAX_SESSIONS {
        Some(&pool.sessions[idx])
    } else {
        None
    }
}

/// Activates the first inactive session and returns its index; `None` when all are taken.
pub fn allocate_session(pool: &mut SessionPool) -> (r: Option<usize>)
    requires
        old(pool).wf(),
    ensures
        final(pool).wf(),
        r == match SessionPool::first_free_from(old(pool)@, 0) {
            Some(i) => Some(i as usize),
            None => None::<usize>,
        },
        match r {
            Some(i) => {
                &&& final(pool)@[i as int].active_spec()
                &&& final(pool)@[i as int].input_spec().len() == 0
                &&& final(pool)@[i as int].written().len() == 0
                &&& final(pool)@[i as int].read_cursor() == 0
                &&& forall|j: int| 0 <= j < MAX_SESSIONS && j != i ==> final(pool)@[j] == old(pool)@[j]
            },
            None => final(pool)@ == old(pool)@,
        },
{
    let mut i: usize = 0;
    while i < MAX_SESSIONS
        invariant
            pool.wf(),
            pool@ == old(pool)@,
            i <= MAX_SESSIONS,
            SessionPool::first_free_from(pool@, 0) == SessionPool::first_free_from(pool@, i as int),
        decreases MAX_SESSIONS - i,
    {
        if !pool.sessions[i].is_active() {
            pool.sessions[i].activate();
            return Some(i);
        }
        i += 1;
    }
    None
}

/// Marks the session at `idx` free; other sessions are untouched.
pub fn free_session(pool: &mut SessionPool, idx: usize)
    requires
        old(pool).wf(),
    ensures
        final(pool).wf(),
        idx < MAX_SESSIONS ==> {
            &&& !final(pool)@[idx as int].active_spec()
            &&& final(pool)@[idx as int].input_spec() == old(pool)@[idx as int].input_spec()
            &&& final(pool)@[idx as int].written() == old(pool)@[idx as int].written()
            &&& final(pool)@[idx as int].read_cursor() == old(pool)@[idx as int].read_cursor()
        },
        idx >= MAX_SESSIONS ==> final(pool)@ == old(pool)@,
        forall|j: int| 0 <= j < MAX_SESSIONS && j != idx ==> final(pool)@[j] == old(pool)@[j],
{
    if idx < MAX_SESSIONS {
        pool.sessions[idx].deactivate();
    }
}

/// Appends `data` to the output of session `idx` alone.
pub fn write_session_output(pool: &mut SessionPool, idx: usize, data: &[u8])
    requires
        old(pool).wf(),
        idx < MAX_SESSIONS,
    ensures
        final(pool).wf(),
        final(pool)@[idx as int].written() == ring_after_write(old(pool)@[idx as int].written(), data@),
        final(pool)@[idx as int].read_cursor() == old(pool)@[idx as int].read_cursor(),
        forall|j: int| 0 <= j < MAX_SESSIONS && j != idx ==> final(pool)@[j] == old(pool)@[j],
{
    pool.sessions[idx].write_output(data);
}

/// Whatever is written through one session never reaches another: after a write to
/// session `i`, every other session holds exactly what it held before.
pub proof fn lemma_session_isolation(before: SessionPool, after: SessionPool, i: int, j: int)
    requires
        before.wf(),
        after.wf(),
        0 <= i < MAX_SESSIONS,
        0 <= j < MAX_SESSIONS,
        i != j,
        forall|k: int| 0 <= k < MAX_SESSIONS && k != i ==> after@[k] == before@[k],
    ensures
        after@[j].written() == before@[j].written(),
        after@[j].unread() == before@[j].unread(),
{
}

/// Written bytes after a sequence of writes.
pub open spec fn written_after(w: Seq<u8>, writes: Seq<Seq<u8>>) -> Seq<u8>
    decreases writes.len(),
{
    if writes.len() == 0 {
        w
    } else {
        written_after(ring_after_write(w, writes[0]), writes.drop_first())
    }
}

/// The concatenation of a sequence of byte strings.
pub open spec fn concat_all(writes: Seq<Seq<u8>>) -> Seq<u8>
    decreases writes.len(),
{
    if writes.len() == 0 {
        seq![]
    } else {
        writes[0] + concat_all(writes.drop_first())
    }
}

/// Writes that fit together are kept whole and in order: starting from `w`, the written
/// bytes are `w` followed by every write, one after another.
pub proof fn lemma_writes_concatenate(w: Seq<u8>, writes: Seq<Seq<u8>>)
    requires
        w.len() + concat_all(writes).len() <= MAX_OUTPUT,
    ensures
        written_after(w, writes) == w + concat_all(writes),
    decreases writes.len(),
{
    if writes.len() > 0 {
        let rest = writes.drop_first();
        assert(concat_all(writes).len() == writes[0].len() + concat_all(rest).len());
        assert(ring_after_write(w, writes[0]) == w + writes[0]);
        lemma_writes_concatenate(w + writes[0], rest);
        assert(w + writes[0] + concat_all(rest) =~= w + concat_all(writes));
    }
}

/// On a freshly activated session, writes of at most 4096 bytes in all leave exactly their
/// concatenation unread, in order; once that much is read nothing is left until the next
/// write.
pub proof fn lemma_fresh_ring_reads_back(s: ShellSession, writes: Seq<Seq<u8>>)
    requires
        s.wf(),
        s.read_cursor() == 0,
        s.written() == written_after(seq![], writes),
        concat_all(writes).len() <= MAX_OUTPUT,
    ensures
        s.unread() == concat_all(writes),
        s.unread().len() <= MAX_OUTPUT,
{
    lemma_writes_concatenate(seq![], writes);
    assert(seq![] + concat_all(writes) =~= concat_all(writes));
    assert(s.written().skip(0) =~= s.written());
}

/// A write never changes bytes already written, so unread data is never overwritten.
pub proof fn lemma_write_keeps_prefix(w: Seq<u8>, data: Seq<u8>)
    requires
        w.len() <= MAX_OUTPUT,
    ensures
        ring_after_write(w, data).take(w.len() as int) == w,
        ring_after_write(w, data).len() <= MAX_OUTPUT,
        ring_after_write(w, data).len() >= w.len(),
{
    assert(ring_after_write(w, data).take(w.len() as int) =~= w);
}

} // verus!
