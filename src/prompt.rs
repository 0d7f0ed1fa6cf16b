use vstd::prelude::*;
use crate::text::{
    bell,
    bell_spec,
    comp_alias,
    comp_alias_spec,
    comp_cd,
    comp_cd_spec,
    comp_echo,
    comp_echo_spec,
    comp_history,
    comp_history_spec,
    comp_ls,
    comp_ls_spec,
    comp_pwd,
    comp_pwd_spec,
    comp_serve,
    comp_serve_spec,
    erase,
    erase_spec,
    interrupt,
    interrupt_spec,
    newline,
    newline_spec,
};

verus! {

/// How a line ends, if it did.
pub enum EditStep {
    /// Keep reading.
    Continue,
    /// Enter was pressed: the line (with its newline) is ready.
    Finished,
    /// Ctrl-C: the line is dropped.
    Aborted,
}

/// The word a tab completes a single first character to.
pub open spec fn completion_spec(c: u8) -> Option<Seq<u8>> {
    if c == 108u8 {
        Some(comp_ls_spec())
    } else if c == 99u8 {
        Some(comp_cd_spec())
    } else if c == 112u8 {
        Some(comp_pwd_spec())
    } else if c == 101u8 {
        Some(comp_echo_spec())
    } else if c == 97u8 {
        Some(comp_alias_spec())
    } else if c == 104u8 {
        Some(comp_history_spec())
    } else if c == 115u8 {
        Some(comp_serve_spec())
    } else {
        None
    }
}

fn completion(c: u8) -> (r: Option<Vec<u8>>)
    ensures
        match completion_spec(c) {
            Some(w) => r matches Some(v) && v@ == w,
            None => r.is_none(),
        },
{
    if c == 108u8 {
        Some(comp_ls())
    } else if c == 99u8 {
        Some(comp_cd())
    } else if c == 112u8 {
        Some(comp_pwd())
    } else if c == 101u8 {
        Some(comp_echo())
    } else if c == 97u8 {
        Some(comp_alias())
    } else if c == 104u8 {
        Some(comp_history())
    } else if c == 115u8 {
        Some(comp_serve())
    } else {
        None
    }
}

/// The line editor of the local prompt, for a terminal in raw mode: it keeps the line
/// and says what to echo for each byte typed.
pub struct LineEditor {
    line: Vec<u8>,
    cap: usize,
}

impl LineEditor {
    pub closed spec fn line_spec(&self) -> Seq<u8> {
        self.line@
    }

    /// Size of the caller's line buffer; the line keeps one byte free for the newline.
    pub closed spec fn cap_spec(&self) -> nat {
        self.cap as nat
    }

    pub closed spec fn wf(&self) -> bool {
        self.cap >= 2 && self.line@.len() < self.cap
    }

    /// An empty line for a buffer of `cap` bytes.
    pub fn new(cap: usize) -> (r: Self)
        requires
            cap >= 2,
        ensures
            r.wf(),
            r.line_spec().len() == 0,
            r.cap_spec() == cap,
    {
        LineEditor { line: Vec::new(), cap }
    }

    /// The line so far.
    pub fn line(&self) -> (r: Vec<u8>)
        ensures
            r@ == self.line_spec(),
    {
        self.line.clone()
    }

    /// Takes one typed byte; returns whether the line ended and what to echo.
    /// Enter appends a newline and finishes; Ctrl-C drops the line; backspace removes a
    /// byte; tab completes a lone first character; printable bytes are added while there
    /// is room.
    pub fn feed(&mut self, ch: u8) -> (r: (EditStep, Vec<u8>))
        requires
            old(self).wf(),
        ensures
            final(self).cap_spec() == old(self).cap_spec(),
            !(r.0 is Finished) ==> final(self).wf(),
            (ch == 10 || ch == 13) ==> {
                &&& r.0 is Finished
                &&& r.1@ == newline_spec()
                &&& final(self).line_spec() == old(self).line_spec().push(10u8)
            },
            ch == 3 ==> r.0 is Aborted && r.1@ == interrupt_spec() && final(self).line_spec().len()
                == 0,
            (ch == 127 || ch == 8) ==> {
                &&& r.0 is Continue
                &&& old(self).line_spec().len() > 0 ==> r.1@ == erase_spec() && final(self).line_spec() == old(self).line_spec().drop_last()
                &&& old(self).line_spec().len() == 0 ==> r.1@.len() == 0 && final(self).line_spec()
                    == old(self).line_spec()
            },
            ch == 9 ==> {
                &&& r.0 is Continue
                &&& if old(self).line_spec().len() == 1 && completion_spec(
                    old(self).line_spec()[0],
                ).is_some() {
                    let w = completion_spec(old(self).line_spec()[0]).unwrap();
                    &&& r.1@ == erase_spec() + w
                    &&& final(self).line_spec() == if w.len() < old(self).cap_spec() {
                        w
                    } else {
                        w.take(old(self).cap_spec() - 1)
                    }
                } else {
                    r.1@ == bell_spec() && final(self).line_spec() == old(self).line_spec()
                }
            },
            32 <= ch <= 126 ==> {
                &&& r.0 is Continue
                &&& old(self).line_spec().len() + 1 < old(self).cap_spec() ==> r.1@ == seq![ch]
                    && final(self).line_spec() == old(self).line_spec().push(ch)
                &&& old(self).line_spec().len() + 1 >= old(self).cap_spec() ==> r.1@.len() == 0
                    && final(self).line_spec() == old(self).line_spec()
            },
            !(ch == 10 || ch == 13 || ch == 3 || ch == 127 || ch == 8 || ch == 9 || (32 <= ch
                <= 126)) ==> r.0 is Continue && r.1@.len() == 0 && final(self).line_spec()
                == old(self).line_spec(),
    {
        if ch == 10 || ch == 13 {
            self.line.push(10u8);
            (EditStep::Finished, newline())
        } else if ch == 9 {
            if self.line.len() == 1 {
                match completion(self.line[0]) {
                    Some(w) => {
                        let mut echo = erase();
                        let mut k: usize = 0;
                        let mut line: Vec<u8> = Vec::new();
                        let ghost e0 = echo@;
                        while k < w.len()
                            invariant
                                k <= w@.len(),
                                self.cap >= 2,
                                line@.len() <= k,
                                line@.len() < self.cap,
                                line@ == w@.take(line@.len() as int),
                                line@.len() == if k < self.cap - 1 {
                                    k as int
                                } else {
                                    self.cap - 1
                                },
                                echo@ == e0 + w@.take(k as int),
                            decreases w@.len() - k,
                        {
                            if line.len() < self.cap - 1 {
                                line.push(w[k]);
                                proof {
                                    assert(w@.take(line@.len() as int) =~= w@.take(
                                        line@.len() - 1,
                                    ).push(w@[k as int]));
                                }
                            }
                            echo.push(w[k]);
                            proof {
                                assert(e0 + w@.take(k + 1) =~= (e0 + w@.take(k as int)).push(
                                    w@[k as int],
                                ));
                            }
                            k += 1;
                        }
                        proof {
                            assert(w@.take(k as int) =~= w@);
                            if w@.len() < self.cap {
                                assert(line@ =~= w@);
                            }
                        }
                        self.line = line;
                        (EditStep::Continue, echo)
                    },
                    None => (EditStep::Continue, bell()),
                }
            } else {
                (EditStep::Continue, bell())
            }
        } else if ch == 127 || ch == 8 {
            if self.line.len() > 0 {
                self.line.pop();
                proof {
                    assert(self.line@ =~= old(self).line@.drop_last());
                }
                (EditStep::Continue, erase())
            } else {
                (EditStep::Continue, Vec::new())
            }
        } else if ch == 3 {
            self.line = Vec::new();
            (EditStep::Aborted, interrupt())
        } else if 32 <= ch && ch <= 126 {
            if self.line.len() + 1 < self.cap {
                self.line.push(ch);
                let v: Vec<u8> = vec![ch];
                proof {
                    assert(v@ =~= seq![ch]);
                }
                (EditStep::Continue, v)
            } else {
                (EditStep::Continue, Vec::new())
            }
        } else {
            (EditStep::Continue, Vec::new())
        }
    }
}

} // verus!
