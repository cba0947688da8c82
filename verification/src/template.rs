//! The template interpreter's scanning automaton.  A template is literal
//! text with `%name%` specifiers and `[...]` groups; a group's output is
//! kept only if every specifier inside it resolves.  Resolution itself is
//! the caller's business: `advance` runs the scan until it needs a value
//! or finishes, and `supply` feeds the resolution result back in.

use vstd::prelude::*;
use crate::text::{chars_string, extend_chars, str_chars};

verus! {

#[verifier::ext_equal]
pub enum Phase {
    /// Copying literal text.
    Literal,
    /// Accumulating a specifier name after an opening `%`.
    Specifier(Seq<char>),
    /// Swallowing a failed group up to its matching `]`; carries the
    /// nesting depth seen so far and whether the scan is inside a
    /// specifier, where brackets do not count.
    Discard(nat, bool),
    /// A full specifier name has been read and awaits resolution.
    Awaiting(Seq<char>),
    Finished,
}

/// The automaton's whole state: input left to scan, the literal run not
/// yet committed to a buffer, finished output, and one buffer per open
/// group.
#[verifier::ext_equal]
pub struct MachineState {
    pub rem: Seq<char>,
    pub run: Seq<char>,
    pub out: Seq<char>,
    pub stack: Seq<Seq<char>>,
    pub phase: Phase,
}

pub open spec fn template_start(t: Seq<char>) -> MachineState {
    MachineState {
        rem: t,
        run: Seq::empty(),
        out: Seq::empty(),
        stack: Seq::empty(),
        phase: Phase::Literal,
    }
}

/// Appends text to the active buffer: the innermost open group if any,
/// else the output.
pub open spec fn emit(st: MachineState, s: Seq<char>) -> MachineState {
    if st.stack.len() > 0 {
        MachineState {
            stack: st.stack.update(st.stack.len() - 1, st.stack.last() + s),
            ..st
        }
    } else {
        MachineState { out: st.out + s, ..st }
    }
}

/// Commits the pending literal run to the active buffer.
pub open spec fn flushed(st: MachineState) -> MachineState {
    let e = emit(st, st.run);
    MachineState { run: Seq::empty(), ..e }
}

/// Closes a group: its buffer is appended to the enclosing buffer.  An
/// unmatched `]` is emitted as a literal character.
pub open spec fn group_closed(st: MachineState) -> MachineState {
    if st.stack.len() > 0 {
        let top = st.stack.last();
        emit(MachineState { stack: st.stack.drop_last(), ..st }, top)
    } else {
        MachineState { out: st.out + seq![']'], ..st }
    }
}

/// Runs the automaton until it pauses for a specifier value or finishes.
/// At the end of input, the pending literal run joins the active buffer,
/// and unclosed groups and unterminated specifiers are dropped with
/// whatever they hold: only text outside any group reaches the output.
pub open spec fn settle(st: MachineState) -> MachineState
    decreases st.rem.len(),
{
    match st.phase {
        Phase::Awaiting(_) => st,
        Phase::Finished => st,
        _ => {
            if st.rem.len() == 0 {
                match st.phase {
                    Phase::Literal => MachineState { phase: Phase::Finished, ..flushed(st) },
                    _ => MachineState { phase: Phase::Finished, ..st },
                }
            } else {
                let c = st.rem[0];
                let rest = MachineState { rem: st.rem.drop_first(), ..st };
                match st.phase {
                    Phase::Literal => {
                        if c == '%' {
                            settle(
                                MachineState {
                                    phase: Phase::Specifier(Seq::empty()),
                                    ..flushed(rest)
                                },
                            )
                        } else if c == '[' {
                            let f = flushed(rest);
                            settle(MachineState { stack: f.stack.push(Seq::empty()), ..f })
                        } else if c == ']' {
                            settle(group_closed(flushed(rest)))
                        } else {
                            settle(MachineState { run: st.run.push(c), ..rest })
                        }
                    },
                    Phase::Specifier(acc) => {
                        if c == '%' {
                            MachineState { phase: Phase::Awaiting(acc), ..rest }
                        } else {
                            settle(MachineState { phase: Phase::Specifier(acc.push(c)), ..rest })
                        }
                    },
                    Phase::Discard(n, insp) => {
                        if c == '%' {
                            settle(MachineState { phase: Phase::Discard(n, !insp), ..rest })
                        } else if insp {
                            settle(rest)
                        } else if c == '[' {
                            settle(MachineState { phase: Phase::Discard(n + 1, insp), ..rest })
                        } else if c == ']' {
                            if n == 0 {
                                settle(MachineState { phase: Phase::Literal, ..rest })
                            } else {
                                settle(
                                    MachineState {
                                        phase: Phase::Discard((n - 1) as nat, insp),
                                        ..rest
                                    },
                                )
                            }
                        } else {
                            settle(rest)
                        }
                    },
                    _ => st,
                }
            }
        },
    }
}

/// Applies a resolution result to a paused automaton.  A value joins the
/// active buffer; a failure at top level contributes nothing, while a
/// failure inside a group drops the whole nesting open at that moment and
/// swallows the rest of it, up to the `]` matching its outermost bracket.
pub open spec fn supplied(st: MachineState, ans: Option<Seq<char>>) -> MachineState
    recommends
        st.phase is Awaiting,
{
    match ans {
        Some(s) => MachineState { phase: Phase::Literal, ..emit(st, s) },
        None => {
            if st.stack.len() == 0 {
                MachineState { phase: Phase::Literal, ..st }
            } else {
                MachineState {
                    stack: Seq::empty(),
                    phase: Phase::Discard((st.stack.len() - 1) as nat, false),
                    ..st
                }
            }
        },
    }
}

enum Tag {
    Literal,
    Specifier,
    Discard,
    Awaiting,
    Finished,
}

pub struct Renderer {
    input: Vec<char>,
    pos: usize,
    run: Vec<char>,
    out: Vec<char>,
    stack: Vec<Vec<char>>,
    acc: Vec<char>,
    depth: usize,
    in_spec: bool,
    tag: Tag,
}

pub enum RenderEvent {
    /// The scan needs the given specifier resolved; answer with `supply`.
    NeedValue(String),
    /// The scan is done; the rendered text.
    Output(String),
}

impl Renderer {
    /// The abstract automaton state this renderer is in.
    pub closed spec fn st(&self) -> MachineState {
        MachineState {
            rem: self.input@.skip(self.pos as int),
            run: self.run@,
            out: self.out@,
            stack: self.stack@.map_values(|b: Vec<char>| b@),
            phase: match self.tag {
                Tag::Literal => Phase::Literal,
                Tag::Specifier => Phase::Specifier(self.acc@),
                Tag::Discard => Phase::Discard(self.depth as nat, self.in_spec),
                Tag::Awaiting => Phase::Awaiting(self.acc@),
                Tag::Finished => Phase::Finished,
            },
        }
    }

    pub closed spec fn wf(&self) -> bool {
        &&& self.pos <= self.input@.len()
        &&& self.depth <= self.pos
        &&& self.stack@.len() <= self.pos
        &&& (self.tag matches Tag::Finished ==> self.pos == self.input@.len())
    }

    pub fn new(template: &str) -> (r: Renderer)
        ensures
            r.wf(),
            r.st() == template_start(template@),
    {
        let input = str_chars(template);
        let r = Renderer {
            input,
            pos: 0,
            run: Vec::new(),
            out: Vec::new(),
            stack: Vec::new(),
            acc: Vec::new(),
            depth: 0,
            in_spec: false,
            tag: Tag::Literal,
        };
        proof {
            assert(r.input@.skip(0) =~= template@);
            assert(r.stack@.map_values(|b: Vec<char>| b@) =~= Seq::<Seq<char>>::empty());
            assert(r.st() =~= template_start(template@));
        }
        r
    }

    /// Appends text to the active buffer, as `emit` describes.
    fn emit_chars(&mut self, s: &Vec<char>)
        requires
            old(self).wf(),
        ensures
            final(self).wf(),
            final(self).st() == emit(old(self).st(), s@),
            final(self).pos == old(self).pos,
            final(self).input@ == old(self).input@,
    {
        let n = self.stack.len();
        if n > 0 {
            let mut top = self.stack.pop().unwrap();
            extend_chars(&mut top, s);
            self.stack.push(top);
            proof {
                let m0 = old(self).st().stack;
                assert(self.stack@.map_values(|b: Vec<char>| b@) =~= m0.update(
                    m0.len() - 1,
                    m0.last() + s@,
                ));
                assert(self.st() =~= emit(old(self).st(), s@));
            }
        } else {
            extend_chars(&mut self.out, s);
            proof {
                assert(self.st() =~= emit(old(self).st(), s@));
            }
        }
    }

    /// Commits the pending literal run, as `flushed` describes.
    fn flush_run(&mut self)
        requires
            old(self).wf(),
        ensures
            final(self).wf(),
            final(self).st() == flushed(old(self).st()),
            final(self).pos == old(self).pos,
            final(self).input@ == old(self).input@,
    {
        let mut run: Vec<char> = Vec::new();
        core::mem::swap(&mut run, &mut self.run);
        self.emit_chars(&run);
        proof {
            assert(self.st() =~= flushed(old(self).st()));
        }
    }

    /// Closes the innermost group, as `group_closed` describes.
    fn close_group(&mut self)
        requires
            old(self).wf(),
        ensures
            final(self).wf(),
            final(self).st() == group_closed(old(self).st()),
            final(self).pos == old(self).pos,
            final(self).input@ == old(self).input@,
    {
        let n = self.stack.len();
        if n > 0 {
            let top = self.stack.pop().unwrap();
            proof {
                assert(self.stack@.map_values(|b: Vec<char>| b@)
                    =~= old(self).st().stack.drop_last());
            }
            self.emit_chars(&top);
            proof {
                assert(self.st() =~= group_closed(old(self).st()));
            }
        } else {
            self.out.push(']');
            proof {
                assert(self.st().out =~= old(self).st().out + seq![']']);
                assert(self.st() =~= group_closed(old(self).st()));
            }
        }
    }

    /// Scans forward until a specifier needs resolving or the input ends.
    pub fn advance(&mut self) -> (ev: RenderEvent)
        requires
            old(self).wf(),
            !(old(self).st().phase is Awaiting),
        ensures
            final(self).wf(),
            final(self).st() == settle(old(self).st()),
            match ev {
                RenderEvent::NeedValue(n) => final(self).st().phase == Phase::Awaiting(n@),
                RenderEvent::Output(o) => final(self).st().phase is Finished && o@
                    == final(self).st().out,
            },
    {
        loop
            invariant
                self.wf(),
                !(self.st().phase is Awaiting),
                settle(self.st()) == settle(old(self).st()),
            decreases self.input@.len() - self.pos,
        {
            let ghost pre = self.st();
            proof {
                assert(pre.stack.len() == self.stack@.len());
            }
            if self.pos == self.input.len() {
                assert(pre.rem.len() == 0);
                match self.tag {
                    Tag::Literal => {
                        self.flush_run();
                        self.tag = Tag::Finished;
                        proof {
                            assert(self.st() =~= settle(pre));
                        }
                    },
                    Tag::Finished => {
                        proof {
                            assert(self.st() =~= settle(pre));
                        }
                    },
                    _ => {
                        self.tag = Tag::Finished;
                        proof {
                            assert(self.st() =~= settle(pre));
                        }
                    },
                }
                let o = chars_string(&self.out);
                return RenderEvent::Output(o);
            }
            let c = self.input[self.pos];
            self.pos = self.pos + 1;
            proof {
                assert(pre.rem[0] == c);
                assert(self.input@.skip(self.pos as int) =~= pre.rem.drop_first());
            }
            match self.tag {
                Tag::Literal => {
                    if c == '%' {
                        self.flush_run();
                        self.acc = Vec::new();
                        self.tag = Tag::Specifier;
                        proof {
                            assert(self.st() =~= MachineState {
                                phase: Phase::Specifier(Seq::empty()),
                                ..flushed(MachineState { rem: pre.rem.drop_first(), ..pre })
                            });
                        }
                    } else if c == '[' {
                        self.flush_run();
                        proof {
                            assert(self.st().stack.len() == pre.stack.len());
                            assert(self.stack@.len() == self.st().stack.len());
                        }
                        self.stack.push(Vec::new());
                        proof {
                            let f = flushed(MachineState { rem: pre.rem.drop_first(), ..pre });
                            assert(self.stack@.map_values(|b: Vec<char>| b@) =~= f.stack.push(
                                Seq::empty(),
                            ));
                            assert(self.st() =~= MachineState {
                                stack: f.stack.push(Seq::empty()),
                                ..f
                            });
                        }
                    } else if c == ']' {
                        self.flush_run();
                        self.close_group();
                        proof {
                            assert(self.st() =~= group_closed(
                                flushed(MachineState { rem: pre.rem.drop_first(), ..pre }),
                            ));
                        }
                    } else {
                        self.run.push(c);
                        proof {
                            assert(self.st() =~= MachineState {
                                run: pre.run.push(c),
                                rem: pre.rem.drop_first(),
                                ..pre
                            });
                            assert(self.wf());
                        }
                    }
                },
                Tag::Specifier => {
                    if c == '%' {
                        self.tag = Tag::Awaiting;
                        proof {
                            assert(self.st() =~= settle(pre));
                        }
                        let name = chars_string(&self.acc);
                        return RenderEvent::NeedValue(name);
                    } else {
                        self.acc.push(c);
                        proof {
                            assert(self.st() =~= MachineState {
                                phase: Phase::Specifier(pre.phase->Specifier_0.push(c)),
                                rem: pre.rem.drop_first(),
                                ..pre
                            });
                        }
                    }
                },
                Tag::Discard => {
                    if c == '%' {
                        self.in_spec = !self.in_spec;
                    } else if self.in_spec {
                        // inside a specifier body, brackets do not count
                    } else if c == '[' {
                        self.depth = self.depth + 1;
                    } else if c == ']' {
                        if self.depth == 0 {
                            self.tag = Tag::Literal;
                        } else {
                            self.depth = self.depth - 1;
                        }
                    }
                    proof {
                        assert(settle(self.st()) == settle(pre));
                    }
                },
                Tag::Awaiting => {
                    proof {
                        assert(false);
                    }
                },
                Tag::Finished => {
                    proof {
                        assert(false);
                    }
                },
            }
        }
    }

    /// Feeds the resolution of the awaited specifier back in, as
    /// `supplied` describes.
    pub fn supply(&mut self, ans: Option<&str>)
        requires
            old(self).wf(),
            old(self).st().phase is Awaiting,
        ensures
            final(self).wf(),
            final(self).st() == supplied(
                old(self).st(),
                match ans {
                    Some(s) => Some(s@),
                    None => None,
                },
            ),
    {
        match ans {
            Some(s) => {
                let sc = str_chars(s);
                self.emit_chars(&sc);
                self.tag = Tag::Literal;
                proof {
                    assert(self.st() =~= supplied(old(self).st(), Some(s@)));
                }
            },
            None => {
                if self.stack.len() == 0 {
                    self.tag = Tag::Literal;
                    proof {
                        assert(self.st() =~= supplied(old(self).st(), None));
                    }
                } else {
                    let open = self.stack.len();
                    self.stack = Vec::new();
                    self.depth = open - 1;
                    self.in_spec = false;
                    self.tag = Tag::Discard;
                    proof {
                        assert(self.stack@.map_values(|b: Vec<char>| b@)
                            =~= Seq::<Seq<char>>::empty());
                        assert(self.st() =~= supplied(old(self).st(), None));
                    }
                }
            },
        }
    }
}

/// A template with no `%`, `[` or `]` renders as itself: the whole scan
/// stays literal and ends by committing the run to the output.
pub proof fn lemma_plain_template_renders_itself(t: Seq<char>)
    requires
        forall|i: int| 0 <= i < t.len() ==> t[i] != '%' && t[i] != '[' && t[i] != ']',
    ensures
        settle(template_start(t)).phase is Finished,
        settle(template_start(t)).out == t,
{
    lemma_literal_scan(template_start(t), t);
    assert(Seq::<char>::empty() + Seq::<char>::empty() + t =~= t);
}

proof fn lemma_literal_scan(st: MachineState, t: Seq<char>)
    requires
        st.phase is Literal,
        st.stack.len() == 0,
        st.rem == t,
        forall|i: int| 0 <= i < t.len() ==> t[i] != '%' && t[i] != '[' && t[i] != ']',
    ensures
        settle(st).phase is Finished,
        settle(st).out == st.out + st.run + t,
    decreases t.len(),
{
    if t.len() == 0 {
        assert(st.out + st.run + t =~= st.out + st.run);
    } else {
        let c = t[0];
        let next = MachineState {
            run: st.run.push(c),
            rem: st.rem.drop_first(),
            ..st
        };
        lemma_literal_scan(next, t.drop_first());
        assert(st.out + st.run.push(c) + t.drop_first() =~= st.out + st.run + t);
    }
}

} // verus!
