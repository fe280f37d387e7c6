//! The per-connection state machine: from one raw request line to a
//! response, one candidate at a time. The surrounding binary only carries
//! out the actions — resolving a candidate, reading a file, writing bytes
//! — and feeds the outcome of each back in as the next event.

use vstd::prelude::*;

use crate::bytes::subvec;
use crate::candidates::{build_candidates, candidates_spec};
use crate::config::Configuration;
use crate::content_types::{extension_spec, ContentTypes};
use crate::request::{
    content_of, get_token, has_dotdot, has_path_token, is_dir_request, line_terminated,
    method_token, parse_request_line, path_token, rel_of, root_anchored, starts_slash,
    ParseOutcome, RequestError,
};
use crate::respond::{
    bare_not_found_bytes, bare_not_found_response, build_response, forbidden_bytes,
    forbidden_response, response_bytes, status_line_not_found, status_line_ok, status_not_found,
    status_ok,
};

verus! {

/// What the surrounding binary must do next.
pub enum Action {
    /// Resolve this candidate path against the served root and feed back
    /// `Event::Resolved`.
    Resolve(Vec<u8>),
    /// Read this resolved file and feed back `Event::FileRead`.
    Read(Vec<u8>),
    /// Write these bytes, flush, half-close the write side: the request
    /// is answered.
    Write(Vec<u8>),
    /// Close the connection without a response.
    Close,
    /// Close the connection without a response and surface the error.
    Reject(RequestError),
}

/// The outcome of the work an action asked for.
pub enum Event {
    /// What resolving the candidate gave: the canonical path, if it
    /// exists and lies under the root.
    Resolved(Option<Vec<u8>>),
    /// What reading the resolved file gave: its bytes, if it could be
    /// read.
    FileRead(Option<Vec<u8>>),
}

/// The status line a probe phase answers with.
pub open spec fn status_of(fallback: bool) -> Seq<u8> {
    if fallback {
        status_not_found()
    } else {
        status_ok()
    }
}

/// The content type served for the file at `p`, given the configured
/// table.
pub open spec fn content_type_for(table: Map<Seq<u8>, Seq<u8>>, p: Seq<u8>) -> Option<Seq<u8>> {
    match extension_spec(p) {
        Some(e) => if table.contains_key(e) {
            Some(table[e])
        } else {
            None
        },
        None => None,
    }
}

/// One connection's progress through its candidate lists.
pub struct Machine {
    /// The primary candidates, in the order they are to be tried.
    pub primary: Vec<Vec<u8>>,
    /// The not-found candidates, tried after the primary ones.
    pub fallback: Vec<Vec<u8>>,
    /// How many primary candidates have been issued.
    pub pi: usize,
    /// How many fallback candidates have been issued.
    pub fi: usize,
    /// The candidate being probed or read is a fallback one, so a hit
    /// answers with the not-found status.
    pub cur_fallback: bool,
    /// The resolved path whose read is pending.
    pub reading: Option<Vec<u8>>,
    /// The configured content-type table.
    pub content_types: ContentTypes,
    /// The connection is answered or dropped; no further action follows.
    pub finished: bool,
}

impl Machine {
    /// The cursors stay within their lists.
    pub open spec fn wf(self) -> bool {
        self.pi <= self.primary@.len() && self.fi <= self.fallback@.len()
    }

    /// The machine's candidate lists, as the ordered sequences they
    /// denote.
    pub open spec fn primary_list(self) -> Seq<Seq<u8>> {
        self.primary.deep_view()
    }

    /// The fallback candidate list.
    pub open spec fn fallback_list(self) -> Seq<Seq<u8>> {
        self.fallback.deep_view()
    }

    /// The machine will issue no further action.
    pub open spec fn is_finished(self) -> bool {
        self.finished
    }

    /// The configured content-type table the machine answers with.
    pub open spec fn table(self) -> Map<Seq<u8>, Seq<u8>> {
        self.content_types@
    }
}

/// The machine advanced to its next probe: it issues the next primary
/// candidate, else the next fallback candidate, else the bare not-found
/// response — in list order, one candidate per event.
pub open spec fn advances(m: Machine, s: Machine, a: Action) -> bool {
    &&& s.primary == m.primary
    &&& s.fallback == m.fallback
    &&& s.content_types == m.content_types
    &&& s.reading is None
    &&& if m.pi < m.primary@.len() {
        &&& a matches Action::Resolve(c) && c@ == m.primary_list()[m.pi as int]
        &&& s.pi == m.pi + 1
        &&& s.fi == m.fi
        &&& s.cur_fallback == false
        &&& !s.finished
    } else if m.fi < m.fallback@.len() {
        &&& a matches Action::Resolve(c) && c@ == m.fallback_list()[m.fi as int]
        &&& s.pi == m.pi
        &&& s.fi == m.fi + 1
        &&& s.cur_fallback == true
        &&& !s.finished
    } else {
        &&& a matches Action::Write(b) && b@ == bare_not_found_bytes()
        &&& s.finished
    }
}

/// Everything `step` promises: how the machine moved from `m` to `s` and
/// why it issued `a`, for each possible event.
pub open spec fn step_post(m: Machine, s: Machine, event: Event, a: Action) -> bool {
    if m.finished {
        a == Action::Close && s == m
    } else {
        match event {
            Event::Resolved(po) => match po {
                Some(p) => {
                    &&& a matches Action::Read(c) && c@ == p@
                    &&& s.reading == Some(p)
                    &&& s.primary == m.primary
                    &&& s.fallback == m.fallback
                    &&& s.content_types == m.content_types
                    &&& s.pi == m.pi
                    &&& s.fi == m.fi
                    &&& s.cur_fallback == m.cur_fallback
                    &&& !s.finished
                },
                None => advances(m, s, a),
            },
            Event::FileRead(bo) => match bo {
                Some(body) => match m.reading {
                    Some(path) => {
                        &&& a matches Action::Write(b) && b@ == response_bytes(
                            status_of(m.cur_fallback),
                            content_type_for(m.table(), path@),
                            body@,
                        )
                        &&& s.finished
                    },
                    None => advances(m, s, a),
                },
                None => advances(m, s, a),
            },
        }
    }
}

impl Machine {
    /// Issues the next candidate in order, or the bare not-found response
    /// once both lists are exhausted.
    fn next_probe(&mut self) -> (a: Action)
        requires
            old(self).wf(),
            !old(self).finished,
        ensures
            final(self).wf(),
            advances(*old(self), *final(self), a),
    {
        self.reading = None;
        if self.pi < self.primary.len() {
            let c = subvec(&self.primary[self.pi], 0, self.primary[self.pi].len());
            proof {
                assert(c@ =~= self.primary.deep_view()[self.pi as int]);
            }
            self.pi += 1;
            self.cur_fallback = false;
            Action::Resolve(c)
        } else if self.fi < self.fallback.len() {
            let c = subvec(&self.fallback[self.fi], 0, self.fallback[self.fi].len());
            proof {
                assert(c@ =~= self.fallback.deep_view()[self.fi as int]);
            }
            self.fi += 1;
            self.cur_fallback = true;
            Action::Resolve(c)
        } else {
            self.finished = true;
            Action::Write(bare_not_found_response())
        }
    }

    /// Feeds the outcome of the last action back in and yields the next
    /// action. A machine that is already finished just closes; a probe
    /// hit asks for the file; a read hit answers with the full response,
    /// whose body is the file's bytes; a miss advances to the next
    /// candidate in order.
    pub fn step(&mut self, event: Event) -> (a: Action)
        requires
            old(self).wf(),
        ensures
            final(self).wf(),
            step_post(*old(self), *final(self), event, a),
    {
        if self.finished {
            return Action::Close;
        }
        match event {
            Event::Resolved(po) => match po {
                Some(p) => {
                    let c = subvec(&p, 0, p.len());
                    proof {
                        assert(c@ =~= p@);
                    }
                    self.reading = Some(p);
                    Action::Read(c)
                },
                None => self.next_probe(),
            },
            Event::FileRead(bo) => match bo {
                Some(body) => {
                    let has_reading = self.reading.is_some();
                    if !has_reading {
                        return self.next_probe();
                    }
                    let status = if self.cur_fallback {
                        status_line_not_found()
                    } else {
                        status_line_ok()
                    };
                    let content_type = match &self.reading {
                        Some(path) => match crate::content_types::extension_of(path) {
                            Some(e) => self.content_types.get(&e),
                            None => None,
                        },
                        None => None,
                    };
                    let resp = build_response(&status, content_type, &body);
                    self.finished = true;
                    Action::Write(resp)
                },
                None => self.next_probe(),
            },
        }
    }

    /// Resolves one candidate against the canonical served root and feeds
    /// the outcome straight back in. Whatever the file system said, if
    /// the machine now asks for a file to be read, that file's canonical
    /// path lies under the root: nothing outside the served tree is ever
    /// read on the machine's behalf.
    pub fn probe(&mut self, root: &Vec<u8>, candidate: &Vec<u8>) -> (a: Action)
        requires
            old(self).wf(),
        ensures
            final(self).wf(),
            a matches Action::Read(p) ==> crate::resolve::is_contained(root@, p@),
            exists|res: Option<Vec<u8>>|
                step_post(*old(self), *final(self), Event::Resolved(res), a),
    {
        let res = crate::resolve::resolve_candidate(root, candidate);
        let ghost gres = res;
        let a = self.step(Event::Resolved(res));
        proof {
            assert(step_post(*old(self), *final(self), Event::Resolved(gres), a));
        }
        a
    }
}

/// Everything `start` promises: what the request line's shape means for
/// the first action, and how a well-formed GET sets the machine up. A
/// line holding a `..` component is answered with the fixed forbidden
/// response and the machine is already finished: no candidate is ever
/// probed for it, so the file system stays untouched.
pub open spec fn start_post(config: Configuration, line: Seq<u8>, m: Machine, a: Action) -> bool {
    let c = content_of(line);
    if !line_terminated(line) {
        a == Action::Reject(RequestError::Truncated) && m.is_finished()
    } else if method_token(c) != get_token() {
        a == Action::Close && m.is_finished()
    } else if !has_path_token(c) {
        a == Action::Reject(RequestError::MissingPath) && m.is_finished()
    } else {
        let p = path_token(c);
        if !starts_slash(p) {
            a == Action::Reject(RequestError::NotAbsolute) && m.is_finished()
        } else if root_anchored(rel_of(p)) {
            a == Action::Reject(RequestError::RootAnchored) && m.is_finished()
        } else if has_dotdot(rel_of(p)) {
            (a matches Action::Write(b) && b@ == forbidden_bytes()) && m.is_finished()
        } else {
            let rel = rel_of(p);
            &&& m.primary_list() == if is_dir_request(p) {
                candidates_spec(rel, config.index@)
            } else {
                seq![rel]
            }
            &&& m.fallback_list() == candidates_spec(rel, config.e404@)
            &&& m.table() == config.content_types@
            &&& if m.primary_list().len() > 0 {
                (a matches Action::Resolve(cd) && cd@ == m.primary_list()[0]) && m.pi == 1 && m.fi
                    == 0 && !m.cur_fallback && m.reading is None && !m.is_finished()
            } else if m.fallback_list().len() > 0 {
                (a matches Action::Resolve(cd) && cd@ == m.fallback_list()[0]) && m.pi == 0 && m.fi
                    == 1 && m.cur_fallback && m.reading is None && !m.is_finished()
            } else {
                (a matches Action::Write(b) && b@ == bare_not_found_bytes()) && m.is_finished()
            }
        }
    }
}

/// Starts one connection's machine from its raw request line. A line
/// with a `..` component is answered with the fixed forbidden response at
/// once, before any candidate is probed; a malformed line is rejected; a
/// non-GET line is closed silently. A well-formed GET builds the primary
/// candidates — the index entries for a directory-style request, else the
/// requested path itself — and the fallback candidates, and issues the
/// first probe.
pub fn start(config: &Configuration, line: &Vec<u8>) -> (r: (Machine, Action))
    ensures
        r.0.wf(),
        start_post(*config, line@, r.0, r.1),
{
    match parse_request_line(line) {
        ParseOutcome::Ignore => (finished_machine(), Action::Close),
        ParseOutcome::Fail(e) => (finished_machine(), Action::Reject(e)),
        ParseOutcome::Forbidden => (finished_machine(), Action::Write(forbidden_response())),
        ParseOutcome::Request { rel, is_dir } => {
            let fallback = build_candidates(&rel, &config.e404);
            let primary = if is_dir {
                build_candidates(&rel, &config.index)
            } else {
                let ghost grel = rel@;
                let mut single: Vec<Vec<u8>> = Vec::new();
                single.push(rel);
                proof {
                    assert(single.deep_view() =~~= seq![grel]);
                }
                single
            };
            let mut machine = Machine {
                primary,
                fallback,
                pi: 0,
                fi: 0,
                cur_fallback: false,
                reading: None,
                content_types: config.content_types.duplicate(),
                finished: false,
            };
            let a = machine.next_probe();
            (machine, a)
        },
    }
}

/// Two machines that cannot be told apart: the same progress through the
/// same candidate lists with the same table, compared by content — or
/// both already finished, in which case neither will act again.
pub open spec fn similar(m1: Machine, m2: Machine) -> bool {
    if m1.finished || m2.finished {
        m1.finished == m2.finished
    } else {
        &&& m1.primary.deep_view() == m2.primary.deep_view()
        &&& m1.fallback.deep_view() == m2.fallback.deep_view()
        &&& m1.pi == m2.pi
        &&& m1.fi == m2.fi
        &&& m1.cur_fallback == m2.cur_fallback
        &&& match (m1.reading, m2.reading) {
            (Some(p1), Some(p2)) => p1@ == p2@,
            (None, None) => true,
            _ => false,
        }
        &&& m1.content_types@ == m2.content_types@
    }
}

/// The two actions ask for the same work and carry the same bytes.
pub open spec fn same_action(a1: Action, a2: Action) -> bool {
    match (a1, a2) {
        (Action::Resolve(c1), Action::Resolve(c2)) => c1@ == c2@,
        (Action::Read(p1), Action::Read(p2)) => p1@ == p2@,
        (Action::Write(b1), Action::Write(b2)) => b1@ == b2@,
        (Action::Close, Action::Close) => true,
        (Action::Reject(e1), Action::Reject(e2)) => e1 == e2,
        _ => false,
    }
}

/// The two optional byte strings hold the same content.
pub open spec fn same_opt_bytes(o1: Option<Vec<u8>>, o2: Option<Vec<u8>>) -> bool {
    match (o1, o2) {
        (Some(v1), Some(v2)) => v1@ == v2@,
        (None, None) => true,
        _ => false,
    }
}

/// The two events report the same outcome.
pub open spec fn same_event(e1: Event, e2: Event) -> bool {
    match (e1, e2) {
        (Event::Resolved(p1), Event::Resolved(p2)) => same_opt_bytes(p1, p2),
        (Event::FileRead(b1), Event::FileRead(b2)) => same_opt_bytes(b1, b2),
        _ => false,
    }
}

/// Serving is reproducible from the start: the same request line against
/// the same configuration starts machines that cannot be told apart and
/// issues actions carrying the same bytes.
pub proof fn lemma_start_deterministic(
    config: Configuration,
    line: Seq<u8>,
    m1: Machine,
    a1: Action,
    m2: Machine,
    a2: Action,
)
    requires
        start_post(config, line, m1, a1),
        start_post(config, line, m2, a2),
    ensures
        similar(m1, m2),
        same_action(a1, a2),
{
}

/// ... and stays reproducible step by step: machines that cannot be told
/// apart, fed the same outcome, move to machines that cannot be told
/// apart and issue actions carrying the same bytes. So the same request
/// over an unchanged file system is answered with byte-identical
/// responses.
pub proof fn lemma_step_deterministic(
    m1: Machine,
    s1: Machine,
    e1: Event,
    a1: Action,
    m2: Machine,
    s2: Machine,
    e2: Event,
    a2: Action,
)
    requires
        step_post(m1, s1, e1, a1),
        step_post(m2, s2, e2, a2),
        similar(m1, m2),
        same_event(e1, e2),
    ensures
        similar(s1, s2),
        same_action(a1, a2),
{
    if m1.finished {
        assert(s1 == m1 && s2 == m2);
    } else {
        assert(m1.primary.deep_view().len() == m1.primary@.len());
        assert(m2.primary.deep_view().len() == m2.primary@.len());
        assert(m1.fallback.deep_view().len() == m1.fallback@.len());
        assert(m2.fallback.deep_view().len() == m2.fallback@.len());
        match (e1, e2) {
            (Event::Resolved(p1), Event::Resolved(p2)) => {
                match (p1, p2) {
                    (Some(q1), Some(q2)) => {
                        assert(q1@ == q2@);
                    },
                    (None, None) => {
                        assert(advances(m1, s1, a1) && advances(m2, s2, a2));
                    },
                    _ => {
                        assert(false);
                    },
                }
            },
            (Event::FileRead(b1), Event::FileRead(b2)) => {
                match (b1, b2) {
                    (Some(c1), Some(c2)) => {
                        match (m1.reading, m2.reading) {
                            (Some(p1), Some(p2)) => {
                                assert(p1@ == p2@ && c1@ == c2@);
                            },
                            (None, None) => {
                                assert(advances(m1, s1, a1) && advances(m2, s2, a2));
                            },
                            _ => {
                                assert(false);
                            },
                        }
                    },
                    (None, None) => {
                        assert(advances(m1, s1, a1) && advances(m2, s2, a2));
                    },
                    _ => {
                        assert(false);
                    },
                }
            },
            _ => {
                assert(false);
            },
        }
    }
}

/// A machine whose connection is already answered or dropped.
fn finished_machine() -> (m: Machine)
    ensures
        m.wf(),
        m.is_finished(),
{
    Machine {
        primary: Vec::new(),
        fallback: Vec::new(),
        pi: 0,
        fi: 0,
        cur_fallback: false,
        reading: None,
        content_types: ContentTypes::new(),
        finished: true,
    }
}

} // verus!
