//! Finding the desktop session's user, one question at a time: $SUDO_USER;
//! else the first seat0 session of a user other than root whose type is
//! Wayland or X11; else the owner of the first regular user's runtime
//! directory that holds a Wayland socket. The caller runs each command and
//! hands back its output.
use vstd::prelude::*;
use crate::navigation::names;
use crate::parse::{
    before_first, is_regular_uid, parse_u32, passwd_user_name, session_candidate, session_is_graphical, split,
    split_on, spec_parse_u32, spec_session_candidate,
};
use crate::text::contains;

verus! {

/// What the search asks next.
#[derive(Debug, Clone, PartialEq, Eq)]
pub enum UserQuery {
    /// The value of $SUDO_USER.
    SudoUser,
    /// The output of `loginctl list-sessions --no-legend`.
    ListSessions,
    /// The output of `loginctl show-session <id> -p Type`.
    SessionType(String),
    /// The names in /run/user.
    RuntimeDirs,
    /// Whether /run/user/<name>/wayland-0 exists.
    WaylandSocket(String),
    /// The output of `getent passwd <uid>`.
    Passwd(String),
}

/// The answer to a query: `None` where the variable is unset, the command
/// failed or its output was not UTF-8, or the directory could not be read.
#[derive(Debug, Clone, PartialEq, Eq)]
pub enum UserAnswer {
    SudoUser(Option<String>),
    Sessions(Option<String>),
    SessionType(Option<String>),
    RuntimeDirs(Option<Vec<String>>),
    WaylandSocket(bool),
    Passwd(Option<String>),
}

/// What the search does after an answer.
#[derive(Debug, Clone, PartialEq, Eq)]
pub enum UserStep {
    Ask(UserQuery),
    Found(String),
    NotFound,
}

/// The question the search waits on.
#[derive(Debug, Clone, Copy, PartialEq, Eq, Structural)]
pub enum SearchPhase {
    Sudo,
    Sessions,
    SessionType,
    Dirs,
    Socket,
    Passwd,
    Done,
}

/// The search: what it waits on, the session candidates left (the current
/// one first) and the runtime directory names left (the current one first).
#[derive(Debug)]
pub struct UserSearch {
    pub phase: SearchPhase,
    pub sessions: Vec<(String, String)>,
    pub uids: Vec<String>,
}

/// Session candidates by view: (session id, user).
pub open spec fn sessions_view(v: Seq<(String, String)>) -> Seq<(Seq<char>, Seq<char>)> {
    v.map_values(|p: (String, String)| (p.0@, p.1@))
}

/// The seat0 sessions of users other than root, in the listing's order.
pub open spec fn session_candidates(lines: Seq<Seq<char>>) -> Seq<(Seq<char>, Seq<char>)>
    decreases lines.len(),
{
    if lines.len() == 0 {
        Seq::empty()
    } else {
        let rest = session_candidates(lines.drop_last());
        match spec_session_candidate(lines.last()) {
            Some(c) => rest.push(c),
            None => rest,
        }
    }
}

/// A runtime directory name that is a regular user's id.
pub open spec fn is_regular_uid_name(name: Seq<char>) -> bool {
    match spec_parse_u32(name) {
        Some(u) => 1000 <= u && u < 65534,
        None => false,
    }
}

/// The names that are regular users' ids, in order.
pub open spec fn regular_uid_names(v: Seq<Seq<char>>) -> Seq<Seq<char>>
    decreases v.len(),
{
    if v.len() == 0 {
        Seq::empty()
    } else {
        let rest = regular_uid_names(v.drop_last());
        if is_regular_uid_name(v.last()) { rest.push(v.last()) } else { rest }
    }
}

/// Session information of a graphical session.
pub open spec fn graphical_info(info: Seq<char>) -> bool {
    contains(info, "Type=wayland"@) || contains(info, "Type=x11"@)
}

impl UserSearch {
    /// The current candidate exists while the search waits on it.
    pub open spec fn wf(self) -> bool {
        &&& self.phase == SearchPhase::SessionType ==> self.sessions@.len() > 0
        &&& (self.phase == SearchPhase::Socket || self.phase == SearchPhase::Passwd) ==> self.uids@.len() > 0
    }

    /// Whether `q` is the question the search waits on.
    pub open spec fn expects(self, q: UserQuery) -> bool {
        match self.phase {
            SearchPhase::Sudo => q == UserQuery::SudoUser,
            SearchPhase::Sessions => q == UserQuery::ListSessions,
            SearchPhase::SessionType => q matches UserQuery::SessionType(id) && id@ == self.sessions@[0].0@,
            SearchPhase::Dirs => q == UserQuery::RuntimeDirs,
            SearchPhase::Socket => q matches UserQuery::WaylandSocket(u) && u@ == self.uids@[0]@,
            SearchPhase::Passwd => q matches UserQuery::Passwd(u) && u@ == self.uids@[0]@,
            SearchPhase::Done => false,
        }
    }

    /// After moving to the next session candidate: ask its type, or list
    /// the runtime directories when none is left.
    pub open spec fn session_step(self, st: UserStep) -> bool {
        if self.sessions@.len() > 0 {
            self.phase == SearchPhase::SessionType && (st matches UserStep::Ask(q) && self.expects(q))
        } else {
            self.phase == SearchPhase::Dirs && st == UserStep::Ask(UserQuery::RuntimeDirs)
        }
    }

    /// After moving to the next runtime directory: ask for its Wayland
    /// socket, or give up when none is left.
    pub open spec fn uid_step(self, st: UserStep) -> bool {
        if self.uids@.len() > 0 {
            self.phase == SearchPhase::Socket && (st matches UserStep::Ask(q) && self.expects(q))
        } else {
            self.phase == SearchPhase::Done && st == UserStep::NotFound
        }
    }

    /// A search that first asks for $SUDO_USER.
    pub fn new() -> (s: UserSearch)
        ensures
            s.wf(),
            s.phase == SearchPhase::Sudo,
            s.sessions@.len() == 0,
            s.uids@.len() == 0,
            s.expects(UserQuery::SudoUser),
    {
        UserSearch { phase: SearchPhase::Sudo, sessions: Vec::new(), uids: Vec::new() }
    }

    fn next_session(&mut self) -> (st: UserStep)
        ensures
            final(self).sessions == old(self).sessions,
            final(self).uids == old(self).uids,
            final(self).wf(),
            final(self).session_step(st),
    {
        if self.sessions.len() > 0 {
            self.phase = SearchPhase::SessionType;
            UserStep::Ask(UserQuery::SessionType(self.sessions[0].0.clone()))
        } else {
            self.phase = SearchPhase::Dirs;
            UserStep::Ask(UserQuery::RuntimeDirs)
        }
    }

    fn next_uid(&mut self) -> (st: UserStep)
        ensures
            final(self).sessions == old(self).sessions,
            final(self).uids == old(self).uids,
            final(self).wf(),
            final(self).uid_step(st),
    {
        if self.uids.len() > 0 {
            self.phase = SearchPhase::Socket;
            UserStep::Ask(UserQuery::WaylandSocket(self.uids[0].clone()))
        } else {
            self.phase = SearchPhase::Done;
            UserStep::NotFound
        }
    }

    /// Takes the answer to the question the search waits on and says what
    /// comes next. An answer to another question is not taken: the search
    /// asks its question again (or, when done, finds no one).
    pub fn step(&mut self, answer: UserAnswer) -> (st: UserStep)
        requires
            old(self).wf(),
        ensures
            final(self).wf(),
            match (old(self).phase, answer) {
                (SearchPhase::Sudo, UserAnswer::SudoUser(Some(u))) => {
                    &&& st == UserStep::Found(u)
                    &&& final(self).phase == SearchPhase::Done
                },
                (SearchPhase::Sudo, UserAnswer::SudoUser(None)) => {
                    &&& st == UserStep::Ask(UserQuery::ListSessions)
                    &&& final(self).phase == SearchPhase::Sessions
                    &&& final(self).sessions == old(self).sessions
                    &&& final(self).uids == old(self).uids
                },
                (SearchPhase::Sessions, UserAnswer::Sessions(out)) => {
                    &&& sessions_view(final(self).sessions@) == (match out {
                        Some(t) => session_candidates(split(t@, '\n')),
                        None => Seq::empty(),
                    })
                    &&& final(self).uids == old(self).uids
                    &&& final(self).session_step(st)
                },
                (SearchPhase::SessionType, UserAnswer::SessionType(out)) => {
                    if out matches Some(info) && graphical_info(info@) {
                        &&& st matches UserStep::Found(u) && u@ == old(self).sessions@[0].1@
                        &&& final(self).phase == SearchPhase::Done
                    } else {
                        &&& sessions_view(final(self).sessions@) == sessions_view(old(self).sessions@).drop_first()
                        &&& final(self).uids == old(self).uids
                        &&& final(self).session_step(st)
                    }
                },
                (SearchPhase::Dirs, UserAnswer::RuntimeDirs(list)) => {
                    &&& names(final(self).uids@) == (match list {
                        Some(v) => regular_uid_names(names(v@)),
                        None => Seq::empty(),
                    })
                    &&& final(self).sessions == old(self).sessions
                    &&& final(self).uid_step(st)
                },
                (SearchPhase::Socket, UserAnswer::WaylandSocket(found)) => if found {
                    &&& final(self).phase == SearchPhase::Passwd
                    &&& final(self).uids == old(self).uids
                    &&& final(self).sessions == old(self).sessions
                    &&& st matches UserStep::Ask(q) && final(self).expects(q)
                } else {
                    &&& names(final(self).uids@) == names(old(self).uids@).drop_first()
                    &&& final(self).sessions == old(self).sessions
                    &&& final(self).uid_step(st)
                },
                (SearchPhase::Passwd, UserAnswer::Passwd(out)) => match out {
                    Some(line) => {
                        &&& st matches UserStep::Found(u) && u@ == before_first(line@, ':')
                        &&& final(self).phase == SearchPhase::Done
                    },
                    None => {
                        &&& names(final(self).uids@) == names(old(self).uids@).drop_first()
                        &&& final(self).sessions == old(self).sessions
                        &&& final(self).uid_step(st)
                    },
                },
                (SearchPhase::Done, _) => {
                    &&& st == UserStep::NotFound
                    &&& *final(self) == *old(self)
                },
                _ => {
                    &&& *final(self) == *old(self)
                    &&& st matches UserStep::Ask(q) && old(self).expects(q)
                },
            },
    {
        let ghost before = *self;
        match (self.phase, answer) {
            (SearchPhase::Sudo, UserAnswer::SudoUser(Some(u))) => {
                self.phase = SearchPhase::Done;
                UserStep::Found(u)
            },
            (SearchPhase::Sudo, UserAnswer::SudoUser(None)) => {
                self.phase = SearchPhase::Sessions;
                UserStep::Ask(UserQuery::ListSessions)
            },
            (SearchPhase::Sessions, UserAnswer::Sessions(out)) => {
                self.sessions = match out {
                    Some(t) => candidates_from(t.as_str()),
                    None => Vec::new(),
                };
                self.next_session()
            },
            (SearchPhase::SessionType, UserAnswer::SessionType(out)) => {
                let graphical = match &out {
                    Some(info) => session_is_graphical(info.as_str()),
                    None => false,
                };
                if graphical {
                    self.phase = SearchPhase::Done;
                    UserStep::Found(self.sessions[0].1.clone())
                } else {
                    self.sessions.remove(0);
                    proof {
                        assert(sessions_view(self.sessions@) =~= sessions_view(before.sessions@).drop_first());
                    }
                    self.next_session()
                }
            },
            (SearchPhase::Dirs, UserAnswer::RuntimeDirs(list)) => {
                self.uids = match list {
                    Some(v) => regular_uids(&v),
                    None => Vec::new(),
                };
                proof {
                    assert(names(Seq::<String>::empty()) =~= Seq::<Seq<char>>::empty());
                }
                self.next_uid()
            },
            (SearchPhase::Socket, UserAnswer::WaylandSocket(found)) => {
                if found {
                    self.phase = SearchPhase::Passwd;
                    UserStep::Ask(UserQuery::Passwd(self.uids[0].clone()))
                } else {
                    self.uids.remove(0);
                    proof {
                        assert(names(self.uids@) =~= names(before.uids@).drop_first());
                    }
                    self.next_uid()
                }
            },
            (SearchPhase::Passwd, UserAnswer::Passwd(out)) => match out {
                Some(line) => {
                    self.phase = SearchPhase::Done;
                    UserStep::Found(passwd_user_name(line.as_str()))
                },
                None => {
                    self.uids.remove(0);
                    proof {
                        assert(names(self.uids@) =~= names(before.uids@).drop_first());
                    }
                    self.next_uid()
                },
            },
            (SearchPhase::Done, _) => UserStep::NotFound,
            (SearchPhase::Sudo, _) => UserStep::Ask(UserQuery::SudoUser),
            (SearchPhase::Sessions, _) => UserStep::Ask(UserQuery::ListSessions),
            (SearchPhase::SessionType, _) => UserStep::Ask(UserQuery::SessionType(self.sessions[0].0.clone())),
            (SearchPhase::Dirs, _) => UserStep::Ask(UserQuery::RuntimeDirs),
            (SearchPhase::Socket, _) => UserStep::Ask(UserQuery::WaylandSocket(self.uids[0].clone())),
            (SearchPhase::Passwd, _) => UserStep::Ask(UserQuery::Passwd(self.uids[0].clone())),
        }
    }
}

/// The session candidates of a `loginctl list-sessions` output.
fn candidates_from(text: &str) -> (r: Vec<(String, String)>)
    ensures
        sessions_view(r@) == session_candidates(split(text@, '\n')),
{
    let lines = split_on(text, '\n');
    let ghost ls = names(lines@);
    let mut out: Vec<(String, String)> = Vec::new();
    let mut i: usize = 0;
    assert(sessions_view(out@) =~= session_candidates(ls.subrange(0, 0)));
    while i < lines.len()
        invariant
            i <= lines@.len(),
            ls == names(lines@),
            ls == split(text@, '\n'),
            sessions_view(out@) == session_candidates(ls.subrange(0, i as int)),
        decreases lines@.len() - i,
    {
        let ghost before = out@;
        proof {
            assert(ls.subrange(0, i + 1).drop_last() =~= ls.subrange(0, i as int));
            assert(ls.subrange(0, i + 1).last() == lines@[i as int]@);
        }
        match session_candidate(lines[i].as_str()) {
            Some(c) => {
                out.push(c);
                assert(sessions_view(out@) =~= sessions_view(before).push((c.0@, c.1@)));
            },
            None => {},
        }
        i = i + 1;
    }
    assert(ls.subrange(0, ls.len() as int) =~= ls);
    out
}

/// The names that are regular users' ids.
fn regular_uids(v: &Vec<String>) -> (r: Vec<String>)
    ensures
        names(r@) == regular_uid_names(names(v@)),
{
    let ghost vs = names(v@);
    let mut out: Vec<String> = Vec::new();
    let mut i: usize = 0;
    assert(names(out@) =~= regular_uid_names(vs.subrange(0, 0)));
    while i < v.len()
        invariant
            i <= v@.len(),
            vs == names(v@),
            names(out@) == regular_uid_names(vs.subrange(0, i as int)),
        decreases v@.len() - i,
    {
        let ghost before = out@;
        proof {
            assert(vs.subrange(0, i + 1).drop_last() =~= vs.subrange(0, i as int));
            assert(vs.subrange(0, i + 1).last() == v@[i as int]@);
        }
        let keep = match parse_u32(v[i].as_str()) {
            Some(u) => is_regular_uid(u),
            None => false,
        };
        if keep {
            out.push(v[i].clone());
            assert(names(out@) =~= names(before).push(v@[i as int]@));
        }
        i = i + 1;
    }
    assert(vs.subrange(0, vs.len() as int) =~= vs);
    out
}

} // verus!
