//! What `ls` reports about the registered sessions.

use vstd::prelude::*;

use crate::env::{hash_to_offset, port_of, BASE_PORT};
use crate::state::{list_sessions, Sessions};

verus! {

/// One registered session as `ls` shows it.
pub struct SessionLine {
    pub name: String,
    pub port: u16,
}

/// What `ls` reports: an explicit "no sessions" state, or each session with its port.
pub enum LsReport {
    NoSessions,
    Active(Vec<SessionLine>),
}

/// The `ls` report of a project's registry: "no sessions" exactly when none is registered,
/// otherwise every session in increasing name order with its derived port.
pub fn ls_report(sessions: &Sessions) -> (r: LsReport)
    ensures
        r is NoSessions <==> sessions@.len() == 0,
        r matches LsReport::Active(lines) ==> lines@.len() == sessions@.len() && forall|i: int|
            0 <= i < lines@.len() ==> (#[trigger] lines@[i]).name@ == sessions@[i]
                && lines@[i].port == port_of(sessions@[i]),
{
    if sessions.is_empty() {
        return LsReport::NoSessions;
    }
    let names = list_sessions(sessions);
    let mut lines: Vec<SessionLine> = Vec::new();
    let mut i: usize = 0;
    while i < names.len()
        invariant
            i <= names@.len(),
            crate::text::views(names@) == sessions@,
            lines@.len() == i,
            forall|j: int|
                0 <= j < i ==> (#[trigger] lines@[j]).name@ == sessions@[j] && lines@[j].port
                    == port_of(sessions@[j]),
        decreases names@.len() - i,
    {
        let name = names[i].clone();
        assert(name@ == sessions@[i as int]);
        let port = BASE_PORT + hash_to_offset(name.as_str());
        lines.push(SessionLine { name, port });
        i = i + 1;
    }
    LsReport::Active(lines)
}

} // verus!
