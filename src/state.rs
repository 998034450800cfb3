//! Where session state lives, and the registry of sessions that are up.

use vstd::prelude::*;
use vstd::utf8::encode_utf8;

use crate::env::rolling_hash;
use crate::text::{
    chars_of, hex_fixed, hex_string, lemma_seq_lt_irreflexive, lemma_seq_lt_total,
    lemma_seq_lt_transitive, seq_lt, split_on, split_str, str_lt, trim, trimmed, views,
};
use crate::worktree::{join, join_path};

verus! {

/// The identifier of a project: the 64-bit rolling hash of its canonical control-directory
/// path, as 16 lowercase hexadecimal digits.
pub open spec fn project_key(path: Seq<char>) -> Seq<char> {
    hex_fixed(rolling_hash(encode_utf8(path), 0x1_0000_0000_0000_0000) as nat, 16)
}

/// The rolling hash of `b` in 64-bit wrapping arithmetic.
pub fn rolling_hash_u64(b: &[u8]) -> (r: u64)
    ensures
        r == rolling_hash(b@, 0x1_0000_0000_0000_0000),
{
    let mut h: u64 = 0;
    let mut i: usize = 0;
    assert(b@.take(0) == Seq::<u8>::empty());
    while i < b.len()
        invariant
            i <= b@.len(),
            h == rolling_hash(b@.take(i as int), 0x1_0000_0000_0000_0000),
        decreases b@.len() - i,
    {
        let byte = b[i];
        let ghost prefix = b@.take(i as int + 1);
        assert(prefix.drop_last() == b@.take(i as int));
        assert(prefix.last() == byte);
        let m = h.wrapping_mul(31);
        proof {
            vstd::arithmetic::div_mod::lemma_add_mod_noop(
                h * 31,
                byte as int,
                0x1_0000_0000_0000_0000,
            );
            vstd::arithmetic::div_mod::lemma_small_mod(byte as nat, 0x1_0000_0000_0000_0000);
        }
        h = m.wrapping_add(byte as u64);
        assert(h == (m + byte) % 0x1_0000_0000_0000_0000);
        i = i + 1;
    }
    assert(b@.take(b@.len() as int) == b@);
    h
}

/// The project identifier of a canonical control-directory path.
pub fn simple_hash(s: &str) -> (r: String)
    ensures
        r@ == project_key(s@),
{
    let h = rolling_hash_u64(s.as_bytes());
    hex_string(h, 16)
}

/// The per-user directory that holds state: the platform's state directory, else
/// `.local/state` under the home directory, else `.local/state` itself.
pub open spec fn state_root_of(state_dir: Option<Seq<char>>, home_dir: Option<Seq<char>>) -> Seq<
    char,
> {
    match state_dir {
        Some(d) => d,
        None => match home_dir {
            Some(h) => join_path(h, ".local/state"@),
            None => ".local/state"@,
        },
    }
}

/// Picks the directory that holds state, from what the platform reports.
pub fn state_root(state_dir: Option<String>, home_dir: Option<String>) -> (r: String)
    ensures
        r@ == state_root_of(
            match state_dir {
                Some(d) => Some(d@),
                None => None,
            },
            match home_dir {
                Some(h) => Some(h@),
                None => None,
            },
        ),
{
    match state_dir {
        Some(d) => d,
        None => match home_dir {
            Some(h) => join(h.as_str(), ".local/state"),
            None => String::from_str(".local/state"),
        },
    }
}

/// Where a project's session state lives, under the state root.
pub open spec fn state_dir_of(state_root: Seq<char>, canonical_force_dir: Seq<char>) -> Seq<char> {
    join_path(join_path(state_root, "force"@), project_key(canonical_force_dir))
}

/// The state directory of the project whose canonical control directory is given.
pub fn state_dir_for(state_root: &str, canonical_force_dir: &str) -> (r: String)
    ensures
        r@ == state_dir_of(state_root@, canonical_force_dir@),
{
    let base = join(state_root, "force");
    let key = simple_hash(canonical_force_dir);
    join(base.as_str(), key.as_str())
}

/// The file listing a project's sessions.
pub fn sessions_file(state_dir: &str) -> (r: String)
    ensures
        r@ == join_path(state_dir@, "sessions"@),
{
    join(state_dir, "sessions")
}

/// Names in strictly increasing order, hence without repeats.
pub open spec fn strictly_sorted(s: Seq<Seq<char>>) -> bool {
    forall|i: int, j: int| 0 <= i < j < s.len() ==> seq_lt(#[trigger] s[i], #[trigger] s[j])
}

/// A feature name that the registry file lists: a trimmed, non-empty line.
pub open spec fn listed_in(content: Seq<char>, name: Seq<char>) -> bool {
    name.len() > 0 && exists|i: int|
        0 <= i < split_on(content, '\n').len() && trim(#[trigger] split_on(content, '\n')[i])
            == name
}

/// The set of feature names that have a live session in one project.
pub struct Sessions {
    names: Vec<String>,
}

impl Sessions {
    /// The names, in increasing order.
    pub closed spec fn view(&self) -> Seq<Seq<char>> {
        views(self.names@)
    }

    /// The names are in strictly increasing order.
    #[verifier::type_invariant]
    spec fn names_sorted(&self) -> bool {
        strictly_sorted(views(self.names@))
    }

    /// No sessions.
    pub fn new() -> (r: Sessions)
        ensures
            r@.len() == 0,
    {
        Sessions { names: Vec::new() }
    }

    /// Whether no session is registered.
    pub fn is_empty(&self) -> (r: bool)
        ensures
            r == (self@.len() == 0),
    {
        self.names.len() == 0
    }

    /// Reads the registry file's text: one feature name per line, surrounding whitespace and
    /// blank lines ignored, repeats collapsed.
    pub fn parse(content: &str) -> (r: Sessions)
        ensures
            forall|n: Seq<char>| r@.contains(n) <==> listed_in(content@, n),
    {
        let lines = split_str(content, '\n');
        let ghost pieces = split_on(content@, '\n');
        let mut sessions = Sessions::new();
        let mut i: usize = 0;
        while i < lines.len()
            invariant
                i <= lines@.len(),
                views(lines@) == pieces,
                pieces == split_on(content@, '\n'),
                forall|n: Seq<char>|
                    sessions@.contains(n) <==> (n.len() > 0 && exists|k: int|
                        0 <= k < i && trim(#[trigger] pieces[k]) == n),
            decreases lines@.len() - i,
        {
            let v = chars_of(lines[i].as_str());
            let name = trimmed(&v, 0, v.len());
            assert(v@.subrange(0, v@.len() as int) == pieces[i as int]);
            let ghost before = sessions@;
            if name_len(&name) > 0 {
                add_session(&mut sessions, name.as_str());
            }
            proof {
                assert forall|n: Seq<char>| sessions@.contains(n) <==> (n.len() > 0 && exists|k: int|
                    0 <= k < i + 1 && trim(#[trigger] pieces[k]) == n) by {
                    if n.len() > 0 && exists|k: int| 0 <= k < i + 1 && trim(#[trigger] pieces[k]) == n {
                        let k = choose|k: int| 0 <= k < i + 1 && trim(#[trigger] pieces[k]) == n;
                        if k < i {
                            assert(before.contains(n));
                        }
                    }
                    if sessions@.contains(n) && !before.contains(n) {
                        assert(trim(pieces[i as int]) == n);
                    }
                }
            }
            i = i + 1;
        }
        sessions
    }

    /// The registry file's text, or `None` where there is no session and the file is to go.
    pub fn render(&self) -> (r: Option<String>)
        ensures
            r is None <==> self@.len() == 0,
            r matches Some(s) ==> s@ == joined(self@),
    {
        if self.names.len() == 0 {
            return None;
        }
        let mut out = self.names[0].clone();
        let mut i: usize = 1;
        assert(self@.take(1) == seq![self@[0]]);
        while i < self.names.len()
            invariant
                1 <= i <= self.names@.len(),
                out@ == joined(self@.take(i as int)),
            decreases self.names@.len() - i,
        {
            let ghost before = self@.take(i as int);
            assert(self@.take(i as int + 1).drop_last() == before);
            crate::text::push_char(&mut out, '\n');
            out.append(self.names[i].as_str());
            assert(self@[i as int] == self.names@[i as int]@);
            i = i + 1;
        }
        assert(self@.take(self@.len() as int) == self@);
        Some(out)
    }
}

/// Names joined by newlines.
pub open spec fn joined(s: Seq<Seq<char>>) -> Seq<char>
    decreases s.len(),
{
    if s.len() == 0 {
        Seq::empty()
    } else if s.len() == 1 {
        s[0]
    } else {
        joined(s.drop_last()) + seq!['\n'] + s.last()
    }
}

fn name_len(s: &String) -> (r: usize)
    ensures
        r == s@.len(),
{
    s.as_str().unicode_len()
}

/// Registers a session; registering it again changes nothing.
pub fn add_session(sessions: &mut Sessions, feature: &str)
    ensures
        forall|n: Seq<char>| final(sessions)@.contains(n) <==> (old(sessions)@.contains(n) || n
            == feature@),
{
    proof {
        use_type_invariant(&*sessions);
    }
    let ghost before = sessions@;
    let target = String::from_str(feature);
    let mut i: usize = 0;
    while i < sessions.names.len() && str_lt(sessions.names[i].as_str(), feature)
        invariant
            sessions@ == before,
            strictly_sorted(before),
            i <= before.len(),
            forall|j: int| 0 <= j < i ==> seq_lt(#[trigger] before[j], feature@),
        decreases before.len() - i,
    {
        i = i + 1;
    }
    if i < sessions.names.len() && sessions.names[i] == target {
        assert(before[i as int] == feature@);
        assert(forall|n: Seq<char>| n == feature@ ==> before.contains(n));
        return;
    }
    proof {
        assert forall|j: int| i <= j < before.len() implies seq_lt(feature@, #[trigger] before[j]) by {
            lemma_seq_lt_total(before[i as int], feature@);
            if j > i {
                lemma_seq_lt_transitive(feature@, before[i as int], before[j]);
            }
        }
    }
    let mut names: Vec<String> = Vec::new();
    std::mem::swap(&mut names, &mut sessions.names);
    names.insert(i, target);
    proof {
        let after = views(names@);
        assert(after == before.insert(i as int, feature@));
        before.insert_ensures(i as int, feature@);
        assert forall|a: int, b: int| 0 <= a < b < after.len() implies seq_lt(
            #[trigger] after[a],
            #[trigger] after[b],
        ) by {
            if b < i {
            } else if a < i && b == i {
            } else if a < i {
                assert(after[b] == before[b - 1]);
            } else if a == i {
                assert(after[b] == before[b - 1]);
            } else {
                assert(after[a] == before[a - 1] && after[b] == before[b - 1]);
            }
        }
        assert forall|n: Seq<char>| after.contains(n) <==> (before.contains(n) || n == feature@) by {
            if after.contains(n) {
                let k = choose|k: int| 0 <= k < after.len() && after[k] == n;
                if k < i {
                    assert(before[k] == n);
                } else if k > i {
                    assert(before[k - 1] == n);
                }
            }
            if before.contains(n) {
                let k = choose|k: int| 0 <= k < before.len() && before[k] == n;
                if k < i {
                    assert(after[k] == n);
                } else {
                    assert(after[k + 1] == n);
                }
            }
            if n == feature@ {
                assert(after[i as int] == n);
            }
        }
    }
    sessions.names = names;
}

/// Unregisters a session; a feature that is not registered is no error.
pub fn remove_session(sessions: &mut Sessions, feature: &str)
    ensures
        forall|n: Seq<char>| final(sessions)@.contains(n) <==> (old(sessions)@.contains(n) && n
            != feature@),
{
    proof {
        use_type_invariant(&*sessions);
    }
    let ghost before = sessions@;
    let target = String::from_str(feature);
    let mut i: usize = 0;
    while i < sessions.names.len() && sessions.names[i] != target
        invariant
            sessions@ == before,
            target@ == feature@,
            i <= before.len(),
            forall|j: int| 0 <= j < i ==> #[trigger] before[j] != feature@,
        decreases before.len() - i,
    {
        i = i + 1;
    }
    if i == sessions.names.len() {
        return;
    }
    let mut names: Vec<String> = Vec::new();
    std::mem::swap(&mut names, &mut sessions.names);
    names.remove(i);
    proof {
        let after = views(names@);
        assert(after == before.remove(i as int));
        before.remove_ensures(i as int);
        assert forall|a: int, b: int| 0 <= a < b < after.len() implies seq_lt(
            #[trigger] after[a],
            #[trigger] after[b],
        ) by {
            if b < i {
            } else if a < i {
                assert(after[b] == before[b + 1]);
            } else {
                assert(after[a] == before[a + 1] && after[b] == before[b + 1]);
            }
        }
        assert forall|n: Seq<char>| after.contains(n) <==> (before.contains(n) && n != feature@) by {
            if after.contains(n) {
                let k = choose|k: int| 0 <= k < after.len() && after[k] == n;
                if k < i {
                    assert(before[k] == n);
                    lemma_seq_lt_irreflexive(n);
                    assert(seq_lt(before[k], before[i as int]));
                } else {
                    assert(before[k + 1] == n);
                    assert(seq_lt(before[i as int], before[k + 1]));
                    lemma_seq_lt_irreflexive(n);
                }
            }
            if before.contains(n) && n != feature@ {
                let k = choose|k: int| 0 <= k < before.len() && before[k] == n;
                if k < i {
                    assert(after[k] == n);
                } else {
                    assert(k != i);
                    assert(after[k - 1] == n);
                }
            }
        }
    }
    sessions.names = names;
}

/// The registered features, in increasing order.
pub fn list_sessions(sessions: &Sessions) -> (r: Vec<String>)
    ensures
        views(r@) == sessions@,
        strictly_sorted(views(r@)),
{
    proof {
        use_type_invariant(sessions);
    }
    let mut out: Vec<String> = Vec::new();
    let mut i: usize = 0;
    while i < sessions.names.len()
        invariant
            i <= sessions.names@.len(),
            views(out@) == sessions@.take(i as int),
        decreases sessions.names@.len() - i,
    {
        out.push(sessions.names[i].clone());
        assert(sessions@.take(i as int + 1) == sessions@.take(i as int).push(sessions@[i as int]));
        i = i + 1;
    }
    assert(sessions@.take(sessions@.len() as int) == sessions@);
    out
}

/// After a session is registered and then unregistered, the registry no longer lists it,
/// and every other name is as it was.
pub proof fn lemma_up_then_down_forgets(
    start: Sessions,
    after_up: Sessions,
    after_down: Sessions,
    feature: Seq<char>,
)
    requires
        forall|n: Seq<char>| after_up@.contains(n) <==> (start@.contains(n) || n == feature),
        forall|n: Seq<char>| after_down@.contains(n) <==> (after_up@.contains(n) && n != feature),
    ensures
        !after_down@.contains(feature),
        forall|n: Seq<char>| n != feature ==> (after_down@.contains(n) <==> start@.contains(n)),
{
}

/// A name that the registry file keeps as it is: not empty, without surrounding whitespace
/// and without a line break.
pub open spec fn is_line_safe(n: Seq<char>) -> bool {
    n.len() > 0 && trim(n) == n && !n.contains('\n')
}

proof fn lemma_split_without_sep(b: Seq<char>, sep: char)
    requires
        !b.contains(sep),
    ensures
        split_on(b, sep) == seq![b],
    decreases b.len(),
{
    if b.len() > 0 {
        assert(!b.drop_last().contains(sep)) by {
            if b.drop_last().contains(sep) {
                let k = choose|k: int| 0 <= k < b.drop_last().len() && b.drop_last()[k] == sep;
                assert(b[k] == sep);
            }
        }
        lemma_split_without_sep(b.drop_last(), sep);
        assert(b.last() != sep) by {
            if b.last() == sep {
                assert(b[b.len() - 1] == sep);
            }
        }
        assert(b.drop_last().push(b.last()) == b);
        assert(seq![b.drop_last()].update(0, b) == seq![b]);
    } else {
        assert(b == Seq::<char>::empty());
    }
}

proof fn lemma_split_after_sep(a: Seq<char>, b: Seq<char>, sep: char)
    requires
        !b.contains(sep),
    ensures
        split_on(a + seq![sep] + b, sep) == split_on(a, sep).push(b),
    decreases b.len(),
{
    let whole = a + seq![sep] + b;
    if b.len() == 0 {
        assert(whole.drop_last() == a);
        assert(b == Seq::<char>::empty());
    } else {
        assert(!b.drop_last().contains(sep)) by {
            if b.drop_last().contains(sep) {
                let k = choose|k: int| 0 <= k < b.drop_last().len() && b.drop_last()[k] == sep;
                assert(b[k] == sep);
            }
        }
        lemma_split_after_sep(a, b.drop_last(), sep);
        assert(whole.drop_last() == a + seq![sep] + b.drop_last());
        assert(whole.last() == b.last());
        assert(b.last() != sep) by {
            if b.last() == sep {
                assert(b[b.len() - 1] == sep);
            }
        }
        assert(b.drop_last().push(b.last()) == b);
        let prev = split_on(a, sep).push(b.drop_last());
        assert(prev.update(prev.len() - 1, b) == split_on(a, sep).push(b));
    }
}

proof fn lemma_split_joined(s: Seq<Seq<char>>)
    requires
        s.len() > 0,
        forall|i: int| 0 <= i < s.len() ==> !(#[trigger] s[i]).contains('\n'),
    ensures
        split_on(joined(s), '\n') == s,
    decreases s.len(),
{
    if s.len() == 1 {
        lemma_split_without_sep(s[0], '\n');
        assert(s == seq![s[0]]);
    } else {
        let rest = s.drop_last();
        assert(forall|i: int| 0 <= i < rest.len() ==> rest[i] == s[i]);
        lemma_split_joined(rest);
        lemma_split_after_sep(joined(rest), s.last(), '\n');
        assert(rest.push(s.last()) == s);
    }
}

/// The registry file keeps its names: the text written for a set of line-safe names reads
/// back as exactly those names.
pub proof fn lemma_registry_round_trip(names: Seq<Seq<char>>)
    requires
        names.len() > 0,
        forall|i: int| 0 <= i < names.len() ==> is_line_safe(#[trigger] names[i]),
    ensures
        forall|n: Seq<char>| listed_in(joined(names), n) <==> names.contains(n),
{
    lemma_split_joined(names);
    assert forall|n: Seq<char>| listed_in(joined(names), n) <==> names.contains(n) by {
        if names.contains(n) {
            let k = choose|k: int| 0 <= k < names.len() && names[k] == n;
            assert(is_line_safe(names[k]));
            assert(trim(split_on(joined(names), '\n')[k]) == n);
        }
        if listed_in(joined(names), n) {
            let k = choose|k: int|
                0 <= k < split_on(joined(names), '\n').len() && trim(
                    #[trigger] split_on(joined(names), '\n')[k],
                ) == n;
            assert(is_line_safe(names[k]));
        }
    }
}

} // verus!
