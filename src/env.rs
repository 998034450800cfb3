//! The identity of a session: slug, port, database name, and the environment scripts receive.

use vstd::prelude::*;
use vstd::utf8::encode_utf8;

use crate::text::{decimal, decimal_string, push_char, split_on, split_str, views};

verus! {

/// An ASCII letter or digit.
pub open spec fn is_ascii_alnum(c: char) -> bool {
    ('0' <= c && c <= '9') || ('a' <= c && c <= 'z') || ('A' <= c && c <= 'Z')
}

/// The slug form of one character: ASCII letters and digits lowercased, anything else `_`.
pub open spec fn slug_char(c: char) -> char {
    if 'A' <= c && c <= 'Z' {
        ((c as u32) + 32) as char
    } else if is_ascii_alnum(c) {
        c
    } else {
        '_'
    }
}

/// A character that may appear in a slug: `[a-z0-9_]`.
pub open spec fn is_slug_char(c: char) -> bool {
    ('0' <= c && c <= '9') || ('a' <= c && c <= 'z') || c == '_'
}

/// The slug of a string: each character mapped on its own.
pub open spec fn slug(s: Seq<char>) -> Seq<char> {
    s.map_values(|c: char| slug_char(c))
}

fn slug_char_exec(c: char) -> (r: char)
    ensures
        r == slug_char(c),
{
    if 'A' <= c && c <= 'Z' {
        ((c as u8) + 32) as char
    } else if ('0' <= c && c <= '9') || ('a' <= c && c <= 'z') {
        c
    } else {
        '_'
    }
}

/// Maps a feature name to its slug, one output character per input character.
pub fn slugify(name: &str) -> (r: String)
    ensures
        r@ == slug(name@),
        r@.len() == name@.len(),
        forall|i: int| 0 <= i < r@.len() ==> is_slug_char(#[trigger] r@[i]),
{
    let mut out = String::new();
    for c in it: name.chars()
        invariant
            it.seq() == name@,
            out@ == slug(name@.take(it.index() as int)),
    {
        let d = slug_char_exec(c);
        assert(name@.take(it.index() as int + 1) == name@.take(it.index() as int).push(c));
        push_char(&mut out, d);
    }
    assert(name@.take(name@.len() as int) == name@);
    out
}

/// The first port handed out; a session's port is this plus its offset.
pub const BASE_PORT: u16 = 4000;

/// The rolling hash of `b`: `h = h * 31 + byte` for each byte, reduced modulo `modulus`.
pub open spec fn rolling_hash(b: Seq<u8>, modulus: int) -> int
    decreases b.len(),
{
    if b.len() == 0 {
        0
    } else {
        (rolling_hash(b.drop_last(), modulus) * 31 + b.last()) % modulus
    }
}

/// The port offset of a feature: its 32-bit rolling hash over UTF-8 bytes, modulo 1000.
pub open spec fn port_offset_of(feature: Seq<char>) -> int {
    rolling_hash(encode_utf8(feature), 0x1_0000_0000) % 1000
}

/// The port of a feature.
pub open spec fn port_of(feature: Seq<char>) -> int {
    BASE_PORT + port_offset_of(feature)
}

/// The rolling hash of `b` in 32-bit wrapping arithmetic.
pub fn rolling_hash_u32(b: &[u8]) -> (r: u32)
    ensures
        r == rolling_hash(b@, 0x1_0000_0000),
{
    let mut h: u32 = 0;
    let mut i: usize = 0;
    assert(b@.take(0) == Seq::<u8>::empty());
    while i < b.len()
        invariant
            i <= b@.len(),
            h == rolling_hash(b@.take(i as int), 0x1_0000_0000),
        decreases b@.len() - i,
    {
        let byte = b[i];
        let ghost prefix = b@.take(i as int + 1);
        assert(prefix.drop_last() == b@.take(i as int));
        assert(prefix.last() == byte);
        let m = h.wrapping_mul(31);
        proof {
            vstd::arithmetic::div_mod::lemma_add_mod_noop(h * 31, byte as int, 0x1_0000_0000);
            vstd::arithmetic::div_mod::lemma_small_mod(byte as nat, 0x1_0000_0000);
        }
        h = m.wrapping_add(byte as u32);
        assert(h == (m + byte) % 0x1_0000_0000);
        i = i + 1;
    }
    assert(b@.take(b@.len() as int) == b@);
    h
}

/// Hashes a feature name to a port offset in `[0, 1000)`.
pub fn hash_to_offset(feature: &str) -> (r: u16)
    ensures
        r == port_offset_of(feature@),
        r < 1000,
{
    let h = rolling_hash_u32(feature.as_bytes());
    (h % 1000) as u16
}

/// A path segment that names a directory: not empty and not `.`.
pub open spec fn is_named_segment(p: Seq<char>) -> bool {
    p.len() > 0 && p != seq!['.']
}

/// The named segments of a `/`-separated path, in order.
pub open spec fn path_segments(path: Seq<char>) -> Seq<Seq<char>> {
    split_on(path, '/').filter(|p: Seq<char>| is_named_segment(p))
}

/// The name of the project whose control directory is `force_dir`: the name of that
/// directory's parent, reading the path by its components (empty and `.` segments do not
/// count), or `app` where the parent has no name.
pub open spec fn project_name(force_dir: Seq<char>) -> Seq<char> {
    let segs = path_segments(force_dir);
    if segs.len() >= 2 && segs[segs.len() - 2] != seq!['.', '.'] {
        segs[segs.len() - 2]
    } else {
        seq!['a', 'p', 'p']
    }
}

/// The database name of a feature in the project whose control directory is `force_dir`.
pub open spec fn db_name_of(force_dir: Seq<char>, feature: Seq<char>) -> Seq<char> {
    slug(project_name(force_dir)) + seq!['_'] + slug(feature)
}

fn is_named_segment_exec(p: &String) -> (r: bool)
    ensures
        r == is_named_segment(p@),
{
    let v = crate::text::chars_of(p.as_str());
    if v.len() == 1 && v[0] == '.' {
        assert(p@ == seq!['.']);
        false
    } else {
        assert(v.len() == 1 ==> p@[0] != seq!['.'][0]);
        v.len() > 0
    }
}

/// The name of the project whose control directory is `force_dir`.
pub fn project_name_of(force_dir: &str) -> (r: String)
    ensures
        r@ == project_name(force_dir@),
{
    let pieces = split_str(force_dir, '/');
    let ghost all = views(pieces@);
    let ghost pred = |p: Seq<char>| is_named_segment(p);
    let mut kept: Vec<String> = Vec::new();
    let mut i: usize = 0;
    assert(all.take(0) == Seq::<Seq<char>>::empty());
    while i < pieces.len()
        invariant
            i <= pieces@.len(),
            all == views(pieces@),
            all == split_on(force_dir@, '/'),
            pred == (|p: Seq<char>| is_named_segment(p)),
            views(kept@) == all.take(i as int).filter(pred),
        decreases pieces@.len() - i,
    {
        assert(all.take(i as int + 1) == all.take(i as int).push(all[i as int]));
        proof {
            all.take(i as int).lemma_filter_push(all[i as int], pred);
        }
        if is_named_segment_exec(&pieces[i]) {
            let ghost before = views(kept@);
            kept.push(pieces[i].clone());
            assert(views(kept@) == before.push(all[i as int]));
        }
        i = i + 1;
    }
    assert(all.take(all.len() as int) == all);
    let n = kept.len();
    if n >= 2 {
        let candidate = &kept[n - 2];
        let cv = crate::text::chars_of(candidate.as_str());
        assert(views(kept@)[n - 2] == candidate@);
        if !(cv.len() == 2 && cv[0] == '.' && cv[1] == '.') {
            assert(cv.len() == 2 ==> (candidate@[0] != seq!['.', '.'][0] || candidate@[1] != seq![
                '.',
                '.',
            ][1]));
            return candidate.clone();
        }
        assert(candidate@ == seq!['.', '.']);
    }
    proof {
        reveal_strlit("app");
    }
    String::from_str("app")
}

/// The identity of one session: what every script of the session is told about it.
pub struct ForceEnv {
    pub feature: String,
    pub feature_slug: String,
    pub port_offset: u16,
    pub port: u16,
    pub db_name: String,
    pub force_dir: String,
    pub worktree_path: String,
}

impl ForceEnv {
    /// This bundle is the one derived from a feature name, a control directory and a
    /// working-tree path.
    pub open spec fn derived_from(
        self,
        feature: Seq<char>,
        force_dir: Seq<char>,
        worktree_path: Seq<char>,
    ) -> bool {
        &&& self.feature@ == feature
        &&& self.feature_slug@ == slug(feature)
        &&& self.port_offset == port_offset_of(feature)
        &&& self.port == port_of(feature)
        &&& self.db_name@ == db_name_of(force_dir, feature)
        &&& self.force_dir@ == force_dir
        &&& self.worktree_path@ == worktree_path
    }

    /// Derives the identity of a session.
    pub fn new(feature: &str, force_dir: &str, worktree_path: &str) -> (r: ForceEnv)
        ensures
            r.derived_from(feature@, force_dir@, worktree_path@),
            BASE_PORT <= r.port < BASE_PORT + 1000,
    {
        let feature_slug = slugify(feature);
        let port_offset = hash_to_offset(feature);
        let port = BASE_PORT + port_offset;
        let project = project_name_of(force_dir);
        let mut db_name = slugify(project.as_str());
        push_char(&mut db_name, '_');
        assert(db_name@ == slug(project@) + seq!['_']);
        db_name.append(feature_slug.as_str());
        ForceEnv {
            feature: String::from_str(feature),
            feature_slug,
            port_offset,
            port,
            db_name,
            force_dir: String::from_str(force_dir),
            worktree_path: String::from_str(worktree_path),
        }
    }

    /// The environment handed to each script, as (name, value) pairs.
    pub open spec fn env_pairs(self) -> Seq<(Seq<char>, Seq<char>)> {
        seq![
            ("FORCE_FEATURE"@, self.feature@),
            ("FORCE_FEATURE_SLUG"@, self.feature_slug@),
            ("FORCE_PORT_OFFSET"@, decimal(self.port_offset as nat)),
            ("FORCE_PORT"@, decimal(self.port as nat)),
            ("FORCE_DB_NAME"@, self.db_name@),
            ("FORCE_DIR"@, self.force_dir@),
            ("FORCE_WORKTREE"@, self.worktree_path@),
        ]
    }

    /// The environment variables that every script of the session receives.
    pub fn to_env_vars(&self) -> (r: Vec<(String, String)>)
        ensures
            r@.map_values(|p: (String, String)| (p.0@, p.1@)) == self.env_pairs(),
    {
        let mut v: Vec<(String, String)> = Vec::new();
        v.push((String::from_str("FORCE_FEATURE"), self.feature.clone()));
        v.push((String::from_str("FORCE_FEATURE_SLUG"), self.feature_slug.clone()));
        v.push((String::from_str("FORCE_PORT_OFFSET"), decimal_string(self.port_offset as u64)));
        v.push((String::from_str("FORCE_PORT"), decimal_string(self.port as u64)));
        v.push((String::from_str("FORCE_DB_NAME"), self.db_name.clone()));
        v.push((String::from_str("FORCE_DIR"), self.force_dir.clone()));
        v.push((String::from_str("FORCE_WORKTREE"), self.worktree_path.clone()));
        assert(v@.map_values(|p: (String, String)| (p.0@, p.1@)) == self.env_pairs());
        v
    }
}

/// A slug has one character per character of its input, each of them in `[a-z0-9_]`, and
/// slugifying a slug changes nothing.
pub proof fn lemma_slug_laws(s: Seq<char>)
    ensures
        slug(s).len() == s.len(),
        forall|i: int| 0 <= i < slug(s).len() ==> is_slug_char(#[trigger] slug(s)[i]),
        slug(slug(s)) == slug(s),
{
    assert forall|i: int| 0 <= i < slug(s).len() implies is_slug_char(#[trigger] slug(s)[i])
        && slug_char(slug(s)[i]) == slug(s)[i] by {
        let c = s[i];
        if 'A' <= c && c <= 'Z' {
            assert(slug(s)[i] as u32 == c as u32 + 32) by {
                vstd::utf8::char_u32_cast(c, c as u32);
            }
        }
    }
    assert(slug(slug(s)) == slug(s));
}

/// The port offset of every feature name lies in `[0, 1000)`.
pub proof fn lemma_port_offset_range(feature: Seq<char>)
    ensures
        0 <= port_offset_of(feature) < 1000,
{
}

/// Two identities derived for the same feature carry the same port, which lies in
/// `[4000, 5000)`; derived from the same three inputs, they agree in every field.
pub proof fn lemma_identity_is_stable(
    a: ForceEnv,
    b: ForceEnv,
    feature: Seq<char>,
    dir_a: Seq<char>,
    tree_a: Seq<char>,
    dir_b: Seq<char>,
    tree_b: Seq<char>,
)
    requires
        a.derived_from(feature, dir_a, tree_a),
        b.derived_from(feature, dir_b, tree_b),
    ensures
        a.port == b.port,
        4000 <= a.port < 5000,
        a.port_offset == b.port_offset,
        a.feature_slug@ == b.feature_slug@,
        dir_a == dir_b && tree_a == tree_b ==> a.env_pairs() == b.env_pairs(),
{
}

} // verus!
