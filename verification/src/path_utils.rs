//! Mapping of request paths onto the collection directory, and the
//! security check applied before any file is touched.

use vstd::prelude::*;
use vstd::string::*;
use vstd::utf8::*;
use crate::text::{
    contains_seq, ends_with_char, has_prefix, starts_with_char, str_contains, str_ends_with_char,
    str_starts_with, str_starts_with_char,
};

verus! {

/// A request path mapped onto the local file system.
#[derive(Debug, Clone)]
pub struct SanitizedPath {
    pub local_path: String,
    pub is_ambiguous: bool,
}

/// Why a path was refused.
#[derive(Debug, Clone)]
pub enum PathError {
    SecurityViolation(String),
    PathAmbiguity(String, String),
    InvalidPath(String),
}

/// What the ambiguity check of a path needs next.
#[derive(Debug, Clone)]
pub enum AmbiguityCheck {
    /// The path is settled without looking at the file system.
    Resolved(SanitizedPath),
    /// The path could mean either candidate; which of them exist decides.
    Probe { local_path_1: String, local_path_2: String },
}

/// Maps request paths onto the collection directory.
pub struct PathSanitizer {
    globus_collection_path: String,
}

/// `s` without trailing slashes, keeping at least one character.
pub open spec fn trim_trailing_slashes(s: Seq<char>) -> Seq<char>
    decreases s.len(),
{
    if s.len() > 1 && s.last() == '/' {
        trim_trailing_slashes(s.drop_last())
    } else {
        s
    }
}

/// `t` placed under the directory `g`, with exactly the separators the
/// server adds: none when `t` starts with `/` or `g` ends with `/`, one
/// otherwise.
pub open spec fn join_under(g: Seq<char>, t: Seq<char>) -> Seq<char> {
    if starts_with_char(t, '/') || ends_with_char(g, '/') {
        g + t
    } else {
        g + seq!['/'] + t
    }
}

/// `t` read as an absolute path.
pub open spec fn as_absolute(t: Seq<char>) -> Seq<char> {
    if starts_with_char(t, '/') {
        t
    } else {
        seq!['/'] + t
    }
}

/// The local path a request path maps to under the collection `g`, or
/// `None` for a path that is empty.
pub open spec fn sanitized_local_path(g: Seq<char>, path: Seq<char>) -> Option<Seq<char>> {
    let t = trim_trailing_slashes(path);
    if t.len() == 0 {
        None
    } else if has_prefix(t, g) {
        Some(t)
    } else {
        Some(join_under(g, t))
    }
}

/// The byte length of a path's UTF-8 form, by which candidates are compared.
pub open spec fn byte_len(s: Seq<char>) -> nat {
    encode_utf8(s).len()
}

/// The candidate an unambiguous resolution settles on: the one that exists,
/// otherwise the shorter (the first on a tie).
pub open spec fn resolved_candidate(p1: Seq<char>, p2: Seq<char>, exists1: bool, exists2: bool) -> Seq<
    char,
> {
    if exists1 && !exists2 {
        p1
    } else if exists2 && !exists1 {
        p2
    } else if byte_len(p1) <= byte_len(p2) {
        p1
    } else {
        p2
    }
}

/// Settling an ambiguity takes the candidate that exists when exactly one
/// does; when both or neither exist it takes one of the two, the one with
/// fewer UTF-8 bytes, the first on a tie.
pub proof fn lemma_existing_candidate_wins(p1: Seq<char>, p2: Seq<char>, exists1: bool, exists2: bool)
    ensures
        exists1 && !exists2 ==> resolved_candidate(p1, p2, exists1, exists2) == p1,
        exists2 && !exists1 ==> resolved_candidate(p1, p2, exists1, exists2) == p2,
        exists1 == exists2 ==> ({
            let r = resolved_candidate(p1, p2, exists1, exists2);
            &&& (r == p1 || r == p2)
            &&& byte_len(r) <= byte_len(p1)
            &&& byte_len(r) <= byte_len(p2)
            &&& byte_len(p1) <= byte_len(p2) ==> r == p1
        }),
{
}

/// The text of a security refusal for a path outside the collection.
pub open spec fn outside_message(path: Seq<char>, base: Seq<char>) -> Seq<char> {
    "Path '"@ + path + "' is not within base path '"@ + base + "'"@
}

/// The text of a security refusal for a path with `..` or `//` in it.
pub open spec fn dangerous_message(path: Seq<char>) -> Seq<char> {
    "Path '"@ + path + "' contains dangerous patterns"@
}

/// Returns `s` without trailing slashes, keeping at least one character.
pub fn trim_slashes(s: &str) -> (r: &str)
    ensures
        r@ == trim_trailing_slashes(s@),
{
    let n = s.unicode_len();
    let mut k: usize = n;
    assert(s@.take(n as int) =~= s@);
    while k > 1 && s.get_char(k - 1) == '/'
        invariant
            k <= n,
            n == s@.len(),
            trim_trailing_slashes(s@.take(k as int)) == trim_trailing_slashes(s@),
        decreases k,
    {
        assert(s@.take(k as int).drop_last() =~= s@.take(k - 1));
        k = k - 1;
    }
    assert(s@.take(n as int) =~= s@);
    s.substring_char(0, k)
}

/// `t` placed under the directory `g`.
fn join_under_exec(g: &str, t: &str) -> (r: String)
    ensures
        r@ == join_under(g@, t@),
{
    let mut r = g.to_owned();
    if !(str_starts_with_char(t, '/') || str_ends_with_char(g, '/')) {
        proof {
            reveal_strlit("/");
        }
        r.append("/");
    }
    r.append(t);
    r
}

/// `t` read as an absolute path.
fn as_absolute_exec(t: &str) -> (r: String)
    ensures
        r@ == as_absolute(t@),
{
    if str_starts_with_char(t, '/') {
        t.to_owned()
    } else {
        proof {
            reveal_strlit("/");
        }
        let mut r = "/".to_owned();
        r.append(t);
        r
    }
}

impl PathError {
    /// The text that describes the refusal.
    pub fn message(&self) -> (r: String)
        ensures
            r@ == match self {
                PathError::SecurityViolation(d) => "Security violation: path "@ + d@
                    + " is outside base root"@,
                PathError::PathAmbiguity(a, b) => "Path ambiguity: both "@ + a@ + " and "@ + b@
                    + " exist"@,
                PathError::InvalidPath(d) => "Invalid path: "@ + d@,
            },
    {
        match self {
            PathError::SecurityViolation(d) => {
                let mut r = "Security violation: path ".to_owned();
                r.append(d.as_str());
                r.append(" is outside base root");
                r
            },
            PathError::PathAmbiguity(a, b) => {
                let mut r = "Path ambiguity: both ".to_owned();
                r.append(a.as_str());
                r.append(" and ");
                r.append(b.as_str());
                r.append(" exist");
                r
            },
            PathError::InvalidPath(d) => {
                let mut r = "Invalid path: ".to_owned();
                r.append(d.as_str());
                r
            },
        }
    }
}

impl PathSanitizer {
    /// A sanitizer for the collection rooted at `globus_collection_path`.
    pub fn new(globus_collection_path: &str) -> (r: PathSanitizer)
        ensures
            r.root() == globus_collection_path@,
    {
        PathSanitizer { globus_collection_path: globus_collection_path.to_owned() }
    }

    /// The collection root as characters.
    pub closed spec fn root(&self) -> Seq<char> {
        self.globus_collection_path@
    }

    /// The collection root.
    pub fn globus_collection_path(&self) -> (r: &str)
        ensures
            r@ == self.root(),
    {
        self.globus_collection_path.as_str()
    }

    /// Maps a request path onto the collection: trailing slashes are
    /// dropped; a path already under the collection root is kept, any other
    /// is placed under the root. Empty paths are refused.
    pub fn sanitize_path(&self, path: &str) -> (r: Result<SanitizedPath, PathError>)
        ensures
            match sanitized_local_path(self.root(), path@) {
                Some(p) => r matches Ok(sp) && sp.local_path@ == p && !sp.is_ambiguous,
                None => r matches Err(PathError::InvalidPath(d)) && d@ == "Empty path"@,
            },
    {
        let t = trim_slashes(path);
        if t.unicode_len() == 0 {
            return Err(PathError::InvalidPath("Empty path".to_owned()));
        }
        let globus = self.globus_collection_path.as_str();
        if str_starts_with(t, globus) {
            match self.handle_ambiguous_path(t, globus) {
                AmbiguityCheck::Resolved(sp) => Ok(sp),
                AmbiguityCheck::Probe { local_path_1, local_path_2 } => {
                    proof {
                        assert(false);
                    }
                    Ok(SanitizedPath { local_path: local_path_1, is_ambiguous: false })
                },
            }
        } else {
            self.create_relative_path(t)
        }
    }

    /// Returns whether both strings are at least `length` bytes long and
    /// agree on their first `length` characters.
    pub fn prefixes_equal(&self, str1: &str, str2: &str, length: usize) -> (r: bool)
        ensures
            r == (byte_len(str1@) >= length && byte_len(str2@) >= length && str1@.take(
                if length <= str1@.len() {
                    length as int
                } else {
                    str1@.len() as int
                },
            ) == str2@.take(
                if length <= str2@.len() {
                    length as int
                } else {
                    str2@.len() as int
                },
            )),
    {
        if str1.as_bytes().len() < length || str2.as_bytes().len() < length {
            return false;
        }
        let n1 = str1.unicode_len();
        let n2 = str2.unicode_len();
        let k1 = if length <= n1 {
            length
        } else {
            n1
        };
        let k2 = if length <= n2 {
            length
        } else {
            n2
        };
        if k1 != k2 {
            assert(str1@.take(k1 as int).len() != str2@.take(k2 as int).len());
            return false;
        }
        let mut i: usize = 0;
        while i < k1
            invariant
                k1 == k2,
                k1 as int == (if length <= str1@.len() {
                    length as int
                } else {
                    str1@.len() as int
                }),
                k2 as int == (if length <= str2@.len() {
                    length as int
                } else {
                    str2@.len() as int
                }),
                byte_len(str1@) >= length,
                byte_len(str2@) >= length,
                k1 <= str1@.len(),
                k2 <= str2@.len(),
                i <= k1,
                forall|j: int| 0 <= j < i ==> str1@[j] == str2@[j],
            decreases k1 - i,
        {
            if str1.get_char(i) != str2.get_char(i) {
                assert(str1@.take(k1 as int)[i as int] != str2@.take(k2 as int)[i as int]);
                assert(str1@.take(k1 as int) != str2@.take(k2 as int));
                assert(k1 as int == (if length <= str1@.len() {
                    length as int
                } else {
                    str1@.len() as int
                }));
                return false;
            }
            i = i + 1;
        }
        assert(str1@.take(k1 as int) =~= str2@.take(k2 as int));
        true
    }

    /// The ambiguity check of a path: a path that already starts with the
    /// collection root is taken as it is; any other could be meant under
    /// the root or as an absolute path, and both candidates are returned
    /// for the file system to decide.
    pub fn handle_ambiguous_path(&self, sanitized_path: &str, globus_path: &str) -> (r:
        AmbiguityCheck)
        ensures
            has_prefix(sanitized_path@, globus_path@) ==> (r matches AmbiguityCheck::Resolved(sp)
                && sp.local_path@ == sanitized_path@ && !sp.is_ambiguous),
            !has_prefix(sanitized_path@, globus_path@) ==> (r matches AmbiguityCheck::Probe {
                local_path_1,
                local_path_2,
            } && local_path_1@ == join_under(globus_path@, sanitized_path@) && local_path_2@
                == as_absolute(sanitized_path@)),
    {
        if str_starts_with(sanitized_path, globus_path) {
            return AmbiguityCheck::Resolved(
                SanitizedPath { local_path: sanitized_path.to_owned(), is_ambiguous: false },
            );
        }
        AmbiguityCheck::Probe {
            local_path_1: join_under_exec(globus_path, sanitized_path),
            local_path_2: as_absolute_exec(sanitized_path),
        }
    }

    /// Settles an ambiguous path once it is known which candidates exist:
    /// two distinct existing candidates are refused; otherwise the existing
    /// one is taken, or the shorter when both or neither exist.
    pub fn resolve_ambiguous_path(
        &self,
        local_path_1: String,
        local_path_2: String,
        exists1: bool,
        exists2: bool,
    ) -> (r: Result<SanitizedPath, PathError>)
        ensures
            exists1 && exists2 && local_path_1@ != local_path_2@ ==> (r matches Err(
                PathError::PathAmbiguity(a, b),
            ) && a@ == local_path_1@ && b@ == local_path_2@),
            !(exists1 && exists2 && local_path_1@ != local_path_2@) ==> (r matches Ok(sp)
                && sp.local_path@ == resolved_candidate(
                local_path_1@,
                local_path_2@,
                exists1,
                exists2,
            ) && !sp.is_ambiguous),
            exists1 && !exists2 ==> (r matches Ok(sp) && sp.local_path@ == local_path_1@),
            exists2 && !exists1 ==> (r matches Ok(sp) && sp.local_path@ == local_path_2@),
    {
        let same = local_path_1 == local_path_2;
        if exists1 && exists2 && !same {
            return Err(PathError::PathAmbiguity(local_path_1, local_path_2));
        }
        let first_shorter = local_path_1.as_str().as_bytes().len() <= local_path_2.as_str().as_bytes().len();
        let final_path = if exists1 && !exists2 {
            local_path_1
        } else if exists2 && !exists1 {
            local_path_2
        } else if first_shorter {
            local_path_1
        } else {
            local_path_2
        };
        Ok(SanitizedPath { local_path: final_path, is_ambiguous: false })
    }

    /// Places a path that is not under the collection root beneath it.
    pub fn create_relative_path(&self, sanitized_path: &str) -> (r: Result<SanitizedPath, PathError>)
        ensures
            r matches Ok(sp) && sp.local_path@ == join_under(self.root(), sanitized_path@)
                && !sp.is_ambiguous,
    {
        let local_path = join_under_exec(self.globus_collection_path.as_str(), sanitized_path);
        Ok(SanitizedPath { local_path, is_ambiguous: false })
    }

    /// Accepts a path that lies within the collection root, compared at
    /// component boundaries (the root itself, or the root followed by `/`),
    /// and holds neither `..` nor `//`.
    pub fn validate_path_security(&self, path: &str) -> (r: Result<(), PathError>)
        ensures
            !within_base(path@, self.root()) ==> (r matches Err(PathError::SecurityViolation(d))
                && d@ == outside_message(path@, self.root())),
            within_base(path@, self.root()) && (contains_seq(path@, ".."@) || contains_seq(
                path@,
                "//"@,
            )) ==> (r matches Err(PathError::SecurityViolation(d)) && d@ == dangerous_message(
                path@,
            )),
            within_base(path@, self.root()) && !contains_seq(path@, ".."@) && !contains_seq(
                path@,
                "//"@,
            ) ==> r is Ok,
    {
        let base = self.globus_collection_path.as_str();
        if !path_within(path, base) {
            let mut d = "Path '".to_owned();
            d.append(path);
            d.append("' is not within base path '");
            d.append(base);
            d.append("'");
            return Err(PathError::SecurityViolation(d));
        }
        if str_contains(path, "..") || str_contains(path, "//") {
            let mut d = "Path '".to_owned();
            d.append(path);
            d.append("' contains dangerous patterns");
            return Err(PathError::SecurityViolation(d));
        }
        Ok(())
    }
}

/// The root as a directory prefix: ending with exactly the `/` it has, or
/// with one added.
pub open spec fn dir_form(g: Seq<char>) -> Seq<char> {
    if ends_with_char(g, '/') {
        g
    } else {
        g.push('/')
    }
}

/// `p` lies within the root `g`, compared at component boundaries: it is
/// the root, the root without its trailing `/`, or starts with the root
/// followed by `/`.
pub open spec fn within_base(p: Seq<char>, g: Seq<char>) -> bool {
    p == g || has_prefix(p, dir_form(g)) || (ends_with_char(g, '/') && p.push('/') == g)
}

/// Whether `path` lies within `base`, as `within_base` says.
fn path_within(path: &str, base: &str) -> (r: bool)
    ensures
        r == within_base(path@, base@),
{
    let pl = path.unicode_len();
    let bl = base.unicode_len();
    if str_ends_with_char(base, '/') {
        let under = str_starts_with(path, base);
        let parent = bl >= 1 && bl - 1 == pl && str_starts_with(base, path);
        proof {
            if parent {
                assert(path@.push('/') =~= base@);
            }
            if path@.push('/') == base@ {
                assert(base@.subrange(0, path@.len() as int) =~= path@);
            }
            if path@ == base@ {
                assert(path@.subrange(0, base@.len() as int) =~= base@);
            }
        }
        under || parent
    } else {
        let same = pl == bl && str_starts_with(path, base);
        proof {
            if same {
                assert(path@ =~= base@);
            }
            if path@ == base@ {
                assert(path@.subrange(0, base@.len() as int) =~= base@);
            }
        }
        if same {
            return true;
        }
        let mut dir = base.to_owned();
        proof {
            reveal_strlit("/");
        }
        dir.append("/");
        assert(dir@ =~= base@.push('/'));
        str_starts_with(path, dir.as_str())
    }
}

/// Every path the sanitizer produces lies textually under the collection
/// root.
pub proof fn lemma_sanitized_under_root(g: Seq<char>, path: Seq<char>)
    ensures
        sanitized_local_path(g, path) matches Some(p) ==> has_prefix(p, g),
{
    let t = trim_trailing_slashes(path);
    if t.len() > 0 && !has_prefix(t, g) {
        let p = join_under(g, t);
        assert(p.subrange(0, g.len() as int) =~= g);
    }
}

/// Removing trailing slashes a second time changes nothing.
pub proof fn lemma_trim_idempotent(s: Seq<char>)
    ensures
        trim_trailing_slashes(trim_trailing_slashes(s)) == trim_trailing_slashes(s),
    decreases s.len(),
{
    if s.len() > 1 && s.last() == '/' {
        lemma_trim_idempotent(s.drop_last());
    }
}

/// A trimmed path is empty only when the request path was, and otherwise
/// ends in a slash only when it is the single character `/`.
pub proof fn lemma_trim_shape(s: Seq<char>)
    ensures
        trim_trailing_slashes(s).len() == 0 <==> s.len() == 0,
        ends_with_char(trim_trailing_slashes(s), '/') ==> trim_trailing_slashes(s) == seq!['/'],
        has_prefix(s, trim_trailing_slashes(s)),
    decreases s.len(),
{
    let t = trim_trailing_slashes(s);
    if s.len() > 1 && s.last() == '/' {
        lemma_trim_shape(s.drop_last());
        let u = s.drop_last();
        assert(s.subrange(0, t.len() as int) =~= u.subrange(0, t.len() as int));
    } else {
        assert(s.subrange(0, s.len() as int) =~= s);
        if ends_with_char(s, '/') {
            assert(s =~= seq!['/']);
        }
    }
}

} // verus!
