use vstd::prelude::*;
use vstd::string::*;

use crate::error::ReadError;

verus! {

/// The ghost shape of a [`ResourceId`]: an optional package namespace, the
/// virtual path split into its segments, and whether this is the well-known
/// standard-input identifier.
pub struct IdView {
    pub namespace: Option<Seq<char>>,
    pub vpath: Seq<Seq<char>>,
    pub stdin: bool,
}

/// An immutable logical key naming a document resource: an optional package
/// namespace and a virtual path, rooted within the project.
///
/// Identifiers are pure values: equality is structural, they are never mutated
/// after construction, and they can be freely duplicated and used as table
/// keys. A separate flag marks the well-known identifier for standard input,
/// so that no on-disk virtual path can collide with it.
#[derive(Debug)]
pub struct ResourceId {
    namespace: Option<String>,
    vpath: Vec<String>,
    stdin: bool,
}

impl View for ResourceId {
    type V = IdView;

    closed spec fn view(&self) -> IdView {
        IdView {
            namespace: match self.namespace {
                Some(n) => Some(n@),
                None => None,
            },
            vpath: self.vpath.deep_view(),
            stdin: self.stdin,
        }
    }
}

/// The view of the well-known identifier denoting standard input.
pub open spec fn stdin_id_view() -> IdView {
    IdView { namespace: None, vpath: seq!["<stdin>"@], stdin: true }
}

impl ResourceId {
    /// Creates the identifier for a project file: no namespace unless the
    /// resource lives in a package, and the virtual path given segment by
    /// segment.
    pub fn new(namespace: Option<String>, vpath: Vec<String>) -> (r: ResourceId)
        ensures
            r@.namespace == (match namespace {
                Some(n) => Some(n@),
                None => None::<Seq<char>>,
            }),
            r@.vpath == vpath.deep_view(),
            !r@.stdin,
    {
        ResourceId { namespace, vpath, stdin: false }
    }

    /// Creates the well-known identifier denoting standard input.
    pub fn stdin() -> (r: ResourceId)
        ensures
            r@ == stdin_id_view(),
    {
        let mut vpath: Vec<String> = Vec::new();
        vpath.push("<stdin>".to_owned());
        let r = ResourceId { namespace: None, vpath, stdin: true };
        proof {
            assert(r@.vpath =~= stdin_id_view().vpath);
        }
        r
    }

    /// Whether this is the well-known standard-input identifier.
    pub fn is_stdin(&self) -> (r: bool)
        ensures
            r == self@.stdin,
    {
        self.stdin
    }

    /// Structural equality of identifiers.
    pub fn eq_id(&self, other: &ResourceId) -> (r: bool)
        ensures
            r == (self@ == other@),
    {
        if self.stdin != other.stdin {
            return false;
        }
        let ns_eq: bool = match (&self.namespace, &other.namespace) {
            (Some(a), Some(b)) => *a == *b,
            (None, None) => true,
            _ => false,
        };
        if !ns_eq {
            return false;
        }
        if self.vpath.len() != other.vpath.len() {
            proof {
                assert(self@.vpath.len() != other@.vpath.len());
            }
            return false;
        }
        let n: usize = self.vpath.len();
        let mut i: usize = 0;
        while i < n
            invariant
                0 <= i <= n,
                n == self.vpath.len(),
                n == other.vpath.len(),
                forall|j: int| 0 <= j < i ==> self@.vpath[j] == other@.vpath[j],
            decreases n - i,
        {
            let same: bool = self.vpath[i] == other.vpath[i];
            if !same {
                proof {
                    assert(self@.vpath[i as int] != other@.vpath[i as int]);
                    assert(self@.vpath != other@.vpath);
                }
                return false;
            }
            i += 1;
        }
        proof {
            assert(self@.vpath =~= other@.vpath);
        }
        true
    }

    /// A duplicate of this identifier with the same view.
    pub fn dup(&self) -> (r: ResourceId)
        ensures
            r@ == self@,
    {
        let namespace: Option<String> = match &self.namespace {
            Some(n) => Some(n.clone()),
            None => None,
        };
        let mut vpath: Vec<String> = Vec::new();
        let n: usize = self.vpath.len();
        let mut i: usize = 0;
        while i < n
            invariant
                0 <= i <= n,
                n == self.vpath.len(),
                vpath.len() == i,
                forall|j: int| 0 <= j < i ==> vpath@[j] == self.vpath@[j],
            decreases n - i,
        {
            vpath.push(self.vpath[i].clone());
            i += 1;
        }
        let r = ResourceId { namespace, vpath, stdin: self.stdin };
        proof {
            assert forall|j: int| 0 <= j < n implies r@.vpath[j] == self@.vpath[j] by {
                assert(r.vpath@[j] == self.vpath@[j]);
            }
            assert(r@.vpath =~= self@.vpath);
        }
        r
    }
}

/// Normalizes a virtual path lexically, segment by segment from the left:
/// empty segments and `.` are dropped, `..` pops the latest kept segment, and
/// a `..` with nothing left to pop means the path would escape the project
/// root, so the whole resolution is denied.
pub open spec fn spec_normalize(segments: Seq<Seq<char>>) -> Option<Seq<Seq<char>>>
    decreases segments.len(),
{
    if segments.len() == 0 {
        Some(Seq::empty())
    } else {
        match spec_normalize(segments.drop_last()) {
            None => None,
            Some(stack) => {
                let seg = segments.last();
                if seg.len() == 0 || seg == "."@ {
                    Some(stack)
                } else if seg == ".."@ {
                    if stack.len() == 0 {
                        None
                    } else {
                        Some(stack.drop_last())
                    }
                } else {
                    Some(stack.push(seg))
                }
            },
        }
    }
}

/// The real path below `root` for the kept segments, in order, each behind a
/// path separator.
pub open spec fn spec_joined(root: Seq<char>, parts: Seq<Seq<char>>) -> Seq<char>
    decreases parts.len(),
{
    if parts.len() == 0 {
        root
    } else {
        spec_joined(root, parts.drop_last()) + "/"@ + parts.last()
    }
}

/// A virtual path that normalizes at all normalizes the same when it grows:
/// once a prefix escapes the root, the whole path does.
proof fn lemma_normalize_prefix_none(segments: Seq<Seq<char>>, k: int)
    requires
        0 <= k <= segments.len(),
        spec_normalize(segments.take(k)) is None,
    ensures
        spec_normalize(segments) is None,
    decreases segments.len() - k,
{
    if k < segments.len() {
        assert(segments.take(k + 1).drop_last() =~= segments.take(k));
        assert(spec_normalize(segments.take(k + 1)) is None);
        lemma_normalize_prefix_none(segments, k + 1);
    } else {
        assert(segments.take(k) =~= segments);
    }
}

/// A virtual path without any `..` segment never escapes the project root.
pub proof fn lemma_normalize_without_parent(segments: Seq<Seq<char>>)
    requires
        forall|i: int| 0 <= i < segments.len() ==> segments[i] != ".."@,
    ensures
        spec_normalize(segments) is Some,
    decreases segments.len(),
{
    if segments.len() > 0 {
        lemma_normalize_without_parent(segments.drop_last());
    }
}

/// The position of the last occurrence of `c` in `s`, or -1 if there is
/// none.
pub open spec fn spec_last_at(s: Seq<char>, c: char) -> int
    decreases s.len(),
{
    if s.len() == 0 {
        -1
    } else if s.last() == c {
        s.len() - 1
    } else {
        spec_last_at(s.drop_last(), c)
    }
}

/// Pins [`spec_last_at`] down from what a backward scan observed: nothing
/// matched after `i`, and `i` is a match or before the start.
pub proof fn lemma_last_at_is(s: Seq<char>, c: char, i: int)
    requires
        -1 <= i < s.len(),
        forall|j: int| i < j < s.len() ==> s[j] != c,
        i >= 0 ==> s[i] == c,
    ensures
        spec_last_at(s, c) == i,
    decreases s.len(),
{
    if s.len() > 0 && i < s.len() - 1 {
        lemma_last_at_is(s.drop_last(), c, i);
    }
}

/// The lexical parent of a path: everything before the last separator, or
/// `.` when the path has none.
pub open spec fn spec_parent(p: Seq<char>) -> Seq<char> {
    let i = spec_last_at(p, '/');
    if i < 0 {
        "."@
    } else {
        p.take(i)
    }
}

/// The lexical parent directory of a path.
pub fn parent_dir(p: &str) -> (r: String)
    ensures
        r@ == spec_parent(p@),
{
    let v = crate::strutil::chars_of(p);
    let n: usize = v.len();
    let mut k: usize = n;
    while k > 0
        invariant
            0 <= k <= n,
            n == v.len(),
            v@ == p@,
            forall|j: int| k <= j < n ==> v@[j] != '/',
        decreases k,
    {
        if v[k - 1] == '/' {
            proof {
                lemma_last_at_is(p@, '/', k - 1);
            }
            return crate::strutil::string_of_range(&v, 0, k - 1);
        }
        k -= 1;
    }
    proof {
        lemma_last_at_is(p@, '/', -1);
    }
    ".".to_owned()
}

/// The virtual path of `input` within `root`, split into segments, when
/// `input` lies lexically inside `root`: `root` (with one trailing separator
/// dropped) must be a proper prefix of `input`, followed by a separator.
pub open spec fn spec_within_root(input: Seq<char>, root: Seq<char>) -> Option<Seq<Seq<char>>> {
    let base = if root.len() > 0 && root.last() == '/' {
        root.drop_last()
    } else {
        root
    };
    if input.len() > base.len() && input.take(base.len() as int) == base && input[base.len() as int]
        == '/' {
        Some(crate::strutil::spec_split(input.skip(base.len() + 1 as int), '/'))
    } else {
        None
    }
}

/// The identifier for `input` within the project `root`, or nothing when
/// `input` does not lie lexically inside `root`.
pub fn within_root(input: &str, root: &str) -> (r: Option<ResourceId>)
    ensures
        r is Some <==> spec_within_root(input@, root@) is Some,
        (r matches Some(id) ==> {
            &&& id@.namespace is None
            &&& id@.vpath == spec_within_root(input@, root@).unwrap()
            &&& !id@.stdin
        }),
{
    let iv = crate::strutil::chars_of(input);
    let rv = crate::strutil::chars_of(root);
    let base_len: usize = if rv.len() > 0 && rv[rv.len() - 1] == '/' {
        rv.len() - 1
    } else {
        rv.len()
    };
    proof {
        let base = if root@.len() > 0 && root@.last() == '/' {
            root@.drop_last()
        } else {
            root@
        };
        assert(base =~= rv@.take(base_len as int));
    }
    if iv.len() <= base_len {
        return None;
    }
    let mut k: usize = 0;
    while k < base_len
        invariant
            0 <= k <= base_len <= rv@.len(),
            base_len < iv@.len(),
            iv@ == input@,
            rv@ == root@,
            forall|j: int| 0 <= j < k ==> iv@[j] == rv@[j],
        decreases base_len - k,
    {
        if iv[k] != rv[k] {
            proof {
                assert(input@.take(base_len as int)[k as int] != rv@.take(base_len as int)[
                    k as int
                ]);
            }
            return None;
        }
        k += 1;
    }
    proof {
        assert(input@.take(base_len as int) =~= rv@.take(base_len as int));
    }
    if iv[base_len] != '/' {
        return None;
    }
    let n: usize = iv.len();
    let mut rem: Vec<char> = Vec::new();
    let mut j: usize = base_len + 1;
    while j < n
        invariant
            base_len + 1 <= j <= n,
            n == iv.len(),
            iv@ == input@,
            rem@ == input@.subrange(base_len + 1, j as int),
        decreases n - j,
    {
        rem.push(iv[j]);
        proof {
            assert(rem@ =~= input@.subrange(base_len + 1, j + 1));
        }
        j += 1;
    }
    proof {
        assert(rem@ =~= input@.skip(base_len + 1));
    }
    let segs = crate::strutil::split_chars(&rem, '/');
    Some(ResourceId::new(None, segs))
}

/// Resolves the identifier's virtual path to a real path below `root`.
///
/// The check is purely lexical on the virtual path: any resolution that would
/// escape `root` (via `..` segments) is denied. It does not protect against
/// symlink-based escapes.
pub fn resolve(root: &str, id: &ResourceId) -> (r: Result<String, ReadError>)
    ensures
        r is Ok <==> spec_normalize(id@.vpath) is Some,
        (r matches Ok(p) ==> p@ == spec_joined(root@, spec_normalize(id@.vpath).unwrap())),
        (r matches Err(e) ==> e == ReadError::AccessDenied),
{
    let dot: String = ".".to_owned();
    let dotdot: String = "..".to_owned();
    let mut stack: Vec<String> = Vec::new();
    let n: usize = id.vpath.len();
    let mut i: usize = 0;
    proof {
        assert(id@.vpath.take(0) =~= Seq::<Seq<char>>::empty());
        assert(stack.deep_view() =~= Seq::<Seq<char>>::empty());
    }
    while i < n
        invariant
            0 <= i <= n,
            n == id.vpath.len(),
            dot@ == "."@,
            dotdot@ == ".."@,
            spec_normalize(id@.vpath.take(i as int)) == Some(stack.deep_view()),
        decreases n - i,
    {
        proof {
            assert(id@.vpath.take(i + 1).drop_last() =~= id@.vpath.take(i as int));
            assert(id@.vpath.take(i + 1).last() == id@.vpath[i as int]);
        }
        let seg = &id.vpath[i];
        let is_dot: bool = *seg == dot;
        let is_dotdot: bool = *seg == dotdot;
        if seg.as_str().is_empty() || is_dot {
            // dropped
        } else if is_dotdot {
            if stack.len() == 0 {
                proof {
                    assert(stack.deep_view().len() == 0);
                    assert(spec_normalize(id@.vpath.take(i + 1)) is None);
                    lemma_normalize_prefix_none(id@.vpath, i + 1);
                }
                return Err(ReadError::AccessDenied);
            }
            let ghost before = stack.deep_view();
            let _ = stack.pop();
            proof {
                assert(stack.deep_view() =~= before.drop_last());
            }
        } else {
            let ghost before = stack.deep_view();
            stack.push(seg.clone());
            proof {
                assert(stack.deep_view() =~= before.push(id@.vpath[i as int]));
            }
        }
        i += 1;
    }
    proof {
        assert(id@.vpath.take(n as int) =~= id@.vpath);
    }
    let ghost parts = stack.deep_view();
    let mut out: String = root.to_owned();
    let m: usize = stack.len();
    let mut j: usize = 0;
    while j < m
        invariant
            0 <= j <= m,
            m == stack.len(),
            parts == stack.deep_view(),
            out@ == spec_joined(root@, parts.take(j as int)),
        decreases m - j,
    {
        proof {
            assert(parts.take(j + 1).drop_last() =~= parts.take(j as int));
            assert(parts.take(j + 1).last() == parts[j as int]);
        }
        out.append("/");
        out.append(stack[j].as_str());
        j += 1;
    }
    proof {
        assert(parts.take(m as int) =~= parts);
    }
    Ok(out)
}

} // verus!
