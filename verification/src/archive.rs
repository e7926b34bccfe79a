//! Archive-layout normalization.
//!
//! An archive is first extracted into a private staging directory; entries
//! whose paths cannot be safely resolved under that root are skipped (the
//! path-traversal guard).  The staging root's immediate children are then
//! inspected: exactly one subdirectory and no plain file means the archive
//! wrapped everything in one redundant directory, which is unwrapped —
//! that directory's children move up into the final target.  Any other
//! shape is kept verbatim.  The title that names the final directory is
//! sanitized first: path separators become underscores, so a title is
//! never read as a path.

use vstd::prelude::*;

verus! {

/// One archive entry as listed by the decoder: its internal path (with
/// `/` separators; directory entries may end in one) and its kind.
pub struct ZipEntryMeta {
    pub name: String,
    pub is_dir: bool,
}

/// One immediate child of the staging root.
pub struct DirChild {
    pub name: String,
    pub is_dir: bool,
}

/// A separator that must never survive in a directory name derived from a
/// title.
pub open spec fn is_path_sep(c: char) -> bool {
    c == '/' || c == '\\'
}

/// The sanitized form of a title: the same characters, with every path
/// separator replaced by an underscore.
pub open spec fn sanitized(s: Seq<char>) -> Seq<char> {
    Seq::new(
        s.len(),
        |i: int|
            if is_path_sep(s[i]) {
                '_'
            } else {
                s[i]
            },
    )
}

/// Replaces every path separator in a title with an underscore, so the
/// title can name the extraction directory without being read as a path.
pub fn sanitize_title(s: &str) -> (r: String)
    ensures
        r@ == sanitized(s@),
{
    let n = s.unicode_len();
    let mut out = String::new();
    let mut i: usize = 0;
    while i < n
        invariant
            n == s@.len(),
            i <= n,
            out@.len() == i,
            forall|j: int|
                0 <= j < i ==> out@[j] == (if is_path_sep(s@[j]) {
                    '_'
                } else {
                    s@[j]
                }),
        decreases n - i,
    {
        let c = s.get_char(i);
        if c == '/' || c == '\\' {
            out.append("_");
            proof {
                reveal_strlit("_");
            }
        } else {
            let piece = s.substring_char(i, i + 1);
            out.append(piece);
        }
        i = i + 1;
    }
    proof {
        assert(out@ =~= sanitized(s@));
    }
    out
}

/// A component starts at `i`: at the very beginning, or right after a
/// separator.
pub open spec fn component_start(s: Seq<char>, i: int) -> bool {
    0 <= i < s.len() && (i == 0 || s[i - 1] == '/')
}

/// The component starting at `i` is `.` or `..`.
pub open spec fn dot_component_at(s: Seq<char>, i: int) -> bool {
    s[i] == '.' && (i + 1 == s.len() || s[i + 1] == '/' || (s[i + 1] == '.' && (i + 2 == s.len()
        || s[i + 2] == '/')))
}

/// An entry path that resolves safely under the staging root: nonempty and
/// relative, single forward separators only, no `.` or `..` component, and
/// a trailing separator only on a directory entry.
pub open spec fn safe_entry_name(s: Seq<char>, is_dir: bool) -> bool {
    &&& s.len() > 0
    &&& s[0] != '/'
    &&& (s[s.len() - 1] == '/' ==> is_dir)
    &&& forall|i: int| 0 <= i < s.len() ==> s[i] != '\\'
    &&& forall|i: int| 0 <= i < s.len() - 1 ==> !(s[i] == '/' && #[trigger] s[i + 1] == '/')
    &&& forall|i: int| component_start(s, i) ==> !dot_component_at(s, i)
}

/// The path-traversal guard: is this entry safe to create under the
/// staging root?  Unsafe entries are skipped, not fatal.
pub fn check_entry_name(name: &str, is_dir: bool) -> (r: bool)
    ensures
        r == safe_entry_name(name@, is_dir),
{
    let n = name.unicode_len();
    if n == 0 {
        return false;
    }
    if name.get_char(0) == '/' {
        return false;
    }
    if name.get_char(n - 1) == '/' && !is_dir {
        return false;
    }
    let mut i: usize = 0;
    while i < n
        invariant
            n == name@.len(),
            0 < n,
            i <= n,
            forall|j: int| 0 <= j < i ==> name@[j] != '\\',
            forall|j: int|
                0 <= j < i && j < n - 1 ==> !(name@[j] == '/' && #[trigger] name@[j + 1] == '/'),
            forall|j: int| 0 <= j < i && component_start(name@, j) ==> !dot_component_at(name@, j),
        decreases n - i,
    {
        let c = name.get_char(i);
        if c == '\\' {
            return false;
        }
        if c == '/' && i + 1 < n {
            if name.get_char(i + 1) == '/' {
                return false;
            }
        }
        if c == '.' {
            let starts = i == 0 || name.get_char(i - 1) == '/';
            if starts {
                let mut bad = false;
                if i + 1 == n {
                    bad = true;
                } else {
                    let c1 = name.get_char(i + 1);
                    if c1 == '/' {
                        bad = true;
                    } else if c1 == '.' {
                        if i + 2 == n {
                            bad = true;
                        } else if name.get_char(i + 2) == '/' {
                            bad = true;
                        }
                    }
                }
                if bad {
                    proof {
                        assert(component_start(name@, i as int));
                        assert(dot_component_at(name@, i as int));
                    }
                    return false;
                }
            }
        }
        i = i + 1;
    }
    true
}

/// Index of the first separator in an entry path, or the length when the
/// path is a bare name.
pub open spec fn first_sep(s: Seq<char>) -> int
    decreases s.len(),
{
    if s.len() == 0 {
        0
    } else if s[0] == '/' {
        0
    } else {
        1 + first_sep(s.drop_first())
    }
}

/// Everything before the first separator.
pub open spec fn first_component(s: Seq<char>) -> Seq<char> {
    s.subrange(0, first_sep(s))
}

/// The entry makes its first component a directory: either the path goes
/// deeper, or the entry itself is one.
pub open spec fn dirlike(e: ZipEntryMeta) -> bool {
    first_sep(e.name@) < e.name@.len() || e.is_dir
}

/// `first_sep` is the index of the first separator: nothing before it is
/// one, and it points at one unless the path has none.
proof fn lemma_first_sep(s: Seq<char>)
    ensures
        0 <= first_sep(s) <= s.len(),
        forall|j: int| 0 <= j < first_sep(s) ==> s[j] != '/',
        first_sep(s) < s.len() ==> s[first_sep(s)] == '/',
    decreases s.len(),
{
    if s.len() > 0 && s[0] != '/' {
        lemma_first_sep(s.drop_first());
        assert forall|j: int| 0 <= j < first_sep(s) implies s[j] != '/' by {
            if j > 0 {
                assert(s.drop_first()[j - 1] != '/');
            }
        }
    }
}

/// The first path component of an entry name.
#[verifier::loop_isolation(false)]
fn first_component_exec(name: &str) -> (r: String)
    ensures
        r@ == first_component(name@),
{
    proof {
        lemma_first_sep(name@);
    }
    let n = name.unicode_len();
    let mut i: usize = 0;
    while i < n
        invariant
            n == name@.len(),
            i <= n,
            forall|j: int| 0 <= j < i ==> name@[j] != '/',
        decreases n - i,
    {
        if name.get_char(i) == '/' {
            proof {
                assert(first_sep(name@) == i as int);
            }
            return name.substring_char(0, i).to_owned();
        }
        i = i + 1;
    }
    proof {
        assert(first_sep(name@) == n as int);
        assert(name@.subrange(0, n as int) =~= name@);
    }
    name.to_owned()
}

/// Some recorded child bears this name.
pub open spec fn has_child_named(children: Seq<DirChild>, name: Seq<char>) -> bool {
    exists|c: int| 0 <= c < children.len() && #[trigger] children[c].name@ == name
}

/// Some entry's first component is this name.
pub open spec fn is_root_of_some(entries: Seq<ZipEntryMeta>, name: Seq<char>) -> bool {
    exists|j: int|
        0 <= j < entries.len() && first_component(#[trigger] entries[j].name@) == name
}

/// Some entry makes this name a directory at the staging root.
pub open spec fn root_dirlike(entries: Seq<ZipEntryMeta>, name: Seq<char>) -> bool {
    exists|j: int|
        0 <= j < entries.len() && first_component(#[trigger] entries[j].name@) == name && dirlike(
            entries[j],
        )
}

/// Is a child with this name already recorded?
fn contains_name(children: &Vec<DirChild>, name: &String) -> (r: bool)
    ensures
        r == has_child_named(children@, name@),
{
    let n = children.len();
    let mut i: usize = 0;
    while i < n
        invariant
            n == children@.len(),
            i <= n,
            forall|j: int| 0 <= j < i ==> #[trigger] children@[j].name@ != name@,
        decreases n - i,
    {
        if children[i].name.eq(name) {
            return true;
        }
        i = i + 1;
    }
    false
}

/// Does any entry make `comp` a directory at the staging root?
fn any_dirlike(entries: &Vec<ZipEntryMeta>, comp: &String) -> (r: bool)
    ensures
        r == root_dirlike(entries@, comp@),
{
    let n = entries.len();
    let mut i: usize = 0;
    while i < n
        invariant
            n == entries@.len(),
            i <= n,
            forall|j: int|
                0 <= j < i ==> !(first_component(#[trigger] entries@[j].name@) == comp@ && dirlike(
                    entries@[j],
                )),
        decreases n - i,
    {
        let e = &entries[i];
        let c = first_component_exec(e.name.as_str());
        let deep = c.as_str().unicode_len() < e.name.as_str().unicode_len();
        proof {
            lemma_first_sep(entries@[i as int].name@);
        }
        if c.eq(comp) && (deep || e.is_dir) {
            return true;
        }
        i = i + 1;
    }
    false
}

/// The staging root's immediate children, computed from the entry list:
/// one child per distinct first component, a directory exactly when some
/// entry goes deeper through it or lists it as one.
pub fn staging_children(entries: &Vec<ZipEntryMeta>) -> (r: Vec<DirChild>)
    ensures
        forall|a: int, b: int|
            0 <= a < b < r@.len() ==> #[trigger] r@[a].name@ != #[trigger] r@[b].name@,
        forall|j: int|
            0 <= j < entries@.len() ==> has_child_named(
                r@,
                first_component(#[trigger] entries@[j].name@),
            ),
        forall|c: int| 0 <= c < r@.len() ==> is_root_of_some(entries@, (#[trigger] r@[c]).name@),
        forall|c: int|
            0 <= c < r@.len() ==> (#[trigger] r@[c]).is_dir == root_dirlike(entries@, r@[c].name@),
{
    let n = entries.len();
    let mut out: Vec<DirChild> = Vec::new();
    let mut i: usize = 0;
    while i < n
        invariant
            n == entries@.len(),
            i <= n,
            forall|a: int, b: int|
                0 <= a < b < out@.len() ==> #[trigger] out@[a].name@ != #[trigger] out@[b].name@,
            forall|j: int|
                0 <= j < i ==> has_child_named(
                    out@,
                    first_component(#[trigger] entries@[j].name@),
                ),
            forall|c: int|
                0 <= c < out@.len() ==> is_root_of_some(entries@, (#[trigger] out@[c]).name@),
            forall|c: int|
                0 <= c < out@.len() ==> (#[trigger] out@[c]).is_dir == root_dirlike(
                    entries@,
                    out@[c].name@,
                ),
        decreases n - i,
    {
        let comp = first_component_exec(entries[i].name.as_str());
        if !contains_name(&out, &comp) {
            let d = any_dirlike(entries, &comp);
            let ghost before = out@;
            out.push(DirChild { name: comp, is_dir: d });
            proof {
                assert(out@.drop_last() =~= before);
                assert forall|c: int| 0 <= c < before.len() implies out@[c] == before[c] by {
                    assert(out@.drop_last()[c] == before[c]);
                }
                assert((out@[before.len() as int]).name@ == first_component(
                    entries@[i as int].name@,
                ));
                assert forall|x: Seq<char>| has_child_named(before, x) implies has_child_named(
                    out@,
                    x,
                ) by {
                    let c = choose|c: int|
                        0 <= c < before.len() && #[trigger] before[c].name@ == x;
                    assert(out@[c].name@ == x);
                }
                assert(has_child_named(out@, first_component(entries@[i as int].name@)));
            }
        } else {
            proof {
                assert(has_child_named(out@, first_component(entries@[i as int].name@)));
            }
        }
        i = i + 1;
    }
    out
}

/// How many of the children are directories.
pub open spec fn dir_count(children: Seq<DirChild>) -> int
    decreases children.len(),
{
    if children.len() == 0 {
        0
    } else {
        dir_count(children.drop_last()) + if children.last().is_dir {
            1int
        } else {
            0int
        }
    }
}

/// How many of the children are plain files.
pub open spec fn file_count(children: Seq<DirChild>) -> int
    decreases children.len(),
{
    if children.len() == 0 {
        0
    } else {
        file_count(children.drop_last()) + if children.last().is_dir {
            0int
        } else {
            1int
        }
    }
}

/// What to do with the staged content.
pub enum MovePlan {
    /// The archive wrapped everything in this single root directory: move
    /// that directory's children up into the target.
    Unwrap { root: String },
    /// Keep the staging root's layout verbatim: move every child as-is.
    Keep,
}

/// The single-root unwrap decision: exactly one subdirectory and no plain
/// file at the staging root means that directory is a redundant wrapper.
/// Anything else — several children, a lone file, or nothing at all —
/// keeps the archive's own top-level layout.
pub fn extraction_plan(children: &Vec<DirChild>) -> (r: MovePlan)
    ensures
        (dir_count(children@) == 1 && file_count(children@) == 0) <==> (r is Unwrap),
        r matches MovePlan::Unwrap { root } ==> exists|c: int|
            0 <= c < children@.len() && #[trigger] children@[c].is_dir && children@[c].name@
                == root@,
{
    let n = children.len();
    let mut dirs: usize = 0;
    let mut files: usize = 0;
    let mut last_dir: Option<usize> = None;
    let mut i: usize = 0;
    while i < n
        invariant
            n == children@.len(),
            i <= n,
            dirs + files == i,
            dirs == dir_count(children@.subrange(0, i as int)),
            files == file_count(children@.subrange(0, i as int)),
            dirs >= 1 ==> (last_dir matches Some(d) && d < i && children@[d as int].is_dir),
        decreases n - i,
    {
        proof {
            let pre1 = children@.subrange(0, i + 1);
            assert(pre1.drop_last() =~= children@.subrange(0, i as int));
            assert(pre1.last() == children@[i as int]);
        }
        if children[i].is_dir {
            dirs = dirs + 1;
            last_dir = Some(i);
        } else {
            files = files + 1;
        }
        i = i + 1;
    }
    proof {
        assert(children@.subrange(0, n as int) =~= children@);
    }
    if dirs == 1 && files == 0 {
        match last_dir {
            Some(d) => {
                let root = children[d].name.clone();
                proof {
                    assert(children@[d as int].name@ == root@);
                }
                MovePlan::Unwrap { root }
            },
            None => MovePlan::Keep,
        }
    } else {
        MovePlan::Keep
    }
}

} // verus!
