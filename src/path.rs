//! Path safety for archive entry names, with `/` as the only separator, as
//! on Unix: a `\` is an ordinary character and no drive prefix exists. The
//! names produced here are meant for Unix file systems.
//!
//! A name is split at every `/`; empty segments and `.` segments carry no
//! meaning and are dropped, the others are its parts. A `..` part climbs one
//! level, any other part descends one.

use vstd::prelude::*;

verus! {

/// Index of the first `/` of `s` at or after `from`, or `s.len()` if none.
pub open spec fn slash_index(s: Seq<char>, from: int) -> int
    decreases s.len() - from,
{
    if from >= s.len() {
        s.len() as int
    } else if s[from] == '/' {
        from
    } else {
        slash_index(s, from + 1)
    }
}

pub open spec fn is_current(seg: Seq<char>) -> bool {
    seg.len() == 1 && seg[0] == '.'
}

pub open spec fn is_parent(seg: Seq<char>) -> bool {
    seg.len() == 2 && seg[0] == '.' && seg[1] == '.'
}

/// A segment that names nothing: empty (repeated or trailing `/`) or `.`.
pub open spec fn is_skipped(seg: Seq<char>) -> bool {
    seg.len() == 0 || is_current(seg)
}

/// The parts of `s` from the segment that starts at `start` on.
pub open spec fn parts_from(s: Seq<char>, start: int) -> Seq<Seq<char>>
    decreases s.len() - start,
    when 0 <= start
{
    if start >= s.len() {
        seq![]
    } else {
        let k = slash_index(s, start);
        let seg = s.subrange(start, k);
        let here = if is_skipped(seg) {
            Seq::<Seq<char>>::empty()
        } else {
            seq![seg]
        };
        if start <= k < s.len() {
            here + parts_from(s, k + 1)
        } else {
            here
        }
    }
}

/// The meaningful parts of a path, in order.
pub open spec fn parts(s: Seq<char>) -> Seq<Seq<char>> {
    parts_from(s, 0)
}

/// Depth reached after walking the parts `ps` from the root of the destination.
pub open spec fn depth(ps: Seq<Seq<char>>) -> int
    decreases ps.len(),
{
    if ps.len() == 0 {
        0
    } else {
        depth(ps.drop_last()) + if is_parent(ps.last()) {
            -1int
        } else {
            1int
        }
    }
}

/// Some prefix of the parts climbs above the destination root.
pub open spec fn escapes(ps: Seq<Seq<char>>) -> bool {
    exists|n: int| 0 < n <= ps.len() && #[trigger] depth(ps.subrange(0, n)) < 0
}

pub open spec fn has_nul(s: Seq<char>) -> bool {
    exists|i: int| 0 <= i < s.len() && s[i] == '\0'
}

pub open spec fn is_rooted(s: Seq<char>) -> bool {
    s.len() > 0 && s[0] == '/'
}

/// The name stays inside the directory it is resolved against.
pub open spec fn is_enclosed(s: Seq<char>) -> bool {
    !has_nul(s) && !is_rooted(s) && !escapes(parts(s))
}

/// The last part of a path, unless there is none or it is `..`.
pub open spec fn last_name(s: Seq<char>) -> Option<Seq<char>> {
    let ps = parts(s);
    if ps.len() > 0 && !is_parent(ps.last()) {
        Some(ps.last())
    } else {
        None
    }
}

/// A name that can only denote an entry directly inside a directory.
pub open spec fn is_plain_file_name(n: Seq<char>) -> bool {
    &&& n.len() > 0
    &&& !is_current(n)
    &&& !is_parent(n)
    &&& !has_nul(n)
    &&& forall|i: int| 0 <= i < n.len() ==> n[i] != '/'
}

/// The safe on-disk name of an entry: its last part, for an enclosed name.
pub open spec fn sanitized(s: Seq<char>) -> Option<Seq<char>> {
    if is_enclosed(s) {
        last_name(s)
    } else {
        None
    }
}

proof fn lemma_slash_index_bounds(s: Seq<char>, from: int)
    requires
        0 <= from <= s.len(),
    ensures
        from <= slash_index(s, from) <= s.len(),
        slash_index(s, from) < s.len() ==> s[slash_index(s, from)] == '/',
        forall|j: int| from <= j < slash_index(s, from) ==> s[j] != '/',
    decreases s.len() - from,
{
    if from < s.len() && s[from] != '/' {
        lemma_slash_index_bounds(s, from + 1);
    }
}

/// Every part of a path is a plain file name unless it is `..`.
proof fn lemma_parts_from_plain(s: Seq<char>, start: int)
    requires
        0 <= start,
        !has_nul(s),
    ensures
        forall|i: int|
            0 <= i < parts_from(s, start).len() ==> {
                let p = #[trigger] parts_from(s, start)[i];
                is_parent(p) || is_plain_file_name(p)
            },
    decreases s.len() - start,
{
    if start < s.len() {
        let k = slash_index(s, start);
        lemma_slash_index_bounds(s, start);
        if k + 1 <= s.len() {
            lemma_parts_from_plain(s, k + 1);
        }
        let seg = s.subrange(start, k);
        assert forall|j: int| 0 <= j < seg.len() implies seg[j] != '/' && seg[j] != '\0' by {
            assert(seg[j] == s[start + j]);
        }
        let here = if is_skipped(seg) {
            Seq::<Seq<char>>::empty()
        } else {
            seq![seg]
        };
        let rest = parts_from(s, k + 1);
        assert(parts_from(s, start) =~= here + rest);
        assert forall|i: int| 0 <= i < parts_from(s, start).len() implies {
            let p = #[trigger] parts_from(s, start)[i];
            is_parent(p) || is_plain_file_name(p)
        } by {
            if i >= here.len() {
                assert(parts_from(s, start)[i] == rest[i - here.len()]);
            }
        }
    }
}

proof fn lemma_depth_prefix(ps: Seq<Seq<char>>, x: Seq<char>)
    ensures
        depth(ps.push(x)) == depth(ps) + if is_parent(x) {
            -1int
        } else {
            1int
        },
{
    assert(ps.push(x).drop_last() =~= ps);
}

/// Depth never exceeds the number of parts.
proof fn lemma_depth_bound(ps: Seq<Seq<char>>)
    ensures
        depth(ps) <= ps.len(),
    decreases ps.len(),
{
    if ps.len() > 0 {
        lemma_depth_bound(ps.drop_last());
    }
}

/// What a walk over the parts of a path found.
struct PartScan {
    enclosed_parts: bool,
    last: Option<(usize, usize)>,
}

/// Walks the parts of `s`: whether no prefix of them escapes, and where the
/// last part lies.
fn scan_parts(s: &str) -> (r: PartScan)
    ensures
        r.enclosed_parts == !escapes(parts(s@)),
        r.enclosed_parts ==> match r.last {
            None => parts(s@).len() == 0,
            Some((a, b)) => {
                &&& parts(s@).len() > 0
                &&& a <= b <= s@.len()
                &&& s@.subrange(a as int, b as int) == parts(s@).last()
            },
        },
{
    let n = s.unicode_len();
    let mut start: usize = 0;
    let mut d: usize = 0;
    let mut last: Option<(usize, usize)> = None;
    let ghost mut done: Seq<Seq<char>> = seq![];
    loop
        invariant
            n == s@.len(),
            start <= n,
            parts(s@) == done + parts_from(s@, start as int),
            d as int == depth(done),
            done.len() <= start,
            forall|m: int| 0 < m <= done.len() ==> #[trigger] depth(done.subrange(0, m)) >= 0,
            match last {
                None => done.len() == 0,
                Some((a, b)) => {
                    &&& done.len() > 0
                    &&& a <= b <= n
                    &&& s@.subrange(a as int, b as int) == done.last()
                },
            },
        decreases n - start,
    {
        let mut k: usize = start;
        while k < n && s.get_char(k) != '/'
            invariant
                start <= k <= n,
                n == s@.len(),
                slash_index(s@, start as int) == slash_index(s@, k as int),
            decreases n - k,
        {
            k = k + 1;
        }
        proof {
            lemma_slash_index_bounds(s@, start as int);
        }
        assert(slash_index(s@, start as int) == k);
        let ghost seg = s@.subrange(start as int, k as int);
        let len = k - start;
        let current = len == 1 && s.get_char(start) == '.';
        let parent = len == 2 && s.get_char(start) == '.' && s.get_char(start + 1) == '.';
        assert(current == is_current(seg));
        assert(parent == is_parent(seg));
        let ghost here = if is_skipped(seg) {
            Seq::<Seq<char>>::empty()
        } else {
            seq![seg]
        };
        proof {
            if start < n {
                assert(parts_from(s@, start as int) =~= here + parts_from(s@, k + 1));
            } else {
                assert(here =~= Seq::<Seq<char>>::empty());
            }
        }
        if len != 0 && !current {
            let ghost old_done = done;
            proof {
                lemma_depth_bound(done);
                lemma_depth_prefix(done, seg);
                done = done.push(seg);
                assert forall|m: int| 0 < m <= done.len() implies #[trigger] depth(
                    done.subrange(0, m),
                ) >= 0 || m == done.len() by {
                    if m < done.len() {
                        assert(done.subrange(0, m) =~= old_done.subrange(0, m));
                    }
                }
                assert(done.subrange(0, done.len() as int) =~= done);
            }
            if parent {
                if d == 0 {
                    proof {
                        let full = parts(s@);
                        let m = done.len() as int;
                        if start < n {
                            assert(full =~= done + parts_from(s@, k + 1));
                        } else {
                            assert(full =~= done);
                        }
                        assert(full.subrange(0, m) =~= done);
                        assert(depth(full.subrange(0, m)) < 0);
                    }
                    return PartScan { enclosed_parts: false, last: None };
                }
                d = d - 1;
            } else {
                d = d + 1;
            }
            last = Some((start, k));
        }
        if k == n {
            proof {
                if start < n {
                    assert(parts_from(s@, k + 1) =~= Seq::<Seq<char>>::empty());
                }
                assert(parts(s@) =~= done);
            }
            return PartScan { enclosed_parts: true, last };
        }
        proof {
            assert(parts(s@) =~= done + parts_from(s@, k + 1));
        }
        start = k + 1;
    }
}

pub open spec fn view_opt(o: Option<String>) -> Option<Seq<char>> {
    match o {
        Some(x) => Some(x@),
        None => None,
    }
}

fn contains_nul(s: &str) -> (r: bool)
    ensures
        r == has_nul(s@),
{
    let n = s.unicode_len();
    let mut i: usize = 0;
    while i < n
        invariant
            n == s@.len(),
            i <= n,
            forall|j: int| 0 <= j < i ==> s@[j] != '\0',
        decreases n - i,
    {
        if s.get_char(i) == '\0' {
            return true;
        }
        i = i + 1;
    }
    false
}

fn starts_at_root(s: &str) -> (r: bool)
    ensures
        r == is_rooted(s@),
{
    s.unicode_len() > 0 && s.get_char(0) == '/'
}

/// Returns the name itself when it is safe to resolve against a directory:
/// it holds no NUL character, is not absolute, and no `..` climbs above the
/// directory it starts from.
pub fn enclosed_name(file_name: &str) -> (r: Option<&str>)
    ensures
        r is Some <==> is_enclosed(file_name@),
        r matches Some(p) ==> p@ == file_name@,
{
    if contains_nul(file_name) || starts_at_root(file_name) {
        return None;
    }
    if scan_parts(file_name).enclosed_parts {
        Some(file_name)
    } else {
        None
    }
}

/// The name under which an entry is written inside its destination
/// directory: the last part of an enclosed name. Names that are not
/// enclosed, and enclosed names without a last part other than `..`, give
/// `None`.
pub fn sanitize(name: &str) -> (r: Option<String>)
    ensures
        view_opt(r) == sanitized(name@),
        r matches Some(n) ==> is_plain_file_name(n@),
{
    proof {
        lemma_sanitized_is_plain(name@);
    }
    if enclosed_name(name).is_none() {
        return None;
    }
    let scan = scan_parts(name);
    match scan.last {
        None => None,
        Some((a, b)) => {
            let part = name.substring_char(a, b);
            let parent = b - a == 2 && part.get_char(0) == '.' && part.get_char(1) == '.';
            if parent {
                None
            } else {
                Some(part.to_owned())
            }
        },
    }
}

/// A sanitized name always denotes an entry directly inside the destination
/// directory: it is non-empty, holds no `/`, and is neither `.` nor `..`.
pub proof fn lemma_sanitized_is_plain(s: Seq<char>)
    ensures
        sanitized(s) matches Some(n) ==> is_plain_file_name(n),
{
    if !has_nul(s) {
        lemma_parts_from_plain(s, 0);
    }
    let ps = parts(s);
    if ps.len() > 0 {
        assert(ps[ps.len() - 1] == ps.last());
    }
}

/// A name with a NUL character, an absolute name, and a name with a `..` that
/// climbs above its start are rejected; any other name whose last part is
/// neither missing nor `..` is accepted as that last part.
pub proof fn lemma_sanitize_rules(s: Seq<char>)
    ensures
        has_nul(s) || is_rooted(s) || escapes(parts(s)) ==> sanitized(s) is None,
        !has_nul(s) && !is_rooted(s) && !escapes(parts(s)) && parts(s).len() > 0 && !is_parent(
            parts(s).last(),
        ) ==> sanitized(s) == Some(parts(s).last()),
{
}

proof fn lemma_no_slash_index(s: Seq<char>, from: int)
    requires
        0 <= from <= s.len(),
        forall|i: int| 0 <= i < s.len() ==> s[i] != '/',
    ensures
        slash_index(s, from) == s.len(),
    decreases s.len() - from,
{
    if from < s.len() {
        lemma_no_slash_index(s, from + 1);
    }
}

/// A name that is already a plain file name is kept unchanged.
pub proof fn lemma_plain_name_is_kept(s: Seq<char>)
    requires
        is_plain_file_name(s),
    ensures
        sanitized(s) == Some(s),
{
    lemma_no_slash_index(s, 0);
    assert(s.subrange(0, s.len() as int) =~= s);
    let ps = parts(s);
    assert(ps =~= seq![s]);
    assert(ps.subrange(0, 1) =~= ps);
    assert(ps.drop_last() =~= Seq::<Seq<char>>::empty());
    assert(depth(Seq::<Seq<char>>::empty()) == 0);
    assert(ps.last() == s);
    assert(depth(ps) == 1);
    assert(!escapes(ps));
}

} // verus!
