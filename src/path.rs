//! Absolute paths, held as the sequence of their normal components.

use vstd::prelude::*;
use vstd::string::StrSliceExecFns;
use vstd::string::StringExecFns;

verus! {

/// A component is a non-empty segment with no separator that is not `.`.
pub open spec fn is_component(c: Seq<char>) -> bool {
    &&& c.len() > 0
    &&& c != seq!['.']
    &&& !c.contains('/')
}

pub open spec fn all_components(cs: Seq<Seq<char>>) -> bool {
    forall|i: int| 0 <= i < cs.len() ==> is_component(#[trigger] cs[i])
}

/// A path written as text is absolute when it starts at the root.
pub open spec fn is_absolute(s: Seq<char>) -> bool {
    s.len() > 0 && s[0] == '/'
}

/// Adds the segment that a separator (or the end of the text) closes; empty
/// segments and `.` name no component.
pub open spec fn close_segment(done: Seq<Seq<char>>, cur: Seq<char>) -> Seq<Seq<char>> {
    if cur.len() == 0 || cur == seq!['.'] {
        done
    } else {
        done.push(cur)
    }
}

/// Reading `s` left to right: the components closed so far and the open segment.
pub open spec fn scan(s: Seq<char>) -> (Seq<Seq<char>>, Seq<char>)
    decreases s.len(),
{
    if s.len() == 0 {
        (seq![], seq![])
    } else {
        let (done, cur) = scan(s.drop_last());
        if s.last() == '/' {
            (close_segment(done, cur), seq![])
        } else {
            (done, cur.push(s.last()))
        }
    }
}

/// The normal components of a path written as text: repeated separators and
/// `.` segments are not components, `..` is kept as it is.
pub open spec fn components(s: Seq<char>) -> Seq<Seq<char>> {
    close_segment(scan(s).0, scan(s).1)
}

/// The path that `p` names when read from the directory `base`.
pub open spec fn absolutized(base: Seq<Seq<char>>, p: Seq<char>) -> Seq<Seq<char>> {
    if is_absolute(p) {
        components(p)
    } else {
        base + components(p)
    }
}

/// The text of the components joined under the root, without the root itself.
pub open spec fn joined(cs: Seq<Seq<char>>) -> Seq<char>
    decreases cs.len(),
{
    if cs.len() == 0 {
        seq![]
    } else {
        joined(cs.drop_last()) + seq!['/'] + cs.last()
    }
}

/// The text of an absolute path: `/` for the root, `/a/b` otherwise.
pub open spec fn rendered(cs: Seq<Seq<char>>) -> Seq<char> {
    if cs.len() == 0 {
        seq!['/']
    } else {
        joined(cs)
    }
}

/// `prefix` is an ancestor of `cs`, or `cs` itself, component by component.
pub open spec fn has_prefix(cs: Seq<Seq<char>>, prefix: Seq<Seq<char>>) -> bool {
    prefix.len() <= cs.len() && cs.subrange(0, prefix.len() as int) == prefix
}

pub open spec fn strings_view(v: Seq<String>) -> Seq<Seq<char>> {
    v.map_values(|s: String| s@)
}

proof fn lemma_scan_append_segment(s: Seq<char>, x: Seq<char>)
    requires
        !x.contains('/'),
    ensures
        scan(s + x) == (scan(s).0, scan(s).1 + x),
    decreases x.len(),
{
    if x.len() == 0 {
        assert(s + x =~= s);
        assert(scan(s).1 + x =~= scan(s).1);
    } else {
        let y = x.drop_last();
        assert(!y.contains('/')) by {
            if y.contains('/') {
                let k = choose|k: int| 0 <= k < y.len() && y[k] == '/';
                assert(x[k] == '/');
            }
        }
        lemma_scan_append_segment(s, y);
        assert((s + x).drop_last() =~= s + y);
        assert((s + x).last() == x.last());
        assert(x.last() != '/') by {
            assert(x[x.len() - 1] == x.last());
        }
        assert((scan(s).1 + y).push(x.last()) =~= scan(s).1 + x);
    }
}

proof fn lemma_scan_joined(cs: Seq<Seq<char>>)
    requires
        all_components(cs),
        cs.len() > 0,
    ensures
        scan(joined(cs)) == (cs.drop_last(), cs.last()),
    decreases cs.len(),
{
    let prev = cs.drop_last();
    let x = cs.last();
    assert(is_component(cs[cs.len() - 1]));
    let head = joined(prev) + seq!['/'];
    assert(head.drop_last() =~= joined(prev));
    assert(head.last() == '/');
    if prev.len() == 0 {
        assert(joined(prev) =~= Seq::<char>::empty());
        assert(scan(joined(prev)) == (Seq::<Seq<char>>::empty(), Seq::<char>::empty()));
        assert(prev =~= Seq::<Seq<char>>::empty());
    } else {
        assert(all_components(prev)) by {
            assert forall|i: int| 0 <= i < prev.len() implies is_component(#[trigger] prev[i]) by {
                assert(prev[i] == cs[i]);
            }
        }
        lemma_scan_joined(prev);
        assert(is_component(prev[prev.len() - 1]) && prev.last() == prev[prev.len() - 1]);
        assert(prev.drop_last().push(prev.last()) =~= prev);
        assert(scan(joined(prev)) == (prev.drop_last(), prev.last()));
    }
    assert(scan(head) == (prev, Seq::<char>::empty()));
    lemma_scan_append_segment(head, x);
    assert(joined(cs) == head + x);
    assert(Seq::<char>::empty() + x =~= x);
}

/// Reading back the text of an absolute path gives its components again.
pub proof fn lemma_components_of_rendered(cs: Seq<Seq<char>>)
    requires
        all_components(cs),
    ensures
        components(rendered(cs)) == cs,
{
    if cs.len() == 0 {
        let s = seq!['/'];
        assert(s.drop_last() =~= Seq::<char>::empty());
        assert(s.last() == '/');
        assert(scan(s.drop_last()) == (Seq::<Seq<char>>::empty(), Seq::<char>::empty()));
        assert(scan(s) == (Seq::<Seq<char>>::empty(), Seq::<char>::empty()));
        assert(components(s) =~= cs);
    } else {
        lemma_scan_joined(cs);
        assert(is_component(cs[cs.len() - 1]));
        assert(cs.drop_last().push(cs.last()) =~= cs);
    }
}

/// Every segment that reading a text closes is a component.
pub proof fn lemma_components_wf(s: Seq<char>)
    ensures
        all_components(scan(s).0),
        !scan(s).1.contains('/'),
        all_components(components(s)),
    decreases s.len(),
{
    if s.len() > 0 {
        lemma_components_wf(s.drop_last());
        let (done, cur) = scan(s.drop_last());
        if s.last() != '/' {
            assert(!cur.push(s.last()).contains('/')) by {
                if cur.push(s.last()).contains('/') {
                    let k = choose|k: int| 0 <= k < cur.len() + 1 && cur.push(s.last())[k] == '/';
                    if k < cur.len() {
                        assert(cur[k] == '/');
                    }
                }
            }
        }
    }
}

proof fn lemma_strings_view_push(v: Seq<String>, x: String)
    ensures
        strings_view(v.push(x)) == strings_view(v).push(x@),
{
    assert(strings_view(v.push(x)) =~= strings_view(v).push(x@));
}

proof fn lemma_strings_view_add(v: Seq<String>, w: Seq<String>)
    ensures
        strings_view(v + w) == strings_view(v) + strings_view(w),
{
    assert(strings_view(v + w) =~= strings_view(v) + strings_view(w));
}

/// Adds `seg` to `parts` when it is a component.
fn push_segment(parts: &mut Vec<String>, seg: &str)
    requires
        !seg@.contains('/'),
    ensures
        strings_view(final(parts)@) == close_segment(strings_view(old(parts)@), seg@),
{
    let n = seg.unicode_len();
    let skip = if n == 0 {
        true
    } else if n == 1 {
        let c = seg.get_char(0);
        assert(seg@ == seq!['.'] <==> c == '.') by {
            if c == '.' {
                assert(seg@ =~= seq!['.']);
            }
        }
        c == '.'
    } else {
        assert(seg@ != seq!['.']) by {
            assert(seq!['.'].len() == 1);
        }
        false
    };
    if !skip {
        let owned = seg.to_owned();
        proof {
            lemma_strings_view_push(parts@, owned);
        }
        parts.push(owned);
    }
}

/// The components of a path written as text.
fn split_components(s: &str) -> (r: Vec<String>)
    ensures
        strings_view(r@) == components(s@),
{
    let mut parts: Vec<String> = Vec::new();
    let n = s.unicode_len();
    let mut start: usize = 0;
    let mut i: usize = 0;
    proof {
        assert(s@.subrange(0, 0) =~= Seq::<char>::empty());
        assert(strings_view(parts@) =~= Seq::<Seq<char>>::empty());
        assert(s@.subrange(0, 0) =~= Seq::<char>::empty());
    }
    while i < n
        invariant
            n == s@.len(),
            start <= i <= n,
            scan(s@.subrange(0, i as int)).0 == strings_view(parts@),
            scan(s@.subrange(0, i as int)).1 == s@.subrange(start as int, i as int),
            !s@.subrange(start as int, i as int).contains('/'),
        decreases n - i,
    {
        let ch = s.get_char(i);
        let ghost pre = s@.subrange(0, i as int);
        let ghost next = s@.subrange(0, i + 1);
        assert(next.drop_last() =~= pre);
        assert(next.last() == ch);
        if ch == '/' {
            let seg = s.substring_char(start, i);
            push_segment(&mut parts, seg);
            start = i + 1;
            assert(s@.subrange(start as int, i + 1) =~= Seq::<char>::empty());
        } else {
            assert(s@.subrange(start as int, i + 1) =~= s@.subrange(start as int, i as int).push(ch));
            assert(!s@.subrange(start as int, i + 1).contains('/')) by {
                let cur = s@.subrange(start as int, i as int);
                if s@.subrange(start as int, i + 1).contains('/') {
                    let k = choose|k: int| 0 <= k < cur.len() + 1 && cur.push(ch)[k] == '/';
                    if k < cur.len() {
                        assert(cur[k] == '/');
                    }
                }
            }
        }
        i = i + 1;
    }
    let seg = s.substring_char(start, n);
    push_segment(&mut parts, seg);
    assert(s@.subrange(0, n as int) =~= s@);
    parts
}

proof fn lemma_joined_starts_at_root(cs: Seq<Seq<char>>)
    requires
        cs.len() > 0,
    ensures
        joined(cs).len() > 0,
        joined(cs)[0] == '/',
    decreases cs.len(),
{
    let head = joined(cs.drop_last()) + seq!['/'];
    if cs.len() > 1 {
        lemma_joined_starts_at_root(cs.drop_last());
        assert(head[0] == joined(cs.drop_last())[0]);
    } else {
        assert(joined(cs.drop_last()) =~= Seq::<char>::empty());
        assert(head[0] == '/');
    }
    assert(joined(cs) == head + cs.last());
    assert((head + cs.last())[0] == head[0]);
}

/// The text of every path starts at the root.
pub proof fn lemma_rendered_absolute(cs: Seq<Seq<char>>)
    ensures
        is_absolute(rendered(cs)),
{
    if cs.len() > 0 {
        lemma_joined_starts_at_root(cs);
    }
}

/// A path read from a directory is made of components.
pub proof fn lemma_absolutized_wf(base: Seq<Seq<char>>, p: Seq<char>)
    requires
        all_components(base),
    ensures
        all_components(absolutized(base, p)),
{
    lemma_components_wf(p);
    let r = absolutized(base, p);
    if !is_absolute(p) {
        assert forall|i: int| 0 <= i < r.len() implies is_component(#[trigger] r[i]) by {
            if i >= base.len() {
                assert(r[i] == components(p)[i - base.len()]);
            }
        }
    }
}

/// Reading a path from a directory a second time, after writing it out as
/// text, gives the same path: the text is absolute and taken as it is.
pub proof fn law_absolutize_idempotent(base: Seq<Seq<char>>, p: Seq<char>)
    requires
        all_components(base),
    ensures
        absolutized(base, rendered(absolutized(base, p))) == absolutized(base, p),
{
    lemma_absolutized_wf(base, p);
    lemma_rendered_absolute(absolutized(base, p));
    lemma_components_of_rendered(absolutized(base, p));
}

/// An absolute path is taken as written: the directory it is read from does
/// not matter, and text already in normal form comes back unchanged.
pub proof fn law_absolute_path_kept(base: Seq<Seq<char>>, p: Seq<char>)
    requires
        is_absolute(p),
    ensures
        absolutized(base, p) == components(p),
        p == rendered(components(p)) ==> rendered(absolutized(base, p)) == p,
{
}

/// An absolute path, held as its normal components below the root.
#[derive(Debug, PartialEq, Eq, Hash)]
pub struct AbsPathBuf {
    parts: Vec<String>,
}

impl View for AbsPathBuf {
    type V = Seq<Seq<char>>;

    closed spec fn view(&self) -> Seq<Seq<char>> {
        strings_view(self.parts@)
    }
}

/// A fresh copy of each string, in order.
fn copy_strings(v: &Vec<String>) -> (r: Vec<String>)
    ensures
        strings_view(r@) == strings_view(v@),
{
    let mut r: Vec<String> = Vec::new();
    let mut i: usize = 0;
    while i < v.len()
        invariant
            i <= v@.len(),
            strings_view(r@) == strings_view(v@.subrange(0, i as int)),
        decreases v.len() - i,
    {
        let c = v[i].clone();
        proof {
            lemma_strings_view_push(r@, c);
            assert(v@.subrange(0, i + 1) =~= v@.subrange(0, i as int).push(v@[i as int]));
            lemma_strings_view_push(v@.subrange(0, i as int), v@[i as int]);
        }
        r.push(c);
        i = i + 1;
    }
    assert(v@.subrange(0, v@.len() as int) =~= v@);
    r
}

impl AbsPathBuf {
    #[verifier::type_invariant]
    closed spec fn well_formed(&self) -> bool {
        all_components(self@)
    }

    /// A copy of this path.
    pub fn to_path_buf(&self) -> (r: AbsPathBuf)
        ensures
            r@ == self@,
    {
        proof {
            use_type_invariant(self);
        }
        AbsPathBuf { parts: copy_strings(&self.parts) }
    }

    /// Reads an absolute path from text; a relative one gives `None`.
    pub fn from_text(s: &str) -> (r: Option<AbsPathBuf>)
        ensures
            r is Some <==> is_absolute(s@),
            r matches Some(p) ==> p@ == components(s@),
    {
        let n = s.unicode_len();
        if n > 0 && s.get_char(0) == '/' {
            let parts = split_components(s);
            proof {
                lemma_components_wf(s@);
            }
            Some(AbsPathBuf { parts })
        } else {
            None
        }
    }

    /// The path that `p` names when read from this directory: `p` itself when
    /// it is absolute, else `p` below this directory.
    pub fn absolutize(&self, p: &str) -> (r: AbsPathBuf)
        ensures
            r@ == absolutized(self@, p@),
    {
        proof {
            use_type_invariant(self);
            lemma_components_wf(p@);
        }
        let n = p.unicode_len();
        let mut rest = split_components(p);
        if n > 0 && p.get_char(0) == '/' {
            AbsPathBuf { parts: rest }
        } else {
            let mut parts = copy_strings(&self.parts);
            let ghost front = parts@;
            let ghost back = rest@;
            parts.append(&mut rest);
            proof {
                lemma_strings_view_add(front, back);
                let cs = strings_view(parts@);
                assert forall|i: int| 0 <= i < cs.len() implies is_component(#[trigger] cs[i]) by {
                    if i < self@.len() {
                        assert(cs[i] == self@[i]);
                    } else {
                        assert(cs[i] == components(p@)[i - self@.len()]);
                    }
                }
            }
            AbsPathBuf { parts }
        }
    }

    /// The directory that holds this path; the root has none.
    pub fn parent(&self) -> (r: Option<AbsPathBuf>)
        ensures
            r is None <==> self@.len() == 0,
            r matches Some(q) ==> q@ == self@.drop_last(),
    {
        proof {
            use_type_invariant(self);
        }
        if self.parts.len() == 0 {
            None
        } else {
            let mut parts = copy_strings(&self.parts);
            let ghost before = parts@;
            assert(strings_view(before).len() == before.len());
            parts.pop();
            proof {
                assert(before =~= parts@.push(before.last()));
                lemma_strings_view_push(parts@, before.last());
                assert(strings_view(parts@) =~= self@.drop_last());
                let cs = strings_view(parts@);
                assert forall|i: int| 0 <= i < cs.len() implies is_component(#[trigger] cs[i]) by {
                    assert(cs[i] == self@[i]);
                }
            }
            Some(AbsPathBuf { parts })
        }
    }

    /// Whether `base` is this path or one of its ancestors, compared by
    /// whole components.
    pub fn starts_with(&self, base: &AbsPathBuf) -> (r: bool)
        ensures
            r == has_prefix(self@, base@),
    {
        if base.parts.len() > self.parts.len() {
            return false;
        }
        let mut i: usize = 0;
        while i < base.parts.len()
            invariant
                base.parts@.len() <= self.parts@.len(),
                i <= base.parts@.len(),
                self@.len() == self.parts@.len(),
                base@.len() == base.parts@.len(),
                forall|j: int| 0 <= j < i ==> self@[j] == base@[j],
            decreases base.parts.len() - i,
        {
            if self.parts[i] != base.parts[i] {
                assert(self@.subrange(0, base@.len() as int)[i as int] != base@[i as int]);
                return false;
            }
            i = i + 1;
        }
        assert(self@.subrange(0, base@.len() as int) =~= base@);
        true
    }

    /// The text of this path: `/` for the root, else each component after a `/`.
    pub fn to_text(&self) -> (r: String)
        ensures
            r@ == rendered(self@),
    {
        let sep = "/";
        proof {
            reveal_strlit("/");
        }
        if self.parts.len() == 0 {
            return String::from_str(sep);
        }
        let mut r = String::new();
        let mut i: usize = 0;
        while i < self.parts.len()
            invariant
                i <= self.parts@.len(),
                self@.len() == self.parts@.len(),
                sep@ == seq!['/'],
                r@ == joined(self@.subrange(0, i as int)),
            decreases self.parts.len() - i,
        {
            r.append(sep);
            r.append(self.parts[i].as_str());
            assert(self@.subrange(0, i + 1).drop_last() =~= self@.subrange(0, i as int));
            i = i + 1;
        }
        assert(self@.subrange(0, self@.len() as int) =~= self@);
        r
    }
}

} // verus!
