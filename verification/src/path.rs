//! Paths as text with `/` between components, and the operations on them that
//! planning needs.

use vstd::prelude::*;
use crate::text;

verus! {

/// Whether the path starts at the root.
pub open spec fn is_absolute(p: Seq<char>) -> bool {
    p.len() > 0 && p[0] == '/'
}

/// `rel` under `base`. An absolute `rel` replaces `base`.
pub open spec fn join(base: Seq<char>, rel: Seq<char>) -> Seq<char> {
    if is_absolute(rel) {
        rel
    } else if base.len() == 0 || base.last() == '/' {
        base + rel
    } else {
        base.push('/') + rel
    }
}

/// `s` with every backslash replaced by a slash.
pub open spec fn with_slashes(s: Seq<char>) -> Seq<char> {
    s.map_values(|c: char| if c == '\\' { '/' } else { c })
}

/// A path of the system as it is spelled here: where the system separates components by
/// backslashes too, these become slashes.
pub open spec fn in_slashes(p: Seq<char>, windows: bool) -> Seq<char> {
    if windows {
        with_slashes(p)
    } else {
        p
    }
}

/// Whether `p` is `dir` or a path below it: `dir` and then, from a separator on, the rest.
/// Below the empty path are the relative paths.
pub open spec fn is_below(p: Seq<char>, dir: Seq<char>) -> bool {
    if dir.len() == 0 {
        !is_absolute(p)
    } else {
        dir.is_prefix_of(p) && (p.len() == dir.len() || dir.last() == '/' || p[dir.len() as int]
            == '/')
    }
}

/// `p` without trailing separators and trailing `.` components; the root, the
/// empty path and a lone `.` stay.
pub open spec fn trimmed(p: Seq<char>) -> Seq<char>
    decreases p.len(),
{
    if p.len() > 1 && p.last() == '/' {
        trimmed(p.drop_last())
    } else if p.len() > 1 && p.last() == '.' && p[p.len() - 2] == '/' {
        trimmed(p.drop_last())
    } else {
        p
    }
}

/// Whether `p` has a component after its root.
pub open spec fn has_component(p: Seq<char>) -> bool {
    trimmed(p).len() > 0 && trimmed(p) != seq!['/']
}

/// The last component of a path that has one.
pub open spec fn last_component(p: Seq<char>) -> Seq<char> {
    text::after_last(trimmed(p), '/')
}

/// The path without its last component.
pub open spec fn parent(p: Seq<char>) -> Option<Seq<char>> {
    if !has_component(p) {
        None
    } else {
        Some(trimmed(trimmed(p).take(text::last_index(trimmed(p), '/') + 1)))
    }
}

/// The last component, unless it is `.` or `..`.
pub open spec fn file_name(p: Seq<char>) -> Option<Seq<char>> {
    if !has_component(p) || last_component(p) == seq!['.'] || last_component(p) == seq!['.', '.'] {
        None
    } else {
        Some(last_component(p))
    }
}

/// The one spelling of a path that all paths with the same components share:
/// single separators, no `.` but a leading one.
pub open spec fn normal(p: Seq<char>) -> Seq<char>
    decreases p.len(),
{
    if !has_component(p) {
        trimmed(p)
    } else {
        let q = trimmed(trimmed(p).take(text::last_index(trimmed(p), '/') + 1));
        if q.len() < p.len() {
            join(normal(q), last_component(p))
        } else {
            p
        }
    }
}

proof fn lemma_trimmed_len(p: Seq<char>)
    ensures
        trimmed(p).len() <= p.len(),
    decreases p.len(),
{
    if p.len() > 1 && (p.last() == '/' || (p.last() == '.' && p[p.len() - 2] == '/')) {
        lemma_trimmed_len(p.drop_last());
    }
}

proof fn lemma_trimmed_end(p: Seq<char>)
    ensures
        trimmed(p).len() > 1 ==> trimmed(p).last() != '/',
        trimmed(p).len() > 0 ==> p.len() > 0 && trimmed(p)[0] == p[0],
        p.len() > 0 ==> trimmed(p).len() > 0,
    decreases p.len(),
{
    if p.len() > 1 && (p.last() == '/' || (p.last() == '.' && p[p.len() - 2] == '/')) {
        lemma_trimmed_end(p.drop_last());
    }
}

proof fn lemma_parent_shorter(p: Seq<char>)
    requires
        has_component(p),
    ensures
        trimmed(trimmed(p).take(text::last_index(trimmed(p), '/') + 1)).len() < p.len(),
{
    let t = trimmed(p);
    lemma_trimmed_len(p);
    lemma_trimmed_end(p);
    text::lemma_last_index_bounds(t, '/');
    let k = text::last_index(t, '/');
    if k == t.len() - 1 {
        assert(t.len() == 1);
        assert(t =~= seq!['/']);
    }
    lemma_trimmed_len(t.take(k + 1));
}

/// `rel` under `base`.
pub fn join_path(base: &str, rel: &str) -> (r: String)
    ensures
        r@ == join(base@, rel@),
{
    let b = text::to_chars(base);
    let v = text::to_chars(rel);
    if v.len() > 0 && v[0] == '/' {
        return text::copy_str(rel);
    }
    let mut out = text::copy_str(base);
    if b.len() > 0 && b[b.len() - 1] != '/' {
        out.push('/');
    }
    out.append(rel);
    out
}

fn trim_chars(v: &Vec<char>, len: usize) -> (r: usize)
    requires
        len <= v@.len(),
    ensures
        r <= len,
        v@.take(r as int) == trimmed(v@.take(len as int)),
{
    let mut n: usize = len;
    while n > 1 && (v[n - 1] == '/' || (v[n - 1] == '.' && v[n - 2] == '/'))
        invariant
            n <= len <= v@.len(),
            trimmed(v@.take(n as int)) == trimmed(v@.take(len as int)),
        decreases n,
    {
        proof {
            assert(v@.take(n as int).drop_last() =~= v@.take(n - 1));
        }
        n -= 1;
    }
    n
}

/// Splits a path into its parent and last component.
fn split_last(p: &str) -> (r: Option<(String, String)>)
    ensures
        r is Some <==> has_component(p@),
        r matches Some((dir, name)) ==> parent(p@) == Some(dir@) && name@ == last_component(p@),
{
    let v = text::to_chars(p);
    let len: usize = v.len();
    proof {
        assert(v@.take(len as int) =~= v@);
    }
    let n: usize = trim_chars(&v, len);
    let ghost t = trimmed(p@);
    if n == 0 {
        return None;
    }
    if n == 1 && v[0] == '/' {
        proof {
            assert(t =~= seq!['/']);
        }
        return None;
    }
    proof {
        assert(v@.take(n as int).len() == n);
        if t == seq!['/'] {
            assert(t.len() == 1 && t[0] == '/');
        }
        lemma_trimmed_end(p@);
    }
    let mut k: usize = n;
    while k > 0 && v[k - 1] != '/'
        invariant
            k <= n <= v@.len(),
            t == v@.take(n as int),
            forall|j: int| k <= j < n ==> t[j] != '/',
        decreases k,
    {
        k -= 1;
    }
    proof {
        text::lemma_last_index_is(t, '/', k - 1);
        assert(t.take(k as int) =~= v@.take(k as int));
        assert(t.skip(k as int) =~= v@.subrange(k as int, n as int));
    }
    let d: usize = trim_chars(&v, k);
    proof {
        assert(v@.take(d as int) =~= v@.subrange(0, d as int));
    }
    Some((text::from_chars(&v, 0, d), text::from_chars(&v, k, n)))
}

/// The path without its last component; `None` for the root and the empty path.
pub fn parent_of(p: &str) -> (r: Option<String>)
    ensures
        text::opt_text(r) == parent(p@),
{
    match split_last(p) {
        Some((dir, _)) => Some(dir),
        None => None,
    }
}

/// The last component, unless it is `.` or `..` or there is none.
pub fn file_name_of(p: &str) -> (r: Option<String>)
    ensures
        text::opt_text(r) == file_name(p@),
{
    match split_last(p) {
        Some((_, name)) => {
            let v = text::to_chars(name.as_str());
            if v.len() == 1 && v[0] == '.' {
                proof {
                    assert(name@ =~= seq!['.']);
                }
                return None;
            }
            if v.len() == 2 && v[0] == '.' && v[1] == '.' {
                proof {
                    assert(name@ =~= seq!['.', '.']);
                }
                return None;
            }
            Some(name)
        },
        None => None,
    }
}

/// The one spelling that all paths with the same components share.
pub fn normalize(p: &str) -> (r: String)
    ensures
        r@ == normal(p@),
    decreases p@.len(),
{
    match split_last(p) {
        Some((dir, name)) => {
            proof {
                lemma_parent_shorter(p@);
            }
            let base = normalize(dir.as_str());
            join_path(base.as_str(), name.as_str())
        },
        None => {
            let v = text::to_chars(p);
            let len: usize = v.len();
            proof {
                assert(v@.take(len as int) =~= v@);
            }
            let n: usize = trim_chars(&v, len);
            proof {
                assert(v@.take(n as int) =~= v@.subrange(0, n as int));
            }
            text::from_chars(&v, 0, n)
        },
    }
}

/// A directory as it stands before a name.
spec fn with_separator(dir: Seq<char>) -> Seq<char> {
    if dir.len() == 0 || dir.last() == '/' {
        dir
    } else {
        dir.push('/')
    }
}

proof fn lemma_joined(dir: Seq<char>, name: Seq<char>)
    requires
        name.len() > 0,
        !name.contains('/'),
        name != seq!['.'],
    ensures
        join(dir, name) == with_separator(dir) + name,
        trimmed(join(dir, name)) == join(dir, name),
        text::last_index(join(dir, name), '/') == with_separator(dir).len() - 1,
{
    let p = join(dir, name);
    let d = with_separator(dir);
    assert(name[0] != '/') by {
        if name[0] == '/' {
            assert(name.contains(name[0]));
        }
    }
    assert(name.last() != '/') by {
        if name.last() == '/' {
            assert(name.contains(name[name.len() - 1]));
        }
    }
    assert(p == d + name);
    assert(p.last() == name.last());
    if p.len() > 1 && name.last() == '.' && p[p.len() - 2] == '/' {
        if name.len() == 1 {
            assert(name =~= seq!['.']);
        } else {
            assert(p[p.len() - 2] == name[name.len() - 2]);
            assert(name.contains(name[name.len() - 2]));
        }
    }
    assert forall|k: int| d.len() - 1 < k < p.len() implies p[k] != '/' by {
        assert(p[k] == name[k - d.len()]);
        assert(name.contains(name[k - d.len()]));
    }
    text::lemma_last_index_is(p, '/', d.len() - 1);
}

/// Joining a file name of one component and taking the parent gives the
/// directory back, without redundant trailing characters.
pub proof fn law_parent_of_join(dir: Seq<char>, name: Seq<char>)
    requires
        name.len() > 0,
        !name.contains('/'),
        name != seq!['.'],
    ensures
        parent(join(dir, name)) == Some(trimmed(dir)),
{
    let d = with_separator(dir);
    lemma_joined(dir, name);
    assert(join(dir, name).take(d.len() as int) =~= d);
    if dir.len() > 0 && dir.last() != '/' {
        assert(d.drop_last() =~= dir);
    }
}

/// Joining a file name of one component gives a path with that file name.
pub proof fn law_file_name_of_join(dir: Seq<char>, name: Seq<char>)
    requires
        name.len() > 0,
        !name.contains('/'),
        name != seq!['.'],
        name != seq!['.', '.'],
    ensures
        file_name(join(dir, name)) == Some(name),
{
    lemma_joined(dir, name);
    assert(join(dir, name).skip(with_separator(dir).len() as int) =~= name);
}

/// The last component has no separator.
pub proof fn lemma_last_component_has_no_slash(p: Seq<char>)
    ensures
        !last_component(p).contains('/'),
{
    text::lemma_after_last(trimmed(p), '/');
}

proof fn lemma_trimmed_twice(p: Seq<char>)
    ensures
        trimmed(trimmed(p)) == trimmed(p),
    decreases p.len(),
{
    if p.len() > 1 && (p.last() == '/' || (p.last() == '.' && p[p.len() - 2] == '/')) {
        lemma_trimmed_twice(p.drop_last());
    }
}

/// A parent has no redundant trailing characters.
pub proof fn lemma_parent_is_trimmed(p: Seq<char>)
    ensures
        parent(p) matches Some(q) ==> trimmed(q) == q,
{
    if parent(p) is Some {
        lemma_trimmed_twice(trimmed(p).take(text::last_index(trimmed(p), '/') + 1));
    }
}

// ---------------------------------------------------------------------------
// Extensions and prefixes
// ---------------------------------------------------------------------------

/// What follows the last dot of the file name, unless that dot begins the name.
pub open spec fn extension(p: Seq<char>) -> Option<Seq<char>> {
    match file_name(p) {
        Some(name) => if text::last_index(name, '.') > 0 {
            Some(text::after_last(name, '.'))
        } else {
            None
        },
        None => None,
    }
}

/// What follows the last dot of the file name, unless that dot begins the name.
pub fn extension_of(p: &str) -> (r: Option<String>)
    ensures
        text::opt_text(r) == extension(p@),
{
    match file_name_of(p) {
        Some(name) => match text::rfind(name.as_str(), '.') {
            Some(k) => {
                if k > 0 {
                    Some(text::text_after_last(name.as_str(), '.'))
                } else {
                    None
                }
            },
            None => None,
        },
        None => None,
    }
}

/// `p` from its first component on: leading separators and `.` components left
/// out.
pub open spec fn from_component(p: Seq<char>) -> Seq<char>
    decreases p.len(),
{
    if p.len() > 0 && p[0] == '/' {
        from_component(p.skip(1))
    } else if p.len() > 0 && p[0] == '.' && (p.len() == 1 || p[1] == '/') {
        from_component(p.skip(1))
    } else {
        p
    }
}

/// The first component of a path that begins with one.
pub open spec fn first_component(p: Seq<char>) -> Seq<char> {
    p.take(text::first_index(p, '/'))
}

/// What is left of `p` once the components of `base` are taken from its front.
pub open spec fn after_components(base: Seq<char>, p: Seq<char>) -> Option<Seq<char>>
    decreases from_component(base).len(),
    via after_components_shrink
{
    let b = from_component(base);
    let a = from_component(p);
    if b.len() == 0 {
        Some(a)
    } else if a.len() == 0 || first_component(a) != first_component(b) {
        None
    } else {
        after_components(b.skip(first_component(b).len() as int), a.skip(first_component(a).len() as int))
    }
}

#[via_fn]
proof fn after_components_shrink(base: Seq<char>, p: Seq<char>) {
    let b = from_component(base);
    if b.len() > 0 {
        lemma_from_component(base);
        lemma_first_component(b);
        lemma_from_component(b.skip(first_component(b).len() as int));
    }
}

proof fn lemma_from_component(p: Seq<char>)
    ensures
        from_component(p).len() <= p.len(),
        from_component(p).len() > 0 ==> from_component(p)[0] != '/',
    decreases p.len(),
{
    if p.len() > 0 && (p[0] == '/' || (p[0] == '.' && (p.len() == 1 || p[1] == '/'))) {
        lemma_from_component(p.skip(1));
    }
}

proof fn lemma_first_index(s: Seq<char>, c: char)
    ensures
        0 <= text::first_index(s, c) <= s.len(),
        s.len() > 0 && s[0] != c ==> text::first_index(s, c) > 0,
        forall|j: int| 0 <= j < text::first_index(s, c) ==> s[j] != c,
        text::first_index(s, c) < s.len() ==> s[text::first_index(s, c)] == c,
    decreases s.len(),
{
    if s.len() > 0 && s[0] != c {
        lemma_first_index(s.skip(1), c);
        assert forall|j: int| 0 <= j < text::first_index(s, c) implies s[j] != c by {
            if j > 0 {
                assert(s.skip(1)[j - 1] == s[j]);
            }
        }
    }
}

proof fn lemma_first_component(b: Seq<char>)
    requires
        b.len() > 0,
        b[0] != '/',
    ensures
        0 < first_component(b).len() <= b.len(),
        first_component(b).len() == text::first_index(b, '/'),
{
    lemma_first_index(b, '/');
}

/// Whether a relative path begins with the component `.`.
pub open spec fn leading_dot(p: Seq<char>) -> bool {
    p.len() > 0 && p[0] == '.' && (p.len() == 1 || p[1] == '/')
}

/// `p` relative to `base`, where the components of `base` begin those of `p`.
pub open spec fn strip_prefix(p: Seq<char>, base: Seq<char>) -> Option<Seq<char>> {
    if base.len() == 0 {
        Some(trimmed(p))
    } else if is_absolute(p) != is_absolute(base) || leading_dot(p) != leading_dot(base) {
        None
    } else {
        match after_components(base, p) {
            Some(rest) => Some(trimmed(rest)),
            None => None,
        }
    }
}

fn skip_to_component(v: &Vec<char>, from: usize) -> (r: usize)
    requires
        from <= v@.len(),
    ensures
        from <= r <= v@.len(),
        v@.skip(r as int) == from_component(v@.skip(from as int)),
{
    let mut i: usize = from;
    while i < v.len() && (v[i] == '/' || (v[i] == '.' && (i + 1 == v.len() || v[i + 1] == '/')))
        invariant
            from <= i <= v@.len(),
            from_component(v@.skip(i as int)) == from_component(v@.skip(from as int)),
        decreases v@.len() - i,
    {
        proof {
            assert(v@.skip(i as int).skip(1) =~= v@.skip(i + 1));
            assert(v@.skip(i as int)[0] == v@[i as int]);
            if i + 1 < v@.len() {
                assert(v@.skip(i as int)[1] == v@[i + 1]);
            }
        }
        i += 1;
    }
    proof {
        if i < v@.len() {
            assert(v@.skip(i as int)[0] == v@[i as int]);
            if i + 1 < v@.len() {
                assert(v@.skip(i as int)[1] == v@[i + 1]);
            }
        }
    }
    i
}

fn component_end(v: &Vec<char>, from: usize) -> (r: usize)
    requires
        from <= v@.len(),
    ensures
        from <= r <= v@.len(),
        r - from == text::first_index(v@.skip(from as int), '/'),
{
    let mut i: usize = from;
    proof {
        assert(v@.skip(from as int).skip(0) =~= v@.skip(from as int));
    }
    while i < v.len() && v[i] != '/'
        invariant
            from <= i <= v@.len(),
            text::first_index(v@.skip(from as int), '/') == i - from + text::first_index(
                v@.skip(i as int),
                '/',
            ),
        decreases v@.len() - i,
    {
        proof {
            assert(v@.skip(i as int).skip(1) =~= v@.skip(i + 1));
        }
        i += 1;
    }
    i
}

fn after_base(b: &Vec<char>, i: usize, a: &Vec<char>, j: usize) -> (r: Option<usize>)
    requires
        i <= b@.len(),
        j <= a@.len(),
    ensures
        match r {
            Some(k) => k <= a@.len() && after_components(b@.skip(i as int), a@.skip(j as int))
                == Some(a@.skip(k as int)),
            None => after_components(b@.skip(i as int), a@.skip(j as int)) is None,
        },
    decreases b@.len() - i,
{
    let i0: usize = skip_to_component(b, i);
    let j0: usize = skip_to_component(a, j);
    if i0 == b.len() {
        return Some(j0);
    }
    if j0 == a.len() {
        return None;
    }
    let i1: usize = component_end(b, i0);
    let j1: usize = component_end(a, j0);
    proof {
        lemma_from_component(b@.skip(i as int));
        lemma_from_component(a@.skip(j as int));
        lemma_first_component(b@.skip(i0 as int));
        lemma_first_component(a@.skip(j0 as int));
        assert(b@.skip(i0 as int).take(i1 - i0) =~= b@.subrange(i0 as int, i1 as int));
        assert(a@.skip(j0 as int).take(j1 - j0) =~= a@.subrange(j0 as int, j1 as int));
        assert(b@.skip(i0 as int).skip(i1 - i0) =~= b@.skip(i1 as int));
        assert(a@.skip(j0 as int).skip(j1 - j0) =~= a@.skip(j1 as int));
    }
    let cb = text::from_chars(b, i0, i1);
    let ca = text::from_chars(a, j0, j1);
    if !text::same_text(cb.as_str(), ca.as_str()) {
        return None;
    }
    after_base(b, i1, a, j1)
}

/// `p` relative to `base`, where the components of `base` begin those of `p`.
pub fn relative_to(p: &str, base: &str) -> (r: Option<String>)
    ensures
        text::opt_text(r) == strip_prefix(p@, base@),
{
    let a = text::to_chars(p);
    let b = text::to_chars(base);
    let n: usize = a.len();
    if b.len() == 0 {
        proof {
            assert(a@.take(n as int) =~= a@);
        }
        let k: usize = trim_chars(&a, n);
        proof {
            assert(a@.take(k as int) =~= a@.subrange(0, k as int));
        }
        return Some(text::from_chars(&a, 0, k));
    }
    let a_abs = a.len() > 0 && a[0] == '/';
    let b_abs = b.len() > 0 && b[0] == '/';
    let a_dot = a.len() > 0 && a[0] == '.' && (a.len() == 1 || a[1] == '/');
    let b_dot = b.len() > 0 && b[0] == '.' && (b.len() == 1 || b[1] == '/');
    if a_abs != b_abs || a_dot != b_dot {
        return None;
    }
    proof {
        assert(a@.skip(0) =~= a@);
        assert(b@.skip(0) =~= b@);
    }
    match after_base(&b, 0, &a, 0) {
        None => None,
        Some(k) => {
            let rest = text::from_chars(&a, k, n);
            proof {
                assert(a@.skip(k as int) =~= rest@);
            }
            let v = text::to_chars(rest.as_str());
            let len: usize = v.len();
            proof {
                assert(v@.take(len as int) =~= v@);
            }
            let m: usize = trim_chars(&v, len);
            proof {
                assert(v@.take(m as int) =~= v@.subrange(0, m as int));
            }
            Some(text::from_chars(&v, 0, m))
        },
    }
}

// ---------------------------------------------------------------------------
// Components and their order
// ---------------------------------------------------------------------------

/// The components of a path, the root among them as `/`.
pub open spec fn components(p: Seq<char>) -> Seq<Seq<char>>
    decreases p.len(),
{
    if !has_component(p) {
        if trimmed(p).len() == 0 {
            Seq::empty()
        } else {
            seq![seq!['/']]
        }
    } else {
        let q = trimmed(trimmed(p).take(text::last_index(trimmed(p), '/') + 1));
        if q.len() < p.len() {
            components(q).push(last_component(p))
        } else {
            Seq::empty()
        }
    }
}

/// The root comes before `.`, that before `..`, and that before names.
pub open spec fn component_class(c: Seq<char>) -> int {
    if c == seq!['/'] {
        0
    } else if c == seq!['.'] {
        1
    } else if c == seq!['.', '.'] {
        2
    } else {
        3
    }
}

/// Whether component `a` comes before component `b`.
pub open spec fn component_before(a: Seq<char>, b: Seq<char>) -> bool {
    ||| component_class(a) < component_class(b)
    ||| component_class(a) == component_class(b) && text::text_before(a, b)
}

/// Whether a path with components `a` comes before one with components `b`.
pub open spec fn components_before(a: Seq<Seq<char>>, b: Seq<Seq<char>>) -> bool
    decreases a.len(),
{
    if b.len() == 0 {
        false
    } else if a.len() == 0 {
        true
    } else if a[0] != b[0] {
        component_before(a[0], b[0])
    } else {
        components_before(a.skip(1), b.skip(1))
    }
}

/// The components of a path.
pub fn components_of(p: &str) -> (r: Vec<String>)
    ensures
        text::texts(r@) == components(p@),
    decreases p@.len(),
{
    match split_last(p) {
        Some((dir, name)) => {
            proof {
                lemma_parent_shorter(p@);
            }
            let mut out = components_of(dir.as_str());
            proof {
                assert(text::texts(out@.push(name)) =~= text::texts(out@).push(name@));
            }
            out.push(name);
            out
        },
        None => {
            let v = text::to_chars(p);
            let len: usize = v.len();
            proof {
                assert(v@.take(len as int) =~= v@);
            }
            let n: usize = trim_chars(&v, len);
            let mut out: Vec<String> = Vec::new();
            if n > 0 {
                let root = text::copy_str("/");
                proof {
                    reveal_strlit("/");
                    assert(root@ =~= seq!['/']);
                    assert(text::texts(out@.push(root)) =~= seq![seq!['/']]);
                }
                out.push(root);
            } else {
                proof {
                    assert(text::texts(out@) =~= Seq::<Seq<char>>::empty());
                }
            }
            out
        },
    }
}

fn class_of(c: &str) -> (r: u8)
    ensures
        r == component_class(c@),
{
    proof {
        reveal_strlit("/");
        reveal_strlit(".");
        reveal_strlit("..");
        assert("/"@ =~= seq!['/']);
        assert("."@ =~= seq!['.']);
        assert(".."@ =~= seq!['.', '.']);
    }
    if text::same_text(c, "/") {
        0
    } else if text::same_text(c, ".") {
        1
    } else if text::same_text(c, "..") {
        2
    } else {
        3
    }
}

/// Whether path `p` comes before path `q`, component by component.
pub fn is_before(p: &str, q: &str) -> (r: bool)
    ensures
        r == components_before(components(p@), components(q@)),
{
    let a = components_of(p);
    let b = components_of(q);
    let ghost x = components(p@);
    let ghost y = components(q@);
    let mut i: usize = 0;
    proof {
        assert(x.skip(0) =~= x);
        assert(y.skip(0) =~= y);
        assert(text::texts(a@).len() == a@.len());
        assert(text::texts(b@).len() == b@.len());
    }
    while i < a.len() && i < b.len() && text::same_text(a[i].as_str(), b[i].as_str())
        invariant
            i <= a@.len(),
            i <= b@.len(),
            text::texts(a@) == x,
            text::texts(b@) == y,
            components_before(x.skip(i as int), y.skip(i as int)) == components_before(x, y),
        decreases a@.len() - i,
    {
        proof {
            assert(x[i as int] == a@[i as int]@);
            assert(y[i as int] == b@[i as int]@);
            assert(x.skip(i as int).skip(1) =~= x.skip(i + 1));
            assert(y.skip(i as int).skip(1) =~= y.skip(i + 1));
        }
        i += 1;
    }
    proof {
        assert(text::texts(a@).len() == a@.len());
        assert(text::texts(b@).len() == b@.len());
    }
    if i >= b.len() {
        return false;
    }
    if i >= a.len() {
        return true;
    }
    proof {
        assert(x.skip(i as int)[0] == a@[i as int]@);
        assert(y.skip(i as int)[0] == b@[i as int]@);
    }
    let m: u8 = class_of(a[i].as_str());
    let n: u8 = class_of(b[i].as_str());
    m < n || (m == n && text::less_text(a[i].as_str(), b[i].as_str()))
}

/// Whether two paths have the same components.
pub fn same_path(p: &str, q: &str) -> (r: bool)
    ensures
        r == (components(p@) == components(q@)),
{
    let a = components_of(p);
    let b = components_of(q);
    proof {
        assert(text::texts(a@).len() == a@.len());
        assert(text::texts(b@).len() == b@.len());
    }
    if a.len() != b.len() {
        return false;
    }
    let mut i: usize = 0;
    while i < a.len()
        invariant
            i <= a@.len(),
            a@.len() == b@.len(),
            text::texts(a@) == components(p@),
            text::texts(b@) == components(q@),
            forall|j: int| 0 <= j < i ==> components(p@)[j] == components(q@)[j],
        decreases a@.len() - i,
    {
        proof {
            assert(text::texts(a@)[i as int] == a@[i as int]@);
            assert(text::texts(b@)[i as int] == b@[i as int]@);
        }
        if !text::same_text(a[i].as_str(), b[i].as_str()) {
            return false;
        }
        i += 1;
    }
    proof {
        assert(text::texts(a@).len() == a@.len());
        assert(text::texts(b@).len() == b@.len());
        assert(components(p@) =~= components(q@));
    }
    true
}

/// `s` with every backslash replaced by a slash.
pub fn slashed(s: &str) -> (r: String)
    ensures
        r@ == with_slashes(s@),
{
    let v = text::to_chars(s);
    let mut out = String::new();
    let mut i: usize = 0;
    while i < v.len()
        invariant
            i <= v@.len(),
            out@ == with_slashes(v@.take(i as int)),
        decreases v@.len() - i,
    {
        proof {
            assert(with_slashes(v@.take(i + 1)) =~= with_slashes(v@.take(i as int)).push(
                if v@[i as int] == '\\' {
                    '/'
                } else {
                    v@[i as int]
                },
            ));
        }
        if v[i] == '\\' {
            out.push('/');
        } else {
            out.push(v[i]);
        }
        i += 1;
    }
    proof {
        assert(v@.take(v@.len() as int) =~= v@);
    }
    out
}

/// A path of the system as it is spelled here.
pub fn portable(p: &str, windows: bool) -> (r: String)
    ensures
        r@ == in_slashes(p@, windows),
{
    if windows {
        slashed(p)
    } else {
        text::copy_str(p)
    }
}

// ---------------------------------------------------------------------------
// Paths that are no text
// ---------------------------------------------------------------------------

/// A path as the system spells it. Systems have paths that are no text.
#[derive(Debug, PartialEq, Eq)]
pub struct NativePath {
    /// The path as text; a replacement character stands for what is none.
    pub text: String,
    /// The bytes of the path, by which the file is found: its UTF-8 form, where it is text.
    pub bytes: Vec<u8>,
}

/// The contents of a [`NativePath`].
pub struct NativeView {
    pub text: Seq<char>,
    pub bytes: Seq<u8>,
}

impl View for NativePath {
    type V = NativeView;

    open spec fn view(&self) -> NativeView {
        NativeView { text: self.text@, bytes: self.bytes@ }
    }
}

impl Clone for NativePath {
    fn clone(&self) -> (r: Self)
        ensures
            r@ == self@,
    {
        let r = NativePath { text: self.text.clone(), bytes: copy_bytes(self.bytes.as_slice()) };
        proof {
            assert(r@.bytes =~= self@.bytes);
        }
        r
    }
}

/// A copy of some bytes.
pub fn copy_bytes(b: &[u8]) -> (r: Vec<u8>)
    ensures
        r@ == b@,
{
    let mut out: Vec<u8> = Vec::new();
    let mut i: usize = 0;
    while i < b.len()
        invariant
            i <= b@.len(),
            out@ == b@.take(i as int),
        decreases b@.len() - i,
    {
        out.push(b[i]);
        proof {
            assert(b@.take(i + 1) =~= b@.take(i as int).push(b@[i as int]));
        }
        i += 1;
    }
    proof {
        assert(b@.take(b@.len() as int) =~= b@);
    }
    out
}

/// The contents of an optional path.
pub open spec fn opt_native(p: Option<NativePath>) -> Option<NativeView> {
    match p {
        Some(native) => Some(native@),
        None => None,
    }
}

/// A copy of an optional path.
pub fn copy_opt_native(p: &Option<NativePath>) -> (r: Option<NativePath>)
    ensures
        opt_native(r) == opt_native(*p),
{
    match p {
        Some(native) => Some(native.clone()),
        None => None,
    }
}

/// The path that a text spells.
pub open spec fn text_path(s: Seq<char>) -> NativeView {
    NativeView { text: s, bytes: vstd::utf8::encode_utf8(s) }
}

impl NativePath {
    /// The path that a text spells.
    pub fn of_text(s: &str) -> (r: Self)
        ensures
            r@ == text_path(s@),
    {
        NativePath { text: text::copy_str(s), bytes: copy_bytes(s.as_bytes()) }
    }
}

/// A path with a relative text under it.
pub open spec fn native_join(base: NativeView, rel: Seq<char>) -> NativeView {
    NativeView {
        text: join(base.text, rel),
        bytes: (if base.bytes.len() == 0 || base.bytes.last() == 0x2f {
            base.bytes
        } else {
            base.bytes.push(0x2f)
        }) + vstd::utf8::encode_utf8(rel),
    }
}

/// A path with a relative text under it.
pub fn join_native(base: &NativePath, rel: &str) -> (r: NativePath)
    requires
        !is_absolute(rel@),
    ensures
        r@ == native_join(base@, rel@),
{
    let mut bytes = copy_bytes(base.bytes.as_slice());
    if bytes.len() > 0 && bytes[bytes.len() - 1] != 0x2f {
        bytes.push(0x2f);
    }
    let ghost head = bytes@;
    let tail = rel.as_bytes();
    let mut i: usize = 0;
    proof {
        assert(head + tail@.take(0) =~= head);
    }
    while i < tail.len()
        invariant
            i <= tail@.len(),
            bytes@ == head + tail@.take(i as int),
        decreases tail@.len() - i,
    {
        proof {
            assert(head + tail@.take(i + 1) =~= (head + tail@.take(i as int)).push(tail@[i as int]));
        }
        bytes.push(tail[i]);
        i += 1;
    }
    proof {
        assert(tail@.take(tail@.len() as int) =~= tail@);
    }
    NativePath { text: join_path(base.text.as_str(), rel), bytes }
}

/// Whether two byte strings are equal.
pub fn same_bytes(a: &Vec<u8>, b: &Vec<u8>) -> (r: bool)
    ensures
        r == (a@ == b@),
{
    if a.len() != b.len() {
        return false;
    }
    let mut i: usize = 0;
    while i < a.len()
        invariant
            i <= a@.len(),
            a@.len() == b@.len(),
            forall|j: int| 0 <= j < i ==> a@[j] == b@[j],
        decreases a@.len() - i,
    {
        if a[i] != b[i] {
            return false;
        }
        i += 1;
    }
    proof {
        assert(a@ =~= b@);
    }
    true
}

// ---------------------------------------------------------------------------
// Laws
// ---------------------------------------------------------------------------

/// A relative path goes under its base behind one separator, and a path that starts at the root
/// stands for itself.
pub proof fn law_join_puts_one_separator(base: Seq<char>, rel: Seq<char>)
    ensures
        rel.len() > 0 && rel[0] == '/' ==> join(base, rel) == rel,
        !(rel.len() > 0 && rel[0] == '/') && base.len() > 0 && base.last() != '/' ==> join(base, rel)
            == base + seq!['/'] + rel,
        !(rel.len() > 0 && rel[0] == '/') && (base.len() == 0 || base.last() == '/') ==> join(
            base,
            rel,
        ) == base + rel,
{
    assert(base + seq!['/'] + rel =~= base.push('/') + rel);
}

/// Backslashes become slashes, on the systems that separate by them, and nothing else changes.
pub proof fn law_slashes_replace_backslashes(p: Seq<char>, i: int)
    requires
        0 <= i < p.len(),
    ensures
        in_slashes(p, false) == p,
        in_slashes(p, true).len() == p.len(),
        in_slashes(p, true)[i] == if p[i] == '\\' {
            '/'
        } else {
            p[i]
        },
        with_slashes(p) == in_slashes(p, true),
{
}

proof fn lemma_components_of_trimmed(p: Seq<char>)
    ensures
        components(trimmed(p)) == components(p),
        normal(trimmed(p)) == normal(p),
{
    lemma_trimmed_twice(p);
    if has_component(p) {
        lemma_parent_shorter(p);
        lemma_parent_shorter(trimmed(p));
    }
}

/// A path under a directory has the components of the directory and then its name, however the
/// directory is spelled, and is spelled in the one way that all its spellings share.
pub proof fn law_components_of_join(dir: Seq<char>, name: Seq<char>)
    requires
        name.len() > 0,
        !name.contains('/'),
        name != seq!['.'],
    ensures
        components(join(dir, name)) == components(dir).push(name),
        normal(join(dir, name)) == join(normal(dir), name),
        components(Seq::empty()).len() == 0,
        components(seq!['/']) == seq![seq!['/']],
{
    let p = join(dir, name);
    let d = with_separator(dir);
    lemma_joined(dir, name);
    assert(p.take(d.len() as int) =~= d);
    if dir.len() > 0 && dir.last() != '/' {
        assert(d.drop_last() =~= dir);
        assert(trimmed(d) == trimmed(dir));
    }
    assert(p.len() > 0);
    if p =~= seq!['/'] {
        assert(name[name.len() - 1] == p.last());
        assert(name.contains(name[name.len() - 1]));
    }
    assert(has_component(p));
    assert(p.skip(d.len() as int) =~= name);
    assert(last_component(p) == name);
    lemma_parent_shorter(p);
    lemma_components_of_trimmed(dir);
    assert(trimmed(seq!['/']) =~= seq!['/']);
}

/// The extension of a file is what follows the last dot of its name, where the dot does not
/// begin the name; a name without a dot behind its first character has none.
pub proof fn law_extension_follows_the_last_dot(
    dir: Seq<char>,
    name: Seq<char>,
    front: Seq<char>,
    ext: Seq<char>,
)
    requires
        name.len() > 0,
        !name.contains('/'),
        name != seq!['.'],
        name != seq!['.', '.'],
    ensures
        front.len() > 0 && !ext.contains('.') && name == front.push('.') + ext ==> extension(
            join(dir, name),
        ) == Some(ext),
        (forall|i: int| 0 < i < name.len() ==> name[i] != '.') ==> extension(join(dir, name)) is None,
{
    law_file_name_of_join(dir, name);
    if front.len() > 0 && !ext.contains('.') && name == front.push('.') + ext {
        text::law_cut_is_unique(name, '.', front, ext);
        text::lemma_last_index_bounds(name, '.');
        assert(name[front.len() as int] == '.');
        assert(name.contains('.'));
    }
    text::lemma_last_index_bounds(name, '.');
}

proof fn lemma_first_index_prefix(x: Seq<char>, rest: Seq<char>)
    ensures
        text::first_index(x.push('/') + rest, '/') == text::first_index(x, '/'),
        0 <= text::first_index(x, '/') <= x.len(),
    decreases x.len(),
{
    let q = x.push('/') + rest;
    if x.len() > 0 && x[0] != '/' {
        lemma_first_index_prefix(x.skip(1), rest);
        assert(q.skip(1) =~= x.skip(1).push('/') + rest);
    }
}

proof fn lemma_from_component_under(b: Seq<char>, rel: Seq<char>)
    ensures
        from_component(b.push('/') + rel) == if from_component(b).len() == 0 {
            from_component(rel)
        } else {
            from_component(b).push('/') + rel
        },
    decreases b.len(),
{
    let q = b.push('/') + rel;
    if b.len() == 0 {
        assert(q.skip(1) =~= rel);
    } else {
        assert(q[0] == b[0]);
        if b.len() > 1 {
            assert(q[1] == b[1]);
        } else {
            assert(q[1] == '/');
        }
        if b[0] == '/' || (b[0] == '.' && (b.len() == 1 || b[1] == '/')) {
            lemma_from_component_under(b.skip(1), rel);
            assert(q.skip(1) =~= b.skip(1).push('/') + rel);
        }
    }
}

proof fn lemma_after_components_under(b: Seq<char>, rel: Seq<char>)
    ensures
        after_components(b, b.push('/') + rel) == Some(from_component(rel)),
    decreases from_component(b).len(),
{
    let fb = from_component(b);
    let q = b.push('/') + rel;
    lemma_from_component_under(b, rel);
    lemma_from_component(b);
    if fb.len() > 0 {
        lemma_first_component(fb);
        let fq = fb.push('/') + rel;
        lemma_first_index_prefix(fb, rel);
        let n = text::first_index(fb, '/');
        assert(fq.take(n) =~= fb.take(n));
        assert(first_component(fq) == first_component(fb));
        let rest = fb.skip(n);
        lemma_from_component(rest);
        assert(fq.skip(n) =~= rest.push('/') + rel);
        lemma_after_components_under(rest, rel);
        assert(first_component(fb).len() == n);
    }
}

/// What lies below a directory is known by its path from there: a path that is the directory, a
/// separator and the rest is the rest, seen from the directory.
pub proof fn law_prefix_is_stripped(base: Seq<char>, rel: Seq<char>)
    requires
        base.len() > 0,
        rel.len() > 0,
        rel[0] != '/',
        rel.last() != '/',
        !(rel[0] == '.' && (rel.len() == 1 || rel[1] == '/')),
        !(rel.last() == '.' && rel.len() > 1 && rel[rel.len() - 2] == '/'),
    ensures
        strip_prefix(base + seq!['/'] + rel, base) == Some(rel),
{
    let p = base.push('/') + rel;
    assert(base + seq!['/'] + rel =~= p);
    lemma_after_components_under(base, rel);
    assert(p[0] == base[0]);
    if base.len() > 1 {
        assert(p[1] == base[1]);
    } else {
        assert(p[1] == '/');
    }
}

/// A path keeps its bytes where something is put under it, and gets those of what is put there
/// behind one separator.
pub proof fn law_native_join_keeps_the_bytes(base: NativePath, rel: Seq<char>)
    ensures
        native_join(base@, rel).text == join(base.text@, rel),
        base.bytes@.len() > 0 && base.bytes@.last() != 0x2f ==> native_join(base@, rel).bytes
            == base.bytes@ + seq![0x2fu8] + vstd::utf8::encode_utf8(rel),
        base.bytes@.len() == 0 || base.bytes@.last() == 0x2f ==> native_join(base@, rel).bytes
            == base.bytes@ + vstd::utf8::encode_utf8(rel),
        text_path(rel).text == rel && text_path(rel).bytes == vstd::utf8::encode_utf8(rel),
{
    assert(base.bytes@ + seq![0x2fu8] + vstd::utf8::encode_utf8(rel) =~= base.bytes@.push(0x2f)
        + vstd::utf8::encode_utf8(rel));
}

/// A file name is a component: not empty, without separators, and neither `.` nor `..`.
pub proof fn law_file_names_are_names(p: Seq<char>)
    ensures
        file_name(p) matches Some(name) ==> name != seq!['.'] && name != seq!['.', '.']
            && !name.contains('/') && name == last_component(p),
        file_name(p) is None && has_component(p) ==> last_component(p) == seq!['.']
            || last_component(p) == seq!['.', '.'],
{
    if has_component(p) {
        lemma_last_component_has_no_slash(p);
    }
}

/// Paths are ordered by the first component in which they differ, and a path comes before those
/// below it. The root comes before all names, and names come in the order of their texts.
pub proof fn law_paths_are_ordered_by_components(a: Seq<Seq<char>>, b: Seq<Seq<char>>, k: int)
    requires
        0 <= k <= a.len(),
        k < b.len(),
        forall|i: int| 0 <= i < k ==> #[trigger] a[i] == b[i],
    ensures
        k == a.len() ==> components_before(a, b),
        k < a.len() && a[k] != b[k] ==> (components_before(a, b) <==> {
            ||| a[k] == seq!['/']
            ||| a[k] == seq!['.'] && b[k] != seq!['/']
            ||| a[k] == seq!['.', '.'] && b[k] != seq!['/'] && b[k] != seq!['.']
            ||| {
                &&& a[k] != seq!['.'] && a[k] != seq!['.', '.']
                &&& b[k] != seq!['/'] && b[k] != seq!['.'] && b[k] != seq!['.', '.']
                &&& text::text_before(a[k], b[k])
            }
        }),
    decreases k,
{
    if k > 0 {
        assert(a[0] == b[0]);
        let x = a.skip(1);
        let y = b.skip(1);
        assert forall|i: int| 0 <= i < k - 1 implies #[trigger] x[i] == y[i] by {
            assert(a[i + 1] == b[i + 1]);
        }
        law_paths_are_ordered_by_components(x, y, k - 1);
    } else if a.len() > 0 {
        let slash = seq!['/'];
        let dot = seq!['.'];
        let dots = seq!['.', '.'];
        assert(slash[0] != dot[0] && slash[0] != dots[0] && dot.len() != dots.len());
    }
}

/// Only what lies below a path, spelled from the same beginning, is found below it.
pub proof fn law_other_paths_are_not_stripped(p: Seq<char>, base: Seq<char>)
    requires
        base.len() > 0,
        strip_prefix(p, base) is Some,
    ensures
        (p.len() > 0 && p[0] == '/') == (base[0] == '/'),
        (p.len() > 0 && p[0] == '.' && (p.len() == 1 || p[1] == '/')) == (base[0] == '.' && (
        base.len() == 1 || base[1] == '/')),
{
}

} // verus!
