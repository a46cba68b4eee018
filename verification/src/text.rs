//! Text operations on characters: ASCII case folding, trimming, splitting and
//! the number formats that names and messages use.

use vstd::prelude::*;

verus! {

/// `String::push`: appends the character to the end of the string.
pub assume_specification[ String::push ](s: &mut String, ch: char)
    ensures
        final(s)@ == old(s)@.push(ch),
;

// ---------------------------------------------------------------------------
// Models
// ---------------------------------------------------------------------------

/// `c` with an ASCII uppercase letter replaced by its lowercase form.
pub open spec fn ascii_lower_char(c: char) -> char {
    if 'A' <= c && c <= 'Z' {
        ((c as u32) + 32) as char
    } else {
        c
    }
}

/// `c` with an ASCII lowercase letter replaced by its uppercase form.
pub open spec fn ascii_upper_char(c: char) -> char {
    if 'a' <= c && c <= 'z' {
        ((c as u32) - 32) as char
    } else {
        c
    }
}

/// `s` with its ASCII letters in lowercase.
pub open spec fn ascii_lower(s: Seq<char>) -> Seq<char> {
    s.map_values(|c: char| ascii_lower_char(c))
}

/// `s` with its ASCII letters in uppercase.
pub open spec fn ascii_upper(s: Seq<char>) -> Seq<char> {
    s.map_values(|c: char| ascii_upper_char(c))
}

/// `a` and `b` differ at most in the case of ASCII letters.
pub open spec fn same_ignoring_case(a: Seq<char>, b: Seq<char>) -> bool {
    ascii_lower(a) == ascii_lower(b)
}

/// The characters of the Unicode property `White_Space`.
pub open spec fn is_white_space(c: char) -> bool {
    let n = c as u32;
    ||| 0x9 <= n <= 0xD
    ||| n == 0x20
    ||| n == 0x85
    ||| n == 0xA0
    ||| n == 0x1680
    ||| 0x2000 <= n <= 0x200A
    ||| n == 0x2028
    ||| n == 0x2029
    ||| n == 0x202F
    ||| n == 0x205F
    ||| n == 0x3000
}

/// `s` without its leading white space.
pub open spec fn trim_start(s: Seq<char>) -> Seq<char>
    decreases s.len(),
{
    if s.len() > 0 && is_white_space(s[0]) {
        trim_start(s.skip(1))
    } else {
        s
    }
}

/// `s` without its trailing white space.
pub open spec fn trim_end(s: Seq<char>) -> Seq<char>
    decreases s.len(),
{
    if s.len() > 0 && is_white_space(s.last()) {
        trim_end(s.drop_last())
    } else {
        s
    }
}

/// `s` without white space at either end.
pub open spec fn trimmed(s: Seq<char>) -> Seq<char> {
    trim_end(trim_start(s))
}

/// The index of the last `c` in `s`, or -1.
pub open spec fn last_index(s: Seq<char>, c: char) -> int
    decreases s.len(),
{
    if s.len() == 0 {
        -1
    } else if s.last() == c {
        s.len() - 1
    } else {
        last_index(s.drop_last(), c)
    }
}

/// The index of the first `c` in `s`, or the length of `s`.
pub open spec fn first_index(s: Seq<char>, c: char) -> int
    decreases s.len(),
{
    if s.len() == 0 || s[0] == c {
        0
    } else {
        1 + first_index(s.skip(1), c)
    }
}

/// What follows the last `c` in `s`; all of `s` where there is none.
pub open spec fn after_last(s: Seq<char>, c: char) -> Seq<char> {
    s.skip(last_index(s, c) + 1)
}

/// What precedes the last `c` in `s`; nothing where there is none.
pub open spec fn before_last(s: Seq<char>, c: char) -> Seq<char> {
    if last_index(s, c) < 0 {
        Seq::empty()
    } else {
        s.take(last_index(s, c))
    }
}

/// How often `c` occurs in `s`.
pub open spec fn count(s: Seq<char>, c: char) -> nat
    decreases s.len(),
{
    if s.len() == 0 {
        0
    } else {
        count(s.drop_last(), c) + if s.last() == c {
            1nat
        } else {
            0
        }
    }
}

/// The pieces of `s` between occurrences of `c`; always at least one.
pub open spec fn split(s: Seq<char>, c: char) -> Seq<Seq<char>>
    decreases s.len(),
{
    let k = last_index(s, c);
    if k < 0 || k >= s.len() {
        seq![s]
    } else {
        split(s.take(k), c).push(s.skip(k + 1))
    }
}

/// The texts of `parts` with `sep` between neighbours.
pub open spec fn join(parts: Seq<Seq<char>>, sep: Seq<char>) -> Seq<char>
    decreases parts.len(),
{
    if parts.len() == 0 {
        Seq::empty()
    } else if parts.len() == 1 {
        parts[0]
    } else {
        join(parts.drop_last(), sep) + sep + parts.last()
    }
}

/// The decimal digit for a value below ten.
pub open spec fn digit(d: nat) -> char {
    (('0' as u32) + d) as char
}

/// `n` in decimal, without leading zeros.
pub open spec fn decimal(n: nat) -> Seq<char>
    decreases n,
{
    if n < 10 {
        seq![digit(n)]
    } else {
        decimal(n / 10).push(digit(n % 10))
    }
}

/// The lowercase hexadecimal digit for a value below sixteen.
pub open spec fn hex_digit(d: nat) -> char {
    if d < 10 {
        digit(d)
    } else {
        (('a' as u32) + (d - 10)) as char
    }
}

/// The lowest `width` hexadecimal digits of `n`.
pub open spec fn hex(n: nat, width: nat) -> Seq<char>
    decreases width,
{
    if width == 0 {
        Seq::empty()
    } else {
        hex(n / 16, (width - 1) as nat).push(hex_digit(n % 16))
    }
}

/// `n` copies of `c`.
pub open spec fn repeated(c: char, n: nat) -> Seq<char> {
    Seq::new(n, |i: int| c)
}

/// `s` filled up with zeros on the left to `width` characters.
pub open spec fn zero_pad(s: Seq<char>, width: nat) -> Seq<char> {
    if s.len() >= width {
        s
    } else {
        repeated('0', (width - s.len()) as nat) + s
    }
}

/// `s` filled up with spaces on the right to `width` characters.
pub open spec fn space_pad(s: Seq<char>, width: nat) -> Seq<char> {
    if s.len() >= width {
        s
    } else {
        s + repeated(' ', (width - s.len()) as nat)
    }
}

/// The texts that a list of strings holds.
pub open spec fn texts(v: Seq<String>) -> Seq<Seq<char>> {
    v.map_values(|s: String| s@)
}

/// The text that an optional string holds.
pub open spec fn opt_text(s: Option<String>) -> Option<Seq<char>> {
    match s {
        Some(t) => Some(t@),
        None => None,
    }
}

/// `a` comes before `b` in the order of their characters' code points.
pub open spec fn text_before(a: Seq<char>, b: Seq<char>) -> bool
    decreases a.len(),
{
    if b.len() == 0 {
        false
    } else if a.len() == 0 {
        true
    } else if a[0] != b[0] {
        a[0] < b[0]
    } else {
        text_before(a.skip(1), b.skip(1))
    }
}

// ---------------------------------------------------------------------------
// Characters and copies
// ---------------------------------------------------------------------------

/// The characters of `s`.
pub fn to_chars(s: &str) -> (r: Vec<char>)
    ensures
        r@ == s@,
{
    let mut out: Vec<char> = Vec::new();
    for c in it: s.chars()
        invariant
            out@ == s@.take(it.index()),
            it.seq() == s@,
    {
        proof {
            assert(s@.take(it.index() + 1) =~= s@.take(it.index()).push(s@[it.index()]));
        }
        out.push(c);
    }
    proof {
        assert(s@.take(s@.len() as int) =~= s@);
    }
    out
}

/// The text of the characters `from..to`.
pub fn from_chars(v: &Vec<char>, from: usize, to: usize) -> (r: String)
    requires
        from <= to <= v@.len(),
    ensures
        r@ == v@.subrange(from as int, to as int),
{
    let mut out: String = String::new();
    let mut i: usize = from;
    while i < to
        invariant
            from <= i <= to <= v@.len(),
            out@ == v@.subrange(from as int, i as int),
        decreases to - i,
    {
        out.push(v[i]);
        proof {
            assert(v@.subrange(from as int, i + 1) =~= v@.subrange(from as int, i as int).push(v@[i as int]));
        }
        i += 1;
    }
    out
}

/// An owned copy of `s`.
pub fn copy_str(s: &str) -> (r: String)
    ensures
        r@ == s@,
{
    s.to_string()
}

/// `s` followed by `t`.
pub fn with(s: String, t: &str) -> (r: String)
    ensures
        r@ == s@ + t@,
{
    let mut out = s;
    out.append(t);
    out
}

/// A copy of an optional string.
pub fn copy_opt(s: &Option<String>) -> (r: Option<String>)
    ensures
        opt_text(r) == opt_text(*s),
{
    match s {
        Some(t) => Some(t.clone()),
        None => None,
    }
}

/// A copy of a list of strings.
pub fn copy_all(v: &Vec<String>) -> (r: Vec<String>)
    ensures
        texts(r@) == texts(v@),
{
    let mut out: Vec<String> = Vec::new();
    let mut i: usize = 0;
    while i < v.len()
        invariant
            i <= v@.len(),
            texts(out@) == texts(v@.take(i as int)),
        decreases v@.len() - i,
    {
        let t = v[i].clone();
        proof {
            assert(v@.take(i + 1) =~= v@.take(i as int).push(v@[i as int]));
            assert(texts(out@.push(t)) =~= texts(out@).push(t@));
            assert(texts(v@.take(i + 1)) =~= texts(v@.take(i as int)).push(v@[i as int]@));
        }
        out.push(t);
        i += 1;
    }
    proof {
        assert(v@.take(v@.len() as int) =~= v@);
    }
    out
}

/// Whether two texts are equal.
pub fn same_text(a: &str, b: &str) -> (r: bool)
    ensures
        r == (a@ == b@),
{
    let x = to_chars(a);
    let y = to_chars(b);
    same_chars(&x, &y)
}

/// Whether a list holds a text.
pub fn any_text(v: &Vec<String>, s: &str) -> (r: bool)
    ensures
        r == texts(v@).contains(s@),
{
    let mut i: usize = 0;
    while i < v.len()
        invariant
            i <= v@.len(),
            forall|j: int| 0 <= j < i ==> texts(v@)[j] != s@,
        decreases v@.len() - i,
    {
        if same_text(v[i].as_str(), s) {
            proof {
                assert(texts(v@)[i as int] == s@);
            }
            return true;
        }
        i += 1;
    }
    false
}

fn same_chars(x: &Vec<char>, y: &Vec<char>) -> (r: bool)
    ensures
        r == (x@ == y@),
{
    if x.len() != y.len() {
        return false;
    }
    let mut i: usize = 0;
    while i < x.len()
        invariant
            i <= x@.len(),
            x@.len() == y@.len(),
            forall|j: int| 0 <= j < i ==> x@[j] == y@[j],
        decreases x@.len() - i,
    {
        if x[i] != y[i] {
            return false;
        }
        i += 1;
    }
    proof {
        assert(x@ =~= y@);
    }
    true
}

// ---------------------------------------------------------------------------
// Case
// ---------------------------------------------------------------------------

fn lower_char(c: char) -> (r: char)
    ensures
        r == ascii_lower_char(c),
{
    if 'A' <= c && c <= 'Z' {
        ((c as u8) + 32) as char
    } else {
        c
    }
}

fn upper_char(c: char) -> (r: char)
    ensures
        r == ascii_upper_char(c),
{
    if 'a' <= c && c <= 'z' {
        ((c as u8) - 32) as char
    } else {
        c
    }
}

/// `s` with its ASCII letters in lowercase.
pub fn to_ascii_lower(s: &str) -> (r: String)
    ensures
        r@ == ascii_lower(s@),
{
    let v = to_chars(s);
    let mut out: String = String::new();
    let mut i: usize = 0;
    while i < v.len()
        invariant
            i <= v@.len(),
            out@ == ascii_lower(v@.take(i as int)),
        decreases v@.len() - i,
    {
        proof {
            assert(ascii_lower(v@.take(i + 1)) =~= ascii_lower(v@.take(i as int)).push(
                ascii_lower_char(v@[i as int]),
            ));
        }
        out.push(lower_char(v[i]));
        i += 1;
    }
    proof {
        assert(v@.take(v@.len() as int) =~= v@);
    }
    out
}

/// `s` with its ASCII letters in uppercase.
pub fn to_ascii_upper(s: &str) -> (r: String)
    ensures
        r@ == ascii_upper(s@),
{
    let v = to_chars(s);
    let mut out: String = String::new();
    let mut i: usize = 0;
    while i < v.len()
        invariant
            i <= v@.len(),
            out@ == ascii_upper(v@.take(i as int)),
        decreases v@.len() - i,
    {
        proof {
            assert(ascii_upper(v@.take(i + 1)) =~= ascii_upper(v@.take(i as int)).push(
                ascii_upper_char(v@[i as int]),
            ));
        }
        out.push(upper_char(v[i]));
        i += 1;
    }
    proof {
        assert(v@.take(v@.len() as int) =~= v@);
    }
    out
}

/// Whether two texts are equal up to the case of ASCII letters.
pub fn eq_ignore_ascii_case(a: &str, b: &str) -> (r: bool)
    ensures
        r == same_ignoring_case(a@, b@),
{
    let x = to_chars(a);
    let y = to_chars(b);
    if x.len() != y.len() {
        proof {
            assert(ascii_lower(a@).len() != ascii_lower(b@).len());
        }
        return false;
    }
    let mut i: usize = 0;
    while i < x.len()
        invariant
            i <= x@.len(),
            x@.len() == y@.len(),
            x@ == a@,
            y@ == b@,
            forall|j: int| 0 <= j < i ==> ascii_lower_char(x@[j]) == ascii_lower_char(y@[j]),
        decreases x@.len() - i,
    {
        if lower_char(x[i]) != lower_char(y[i]) {
            proof {
                assert(ascii_lower(a@)[i as int] != ascii_lower(b@)[i as int]);
            }
            return false;
        }
        i += 1;
    }
    proof {
        assert(ascii_lower(a@) =~= ascii_lower(b@));
    }
    true
}

// ---------------------------------------------------------------------------
// Lowercase beyond ASCII
// ---------------------------------------------------------------------------

/// Whether every character of `s` is ASCII.
pub open spec fn all_ascii(s: Seq<char>) -> bool {
    forall|i: int| 0 <= i < s.len() ==> #[trigger] s[i] <= '\x7f'
}

/// The lowercase form of a text in the sense of `str::to_lowercase`.
pub uninterp spec fn unicode_lower(s: Seq<char>) -> Seq<char>;

/// `str::to_lowercase`: the Unicode lowercase form of the text, a function of
/// the text alone. On ASCII text it is the ASCII lowercase form.
#[verifier::external_body]
pub(crate) fn to_lowercase(s: &str) -> (r: String)
    ensures
        r@ == unicode_lower(s@),
        all_ascii(s@) ==> r@ == ascii_lower(s@),
{
    s.to_lowercase()
}

// ---------------------------------------------------------------------------
// Trimming and searching
// ---------------------------------------------------------------------------

fn white_space(c: char) -> (r: bool)
    ensures
        r == is_white_space(c),
{
    let n: u32 = c as u32;
    (0x9 <= n && n <= 0xD) || n == 0x20 || n == 0x85 || n == 0xA0 || n == 0x1680 || (0x2000 <= n
        && n <= 0x200A) || n == 0x2028 || n == 0x2029 || n == 0x202F || n == 0x205F || n == 0x3000
}

/// `s` without white space at either end.
pub fn trim(s: &str) -> (r: String)
    ensures
        r@ == trimmed(s@),
{
    let v = to_chars(s);
    let mut i: usize = 0;
    proof {
        assert(v@.skip(0) =~= v@);
    }
    while i < v.len() && white_space(v[i])
        invariant
            i <= v@.len(),
            trim_start(v@.skip(i as int)) == trim_start(v@),
        decreases v@.len() - i,
    {
        proof {
            assert(v@.skip(i as int).skip(1) =~= v@.skip(i + 1));
        }
        i += 1;
    }
    let mut j: usize = v.len();
    proof {
        assert(v@.subrange(i as int, j as int) =~= v@.skip(i as int));
    }
    while j > i && white_space(v[j - 1])
        invariant
            i <= j <= v@.len(),
            trim_end(v@.subrange(i as int, j as int)) == trim_end(v@.skip(i as int)),
        decreases j,
    {
        proof {
            assert(v@.subrange(i as int, j as int).drop_last() =~= v@.subrange(i as int, j - 1));
        }
        j -= 1;
    }
    from_chars(&v, i, j)
}

/// `s` without white space at its end.
pub fn trim_right(s: &str) -> (r: String)
    ensures
        r@ == trim_end(s@),
{
    let v = to_chars(s);
    let mut j: usize = v.len();
    proof {
        assert(v@.subrange(0, j as int) =~= v@);
    }
    while j > 0 && white_space(v[j - 1])
        invariant
            j <= v@.len(),
            trim_end(v@.subrange(0, j as int)) == trim_end(v@),
        decreases j,
    {
        proof {
            assert(v@.subrange(0, j as int).drop_last() =~= v@.subrange(0, j - 1));
        }
        j -= 1;
    }
    from_chars(&v, 0, j)
}

proof fn lemma_last_index(s: Seq<char>, c: char)
    ensures
        -1 <= last_index(s, c) < s.len(),
        last_index(s, c) >= 0 ==> s[last_index(s, c)] == c,
        forall|j: int| last_index(s, c) < j < s.len() ==> s[j] != c,
    decreases s.len(),
{
    if s.len() > 0 && s.last() != c {
        lemma_last_index(s.drop_last(), c);
        assert forall|j: int| last_index(s, c) < j < s.len() implies s[j] != c by {
            if j < s.len() - 1 {
                assert(s.drop_last()[j] == s[j]);
            }
        }
    }
}

/// The last index of a character is the one index that holds it and has none
/// after it.
pub proof fn lemma_last_index_is(s: Seq<char>, c: char, k: int)
    requires
        -1 <= k < s.len(),
        k >= 0 ==> s[k] == c,
        forall|j: int| k < j < s.len() ==> s[j] != c,
    ensures
        last_index(s, c) == k,
{
    lemma_last_index(s, c);
}

/// A text has no last index of a character exactly if it does not hold it.
pub proof fn lemma_last_index_bounds(s: Seq<char>, c: char)
    ensures
        -1 <= last_index(s, c) < s.len(),
        last_index(s, c) >= 0 ==> s[last_index(s, c)] == c,
        forall|j: int| last_index(s, c) < j < s.len() ==> s[j] != c,
        last_index(s, c) >= 0 <==> s.contains(c),
{
    lemma_last_index(s, c);
}

/// What follows the last `c` has no `c`.
pub proof fn lemma_after_last(s: Seq<char>, c: char)
    ensures
        !after_last(s, c).contains(c),
{
    lemma_last_index_bounds(s, c);
    let k = last_index(s, c);
    assert forall|i: int| 0 <= i < after_last(s, c).len() implies after_last(s, c)[i] != c by {
        assert(after_last(s, c)[i] == s[k + 1 + i]);
    }
}

/// The index of the last `c` in `s`, counted in characters.
pub fn rfind(s: &str, c: char) -> (r: Option<usize>)
    ensures
        match r {
            Some(k) => last_index(s@, c) == k && k < s@.len(),
            None => last_index(s@, c) == -1,
        },
{
    let v = to_chars(s);
    let mut i: usize = v.len();
    while i > 0
        invariant
            i <= v@.len(),
            v@ == s@,
            forall|j: int| i <= j < v@.len() ==> v@[j] != c,
        decreases i,
    {
        i -= 1;
        if v[i] == c {
            proof {
                lemma_last_index_is(s@, c, i as int);
            }
            return Some(i);
        }
    }
    proof {
        lemma_last_index_is(s@, c, -1);
    }
    None
}

/// Whether `s` holds `c`.
pub fn contains_char(s: &str, c: char) -> (r: bool)
    ensures
        r == s@.contains(c),
{
    proof {
        lemma_last_index_bounds(s@, c);
    }
    match rfind(s, c) {
        Some(_) => true,
        None => false,
    }
}

/// What follows the last `c` in `s`; all of `s` where there is none.
pub fn text_after_last(s: &str, c: char) -> (r: String)
    ensures
        r@ == after_last(s@, c),
{
    let v = to_chars(s);
    let n: usize = v.len();
    match rfind(s, c) {
        Some(k) => {
            proof {
                assert(s@.subrange(k + 1, s@.len() as int) =~= s@.skip(k + 1));
            }
            from_chars(&v, k + 1, n)
        },
        None => {
            proof {
                assert(s@.skip(0) =~= s@);
            }
            copy_str(s)
        },
    }
}

/// What precedes the last `c` in `s`; nothing where there is none.
pub fn text_before_last(s: &str, c: char) -> (r: String)
    ensures
        r@ == before_last(s@, c),
{
    let v = to_chars(s);
    match rfind(s, c) {
        Some(k) => {
            proof {
                assert(s@.subrange(0, k as int) =~= s@.take(k as int));
            }
            from_chars(&v, 0, k)
        },
        None => String::new(),
    }
}

/// How the pieces between separators grow with one more character.
pub proof fn lemma_split_step(s: Seq<char>, c: char)
    requires
        s.len() > 0,
    ensures
        s.last() == c ==> split(s, c) == split(s.drop_last(), c).push(Seq::empty()),
        s.last() != c ==> ({
            let p = split(s.drop_last(), c);
            p.len() > 0 && split(s, c) == p.update(p.len() - 1, p.last().push(s.last()))
        }),
{
    let t = s.drop_last();
    lemma_last_index(s, c);
    lemma_last_index(t, c);
    if s.last() == c {
        assert(s.take(s.len() - 1) =~= t);
        assert(s.skip(s.len() as int) =~= Seq::<char>::empty());
    } else {
        let k = last_index(t, c);
        assert(last_index(s, c) == k);
        if k < 0 {
            assert(split(t, c) =~= seq![t]);
            assert(t.push(s.last()) =~= s);
            assert(split(s, c) =~= split(t, c).update(0, t.push(s.last())));
        } else {
            assert(s.take(k) =~= t.take(k));
            assert(s.skip(k + 1) =~= t.skip(k + 1).push(s.last()));
            let p = split(t, c);
            assert(p == split(t.take(k), c).push(t.skip(k + 1)));
            assert(split(s, c) =~= p.update(p.len() - 1, p.last().push(s.last())));
        }
    }
}

/// The pieces of `s` between occurrences of `c`.
pub fn split_on(s: &str, c: char) -> (r: Vec<String>)
    ensures
        texts(r@) == split(s@, c),
        r@.len() > 0,
{
    let v = to_chars(s);
    let mut out: Vec<String> = Vec::new();
    let mut piece: String = String::new();
    let mut i: usize = 0;
    proof {
        assert(v@.take(0) =~= Seq::<char>::empty());
        assert(texts(out@).push(piece@) =~= split(v@.take(0), c));
    }
    while i < v.len()
        invariant
            i <= v@.len(),
            texts(out@).push(piece@) == split(v@.take(i as int), c),
        decreases v@.len() - i,
    {
        let ghost before = texts(out@);
        let ghost piece_before = piece@;
        proof {
            lemma_split_step(v@.take(i + 1), c);
            assert(v@.take(i + 1).drop_last() =~= v@.take(i as int));
        }
        if v[i] == c {
            let full = piece;
            piece = String::new();
            proof {
                assert(texts(out@.push(full)) =~= before.push(full@));
            }
            out.push(full);
            proof {
                assert(texts(out@).push(piece@) =~= split(v@.take(i + 1), c));
            }
        } else {
            piece.push(v[i]);
            proof {
                let p = before.push(piece_before);
                assert(texts(out@).push(piece@) =~= p.update(p.len() - 1, p.last().push(v@[i as int])));
            }
        }
        i += 1;
    }
    proof {
        assert(v@.take(v@.len() as int) =~= v@);
        assert(texts(out@.push(piece)) =~= texts(out@).push(piece@));
    }
    out.push(piece);
    out
}

/// The texts of `parts` with `sep` between neighbours.
pub fn join_with(parts: &Vec<String>, sep: &str) -> (r: String)
    ensures
        r@ == join(texts(parts@), sep@),
{
    let mut out: String = String::new();
    let mut i: usize = 0;
    while i < parts.len()
        invariant
            i <= parts@.len(),
            out@ == join(texts(parts@).take(i as int), sep@),
        decreases parts@.len() - i,
    {
        proof {
            let t = texts(parts@);
            assert(t.take(i + 1).drop_last() =~= t.take(i as int));
            assert(t.take(i + 1).last() == parts@[i as int]@);
        }
        if i > 0 {
            out.append(sep);
        }
        out.append(parts[i].as_str());
        i += 1;
        proof {
            assert(out@ =~= join(texts(parts@).take(i as int), sep@));
        }
    }
    proof {
        assert(texts(parts@).take(parts@.len() as int) =~= texts(parts@));
    }
    out
}

/// `p` stands in `s` at `i`.
pub open spec fn stands_at(s: Seq<char>, p: Seq<char>, i: int) -> bool {
    0 <= i && i + p.len() <= s.len() && s.subrange(i, i + p.len()) == p
}

/// `p` stands somewhere in `s`.
pub open spec fn holds(s: Seq<char>, p: Seq<char>) -> bool {
    exists|i: int| stands_at(s, p, i)
}

/// Whether `p` stands somewhere in `s`.
pub fn contains_text(s: &str, p: &str) -> (r: bool)
    ensures
        r == holds(s@, p@),
{
    let v = to_chars(s);
    let w = to_chars(p);
    let n: usize = w.len();
    let mut i: usize = 0;
    while i <= v.len() && n <= v.len() - i
        invariant
            v@ == s@,
            w@ == p@,
            n == w@.len(),
            i <= v@.len() + 1,
            v@.len() == v.len(),
            forall|k: int| 0 <= k < i ==> !stands_at(s@, p@, k),
        decreases v@.len() + 1 - i,
    {
        let mut j: usize = 0;
        while j < n && v[i + j] == w[j]
            invariant
                v@ == s@,
                w@ == p@,
                n == w@.len(),
                j <= n,
                i + n <= v@.len(),
                v@.len() <= usize::MAX,
                forall|k: int| 0 <= k < j ==> s@[i + k] == p@[k],
            decreases n - j,
        {
            j += 1;
        }
        if j == n {
            proof {
                assert(s@.subrange(i as int, i + n) =~= p@);
                assert(stands_at(s@, p@, i as int));
            }
            return true;
        }
        proof {
            if stands_at(s@, p@, i as int) {
                assert(s@.subrange(i as int, i + n)[j as int] == s@[i + j]);
            }
        }
        if i == v.len() {
            return false;
        }
        i += 1;
    }
    proof {
        assert forall|k: int| !stands_at(s@, p@, k) by {
            if stands_at(s@, p@, k) && k >= i {
                assert(k + n <= v@.len());
            }
        }
    }
    false
}

/// Whether `s` begins with `prefix`.
pub fn starts_with(s: &str, prefix: &str) -> (r: bool)
    ensures
        r == prefix@.is_prefix_of(s@),
{
    let v = to_chars(s);
    let p = to_chars(prefix);
    if p.len() > v.len() {
        return false;
    }
    let mut i: usize = 0;
    while i < p.len()
        invariant
            i <= p@.len() <= v@.len(),
            v@ == s@,
            p@ == prefix@,
            forall|j: int| 0 <= j < i ==> p@[j] == v@[j],
        decreases p@.len() - i,
    {
        if p[i] != v[i] {
            proof {
                assert(s@.subrange(0, prefix@.len() as int)[i as int] == s@[i as int]);
            }
            return false;
        }
        i += 1;
    }
    proof {
        assert(prefix@ =~= s@.subrange(0, prefix@.len() as int));
    }
    true
}

/// Whether `a` comes before `b` in the order of their code points.
pub fn less_text(a: &str, b: &str) -> (r: bool)
    ensures
        r == text_before(a@, b@),
{
    let x = to_chars(a);
    let y = to_chars(b);
    let mut i: usize = 0;
    proof {
        assert(x@.skip(0) =~= x@);
        assert(y@.skip(0) =~= y@);
    }
    while i < x.len() && i < y.len() && x[i] == y[i]
        invariant
            i <= x@.len(),
            i <= y@.len(),
            text_before(x@.skip(i as int), y@.skip(i as int)) == text_before(x@, y@),
        decreases x@.len() - i,
    {
        proof {
            assert(x@.skip(i as int).skip(1) =~= x@.skip(i + 1));
            assert(y@.skip(i as int).skip(1) =~= y@.skip(i + 1));
        }
        i += 1;
    }
    if i >= y.len() {
        false
    } else if i >= x.len() {
        true
    } else {
        x[i] < y[i]
    }
}

// ---------------------------------------------------------------------------
// Numbers
// ---------------------------------------------------------------------------

fn digit_char(d: u64) -> (r: char)
    requires
        d < 10,
    ensures
        r == digit(d as nat),
{
    (48u8 + (d as u8)) as char
}

/// `n` in decimal.
pub fn decimal_text(n: u64) -> (r: String)
    ensures
        r@ == decimal(n as nat),
    decreases n,
{
    if n < 10 {
        let mut s = String::new();
        s.push(digit_char(n));
        proof {
            assert(s@ =~= seq![digit(n as nat)]);
        }
        s
    } else {
        let mut s = decimal_text(n / 10);
        s.push(digit_char(n % 10));
        s
    }
}

/// The lowest `width` hexadecimal digits of `n`.
pub fn hex_text(n: u64, width: usize) -> (r: String)
    ensures
        r@ == hex(n as nat, width as nat),
    decreases width,
{
    if width == 0 {
        String::new()
    } else {
        let mut s = hex_text(n / 16, width - 1);
        let d: u64 = n % 16;
        if d < 10 {
            s.push(digit_char(d));
        } else {
            s.push((97u8 + ((d - 10) as u8)) as char);
        }
        s
    }
}

/// `s` filled up with zeros on the left to `width` characters.
pub fn zero_padded(s: &str, width: usize) -> (r: String)
    ensures
        r@ == zero_pad(s@, width as nat),
{
    let n: usize = s.unicode_len();
    if n >= width {
        return copy_str(s);
    }
    let mut out = String::new();
    let mut i: usize = n;
    while i < width
        invariant
            n <= i <= width,
            out@ == repeated('0', (i - n) as nat),
        decreases width - i,
    {
        out.push('0');
        i += 1;
        proof {
            assert(out@ =~= repeated('0', (i - n) as nat));
        }
    }
    out.append(s);
    out
}

/// `s` filled up with spaces on the right to `width` characters.
pub fn space_padded(s: &str, width: usize) -> (r: String)
    ensures
        r@ == space_pad(s@, width as nat),
{
    let n: usize = s.unicode_len();
    let mut out = copy_str(s);
    if n >= width {
        return out;
    }
    let mut i: usize = n;
    proof {
        assert(s@ + repeated(' ', 0) =~= s@);
    }
    while i < width
        invariant
            n <= i <= width,
            n == s@.len(),
            out@ == s@ + repeated(' ', (i - n) as nat),
        decreases width - i,
    {
        out.push(' ');
        i += 1;
        proof {
            assert(out@ =~= s@ + repeated(' ', (i - n) as nat));
        }
    }
    out
}

// ---------------------------------------------------------------------------
// The order of texts
// ---------------------------------------------------------------------------

/// Two texts are equal or one comes before the other, and not both.
pub proof fn lemma_text_order_total(a: Seq<char>, b: Seq<char>)
    ensures
        a == b <==> !text_before(a, b) && !text_before(b, a),
        !(text_before(a, b) && text_before(b, a)),
    decreases a.len(),
{
    if a.len() == 0 || b.len() == 0 {
        if a.len() == b.len() {
            assert(a =~= b);
        }
    } else if a[0] == b[0] {
        lemma_text_order_total(a.skip(1), b.skip(1));
        if a.skip(1) == b.skip(1) {
            assert(a =~= seq![a[0]] + a.skip(1));
            assert(b =~= seq![b[0]] + b.skip(1));
            assert(a == b);
        }
    } else {
        assert(a != b);
    }
}

/// The order of texts is transitive.
pub proof fn lemma_text_order_transitive(a: Seq<char>, b: Seq<char>, c: Seq<char>)
    requires
        text_before(a, b),
        text_before(b, c),
    ensures
        text_before(a, c),
    decreases a.len(),
{
    if a.len() > 0 && b.len() > 0 && c.len() > 0 && a[0] == b[0] && b[0] == c[0] {
        lemma_text_order_transitive(a.skip(1), b.skip(1), c.skip(1));
    }
}

// ---------------------------------------------------------------------------
// Trimming again
// ---------------------------------------------------------------------------

pub proof fn lemma_ascii_lower_twice(s: Seq<char>)
    ensures
        ascii_lower(ascii_lower(s)) == ascii_lower(s),
        all_ascii(s) ==> all_ascii(ascii_lower(s)),
{
    let t = ascii_lower(s);
    assert forall|i: int| 0 <= i < t.len() implies #[trigger] ascii_lower(t)[i] == t[i] by {
        assert(t[i] == ascii_lower_char(s[i]));
    }
    assert(ascii_lower(t) =~= t);
    if all_ascii(s) {
        assert forall|i: int| 0 <= i < t.len() implies #[trigger] t[i] <= '\x7f' by {
            assert(s[i] <= '\x7f');
            assert(t[i] == ascii_lower_char(s[i]));
        }
    }
}

pub proof fn lemma_count_concat(a: Seq<char>, b: Seq<char>, c: char)
    ensures
        count(a + b, c) == count(a, c) + count(b, c),
    decreases b.len(),
{
    if b.len() == 0 {
        assert(a + b =~= a);
    } else {
        assert((a + b).drop_last() =~= a + b.drop_last());
        lemma_count_concat(a, b.drop_last(), c);
    }
}

pub proof fn lemma_count_none(s: Seq<char>, c: char)
    requires
        forall|i: int| 0 <= i < s.len() ==> s[i] != c,
    ensures
        count(s, c) == 0,
    decreases s.len(),
{
    if s.len() > 0 {
        lemma_count_none(s.drop_last(), c);
    }
}

proof fn lemma_trim_start(s: Seq<char>)
    ensures
        trim_start(s).len() > 0 ==> !is_white_space(trim_start(s)[0]),
    decreases s.len(),
{
    if s.len() > 0 && is_white_space(s[0]) {
        lemma_trim_start(s.skip(1));
    }
}

proof fn lemma_trim_end(s: Seq<char>)
    ensures
        trim_end(s).len() > 0 ==> !is_white_space(trim_end(s).last()) && s.len() > 0 && trim_end(
            s,
        )[0] == s[0],
    decreases s.len(),
{
    if s.len() > 0 && is_white_space(s.last()) {
        lemma_trim_end(s.drop_last());
    }
}

/// Trimming a trimmed text changes nothing.
pub proof fn lemma_trimmed_twice(s: Seq<char>)
    ensures
        trimmed(trimmed(s)) == trimmed(s),
{
    lemma_trim_start(s);
    lemma_trim_end(trim_start(s));
    let t = trimmed(s);
    assert(trim_start(t) == t);
    assert(trim_end(t) == t);
}

// ---------------------------------------------------------------------------
// Keys made of a number and a text
// ---------------------------------------------------------------------------

/// A number and a text as one text, from which both can be told.
pub open spec fn numbered(n: nat, s: Seq<char>) -> Seq<char> {
    decimal(n).push('/') + s
}

/// A number and a text as one text.
pub fn numbered_text(n: u64, s: &str) -> (r: String)
    ensures
        r@ == numbered(n as nat, s@),
{
    let mut out = decimal_text(n);
    out.push('/');
    out.append(s);
    out
}

/// Decimal numbers are made of digits.
pub proof fn lemma_decimal_digits(n: nat)
    ensures
        decimal(n).len() > 0,
        n >= 10 ==> decimal(n).len() > 1,
        forall|i: int| 0 <= i < decimal(n).len() ==> '0' <= #[trigger] decimal(n)[i] <= '9',
    decreases n,
{
    if n >= 10 {
        lemma_decimal_digits(n / 10);
    }
}

/// A number is told by its decimal digits.
pub proof fn lemma_decimal_injective(a: nat, b: nat)
    requires
        decimal(a) == decimal(b),
    ensures
        a == b,
    decreases a,
{
    lemma_decimal_digits(a);
    lemma_decimal_digits(b);
    if a < 10 {
        assert(decimal(a)[0] == digit(a));
        assert(decimal(b)[0] == digit(b));
    } else {
        assert(decimal(a).last() == digit(a % 10));
        assert(decimal(b).last() == digit(b % 10));
        assert(decimal(a).drop_last() =~= decimal(a / 10));
        assert(decimal(b).drop_last() =~= decimal(b / 10));
        lemma_decimal_injective(a / 10, b / 10);
    }
}

/// Number and text can be told from what they make together.
pub proof fn lemma_numbered_injective(a: nat, x: Seq<char>, b: nat, y: Seq<char>)
    requires
        numbered(a, x) == numbered(b, y),
    ensures
        a == b,
        x == y,
{
    lemma_decimal_digits(a);
    lemma_decimal_digits(b);
    let m = decimal(a).len() as int;
    let n = decimal(b).len() as int;
    let k = numbered(a, x);
    assert(k[m] == '/');
    assert(numbered(b, y)[n] == '/');
    if m < n {
        assert(k[m] == decimal(b)[m]);
    }
    if n < m {
        assert(k[n] == decimal(a)[n]);
    }
    assert(decimal(a) =~= k.take(m));
    assert(decimal(b) =~= k.take(n));
    lemma_decimal_injective(a, b);
    assert(x =~= k.skip(m + 1));
    assert(y =~= k.skip(n + 1));
}

/// Two texts as one text, from which both can be told.
pub open spec fn paired(a: Seq<char>, b: Seq<char>) -> Seq<char> {
    numbered(a.len(), a + b)
}

/// Two texts as one text.
pub fn paired_text(a: &str, b: &str) -> (r: String)
    ensures
        r@ == paired(a@, b@),
{
    let mut both = copy_str(a);
    both.append(b);
    numbered_text(a.unicode_len() as u64, both.as_str())
}

/// Two texts can be told from what they make together.
pub proof fn lemma_paired_injective(a1: Seq<char>, b1: Seq<char>, a2: Seq<char>, b2: Seq<char>)
    requires
        paired(a1, b1) == paired(a2, b2),
    ensures
        a1 == a2,
        b1 == b2,
{
    let x = a1 + b1;
    let y = a2 + b2;
    lemma_numbered_injective(a1.len(), x, a2.len(), y);
    assert(a1 =~= x.take(a1.len() as int));
    assert(a2 =~= y.take(a2.len() as int));
    assert(b1 =~= x.skip(a1.len() as int));
    assert(b2 =~= y.skip(a2.len() as int));
}

// ---------------------------------------------------------------------------
// Laws
// ---------------------------------------------------------------------------

/// Folding the case of a text touches its ASCII letters and nothing else: each is 32 apart
/// from its other form.
pub proof fn law_case_folding_touches_letters(s: Seq<char>, i: int)
    requires
        0 <= i < s.len(),
    ensures
        ascii_lower(s).len() == s.len() && ascii_upper(s).len() == s.len(),
        'A' <= s[i] <= 'Z' ==> ascii_lower(s)[i] as u32 == s[i] as u32 + 32,
        'a' <= s[i] <= 'z' ==> ascii_upper(s)[i] as u32 == s[i] as u32 - 32,
        !('A' <= s[i] <= 'Z') ==> ascii_lower(s)[i] == s[i],
        !('a' <= s[i] <= 'z') ==> ascii_upper(s)[i] == s[i],
{
}

/// Whether two characters are equal, or are the two forms of an ASCII letter.
pub open spec fn alike(a: char, b: char) -> bool {
    ||| a == b
    ||| 'a' <= a <= 'z' && b as u32 == a as u32 - 32
    ||| 'a' <= b <= 'z' && a as u32 == b as u32 - 32
}

proof fn lemma_folded_alike(a: char, b: char)
    ensures
        ascii_upper_char(a) == ascii_upper_char(b) <==> alike(a, b),
        ascii_lower_char(a) == ascii_lower_char(b) <==> alike(a, b),
{
}

/// Texts have one folded form exactly if they are alike character by character, whichever way
/// they are folded.
pub proof fn law_folded_texts_are_alike(a: Seq<char>, b: Seq<char>)
    ensures
        ascii_upper(a) == ascii_upper(b) <==> a.len() == b.len() && forall|i: int|
            0 <= i < a.len() ==> alike(#[trigger] a[i], b[i]),
        same_ignoring_case(a, b) <==> a.len() == b.len() && forall|i: int|
            0 <= i < a.len() ==> alike(#[trigger] a[i], b[i]),
{
    if a.len() == b.len() {
        assert forall|i: int| 0 <= i < a.len() implies ({
            &&& ascii_upper(a)[i] == ascii_upper(b)[i] <==> alike(#[trigger] a[i], b[i])
            &&& ascii_lower(a)[i] == ascii_lower(b)[i] <==> alike(a[i], b[i])
        }) by {
            lemma_folded_alike(a[i], b[i]);
        }
        if forall|i: int| 0 <= i < a.len() ==> alike(#[trigger] a[i], b[i]) {
            assert forall|i: int| 0 <= i < a.len() implies ascii_upper(a)[i] == ascii_upper(b)[i]
                && ascii_lower(a)[i] == ascii_lower(b)[i] by {
                assert(alike(a[i], b[i]));
            }
            assert(ascii_upper(a) =~= ascii_upper(b));
            assert(ascii_lower(a) =~= ascii_lower(b));
        }
    } else {
        assert(ascii_upper(a).len() != ascii_upper(b).len());
        assert(ascii_lower(a).len() != ascii_lower(b).len());
    }
}

/// A text that holds a character is what precedes its last occurrence, the character and what
/// follows it, in which there is none; another text is all behind.
pub proof fn law_text_is_cut_at_the_last(s: Seq<char>, c: char)
    ensures
        s.contains(c) ==> s == before_last(s, c).push(c) + after_last(s, c),
        !s.contains(c) ==> before_last(s, c) == Seq::<char>::empty() && after_last(s, c) == s,
        !after_last(s, c).contains(c),
{
    lemma_last_index_bounds(s, c);
    lemma_after_last(s, c);
    if s.contains(c) {
        assert(s =~= before_last(s, c).push(c) + after_last(s, c));
    } else {
        assert(after_last(s, c) =~= s);
    }
}

/// There is one way to cut a text at its last separator.
pub proof fn law_cut_is_unique(s: Seq<char>, c: char, d: Seq<char>, x: Seq<char>)
    requires
        s == d.push(c) + x,
        !x.contains(c),
    ensures
        before_last(s, c) == d,
        after_last(s, c) == x,
{
    let k = d.len() as int;
    assert(s[k] == c);
    assert forall|j: int| k < j < s.len() implies s[j] != c by {
        assert(s[j] == x[j - k - 1]);
        assert(x.contains(x[j - k - 1]));
    }
    lemma_last_index_is(s, c, k);
    assert(s.take(k) =~= d);
    assert(s.skip(k + 1) =~= x);
}

/// Splitting loses nothing: the pieces hold no separator, and joined by it they are the text.
pub proof fn law_split_and_join(s: Seq<char>, c: char)
    ensures
        split(s, c).len() == count(s, c) + 1,
        join(split(s, c), seq![c]) == s,
        forall|i: int|
            0 <= i < split(s, c).len() ==> !(#[trigger] split(s, c)[i]).contains(c),
    decreases s.len(),
{
    let k = last_index(s, c);
    lemma_last_index_bounds(s, c);
    if k < 0 {
        assert forall|j: int| 0 <= j < s.len() implies s[j] != c by {
            assert(s.contains(s[j]));
        }
        lemma_count_none(s, c);
        assert(split(s, c) =~= seq![s]);
    } else {
        let head = s.take(k);
        let tail = s.skip(k + 1);
        law_split_and_join(head, c);
        lemma_after_last(s, c);
        assert(s =~= (head + seq![c]) + tail);
        lemma_count_concat(head + seq![c], tail, c);
        lemma_count_concat(head, seq![c], c);
        assert(seq![c].drop_last() =~= Seq::<char>::empty());
        assert(count(seq![c].drop_last(), c) == 0);
        assert forall|j: int| 0 <= j < tail.len() implies tail[j] != c by {
            assert(s[k + 1 + j] != c);
        }
        lemma_count_none(tail, c);
        let p = split(s, c);
        assert(p.drop_last() =~= split(head, c));
        assert(p.last() == tail);
        assert forall|i: int| 0 <= i < p.len() implies !(#[trigger] p[i]).contains(c) by {
            if i < p.len() - 1 {
                assert(p[i] == split(head, c)[i]);
            } else {
                assert(p[i] == after_last(s, c));
            }
        }
    }
}

/// Trimming takes away white space at the two ends and nothing else: what is left is a part of
/// the text that has white space alone before and behind it, and none at its own ends.
pub proof fn law_trimming_takes_white_space(s: Seq<char>) -> (ends: (int, int))
    ensures
        0 <= ends.0 <= ends.1 <= s.len(),
        trimmed(s) == s.subrange(ends.0, ends.1),
        forall|i: int| 0 <= i < ends.0 || ends.1 <= i < s.len() ==> is_white_space(#[trigger] s[i]),
        ends.0 < ends.1 ==> !is_white_space(s[ends.0]) && !is_white_space(s[ends.1 - 1]),
{
    let a = lemma_trim_start_at(s);
    let t = trim_start(s);
    let b = lemma_trim_end_at(t);
    assert(trimmed(s) =~= s.subrange(a, a + b));
    assert forall|i: int| 0 <= i < a || a + b <= i < s.len() implies is_white_space(
        #[trigger] s[i],
    ) by {
        if i >= a + b {
            assert(t[i - a] == s[i]);
        }
    }
    if b > 0 {
        assert(t[0] == s[a]);
        assert(t[b - 1] == s[a + b - 1]);
    }
    (a, a + b)
}

proof fn lemma_trim_start_at(s: Seq<char>) -> (a: int)
    ensures
        0 <= a <= s.len(),
        trim_start(s) == s.skip(a),
        forall|i: int| 0 <= i < a ==> is_white_space(#[trigger] s[i]),
        a < s.len() ==> !is_white_space(s[a]),
    decreases s.len(),
{
    if s.len() > 0 && is_white_space(s[0]) {
        let b = lemma_trim_start_at(s.skip(1));
        assert(trim_start(s) =~= s.skip(b + 1));
        assert forall|i: int| 0 <= i < b + 1 implies is_white_space(#[trigger] s[i]) by {
            if i > 0 {
                assert(s.skip(1)[i - 1] == s[i]);
            }
        }
        if b + 1 < s.len() {
            assert(s.skip(1)[b] == s[b + 1]);
        }
        b + 1
    } else {
        assert(s.skip(0) =~= s);
        0
    }
}

proof fn lemma_trim_end_at(s: Seq<char>) -> (b: int)
    ensures
        0 <= b <= s.len(),
        trim_end(s) == s.take(b),
        forall|i: int| b <= i < s.len() ==> is_white_space(#[trigger] s[i]),
        b > 0 ==> !is_white_space(s[b - 1]),
    decreases s.len(),
{
    if s.len() > 0 && is_white_space(s.last()) {
        let b = lemma_trim_end_at(s.drop_last());
        assert(trim_end(s) =~= s.take(b));
        assert forall|i: int| b <= i < s.len() implies is_white_space(#[trigger] s[i]) by {
            if i < s.len() - 1 {
                assert(s.drop_last()[i] == s[i]);
            }
        }
        b
    } else {
        assert(s.take(s.len() as int) =~= s);
        s.len() as int
    }
}

/// The number that digits stand for.
pub open spec fn value(digits: Seq<char>) -> int
    decreases digits.len(),
{
    if digits.len() == 0 {
        0
    } else {
        10 * value(digits.drop_last()) + (digits.last() as u32 - '0' as u32)
    }
}

/// A number in decimal stands for the number, is made of digits, and begins with zero only
/// where it is zero.
pub proof fn law_decimal_stands_for_its_number(n: nat)
    ensures
        value(decimal(n)) == n,
        decimal(n).len() > 0,
        n > 0 ==> decimal(n)[0] != '0',
        forall|i: int| 0 <= i < decimal(n).len() ==> '0' <= #[trigger] decimal(n)[i] <= '9',
    decreases n,
{
    lemma_decimal_digits(n);
    if n >= 10 {
        law_decimal_stands_for_its_number(n / 10);
        assert(decimal(n).drop_last() =~= decimal(n / 10));
        assert(decimal(n)[0] == decimal(n / 10)[0]);
    } else {
        assert(decimal(n).drop_last() =~= Seq::<char>::empty());
        assert(value(decimal(n).drop_last()) == 0);
    }
}

/// Filling up a text keeps it, makes it as long as is asked for, and no longer.
pub proof fn law_padding_keeps_the_text(s: Seq<char>, width: nat)
    ensures
        zero_pad(s, width).len() == if s.len() >= width {
            s.len()
        } else {
            width
        },
        space_pad(s, width).len() == zero_pad(s, width).len(),
        zero_pad(s, width).skip(zero_pad(s, width).len() - s.len()) == s,
        space_pad(s, width).take(s.len() as int) == s,
        forall|i: int|
            0 <= i < zero_pad(s, width).len() - s.len() ==> #[trigger] zero_pad(s, width)[i] == '0',
        forall|i: int|
            s.len() <= i < space_pad(s, width).len() ==> #[trigger] space_pad(s, width)[i] == ' ',
{
    assert(zero_pad(s, width).skip(zero_pad(s, width).len() - s.len()) =~= s);
    assert(space_pad(s, width).take(s.len() as int) =~= s);
}

/// A text comes before another exactly if it begins it and is shorter, or has the lesser
/// character where they first differ.
pub proof fn law_order_is_that_of_the_first_difference(a: Seq<char>, b: Seq<char>, k: int)
    requires
        0 <= k <= a.len(),
        k <= b.len(),
        a.take(k) == b.take(k),
        k < a.len() && k < b.len() ==> a[k] != b[k],
    ensures
        k < a.len() && k < b.len() ==> (text_before(a, b) <==> a[k] < b[k]),
        k == a.len() ==> (text_before(a, b) <==> k < b.len()),
        k == b.len() ==> !text_before(a, b),
    decreases k,
{
    if k > 0 {
        assert(a[0] == a.take(k)[0] && b[0] == b.take(k)[0]);
        assert(a.skip(1).take(k - 1) =~= a.take(k).skip(1));
        assert(b.skip(1).take(k - 1) =~= b.take(k).skip(1));
        law_order_is_that_of_the_first_difference(a.skip(1), b.skip(1), k - 1);
    }
}

/// Joining texts puts the separator between neighbours and changes nothing else.
pub proof fn law_joining_adds_one_at_a_time(parts: Seq<Seq<char>>, sep: Seq<char>, p: Seq<char>)
    ensures
        join(Seq::<Seq<char>>::empty(), sep) == Seq::<char>::empty(),
        join(seq![p], sep) == p,
        parts.len() > 0 ==> join(parts.push(p), sep) == join(parts, sep) + sep + p,
{
    assert(parts.push(p).drop_last() =~= parts);
}

/// A text is found in another wherever it stands.
pub proof fn law_text_is_found_where_it_stands(a: Seq<char>, p: Seq<char>, b: Seq<char>)
    ensures
        holds(a + p + b, p),
{
    let s = a + p + b;
    assert(s.subrange(a.len() as int, (a.len() + p.len()) as int) =~= p);
    assert(stands_at(s, p, a.len() as int));
}

/// Where a text is found in another, all of it stands there, between what is before it and what
/// is behind it.
pub proof fn law_found_text_stands_there(s: Seq<char>, p: Seq<char>) -> (cut: (Seq<char>, Seq<char>))
    requires
        holds(s, p),
    ensures
        s == cut.0 + p + cut.1,
{
    let i = choose|i: int| stands_at(s, p, i);
    assert(s =~= s.take(i) + p + s.skip(i + p.len()));
    (s.take(i), s.skip(i + p.len()))
}

/// Hexadecimal has as many digits as asked for, the last of them for what is left over by
/// sixteen and the others for the sixteenth part.
pub proof fn law_hexadecimal_stands_for_its_number(n: nat, d: nat, width: nat)
    requires
        d < 16,
    ensures
        hex(n, width).len() == width,
        hex(16 * n + d, width + 1) == hex(n, width).push("0123456789abcdef"@[d as int]),
    decreases width,
{
    assert((16 * n + d) / 16 == n);
    assert((16 * n + d) % 16 == d);
    reveal_strlit("0123456789abcdef");
    if width > 0 {
        law_hexadecimal_stands_for_its_number(n / 16, n % 16, (width - 1) as nat);
    }
    let digits = "0123456789abcdef"@;
    assert(hex_digit(d) == digits[d as int]) by {
        assert(digits[0] == '0' && digits[1] == '1' && digits[2] == '2' && digits[3] == '3');
        assert(digits[4] == '4' && digits[5] == '5' && digits[6] == '6' && digits[7] == '7');
        assert(digits[8] == '8' && digits[9] == '9' && digits[10] == 'a' && digits[11] == 'b');
        assert(digits[12] == 'c' && digits[13] == 'd' && digits[14] == 'e' && digits[15] == 'f');
    }
}

} // verus!
