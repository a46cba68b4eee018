//! Path templates: literal text and tokens that stand for parts of a date.
//!
//! Tokens:
//! - `{yyyy}` year with at least four digits
//! - `{yy}` last two digits of the year
//! - `{mm}` two-digit month, `{dd}` two-digit day of the month
//! - `{month}` lowercase month name, `{Month}` capitalized month name
//! - `{HH}`, `{MM}`, `{SS}` two-digit hour, minute and second
//!
//! A `/` in a template separates folders. A template is relative and has no
//! `..` folder.

use vstd::prelude::*;
use crate::datetime::DateTime;
use crate::error::{Error, ErrorView, Result};
use crate::text;

verus! {

#[derive(Debug, Clone, Copy, PartialEq, Eq, Structural)]
pub enum Token {
    Yyyy,
    Yy,
    Mm,
    Dd,
    MonthLower,
    MonthCap,
    HH,
    MM,
    SS,
}

#[derive(Debug)]
enum Segment {
    Literal(String),
    Token(Token),
}

/// A piece of a template.
pub enum SegmentView {
    Literal(Seq<char>),
    Token(Token),
}

impl View for Segment {
    type V = SegmentView;

    closed spec fn view(&self) -> SegmentView {
        match self {
            Segment::Literal(s) => SegmentView::Literal(s@),
            Segment::Token(t) => SegmentView::Token(*t),
        }
    }
}

/// What reading a template from the left finds: its pieces, or the first fault.
pub enum Scan {
    Pieces(Seq<SegmentView>),
    Unterminated(Seq<char>),
    Unknown(Seq<char>),
    Stray,
}

/// The token that a name between braces stands for.
pub open spec fn token_named(name: Seq<char>) -> Option<Token> {
    if name == "yyyy"@ {
        Some(Token::Yyyy)
    } else if name == "yy"@ {
        Some(Token::Yy)
    } else if name == "mm"@ {
        Some(Token::Mm)
    } else if name == "dd"@ {
        Some(Token::Dd)
    } else if name == "month"@ {
        Some(Token::MonthLower)
    } else if name == "Month"@ {
        Some(Token::MonthCap)
    } else if name == "HH"@ {
        Some(Token::HH)
    } else if name == "MM"@ {
        Some(Token::MM)
    } else if name == "SS"@ {
        Some(Token::SS)
    } else {
        None
    }
}

/// The number of characters before the first brace.
pub open spec fn literal_len(s: Seq<char>) -> int
    decreases s.len(),
{
    if s.len() == 0 || s[0] == '{' || s[0] == '}' {
        0
    } else {
        1 + literal_len(s.skip(1))
    }
}

/// The scan of a template whose first pieces are `before` and whose rest scans
/// to `rest`.
pub open spec fn prepend(before: Seq<SegmentView>, rest: Scan) -> Scan {
    match rest {
        Scan::Pieces(p) => Scan::Pieces(before + p),
        _ => rest,
    }
}

/// Reads a template from the left.
pub open spec fn scan(s: Seq<char>) -> Scan
    decreases s.len(),
{
    if s.len() == 0 {
        Scan::Pieces(Seq::empty())
    } else if s[0] == '}' {
        Scan::Stray
    } else if s[0] == '{' {
        let k = text::first_index(s.skip(1), '}');
        if k < 0 || k >= s.len() - 1 {
            Scan::Unterminated(s.skip(1))
        } else {
            let name = s.skip(1).take(k);
            match token_named(name) {
                None => Scan::Unknown(name),
                Some(t) => prepend(seq![SegmentView::Token(t)], scan(s.skip(k + 2))),
            }
        }
    } else {
        let n = literal_len(s);
        if n <= 0 || n > s.len() {
            Scan::Stray
        } else {
            prepend(seq![SegmentView::Literal(s.take(n))], scan(s.skip(n)))
        }
    }
}

/// The pieces of a template that scans without a fault.
pub open spec fn pieces(s: Seq<char>) -> Seq<SegmentView> {
    match scan(s) {
        Scan::Pieces(p) => p,
        _ => Seq::empty(),
    }
}

/// Why a template is refused, or `None` for a good one. Faults of the tokens
/// come before those of the path.
pub open spec fn fault(s: Seq<char>) -> Option<Seq<char>> {
    match scan(s) {
        Scan::Unterminated(name) => Some("unterminated `{"@ + name + "` token"@),
        Scan::Unknown(name) => Some(
            "unknown token `{"@ + name
                + "}` (valid: yyyy, yy, mm, dd, month, Month, HH, MM, SS)"@,
        ),
        Scan::Stray => Some(
            "stray `}` (escape literal `}` is not supported; just don't use it)"@,
        ),
        Scan::Pieces(_) => if s.len() > 0 && (s[0] == '/' || s[0] == '\\') {
            Some("template must be relative (no leading `/`)"@)
        } else if text::split(s, '/').contains(".."@) {
            Some("template must not contain `..` segments"@)
        } else {
            None
        },
    }
}

/// The English name of a month.
pub open spec fn month_name(m: int) -> Seq<char> {
    if m == 1 {
        "January"@
    } else if m == 2 {
        "February"@
    } else if m == 3 {
        "March"@
    } else if m == 4 {
        "April"@
    } else if m == 5 {
        "May"@
    } else if m == 6 {
        "June"@
    } else if m == 7 {
        "July"@
    } else if m == 8 {
        "August"@
    } else if m == 9 {
        "September"@
    } else if m == 10 {
        "October"@
    } else if m == 11 {
        "November"@
    } else if m == 12 {
        "December"@
    } else {
        "Unknown"@
    }
}

/// A year in decimal with at least four characters, the sign included.
pub open spec fn year_text(year: int) -> Seq<char> {
    if year < 0 {
        seq!['-'] + text::zero_pad(text::decimal((-year) as nat), 3)
    } else {
        text::zero_pad(text::decimal(year as nat), 4)
    }
}

/// A number in decimal with at least two digits.
pub open spec fn two_digits(n: int) -> Seq<char> {
    text::zero_pad(text::decimal(n as nat), 2)
}

/// What a token stands for on a date.
pub open spec fn token_text(t: Token, dt: DateTime) -> Seq<char> {
    match t {
        Token::Yyyy => year_text(dt.year as int),
        Token::Yy => two_digits(dt.year as int % 100),
        Token::Mm => two_digits(dt.month as int),
        Token::Dd => two_digits(dt.day as int),
        Token::MonthLower => text::ascii_lower(month_name(dt.month as int)),
        Token::MonthCap => month_name(dt.month as int),
        Token::HH => two_digits(dt.hour as int),
        Token::MM => two_digits(dt.minute as int),
        Token::SS => two_digits(dt.second as int),
    }
}

/// What a piece stands for on a date.
pub open spec fn piece_text(p: SegmentView, dt: DateTime) -> Seq<char> {
    match p {
        SegmentView::Literal(s) => s,
        SegmentView::Token(t) => token_text(t, dt),
    }
}

/// The pieces' texts, one after the other.
pub open spec fn pieces_text(ps: Seq<SegmentView>, dt: DateTime) -> Seq<char>
    decreases ps.len(),
{
    if ps.len() == 0 {
        Seq::empty()
    } else {
        pieces_text(ps.drop_last(), dt) + piece_text(ps.last(), dt)
    }
}

/// What a template stands for on a date.
pub open spec fn rendered(template: Seq<char>, dt: DateTime) -> Seq<char> {
    pieces_text(pieces(template), dt)
}

spec fn segment_views(v: Seq<Segment>) -> Seq<SegmentView> {
    v.map_values(|s: Segment| s@)
}

/// A template that was read without a fault. Its view is its text.
#[derive(Debug)]
pub struct PathTemplate {
    raw: String,
    segments: Vec<Segment>,
}

impl View for PathTemplate {
    type V = Seq<char>;

    closed spec fn view(&self) -> Seq<char> {
        self.raw@
    }
}

fn token_from_name(name: &str) -> (r: Option<Token>)
    ensures
        r == token_named(name@),
{
    if text::same_text(name, "yyyy") {
        Some(Token::Yyyy)
    } else if text::same_text(name, "yy") {
        Some(Token::Yy)
    } else if text::same_text(name, "mm") {
        Some(Token::Mm)
    } else if text::same_text(name, "dd") {
        Some(Token::Dd)
    } else if text::same_text(name, "month") {
        Some(Token::MonthLower)
    } else if text::same_text(name, "Month") {
        Some(Token::MonthCap)
    } else if text::same_text(name, "HH") {
        Some(Token::HH)
    } else if text::same_text(name, "MM") {
        Some(Token::MM)
    } else if text::same_text(name, "SS") {
        Some(Token::SS)
    } else {
        None
    }
}

proof fn lemma_first_index_is(s: Seq<char>, c: char, k: int)
    requires
        0 <= k <= s.len(),
        k < s.len() ==> s[k] == c,
        forall|j: int| 0 <= j < k ==> s[j] != c,
    ensures
        text::first_index(s, c) == k,
    decreases k,
{
    if k > 0 {
        assert forall|j: int| 0 <= j < k - 1 implies s.skip(1)[j] != c by {
            assert(s.skip(1)[j] == s[j + 1]);
        }
        lemma_first_index_is(s.skip(1), c, k - 1);
    }
}

proof fn lemma_literal_len_is(s: Seq<char>, k: int)
    requires
        0 <= k <= s.len(),
        k < s.len() ==> s[k] == '{' || s[k] == '}',
        forall|j: int| 0 <= j < k ==> s[j] != '{' && s[j] != '}',
    ensures
        literal_len(s) == k,
    decreases k,
{
    if k > 0 {
        assert forall|j: int| 0 <= j < k - 1 implies s.skip(1)[j] != '{' && s.skip(1)[j]
            != '}' by {
            assert(s.skip(1)[j] == s[j + 1]);
        }
        lemma_literal_len_is(s.skip(1), k - 1);
    }
}

proof fn lemma_prepend_assoc(a: Seq<SegmentView>, b: Seq<SegmentView>, rest: Scan)
    ensures
        prepend(a, prepend(b, rest)) == prepend(a + b, rest),
{
    match rest {
        Scan::Pieces(p) => {
            assert(a + (b + p) =~= (a + b) + p);
        },
        _ => {},
    }
}

fn refused(template: &str, message: String) -> (r: Error)
    ensures
        r@ == (ErrorView::Template { template: template@, message: message@ }),
{
    Error::Template { template: text::copy_str(template), message }
}

impl PathTemplate {
    #[verifier::type_invariant]
    spec fn matches_text(self) -> bool {
        scan(self.raw@) == Scan::Pieces(segment_views(self.segments@))
    }

    /// Reads a template.
    pub fn parse(template: &str) -> (r: Result<Self>)
        ensures
            r is Ok <==> fault(template@) is None,
            r matches Ok(t) ==> t@ == template@,
            r matches Err(e) ==> e@ == (ErrorView::Template {
                template: template@,
                message: fault(template@)->0,
            }),
    {
        let v = text::to_chars(template);
        let mut segments: Vec<Segment> = Vec::new();
        let mut i: usize = 0;
        proof {
            assert(v@.skip(0) =~= v@);
            assert(segment_views(segments@) =~= Seq::<SegmentView>::empty());
            match scan(v@) {
                Scan::Pieces(p) => {
                    assert(Seq::<SegmentView>::empty() + p =~= p);
                },
                _ => {},
            }
        }
        while i < v.len()
            invariant
                i <= v@.len(),
                v@ == template@,
                scan(template@) == prepend(segment_views(segments@), scan(v@.skip(i as int))),
            decreases v@.len() - i,
        {
            let ghost rest = v@.skip(i as int);
            let ghost before = segment_views(segments@);
            if v[i] == '}' {
                return Err(
                    refused(
                        template,
                        text::copy_str(
                            "stray `}` (escape literal `}` is not supported; just don't use it)",
                        ),
                    ),
                );
            }
            if v[i] == '{' {
                let start: usize = i + 1;
                let mut end: usize = start;
                while end < v.len() && v[end] != '}'
                    invariant
                        i < v@.len(),
                        start == i + 1,
                        start <= end <= v@.len(),
                        forall|j: int| start <= j < end ==> v@[j] != '}',
                    decreases v@.len() - end,
                {
                    end += 1;
                }
                let name = text::from_chars(&v, start, end);
                proof {
                    assert(rest.skip(1) =~= v@.skip(start as int));
                    lemma_first_index_is(rest.skip(1), '}', end - start);
                    assert(rest.skip(1).take(end - start) =~= name@);
                }
                if end >= v.len() {
                    proof {
                        assert(rest.skip(1) =~= name@);
                    }
                    let mut message = text::copy_str("unterminated `{");
                    message.append(name.as_str());
                    message.append("` token");
                    return Err(refused(template, message));
                }
                match token_from_name(name.as_str()) {
                    None => {
                        let mut message = text::copy_str("unknown token `{");
                        message.append(name.as_str());
                        message.append("}` (valid: yyyy, yy, mm, dd, month, Month, HH, MM, SS)");
                        return Err(refused(template, message));
                    },
                    Some(t) => {
                        let piece = Segment::Token(t);
                        proof {
                            assert(rest.skip(end - start + 2) =~= v@.skip(end + 1));
                            lemma_prepend_assoc(before, seq![piece@], scan(v@.skip(end + 1)));
                            assert(segment_views(segments@.push(piece)) =~= before + seq![piece@]);
                        }
                        segments.push(piece);
                        i = end + 1;
                    },
                }
            } else {
                let start: usize = i;
                let mut end: usize = i;
                while end < v.len() && v[end] != '{' && v[end] != '}'
                    invariant
                        start <= end <= v@.len(),
                        forall|j: int| start <= j < end ==> v@[j] != '{' && v@[j] != '}',
                    decreases v@.len() - end,
                {
                    end += 1;
                }
                let literal = text::from_chars(&v, start, end);
                proof {
                    assert(v@[i as int] == rest[0]);
                    lemma_literal_len_is(rest, end - start);
                    assert(rest.take(end - start) =~= literal@);
                    assert(rest.skip(end - start) =~= v@.skip(end as int));
                }
                let piece = Segment::Literal(literal);
                proof {
                    lemma_prepend_assoc(before, seq![piece@], scan(v@.skip(end as int)));
                    assert(segment_views(segments@.push(piece)) =~= before + seq![piece@]);
                }
                segments.push(piece);
                i = end;
            }
        }
        proof {
            assert(v@.skip(v@.len() as int) =~= Seq::<char>::empty());
            assert(segment_views(segments@) + Seq::<SegmentView>::empty() =~= segment_views(
                segments@,
            ));
        }
        if v.len() > 0 && (v[0] == '/' || v[0] == '\\') {
            return Err(
                refused(template, text::copy_str("template must be relative (no leading `/`)")),
            );
        }
        let parts = text::split_on(template, '/');
        let mut k: usize = 0;
        while k < parts.len()
            invariant
                k <= parts@.len(),
                text::texts(parts@) == text::split(template@, '/'),
                scan(template@) is Pieces,
                !(template@.len() > 0 && (template@[0] == '/' || template@[0] == '\\')),
                forall|j: int| 0 <= j < k ==> text::texts(parts@)[j] != ".."@,
            decreases parts@.len() - k,
        {
            if text::same_text(parts[k].as_str(), "..") {
                proof {
                    assert(text::texts(parts@)[k as int] == ".."@);
                    assert(fault(template@) == Some("template must not contain `..` segments"@));
                }
                return Err(
                    refused(template, text::copy_str("template must not contain `..` segments")),
                );
            }
            k += 1;
        }
        Ok(PathTemplate { raw: text::copy_str(template), segments })
    }

    /// The text that the template was read from.
    pub fn raw(&self) -> (r: &str)
        ensures
            r@ == self@,
    {
        self.raw.as_str()
    }

    /// What the template stands for on a date: a relative path with `/`
    /// between its folders.
    pub fn render(&self, dt: &DateTime) -> (r: String)
        ensures
            r@ == rendered(self@, *dt),
    {
        proof {
            use_type_invariant(self);
        }
        let mut out = String::new();
        let mut i: usize = 0;
        let ghost ps = segment_views(self.segments@);
        while i < self.segments.len()
            invariant
                i <= self.segments@.len(),
                ps == segment_views(self.segments@),
                out@ == pieces_text(ps.take(i as int), *dt),
            decreases self.segments@.len() - i,
        {
            proof {
                assert(ps.take(i + 1).drop_last() =~= ps.take(i as int));
                assert(ps.take(i + 1).last() == self.segments@[i as int]@);
            }
            match &self.segments[i] {
                Segment::Literal(s) => out.append(s.as_str()),
                Segment::Token(t) => {
                    let part = token_string(*t, dt);
                    out.append(part.as_str())
                },
            }
            i += 1;
        }
        proof {
            assert(ps.take(ps.len() as int) =~= ps);
        }
        out
    }
}

fn two_digit_text(n: u32) -> (r: String)
    ensures
        r@ == two_digits(n as int),
{
    let d = text::decimal_text(n as u64);
    text::zero_padded(d.as_str(), 2)
}

fn month_text(m: u32) -> (r: &'static str)
    ensures
        r@ == month_name(m as int),
{
    if m == 1 {
        "January"
    } else if m == 2 {
        "February"
    } else if m == 3 {
        "March"
    } else if m == 4 {
        "April"
    } else if m == 5 {
        "May"
    } else if m == 6 {
        "June"
    } else if m == 7 {
        "July"
    } else if m == 8 {
        "August"
    } else if m == 9 {
        "September"
    } else if m == 10 {
        "October"
    } else if m == 11 {
        "November"
    } else if m == 12 {
        "December"
    } else {
        "Unknown"
    }
}

fn year_of_century(year: i32) -> (r: u32)
    ensures
        r == year as int % 100,
{
    // A multiple of a hundred makes the year positive.
    let shifted: i64 = (year as i64) + 2147483700;
    (shifted % 100) as u32
}

fn year_string(year: i32) -> (r: String)
    ensures
        r@ == year_text(year as int),
{
    if year < 0 {
        let n: u64 = (-(year as i64)) as u64;
        let d = text::decimal_text(n);
        let digits = text::zero_padded(d.as_str(), 3);
        let mut s = String::new();
        s.push('-');
        s.append(digits.as_str());
        proof {
            assert(Seq::<char>::empty().push('-') =~= seq!['-']);
        }
        s
    } else {
        let d = text::decimal_text(year as u64);
        text::zero_padded(d.as_str(), 4)
    }
}

fn token_string(t: Token, dt: &DateTime) -> (r: String)
    ensures
        r@ == token_text(t, *dt),
{
    match t {
        Token::Yyyy => year_string(dt.year),
        Token::Yy => two_digit_text(year_of_century(dt.year)),
        Token::Mm => two_digit_text(dt.month),
        Token::Dd => two_digit_text(dt.day),
        Token::MonthLower => text::to_ascii_lower(month_text(dt.month)),
        Token::MonthCap => text::copy_str(month_text(dt.month)),
        Token::HH => two_digit_text(dt.hour),
        Token::MM => two_digit_text(dt.minute),
        Token::SS => two_digit_text(dt.second),
    }
}

// ---------------------------------------------------------------------------
// Laws
// ---------------------------------------------------------------------------

/// Where a reader of a path stands in its folder name: 0 at the start, 1 after
/// one dot, 2 after two dots, 3 after anything else.
spec fn dots_step(q: int, c: char) -> int {
    if c == '/' {
        0
    } else if c == '.' && q == 0 {
        1
    } else if c == '.' && q == 1 {
        2
    } else {
        3
    }
}

spec fn dots(q: int, s: Seq<char>) -> int
    decreases s.len(),
{
    if s.len() == 0 {
        q
    } else {
        dots_step(dots(q, s.drop_last()), s.last())
    }
}

/// No folder that ends inside `s` is named by two dots.
spec fn no_climb(q: int, s: Seq<char>) -> bool
    decreases s.len(),
{
    if s.len() == 0 {
        true
    } else {
        no_climb(q, s.drop_last()) && !(s.last() == '/' && dots(q, s.drop_last()) == 2)
    }
}

proof fn lemma_dots_split(s: Seq<char>)
    ensures
        text::split(s, '/').len() > 0,
        ({
            let last = text::split(s, '/').last();
            &&& dots(0, s) == 0 <==> last =~= Seq::<char>::empty()
            &&& dots(0, s) == 1 <==> last =~= seq!['.']
            &&& dots(0, s) == 2 <==> last =~= seq!['.', '.']
        }),
        no_climb(0, s) <==> !text::split(s, '/').drop_last().contains(seq!['.', '.']),
        0 <= dots(0, s) <= 3,
    decreases s.len(),
{
    let p = text::split(s, '/');
    if s.len() == 0 {
        assert(text::last_index(s, '/') == -1);
        assert(p =~= seq![s]);
    } else {
        let t = s.drop_last();
        lemma_dots_split(t);
        text::lemma_split_step(s, '/');
        let pt = text::split(t, '/');
        if s.last() == '/' {
            assert(p.drop_last() =~= pt);
            assert(pt =~= pt.drop_last().push(pt.last()));
            assert(p.last() =~= Seq::<char>::empty());
            if pt.contains(seq!['.', '.']) {
                let i = choose|i: int| 0 <= i < pt.len() && pt[i] == seq!['.', '.'];
                if i < pt.len() - 1 {
                    assert(pt.drop_last()[i] == seq!['.', '.']);
                }
            }
            if pt.drop_last().contains(seq!['.', '.']) {
                let i = choose|i: int|
                    0 <= i < pt.drop_last().len() && pt.drop_last()[i] == seq!['.', '.'];
                assert(pt[i] == seq!['.', '.']);
            }
            if dots(0, t) == 2 {
                assert(pt[pt.len() - 1] == seq!['.', '.']);
                assert(pt.contains(seq!['.', '.']));
            }
        } else {
            let last = pt.last().push(s.last());
            assert(p.last() == last);
            assert(p.drop_last() =~= pt.drop_last());
            assert(last.drop_last() =~= pt.last());
            assert(last[last.len() - 1] == s.last());
            if s.last() == '.' {
                if dots(0, t) == 0 {
                    assert(last =~= seq!['.']);
                }
                if dots(0, t) == 1 {
                    assert(last =~= seq!['.', '.']);
                }
                if last =~= seq!['.'] {
                    assert(pt.last() =~= Seq::<char>::empty());
                }
                if last =~= seq!['.', '.'] {
                    assert(pt.last() =~= seq!['.']);
                }
            } else {
                if last =~= seq!['.'] {
                    assert(last[0] == '.');
                }
                if last =~= seq!['.', '.'] {
                    assert(last[1] == '.');
                }
            }
        }
    }
}

proof fn lemma_dots_concat(q: int, a: Seq<char>, b: Seq<char>)
    ensures
        dots(q, a + b) == dots(dots(q, a), b),
        no_climb(q, a + b) == (no_climb(q, a) && no_climb(dots(q, a), b)),
    decreases b.len(),
{
    if b.len() == 0 {
        assert(a + b =~= a);
    } else {
        assert((a + b).drop_last() =~= a + b.drop_last());
        lemma_dots_concat(q, a, b.drop_last());
    }
}

/// Characters that are neither separators, dots nor braces.
spec fn is_plain(s: Seq<char>) -> bool {
    forall|i: int|
        0 <= i < s.len() ==> s[i] != '/' && s[i] != '.' && s[i] != '{' && s[i] != '}' && s[i]
            != '\\'
}

proof fn lemma_dots_plain(q: int, s: Seq<char>)
    requires
        s.len() > 0,
        forall|i: int| 0 <= i < s.len() ==> s[i] != '/' && s[i] != '.',
    ensures
        dots(q, s) == 3,
        no_climb(q, s),
    decreases s.len(),
{
    assert(s[s.len() - 1] == s.last());
    if s.len() > 1 {
        lemma_dots_plain(q, s.drop_last());
    } else {
        assert(no_climb(q, s.drop_last()));
    }
}

proof fn lemma_decimal_plain(n: nat)
    ensures
        text::decimal(n).len() > 0,
        is_plain(text::decimal(n)),
    decreases n,
{
    if n >= 10 {
        lemma_decimal_plain(n / 10);
    }
}

proof fn lemma_padded_plain(n: nat, width: nat)
    ensures
        text::zero_pad(text::decimal(n), width).len() > 0,
        is_plain(text::zero_pad(text::decimal(n), width)),
{
    lemma_decimal_plain(n);
}

proof fn lemma_month_plain(m: int)
    ensures
        month_name(m).len() > 0,
        is_plain(month_name(m)),
        is_plain(text::ascii_lower(month_name(m))),
{
    reveal_strlit("January");
    reveal_strlit("February");
    reveal_strlit("March");
    reveal_strlit("April");
    reveal_strlit("May");
    reveal_strlit("June");
    reveal_strlit("July");
    reveal_strlit("August");
    reveal_strlit("September");
    reveal_strlit("October");
    reveal_strlit("November");
    reveal_strlit("December");
    reveal_strlit("Unknown");
    let s = month_name(m);
    assert forall|i: int| 0 <= i < s.len() implies ('A' <= #[trigger] s[i] && s[i] <= 'Z') || ('a' <= s[i]
        && s[i] <= 'z') by {}
    assert forall|i: int| 0 <= i < s.len() implies ({
        let c = #[trigger] text::ascii_lower(s)[i];
        'a' <= c && c <= 'z'
    }) by {
        assert(text::ascii_lower(s)[i] == text::ascii_lower_char(s[i]));
    }
}

/// The text of a token has neither separators, dots nor braces.
proof fn lemma_token_plain(t: Token, dt: DateTime)
    ensures
        token_text(t, dt).len() > 0,
        is_plain(token_text(t, dt)),
{
    lemma_month_plain(dt.month as int);
    lemma_padded_plain((dt.year as int % 100) as nat, 2);
    lemma_padded_plain(dt.month as nat, 2);
    lemma_padded_plain(dt.day as nat, 2);
    lemma_padded_plain(dt.hour as nat, 2);
    lemma_padded_plain(dt.minute as nat, 2);
    lemma_padded_plain(dt.second as nat, 2);
    if dt.year < 0 {
        lemma_padded_plain((-(dt.year as int)) as nat, 3);
    } else {
        lemma_padded_plain(dt.year as nat, 4);
    }
}

proof fn lemma_name_plain(name: Seq<char>)
    requires
        token_named(name) is Some,
    ensures
        is_plain(name),
{
    reveal_strlit("yyyy");
    reveal_strlit("yy");
    reveal_strlit("mm");
    reveal_strlit("dd");
    reveal_strlit("month");
    reveal_strlit("Month");
    reveal_strlit("HH");
    reveal_strlit("MM");
    reveal_strlit("SS");
}

proof fn lemma_pieces_text_cons(p: SegmentView, rest: Seq<SegmentView>, dt: DateTime)
    ensures
        pieces_text(seq![p] + rest, dt) == piece_text(p, dt) + pieces_text(rest, dt),
    decreases rest.len(),
{
    let all = seq![p] + rest;
    if rest.len() == 0 {
        assert(all.drop_last() =~= Seq::<SegmentView>::empty());
        assert(all.last() == p);
        assert(pieces_text(all.drop_last(), dt) =~= Seq::<char>::empty());
        assert(pieces_text(all, dt) =~= piece_text(p, dt) + pieces_text(rest, dt));
    } else {
        assert(all.drop_last() =~= seq![p] + rest.drop_last());
        assert(all.last() == rest.last());
        lemma_pieces_text_cons(p, rest.drop_last(), dt);
        assert(pieces_text(all, dt) =~= piece_text(p, dt) + pieces_text(rest, dt));
    }
}

proof fn lemma_first_index_bounds(s: Seq<char>, c: char)
    ensures
        0 <= text::first_index(s, c) <= s.len(),
        text::first_index(s, c) < s.len() ==> s[text::first_index(s, c)] == c,
    decreases s.len(),
{
    if s.len() > 0 && s[0] != c {
        lemma_first_index_bounds(s.skip(1), c);
    }
}

proof fn lemma_literal_len_bounds(s: Seq<char>)
    ensures
        0 <= literal_len(s) <= s.len(),
        forall|j: int| 0 <= j < literal_len(s) ==> s[j] != '{' && s[j] != '}',
    decreases s.len(),
{
    if s.len() > 0 && s[0] != '{' && s[0] != '}' {
        lemma_literal_len_bounds(s.skip(1));
        assert forall|j: int| 0 <= j < literal_len(s) implies s[j] != '{' && s[j] != '}' by {
            if j > 0 {
                assert(s.skip(1)[j - 1] == s[j]);
            }
        }
    }
}

/// A template and what it stands for walk through the same folders as far as
/// dots go.
proof fn lemma_render_dots(s: Seq<char>, dt: DateTime, q: int)
    requires
        scan(s) is Pieces,
    ensures
        dots(q, rendered(s, dt)) == dots(q, s),
        no_climb(q, rendered(s, dt)) == no_climb(q, s),
        forall|i: int|
            0 <= i < rendered(s, dt).len() ==> rendered(s, dt)[i] != '{' && rendered(s, dt)[i]
                != '}',
        s.len() > 0 && s[0] != '/' && s[0] != '\\' ==> rendered(s, dt).len() > 0 && rendered(
            s,
            dt,
        )[0] != '/' && rendered(s, dt)[0] != '\\',
        s.len() == 0 ==> rendered(s, dt).len() == 0,
    decreases s.len(),
{
    if s.len() == 0 {
        assert(rendered(s, dt) =~= s);
    } else if s[0] == '{' {
        let k = text::first_index(s.skip(1), '}');
        lemma_first_index_bounds(s.skip(1), '}');
        let name = s.skip(1).take(k);
        let t = token_named(name)->0;
        let rest = s.skip(k + 2);
        let head = s.take(k + 2);
        assert(s =~= head + rest);
        lemma_name_plain(name);
        assert forall|i: int| 0 <= i < head.len() implies head[i] != '/' && head[i] != '.' by {
            if 0 < i < k + 1 {
                assert(head[i] == name[i - 1]);
            } else if i == k + 1 {
                assert(head[i] == s.skip(1)[k]);
            }
        }
        lemma_dots_plain(q, head);
        lemma_token_plain(t, dt);
        let body = token_text(t, dt);
        lemma_dots_plain(q, body);
        lemma_dots_concat(q, head, rest);
        lemma_dots_concat(q, body, rendered(rest, dt));
        lemma_render_dots(rest, dt, 3);
        lemma_pieces_text_cons(SegmentView::Token(t), pieces(rest), dt);
        assert(rendered(s, dt) =~= body + rendered(rest, dt));
    } else {
        let n = literal_len(s);
        lemma_literal_len_bounds(s);
        let lit = s.take(n);
        let rest = s.skip(n);
        assert(s =~= lit + rest);
        lemma_dots_concat(q, lit, rest);
        lemma_dots_concat(q, lit, rendered(rest, dt));
        lemma_render_dots(rest, dt, dots(q, lit));
        lemma_pieces_text_cons(SegmentView::Literal(lit), pieces(rest), dt);
        assert(rendered(s, dt) =~= lit + rendered(rest, dt));
        assert(lit[0] == s[0]);
    }
}

/// What a good template stands for is a relative path that never climbs: it
/// does not begin with a separator and no folder of it is `..`. No brace is
/// left in it.
pub proof fn law_rendered_stays_inside(template: Seq<char>, dt: DateTime)
    requires
        fault(template) is None,
    ensures
        rendered(template, dt).len() > 0 ==> rendered(template, dt)[0] != '/' && rendered(
            template,
            dt,
        )[0] != '\\',
        !text::split(rendered(template, dt), '/').contains(".."@),
        !rendered(template, dt).contains('{') && !rendered(template, dt).contains('}'),
{
    reveal_strlit("..");
    assert(".."@ =~= seq!['.', '.']);
    let r = rendered(template, dt);
    lemma_render_dots(template, dt, 0);
    lemma_dots_split(template);
    lemma_dots_split(r);
    let p = text::split(template, '/');
    if p.drop_last().contains(".."@) {
        let i = choose|i: int| 0 <= i < p.drop_last().len() && p.drop_last()[i] == ".."@;
        assert(p[i] == ".."@);
    }
    if p.last() == ".."@ {
        assert(p[p.len() - 1] == ".."@);
    }
    let pr = text::split(r, '/');
    if pr.contains(".."@) {
        let i = choose|i: int| 0 <= i < pr.len() && pr[i] == ".."@;
        if i < pr.len() - 1 {
            assert(pr.drop_last()[i] == ".."@);
        } else {
            assert(pr.last() == ".."@);
        }
    }
}

proof fn lemma_render_count(s: Seq<char>, dt: DateTime)
    requires
        scan(s) is Pieces,
    ensures
        text::count(rendered(s, dt), '/') == text::count(s, '/'),
    decreases s.len(),
{
    if s.len() == 0 {
        assert(rendered(s, dt) =~= s);
    } else if s[0] == '{' {
        let k = text::first_index(s.skip(1), '}');
        lemma_first_index_bounds(s.skip(1), '}');
        let name = s.skip(1).take(k);
        let t = token_named(name)->0;
        let rest = s.skip(k + 2);
        let head = s.take(k + 2);
        let body = token_text(t, dt);
        assert(s =~= head + rest);
        lemma_name_plain(name);
        assert forall|i: int| 0 <= i < head.len() implies head[i] != '/' by {
            if 0 < i < k + 1 {
                assert(head[i] == name[i - 1]);
            } else if i == k + 1 {
                assert(head[i] == s.skip(1)[k]);
            }
        }
        lemma_token_plain(t, dt);
        text::lemma_count_none(head, '/');
        text::lemma_count_none(body, '/');
        text::lemma_count_concat(head, rest, '/');
        text::lemma_count_concat(body, rendered(rest, dt), '/');
        lemma_render_count(rest, dt);
        lemma_pieces_text_cons(SegmentView::Token(t), pieces(rest), dt);
        assert(rendered(s, dt) =~= body + rendered(rest, dt));
    } else {
        let n = literal_len(s);
        lemma_literal_len_bounds(s);
        let lit = s.take(n);
        let rest = s.skip(n);
        assert(s =~= lit + rest);
        text::lemma_count_concat(lit, rest, '/');
        text::lemma_count_concat(lit, rendered(rest, dt), '/');
        lemma_render_count(rest, dt);
        lemma_pieces_text_cons(SegmentView::Literal(lit), pieces(rest), dt);
        assert(rendered(s, dt) =~= lit + rendered(rest, dt));
    }
}

/// What a good template stands for has as many folders as the template: a token
/// adds no separator and takes none away.
pub proof fn law_rendered_keeps_the_folders(template: Seq<char>, dt: DateTime)
    requires
        fault(template) is None,
    ensures
        text::count(rendered(template, dt), '/') == text::count(template, '/'),
{
    lemma_render_count(template, dt);
}

/// How a piece is written in a template.
pub open spec fn is_written(p: SegmentView, s: Seq<char>) -> bool {
    match p {
        SegmentView::Literal(t) => s == t && !t.contains('{') && !t.contains('}'),
        SegmentView::Token(t) => exists|name: Seq<char>|
            s == seq!['{'] + name + seq!['}'] && #[trigger] token_named(name) == Some(t),
    }
}

/// Whether a template is the pieces, each as it is written, one after the other.
pub open spec fn spells(s: Seq<char>, ps: Seq<SegmentView>) -> bool
    decreases ps.len(),
{
    if ps.len() == 0 {
        s.len() == 0
    } else {
        exists|n: int|
            0 <= n <= s.len() && is_written(ps[0], #[trigger] s.take(n)) && spells(
                s.skip(n),
                ps.skip(1),
            )
    }
}

proof fn lemma_pieces_spell(s: Seq<char>)
    requires
        scan(s) is Pieces,
    ensures
        spells(s, pieces(s)),
    decreases s.len(),
{
    if s.len() > 0 {
        let n = if s[0] == '{' {
            text::first_index(s.skip(1), '}') + 2
        } else {
            literal_len(s)
        };
        lemma_first_index_bounds(s.skip(1), '}');
        lemma_literal_len_bounds(s);
        let rest = s.skip(n);
        lemma_pieces_spell(rest);
        let ps = pieces(s);
        let head = s.take(n);
        if s[0] == '{' {
            let name = s.skip(1).take(n - 2);
            assert(s.skip(1)[n - 2] == s[n - 1]);
            assert(head =~= seq!['{'] + name + seq!['}']);
            assert(token_named(name) is Some);
        } else {
            assert(!head.contains('{') && !head.contains('}'));
        }
        assert(ps.skip(1) =~= pieces(rest));
        assert(is_written(ps[0], s.take(n)));
    }
}

/// Rendering replaces the tokens and keeps everything else: the template is its pieces as
/// they are written, and what it stands for is the same pieces, each literal text as it is
/// and each token as its part of the date.
pub proof fn law_rendering_replaces_tokens(template: Seq<char>, dt: DateTime)
    requires
        fault(template) is None,
    ensures
        spells(template, pieces(template)),
        rendered(template, dt) == pieces_text(pieces(template), dt),
{
    lemma_pieces_spell(template);
}

/// A number below a hundred as two digits.
pub open spec fn pair_of_digits(n: int) -> Seq<char> {
    seq![text::digit((n / 10) as nat), text::digit((n % 10) as nat)]
}

/// A number below ten thousand as four digits.
pub open spec fn four_digits(n: int) -> Seq<char> {
    seq![
        text::digit((n / 1000) as nat),
        text::digit((n / 100 % 10) as nat),
        text::digit((n / 10 % 10) as nat),
        text::digit((n % 10) as nat),
    ]
}

proof fn lemma_two_digits(n: int)
    requires
        0 <= n < 100,
    ensures
        two_digits(n) == pair_of_digits(n),
{
    reveal_with_fuel(text::decimal, 3);
    let d = pair_of_digits(n);
    if n < 10 {
        assert(two_digits(n) =~= d);
    } else {
        assert(text::decimal(n as nat) =~= d);
    }
}

proof fn lemma_four_digits(n: int)
    requires
        0 <= n < 10000,
    ensures
        year_text(n) == four_digits(n),
{
    reveal_with_fuel(text::decimal, 5);
    let d = four_digits(n);
    assert(n / 10 / 10 == n / 100);
    assert(n / 10 / 10 / 10 == n / 1000);
    if n < 10 {
        assert(text::decimal(n as nat) =~= d.skip(3));
    } else if n < 100 {
        assert(text::decimal(n as nat) =~= d.skip(2));
    } else if n < 1000 {
        assert(text::decimal(n as nat) =~= d.skip(1));
    } else {
        assert(text::decimal(n as nat) =~= d);
    }
    assert(year_text(n) =~= d);
}

/// What a token is on a date: the year has exactly four digits, and the year of the century,
/// the month, the day, the hour, the minute and the second have exactly two; a month has its
/// English name, in small letters where that is asked for.
pub open spec fn fixed_text(t: Token, dt: DateTime) -> Seq<char> {
    match t {
        Token::Yyyy => four_digits(dt.year as int),
        Token::Yy => pair_of_digits(dt.year as int % 100),
        Token::Mm => pair_of_digits(dt.month as int),
        Token::Dd => pair_of_digits(dt.day as int),
        Token::MonthLower => text::ascii_lower(month_name(dt.month as int)),
        Token::MonthCap => month_name(dt.month as int),
        Token::HH => pair_of_digits(dt.hour as int),
        Token::MM => pair_of_digits(dt.minute as int),
        Token::SS => pair_of_digits(dt.second as int),
    }
}

/// On dates of the years 0 to 9999 every part of the date has its fixed width, and a month
/// has a name.
pub proof fn law_date_parts_have_fixed_widths(t: Token, dt: DateTime)
    requires
        dt.is_civil(),
        0 <= dt.year <= 9999,
    ensures
        token_text(t, dt) == fixed_text(t, dt),
        month_name(dt.month as int) != "Unknown"@,
{
    lemma_month_known(dt.month as int);
    match t {
        Token::Yyyy => lemma_four_digits(dt.year as int),
        Token::Yy => lemma_two_digits(dt.year as int % 100),
        Token::Mm => lemma_two_digits(dt.month as int),
        Token::Dd => lemma_two_digits(dt.day as int),
        Token::HH => lemma_two_digits(dt.hour as int),
        Token::MM => lemma_two_digits(dt.minute as int),
        Token::SS => lemma_two_digits(dt.second as int),
        _ => {},
    }
}

proof fn lemma_month_known(m: int)
    requires
        1 <= m <= 12,
    ensures
        month_name(m) != "Unknown"@,
{
    reveal_strlit("January");
    reveal_strlit("February");
    reveal_strlit("March");
    reveal_strlit("April");
    reveal_strlit("May");
    reveal_strlit("June");
    reveal_strlit("July");
    reveal_strlit("August");
    reveal_strlit("September");
    reveal_strlit("October");
    reveal_strlit("November");
    reveal_strlit("December");
    reveal_strlit("Unknown");
    assert(month_name(m)[0] != "Unknown"@[0]);
}

/// A relative text without braces and without a `..` folder is a template that
/// stands for itself on every date.
pub proof fn law_plain_text_renders_to_itself(s: Seq<char>, dt: DateTime)
    requires
        !s.contains('{'),
        !s.contains('}'),
        s.len() > 0 ==> s[0] != '/' && s[0] != '\\',
        !text::split(s, '/').contains(".."@),
    ensures
        fault(s) is None,
        rendered(s, dt) == s,
{
    if s.len() == 0 {
        assert(rendered(s, dt) =~= s);
    } else {
        assert forall|j: int| 0 <= j < s.len() implies s[j] != '{' && s[j] != '}' by {
            assert(s.contains(s[j]));
        }
        lemma_literal_len_is(s, s.len() as int);
        assert(s.take(s.len() as int) =~= s);
        let lit = SegmentView::Literal(s);
        assert(s.skip(s.len() as int) =~= Seq::<char>::empty());
        lemma_pieces_text_cons(lit, Seq::empty(), dt);
        assert(scan(s.skip(s.len() as int)) == Scan::Pieces(Seq::empty()));
        assert(pieces(s) =~= seq![lit] + Seq::<SegmentView>::empty());
        assert(rendered(s, dt) =~= s);
    }
}

// ---------------------------------------------------------------------------
// Templates are read piece by piece
// ---------------------------------------------------------------------------

proof fn lemma_literal_len_concat(a: Seq<char>, b: Seq<char>)
    ensures
        literal_len(a + b) == if literal_len(a) < a.len() {
            literal_len(a)
        } else {
            a.len() + literal_len(b)
        },
        0 <= literal_len(a) <= a.len(),
    decreases a.len(),
{
    lemma_literal_len_bounds(a);
    if a.len() == 0 {
        assert(a + b =~= b);
    } else if a[0] != '{' && a[0] != '}' {
        lemma_literal_len_concat(a.skip(1), b);
        assert((a + b).skip(1) =~= a.skip(1) + b);
    }
}

proof fn lemma_first_index_concat(a: Seq<char>, b: Seq<char>, c: char)
    requires
        text::first_index(a, c) < a.len(),
    ensures
        text::first_index(a + b, c) == text::first_index(a, c),
    decreases a.len(),
{
    if a.len() > 0 && a[0] != c {
        assert((a + b).skip(1) =~= a.skip(1) + b);
        lemma_first_index_concat(a.skip(1), b, c);
    }
}

proof fn lemma_rendered_from(s: Seq<char>, n: int, p: SegmentView, dt: DateTime)
    requires
        0 < n <= s.len(),
        scan(s.skip(n)) is Pieces,
        scan(s) == prepend(seq![p], scan(s.skip(n))),
    ensures
        scan(s) is Pieces,
        rendered(s, dt) == piece_text(p, dt) + rendered(s.skip(n), dt),
{
    lemma_pieces_text_cons(p, pieces(s.skip(n)), dt);
}

proof fn lemma_literal_rendered(s: Seq<char>, dt: DateTime)
    requires
        scan(s.skip(literal_len(s))) is Pieces,
        literal_len(s) > 0,
    ensures
        scan(s) is Pieces,
        rendered(s, dt) == s.take(literal_len(s)) + rendered(s.skip(literal_len(s)), dt),
{
    lemma_literal_len_bounds(s);
    let n = literal_len(s);
    lemma_rendered_from(s, n, SegmentView::Literal(s.take(n)), dt);
}

/// Templates that can be read can be put together, and stand for what they stand for alone, one
/// after the other.
pub proof fn law_templates_render_piece_by_piece(a: Seq<char>, b: Seq<char>, dt: DateTime)
    requires
        scan(a) is Pieces,
        scan(b) is Pieces,
    ensures
        scan(a + b) is Pieces,
        rendered(a + b, dt) == rendered(a, dt) + rendered(b, dt),
    decreases a.len(),
{
    let s = a + b;
    if a.len() == 0 {
        assert(s =~= b);
        assert(rendered(a, dt) =~= Seq::<char>::empty());
        assert(rendered(a, dt) + rendered(b, dt) =~= rendered(b, dt));
    } else if a[0] == '{' {
        let k = text::first_index(a.skip(1), '}');
        lemma_first_index_bounds(a.skip(1), '}');
        lemma_first_index_concat(a.skip(1), b, '}');
        assert(s.skip(1) =~= a.skip(1) + b);
        assert(s.skip(1).take(k) =~= a.skip(1).take(k));
        assert(s.skip(k + 2) =~= a.skip(k + 2) + b);
        let t = SegmentView::Token(token_named(a.skip(1).take(k))->0);
        law_templates_render_piece_by_piece(a.skip(k + 2), b, dt);
        lemma_rendered_from(a, k + 2, t, dt);
        lemma_rendered_from(s, k + 2, t, dt);
        assert(rendered(s, dt) =~= rendered(a, dt) + rendered(b, dt));
    } else {
        let n = literal_len(a);
        lemma_literal_len_bounds(a);
        lemma_literal_len_concat(a, b);
        lemma_literal_rendered(a, dt);
        if n < a.len() {
            assert(s.take(n) =~= a.take(n));
            assert(s.skip(n) =~= a.skip(n) + b);
            law_templates_render_piece_by_piece(a.skip(n), b, dt);
            lemma_literal_rendered(s, dt);
            assert(rendered(s, dt) =~= rendered(a, dt) + rendered(b, dt));
        } else {
            let m = literal_len(b);
            lemma_literal_len_bounds(b);
            assert(s.skip(n + m) =~= b.skip(m));
            assert(s.take(n + m) =~= a + b.take(m));
            assert(a.take(n) =~= a);
            assert(a.skip(n) =~= Seq::<char>::empty());
            assert(rendered(a.skip(n), dt) =~= Seq::<char>::empty());
            assert(rendered(a, dt) =~= a);
            if m > 0 {
                lemma_literal_rendered(b, dt);
            } else {
                assert(b.skip(0) =~= b);
                assert(b.take(0) =~= Seq::<char>::empty());
            }
            lemma_literal_rendered(s, dt);
            assert(rendered(s, dt) =~= rendered(a, dt) + rendered(b, dt));
        }
    }
}

/// A name of a part of the date between braces stands for that part.
pub proof fn law_tokens_stand_for_their_part(name: Seq<char>, dt: DateTime)
    requires
        token_named(name) is Some,
    ensures
        scan(seq!['{'] + name + seq!['}']) is Pieces,
        rendered(seq!['{'] + name + seq!['}'], dt) == token_text(token_named(name)->0, dt),
{
    let s = seq!['{'] + name + seq!['}'];
    lemma_name_plain(name);
    assert(s.skip(1) =~= name.push('}'));
    lemma_first_index_is(s.skip(1), '}', name.len() as int);
    assert(s.skip(1).take(name.len() as int) =~= name);
    let n = name.len() as int + 2;
    assert(s.skip(n) =~= Seq::<char>::empty());
    lemma_rendered_from(s, n, SegmentView::Token(token_named(name)->0), dt);
    assert(rendered(s.skip(n), dt) =~= Seq::<char>::empty());
    assert(rendered(s, dt) =~= token_text(token_named(name)->0, dt));
}

/// The parts of a date have the names that users write, in small letters for the date and the
/// small name of the month, in capitals for the time.
pub proof fn law_tokens_have_their_names(name: Seq<char>)
    ensures
        token_named(name) == Some(Token::Yyyy) <==> name == "yyyy"@,
        token_named(name) == Some(Token::Yy) <==> name == "yy"@,
        token_named(name) == Some(Token::Mm) <==> name == "mm"@,
        token_named(name) == Some(Token::Dd) <==> name == "dd"@,
        token_named(name) == Some(Token::MonthLower) <==> name == "month"@,
        token_named(name) == Some(Token::MonthCap) <==> name == "Month"@,
        token_named(name) == Some(Token::HH) <==> name == "HH"@,
        token_named(name) == Some(Token::MM) <==> name == "MM"@,
        token_named(name) == Some(Token::SS) <==> name == "SS"@,
{
    reveal_strlit("yyyy");
    reveal_strlit("yy");
    reveal_strlit("mm");
    reveal_strlit("dd");
    reveal_strlit("month");
    reveal_strlit("Month");
    reveal_strlit("HH");
    reveal_strlit("MM");
    reveal_strlit("SS");
    assert("mm"@[0] != "dd"@[0] && "mm"@[0] != "yy"@[0] && "mm"@[0] != "HH"@[0] && "mm"@[0]
        != "MM"@[0] && "mm"@[0] != "SS"@[0]);
    assert("dd"@[0] != "yy"@[0] && "dd"@[0] != "HH"@[0] && "dd"@[0] != "MM"@[0] && "dd"@[0]
        != "SS"@[0]);
    assert("yy"@[0] != "HH"@[0] && "yy"@[0] != "MM"@[0] && "yy"@[0] != "SS"@[0]);
    assert("HH"@[0] != "MM"@[0] && "HH"@[0] != "SS"@[0] && "MM"@[0] != "SS"@[0]);
    assert("month"@[0] != "Month"@[0]);
    assert("yyyy"@.len() == 4 && "yy"@.len() == 2 && "mm"@.len() == 2 && "dd"@.len() == 2);
    assert("HH"@.len() == 2 && "MM"@.len() == 2 && "SS"@.len() == 2);
    assert("month"@.len() == 5 && "Month"@.len() == 5);
}

/// A template that can be read is refused exactly if it starts with a separator or has a folder
/// of two dots; and one with a brace that opens no token is always refused.
pub proof fn law_good_templates_are_relative(s: Seq<char>)
    ensures
        scan(s) is Pieces ==> (fault(s) is None <==> !(s.len() > 0 && (s[0] == '/' || s[0] == '\\'))
            && !text::split(s, '/').contains(".."@)),
        !(scan(s) is Pieces) ==> fault(s) is Some,
        s.len() > 0 && s[0] == '}' ==> fault(s) is Some,
        s.len() > 0 && s[0] == '{' && !s.contains('}') ==> fault(s) is Some,
{
    if s.len() > 0 && s[0] == '{' && !s.contains('}') {
        lemma_first_index_bounds(s.skip(1), '}');
        let k = text::first_index(s.skip(1), '}');
        if k < s.len() - 1 {
            assert(s[k + 1] == '}');
            assert(s.contains(s[k + 1]));
        }
    }
}

/// A template that is refused is refused for what is wrong with it: a brace that is never
/// closed and a name that is no token are told, a brace that closes nothing, a path from the
/// root and a way upwards each have their own words.
pub proof fn law_refusals_tell_what_is_wrong(s: Seq<char>)
    ensures
        match scan(s) {
            Scan::Unterminated(name) => fault(s) matches Some(m) && ("unterminated `{"@
                + name).is_prefix_of(m),
            Scan::Unknown(name) => fault(s) matches Some(m) && ("unknown token `{"@ + name
                + "}`"@).is_prefix_of(m),
            Scan::Stray => fault(s) matches Some(m) && "stray `}`"@.is_prefix_of(m),
            Scan::Pieces(_) => {
                &&& s.len() > 0 && (s[0] == '/' || s[0] == '\\') ==> fault(s) == Some(
                    "template must be relative (no leading `/`)"@,
                )
                &&& !(s.len() > 0 && (s[0] == '/' || s[0] == '\\')) && text::split(
                    s,
                    '/',
                ).contains(".."@) ==> fault(s) == Some("template must not contain `..` segments"@)
            },
        },
{
    match scan(s) {
        Scan::Unterminated(name) => {
            let m = fault(s)->0;
            let begin = "unterminated `{"@ + name;
            assert(m.take(begin.len() as int) =~= begin);
        },
        Scan::Unknown(name) => {
            reveal_strlit("}`");
            reveal_strlit("}` (valid: yyyy, yy, mm, dd, month, Month, HH, MM, SS)");
            let m = fault(s)->0;
            let begin = "unknown token `{"@ + name + "}`"@;
            assert(m.take(begin.len() as int) =~= begin);
        },
        Scan::Stray => {
            reveal_strlit("stray `}`");
            reveal_strlit("stray `}` (escape literal `}` is not supported; just don't use it)");
            let m = fault(s)->0;
            assert(m.take(9) =~= "stray `}`"@);
        },
        Scan::Pieces(_) => {},
    }
}

} // verus!
