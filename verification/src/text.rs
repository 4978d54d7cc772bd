//! Text primitives over character sequences, each with its mathematical meaning.
//!
//! Strings are modelled by `Seq<char>` (the view of `str` and `String`).  The
//! executable functions here work on `Vec<char>` and slices of `char`; the
//! conversions to and from `str` and `String` are `chars_of` and `string_of`.
use vstd::prelude::*;

verus! {

/// Unicode `White_Space` property, which is what `char::is_whitespace`
/// (and hence `str::trim`) tests.
pub open spec fn is_whitespace(c: char) -> bool {
    ||| ('\t' <= c && c <= '\r')
    ||| c == ' '
    ||| c == '\u{85}'
    ||| c == '\u{A0}'
    ||| c == '\u{1680}'
    ||| ('\u{2000}' <= c && c <= '\u{200A}')
    ||| c == '\u{2028}'
    ||| c == '\u{2029}'
    ||| c == '\u{202F}'
    ||| c == '\u{205F}'
    ||| c == '\u{3000}'
}

/// `s` without its leading whitespace.
pub open spec fn trim_start(s: Seq<char>) -> Seq<char>
    decreases s.len(),
{
    if s.len() > 0 && is_whitespace(s[0]) {
        trim_start(s.drop_first())
    } else {
        s
    }
}

/// `s` without its trailing whitespace.
pub open spec fn trim_end(s: Seq<char>) -> Seq<char>
    decreases s.len(),
{
    if s.len() > 0 && is_whitespace(s.last()) {
        trim_end(s.drop_last())
    } else {
        s
    }
}

/// `s` without leading and trailing whitespace (`str::trim`).
pub open spec fn trim(s: Seq<char>) -> Seq<char> {
    trim_end(trim_start(s))
}

/// The empty character sequence.
pub open spec fn empty_text() -> Seq<char> {
    Seq::<char>::empty()
}

/// Whether `s` holds only whitespace (possibly nothing at all).
pub open spec fn is_blank(s: Seq<char>) -> bool {
    trim(s).len() == 0
}

/// Whether `p` is a prefix of `s` (`str::starts_with` with a string pattern).
pub open spec fn starts_with(s: Seq<char>, p: Seq<char>) -> bool {
    p.len() <= s.len() && s.subrange(0, p.len() as int) == p
}

/// `s` with every leading repetition of `p` removed (`str::trim_start_matches`).
pub open spec fn strip_prefix_all(s: Seq<char>, p: Seq<char>) -> Seq<char>
    decreases s.len(),
{
    if p.len() > 0 && starts_with(s, p) {
        strip_prefix_all(s.skip(p.len() as int), p)
    } else {
        s
    }
}

/// Whether `p` occurs in `s` as a contiguous block (`str::contains`).
pub open spec fn contains(s: Seq<char>, p: Seq<char>) -> bool {
    exists|i: int| 0 <= i && i + p.len() <= s.len() && #[trigger] s.subrange(i, i + p.len()) == p
}

/// Puts `cur` in front of the first piece of `pieces`.
pub open spec fn prepend_to_first(cur: Seq<char>, pieces: Seq<Seq<char>>) -> Seq<Seq<char>> {
    seq![cur + pieces[0]] + pieces.drop_first()
}

/// The pieces of `s` between the non-overlapping occurrences of `sep`, found
/// from left to right (`str::split` with a non-empty string pattern).
pub open spec fn split_on(s: Seq<char>, sep: Seq<char>) -> Seq<Seq<char>>
    decreases s.len(),
{
    if s.len() == 0 {
        seq![empty_text()]
    } else if sep.len() > 0 && starts_with(s, sep) {
        seq![empty_text()] + split_on(s.skip(sep.len() as int), sep)
    } else {
        prepend_to_first(seq![s[0]], split_on(s.drop_first(), sep))
    }
}

/// A line ending character.
pub open spec fn newline() -> Seq<char> {
    seq!['\n']
}

/// A line without the `'\r'` of a `"\r\n"` ending.
pub open spec fn strip_cr(line: Seq<char>) -> Seq<char> {
    if line.len() > 0 && line.last() == '\r' {
        line.drop_last()
    } else {
        line
    }
}

/// The lines of `s` (`str::lines`): the pieces between `'\n'` characters, each
/// without the `'\r'` of a `"\r\n"` ending; a final empty piece (after a final
/// line ending, or of an empty text) is no line.
pub open spec fn lines(s: Seq<char>) -> Seq<Seq<char>> {
    let pieces = split_on(s, newline());
    let n = pieces.len() - 1;
    let ended = pieces.take(n).map_values(|l: Seq<char>| strip_cr(l));
    if pieces[n].len() == 0 {
        ended
    } else {
        ended.push(pieces[n])
    }
}

/// The parts with `sep` between each two (`[T]::join`).
pub open spec fn join(parts: Seq<Seq<char>>, sep: Seq<char>) -> Seq<char>
    decreases parts.len(),
{
    if parts.len() == 0 {
        empty_text()
    } else if parts.len() == 1 {
        parts[0]
    } else {
        join(parts.drop_last(), sep) + sep + parts.last()
    }
}

/// The views of a sequence of character vectors.
pub open spec fn views(v: Seq<Vec<char>>) -> Seq<Seq<char>> {
    v.map_values(|x: Vec<char>| x@)
}

/// The code of `c` with ASCII upper-case letters mapped to lower case.
pub open spec fn ascii_fold(c: char) -> u32 {
    if 'A' <= c && c <= 'Z' {
        (c as u32 + 32) as u32
    } else {
        c as u32
    }
}

/// ASCII case-insensitive equality (`str::eq_ignore_ascii_case`).
pub open spec fn eq_ignore_ascii_case(a: Seq<char>, b: Seq<char>) -> bool {
    a.len() == b.len() && forall|i: int| 0 <= i < a.len() ==> ascii_fold(#[trigger] a[i]) == ascii_fold(b[i])
}

/// The characters of `s`, in order.
pub fn chars_of(s: &str) -> (v: Vec<char>)
    ensures
        v@ == s@,
{
    let mut v: Vec<char> = Vec::new();
    for c in it: s.chars()
        invariant
            v@ == it.seq().take(it.index() as int),
    {
        v.push(c);
    }
    v
}

/// `String::push`: appends one character.
#[verifier::external_body]
fn push_char(s: &mut String, c: char)
    ensures
        final(s)@ == old(s)@.push(c),
{
    s.push(c);
}

/// The string made of the characters of `v`, in order.
pub fn string_of(v: &[char]) -> (s: String)
    ensures
        s@ == v@,
{
    let mut s = String::new();
    let n = v.len();
    for i in 0..n
        invariant
            n == v@.len(),
            s@ == v@.take(i as int),
    {
        push_char(&mut s, v[i]);
        assert(v@.take(i + 1) == v@.take(i as int).push(v@[i as int]));
    }
    assert(v@.take(n as int) == v@);
    s
}

/// Executable `is_whitespace`.
pub fn char_is_whitespace(c: char) -> (b: bool)
    ensures
        b == is_whitespace(c),
{
    ('\t' <= c && c <= '\r') || c == ' ' || c == '\u{85}' || c == '\u{A0}' || c == '\u{1680}'
        || ('\u{2000}' <= c && c <= '\u{200A}') || c == '\u{2028}' || c == '\u{2029}'
        || c == '\u{202F}' || c == '\u{205F}' || c == '\u{3000}'
}

/// `v[lo..hi]` as a new vector.
pub fn copy_range(v: &[char], lo: usize, hi: usize) -> (r: Vec<char>)
    requires
        lo <= hi <= v@.len(),
    ensures
        r@ == v@.subrange(lo as int, hi as int),
{
    let mut r: Vec<char> = Vec::new();
    let mut i = lo;
    while i < hi
        invariant
            lo <= i <= hi <= v@.len(),
            r@ == v@.subrange(lo as int, i as int),
        decreases hi - i,
    {
        r.push(v[i]);
        assert(v@.subrange(lo as int, i + 1) == v@.subrange(lo as int, i as int).push(v@[i as int]));
        i = i + 1;
    }
    r
}

/// `trim` of a subrange, given the trimmed subrange of its tail, by one step.
proof fn lemma_trim_start_step(s: Seq<char>, a: int)
    requires
        0 <= a < s.len(),
        is_whitespace(s[a]),
    ensures
        trim_start(s.subrange(a, s.len() as int)) == trim_start(s.subrange(a + 1, s.len() as int)),
{
    assert(s.subrange(a, s.len() as int).drop_first() =~= s.subrange(a + 1, s.len() as int));
}

proof fn lemma_trim_end_step(s: Seq<char>, b: int)
    requires
        0 < b <= s.len(),
        is_whitespace(s[b - 1]),
    ensures
        trim_end(s.subrange(0, b)) == trim_end(s.subrange(0, b - 1)),
{
    assert(s.subrange(0, b).drop_last() =~= s.subrange(0, b - 1));
}

/// The bounds of `trim(v)` within `v`.
pub fn trim_bounds(v: &[char]) -> (r: (usize, usize))
    ensures
        r.0 <= r.1 <= v@.len(),
        trim(v@) == v@.subrange(r.0 as int, r.1 as int),
{
    let n = v.len();
    let mut a: usize = 0;
    assert(v@.subrange(0, n as int) =~= v@);
    while a < n && char_is_whitespace(v[a])
        invariant
            a <= n == v@.len(),
            trim_start(v@) == trim_start(v@.subrange(a as int, n as int)),
        decreases n - a,
    {
        proof {
            lemma_trim_start_step(v@, a as int);
        }
        a = a + 1;
    }
    let ghost t = v@.subrange(a as int, n as int);
    assert(trim_start(v@) == t);
    let mut b: usize = n;
    assert(t.subrange(0, (n - a) as int) =~= t);
    while b > a && char_is_whitespace(v[b - 1])
        invariant
            a <= b <= n == v@.len(),
            t == v@.subrange(a as int, n as int),
            trim_end(t) == trim_end(t.subrange(0, (b - a) as int)),
        decreases b,
    {
        proof {
            lemma_trim_end_step(t, (b - a) as int);
        }
        b = b - 1;
    }
    assert(t.subrange(0, (b - a) as int) =~= v@.subrange(a as int, b as int));
    (a, b)
}

/// `trim(v)` as a new vector.
pub fn trim_chars(v: &[char]) -> (r: Vec<char>)
    ensures
        r@ == trim(v@),
{
    let (a, b) = trim_bounds(v);
    copy_range(v, a, b)
}


/// `split_on` always yields at least one piece.
pub proof fn lemma_split_on_nonempty(s: Seq<char>, sep: Seq<char>)
    ensures
        split_on(s, sep).len() >= 1,
    decreases s.len(),
{
    if s.len() == 0 {
    } else if sep.len() > 0 && starts_with(s, sep) {
        lemma_split_on_nonempty(s.skip(sep.len() as int), sep);
    } else {
        lemma_split_on_nonempty(s.drop_first(), sep);
    }
}

/// Whether `p` occurs in `v` at position `i`.
pub fn matches_at(v: &[char], i: usize, p: &[char]) -> (b: bool)
    requires
        i <= v@.len(),
    ensures
        b == starts_with(v@.subrange(i as int, v@.len() as int), p@),
{
    let n = v.len();
    let m = p.len();
    if m > n - i {
        return false;
    }
    let ghost t = v@.subrange(i as int, n as int);
    let mut j: usize = 0;
    while j < m
        invariant
            j <= m <= n - i,
            n == v@.len(),
            m == p@.len(),
            t == v@.subrange(i as int, n as int),
            t.subrange(0, j as int) == p@.subrange(0, j as int),
        decreases m - j,
    {
        if v[i + j] != p[j] {
            assert(t.subrange(0, m as int)[j as int] != p@[j as int]);
            return false;
        }
        assert(t.subrange(0, j + 1) =~= t.subrange(0, j as int).push(p@[j as int]));
        assert(p@.subrange(0, j + 1) =~= p@.subrange(0, j as int).push(p@[j as int]));
        j = j + 1;
    }
    assert(p@.subrange(0, m as int) =~= p@);
    true
}

/// Whether `p` is a prefix of `v`.
pub fn starts_with_chars(v: &[char], p: &[char]) -> (b: bool)
    ensures
        b == starts_with(v@, p@),
{
    let b = matches_at(v, 0, p);
    assert(v@.subrange(0, v@.len() as int) =~= v@);
    b
}

/// `split_on` of a subrange, one step at a time.
proof fn lemma_split_step_match(s: Seq<char>, i: int, sep: Seq<char>)
    requires
        0 <= i <= s.len(),
        sep.len() > 0,
        starts_with(s.subrange(i, s.len() as int), sep),
    ensures
        split_on(s.subrange(i, s.len() as int), sep)
            == seq![empty_text()] + split_on(s.subrange(i + sep.len(), s.len() as int), sep),
{
    let t = s.subrange(i, s.len() as int);
    assert(t.skip(sep.len() as int) =~= s.subrange(i + sep.len(), s.len() as int));
}

proof fn lemma_split_step_char(s: Seq<char>, i: int, sep: Seq<char>)
    requires
        0 <= i < s.len(),
        !(sep.len() > 0 && starts_with(s.subrange(i, s.len() as int), sep)),
    ensures
        split_on(s.subrange(i, s.len() as int), sep)
            == prepend_to_first(seq![s[i]], split_on(s.subrange(i + 1, s.len() as int), sep)),
{
    let t = s.subrange(i, s.len() as int);
    assert(t.drop_first() =~= s.subrange(i + 1, s.len() as int));
}

/// `split_on(s, sep)` with the pieces as vectors.
pub fn split_chars(s: &[char], sep: &[char]) -> (r: Vec<Vec<char>>)
    requires
        sep@.len() > 0,
    ensures
        views(r@) == split_on(s@, sep@),
{
    let n = s.len();
    let m = sep.len();
    let mut pieces: Vec<Vec<char>> = Vec::new();
    let mut cur: Vec<char> = Vec::new();
    let mut i: usize = 0;
    assert(s@.subrange(0, n as int) =~= s@);
    proof {
        lemma_split_on_nonempty(s@, sep@);
        assert(prepend_to_first(cur@, split_on(s@, sep@)) =~= split_on(s@, sep@));
        assert(views(pieces@) + split_on(s@, sep@) =~= split_on(s@, sep@));
    }
    while i < n
        invariant
            i <= n == s@.len(),
            m == sep@.len() > 0,
            split_on(s@, sep@) == views(pieces@) + prepend_to_first(
                cur@,
                split_on(s@.subrange(i as int, n as int), sep@),
            ),
        decreases n - i,
    {
        let ghost old_pieces = views(pieces@);
        let ghost old_cur = cur@;
        if matches_at(s, i, sep) {
            let ghost rest = split_on(s@.subrange(i + m, n as int), sep@);
            proof {
                lemma_split_step_match(s@, i as int, sep@);
                lemma_split_on_nonempty(s@.subrange(i + m, n as int), sep@);
            }
            pieces.push(cur);
            cur = Vec::new();
            proof {
                assert(views(pieces@) =~= old_pieces.push(old_cur));
                assert(prepend_to_first(old_cur, seq![empty_text()] + rest) =~= seq![old_cur] + rest);
                assert(prepend_to_first(cur@, rest) =~= rest);
                assert(old_pieces + (seq![old_cur] + rest) =~= old_pieces.push(old_cur) + rest);
            }
            i = i + m;
        } else {
            let c = s[i];
            let ghost rest = split_on(s@.subrange(i + 1, n as int), sep@);
            proof {
                lemma_split_step_char(s@, i as int, sep@);
                lemma_split_on_nonempty(s@.subrange(i + 1, n as int), sep@);
            }
            cur.push(c);
            proof {
                let inner = prepend_to_first(seq![c], rest);
                assert(inner[0] == seq![c] + rest[0]);
                assert(inner.drop_first() =~= rest.drop_first());
                assert(old_cur + (seq![c] + rest[0]) =~= cur@ + rest[0]);
                assert(prepend_to_first(old_cur, inner) =~= prepend_to_first(cur@, rest));
            }
            i = i + 1;
        }
    }
    let ghost last_cur = cur@;
    pieces.push(cur);
    proof {
        assert(s@.subrange(n as int, n as int) =~= empty_text());
        assert(prepend_to_first(last_cur, seq![empty_text()]) =~= seq![last_cur]);
    }
    pieces
}

/// `lines(v)` with the lines as vectors.
pub fn lines_of(v: &[char]) -> (r: Vec<Vec<char>>)
    ensures
        views(r@) == lines(v@),
{
    let sep: Vec<char> = vec!['\n'];
    assert(sep@ =~= newline());
    let pieces = split_chars(v, sep.as_slice());
    proof {
        lemma_split_on_nonempty(v@, newline());
    }
    let ghost pv = views(pieces@);
    let n = pieces.len() - 1;
    let mut out: Vec<Vec<char>> = Vec::new();
    for k in 0..n
        invariant
            n == pieces@.len() - 1,
            pv == views(pieces@),
            views(out@) == pv.take(k as int).map_values(|l: Seq<char>| strip_cr(l)),
    {
        let piece = &pieces[k];
        let len = piece.len();
        let line = if len > 0 && piece[len - 1] == '\r' {
            copy_range(piece.as_slice(), 0, len - 1)
        } else {
            copy_range(piece.as_slice(), 0, len)
        };
        proof {
            assert(piece@ == pv[k as int]);
            assert(piece@.subrange(0, len as int) =~= piece@);
            if len > 0 {
                assert(piece@.subrange(0, len - 1) =~= piece@.drop_last());
            }
            assert(line@ == strip_cr(pv[k as int]));
        }
        let ghost before = views(out@);
        out.push(line);
        assert(views(out@) =~= before.push(line@));
        assert(pv.take(k + 1).map_values(|l: Seq<char>| strip_cr(l))
            =~= pv.take(k as int).map_values(|l: Seq<char>| strip_cr(l)).push(strip_cr(pv[k as int])));
    }
    let last = &pieces[n];
    if last.len() > 0 {
        let l = copy_range(last.as_slice(), 0, last.len());
        let ghost before = views(out@);
        assert(last@.subrange(0, last@.len() as int) =~= last@);
        out.push(l);
        assert(views(out@) =~= before.push(pv[n as int]));
    }
    out
}

/// `join(parts, sep)` as a vector.
pub fn join_chars(parts: &Vec<Vec<char>>, sep: &[char]) -> (r: Vec<char>)
    ensures
        r@ == join(views(parts@), sep@),
{
    let ghost pv = views(parts@);
    let n = parts.len();
    let mut r: Vec<char> = Vec::new();
    for i in 0..n
        invariant
            n == parts@.len(),
            pv == views(parts@),
            r@ == join(pv.take(i as int), sep@),
    {
        let ghost before = r@;
        if i > 0 {
            r.extend_from_slice(sep);
        }
        r.extend_from_slice(parts[i].as_slice());
        proof {
            assert(parts[i as int]@ == pv[i as int]);
            assert(pv.take(i + 1).drop_last() =~= pv.take(i as int));
            if i == 0 {
                assert(r@ =~= pv.take(1)[0]);
            } else {
                assert(r@ =~= before + sep@ + pv[i as int]);
            }
        }
    }
    assert(pv.take(n as int) =~= pv);
    r
}

/// Executable `ascii_fold`.
fn char_ascii_fold(c: char) -> (r: u32)
    ensures
        r == ascii_fold(c),
{
    if 'A' <= c && c <= 'Z' {
        c as u32 + 32
    } else {
        c as u32
    }
}

/// Executable `eq_ignore_ascii_case`.
pub fn eq_ignore_ascii_case_chars(a: &[char], b: &[char]) -> (r: bool)
    ensures
        r == eq_ignore_ascii_case(a@, b@),
{
    if a.len() != b.len() {
        return false;
    }
    let n = a.len();
    for i in 0..n
        invariant
            n == a@.len() == b@.len(),
            forall|j: int| 0 <= j < i ==> ascii_fold(#[trigger] a@[j]) == ascii_fold(b@[j]),
    {
        if char_ascii_fold(a[i]) != char_ascii_fold(b[i]) {
            return false;
        }
    }
    true
}

/// Executable `contains`.
pub fn contains_chars(s: &[char], p: &[char]) -> (r: bool)
    ensures
        r == contains(s@, p@),
{
    let n = s.len();
    let m = p.len();
    if m > n {
        return false;
    }
    let mut i: usize = 0;
    loop
        invariant
            n == s@.len(),
            m == p@.len() <= n,
            i <= n - m,
            forall|j: int| 0 <= j < i ==> #[trigger] s@.subrange(j, j + m) != p@,
        decreases n - m - i,
    {
        if matches_at(s, i, p) {
            assert(s@.subrange(i as int, n as int).subrange(0, m as int) =~= s@.subrange(i as int, i + m));
            return true;
        }
        assert(s@.subrange(i as int, n as int).subrange(0, m as int) =~= s@.subrange(i as int, i + m));
        if i == n - m {
            return false;
        }
        i = i + 1;
    }
}


/// `strip_prefix_all(v, p)`, executable.
pub fn strip_prefix_all_chars(v: &[char], p: &[char]) -> (r: Vec<char>)
    ensures
        r@ == strip_prefix_all(v@, p@),
{
    let n = v.len();
    let m = p.len();
    let mut i: usize = 0;
    assert(v@.subrange(0, n as int) =~= v@);
    while m > 0 && matches_at(v, i, p)
        invariant
            i <= n == v@.len(),
            m == p@.len(),
            strip_prefix_all(v@, p@) == strip_prefix_all(v@.subrange(i as int, n as int), p@),
        decreases n - i,
    {
        assert(v@.subrange(i as int, n as int).skip(m as int) =~= v@.subrange(i + m, n as int));
        i = i + m;
    }
    copy_range(v, i, n)
}

/// Whether two character sequences are equal.
pub fn same_chars(a: &[char], b: &[char]) -> (r: bool)
    ensures
        r == (a@ == b@),
{
    if a.len() != b.len() {
        return false;
    }
    let n = a.len();
    for i in 0..n
        invariant
            n == a@.len() == b@.len(),
            forall|j: int| 0 <= j < i ==> a@[j] == b@[j],
    {
        if a[i] != b[i] {
            return false;
        }
    }
    assert(a@ =~= b@);
    true
}

/// Whether `v` holds only whitespace.
pub fn is_blank_chars(v: &[char]) -> (r: bool)
    ensures
        r == is_blank(v@),
{
    let (a, b) = trim_bounds(v);
    a == b
}

/// Whether `t` has no whitespace at either end.
pub open spec fn is_trimmed(t: Seq<char>) -> bool {
    t.len() == 0 || (!is_whitespace(t[0]) && !is_whitespace(t.last()))
}

/// Whether `c` occurs in `t`.
pub open spec fn has_char(t: Seq<char>, c: char) -> bool {
    exists|i: int| 0 <= i < t.len() && t[i] == c
}

/// Trimming removes a suffix of leading whitespace: what remains ends `s`
/// and does not start with whitespace.
pub proof fn lemma_trim_start_shape(s: Seq<char>)
    ensures
        trim_start(s).len() <= s.len(),
        trim_start(s) == s.subrange(s.len() - trim_start(s).len(), s.len() as int),
        trim_start(s).len() > 0 ==> !is_whitespace(trim_start(s)[0]),
    decreases s.len(),
{
    if s.len() > 0 && is_whitespace(s[0]) {
        lemma_trim_start_shape(s.drop_first());
        let t = trim_start(s.drop_first());
        assert(s.drop_first().subrange(s.len() - 1 - t.len(), s.len() - 1) =~= s.subrange(
            s.len() - t.len(),
            s.len() as int,
        ));
    } else {
        assert(s.subrange(0, s.len() as int) =~= s);
    }
}

/// Trimming the end keeps a prefix that does not end with whitespace.
pub proof fn lemma_trim_end_shape(s: Seq<char>)
    ensures
        trim_end(s).len() <= s.len(),
        trim_end(s) == s.subrange(0, trim_end(s).len() as int),
        trim_end(s).len() > 0 ==> !is_whitespace(trim_end(s).last()),
    decreases s.len(),
{
    if s.len() > 0 && is_whitespace(s.last()) {
        lemma_trim_end_shape(s.drop_last());
        let t = trim_end(s.drop_last());
        assert(s.drop_last().subrange(0, t.len() as int) =~= s.subrange(0, t.len() as int));
    } else {
        assert(s.subrange(0, s.len() as int) =~= s);
    }
}

/// A trimmed text has no whitespace at its ends.
pub proof fn lemma_trim_is_trimmed(s: Seq<char>)
    ensures
        is_trimmed(trim(s)),
{
    lemma_trim_start_shape(s);
    let a = trim_start(s);
    lemma_trim_end_shape(a);
    let b = trim_end(a);
    if b.len() > 0 {
        assert(b[0] == a.subrange(0, b.len() as int)[0]);
    }
}

/// Trimming leaves a text without whitespace at its ends as it is.
pub proof fn lemma_trimmed_is_fixed(t: Seq<char>)
    requires
        is_trimmed(t),
    ensures
        trim(t) == t,
{
    assert(trim_start(t) == t);
    assert(trim_end(t) == t);
}

/// `contains` carries over to a longer text on either side.
pub proof fn lemma_contains_concat(a: Seq<char>, b: Seq<char>, p: Seq<char>)
    ensures
        contains(a, p) ==> contains(a + b, p),
        contains(b, p) ==> contains(a + b, p),
{
    if contains(a, p) {
        let i = choose|i: int| 0 <= i && i + p.len() <= a.len() && #[trigger] a.subrange(i, i + p.len()) == p;
        assert((a + b).subrange(i, i + p.len()) =~= a.subrange(i, i + p.len()));
    }
    if contains(b, p) {
        let i = choose|i: int| 0 <= i && i + p.len() <= b.len() && #[trigger] b.subrange(i, i + p.len()) == p;
        assert((a + b).subrange(a.len() + i, a.len() + i + p.len()) =~= b.subrange(i, i + p.len()));
    }
}

/// A text contains itself.
pub proof fn lemma_contains_self(a: Seq<char>)
    ensures
        contains(a, a),
{
    let z: int = 0;
    assert(a.subrange(z, z + a.len()) =~= a);
}

/// `contains` is transitive.
pub proof fn lemma_contains_trans(a: Seq<char>, b: Seq<char>, c: Seq<char>)
    requires
        contains(a, b),
        contains(b, c),
    ensures
        contains(a, c),
{
    let i = choose|i: int| 0 <= i && i + b.len() <= a.len() && #[trigger] a.subrange(i, i + b.len()) == b;
    let j = choose|j: int| 0 <= j && j + c.len() <= b.len() && #[trigger] b.subrange(j, j + c.len()) == c;
    assert(a.subrange(i + j, i + j + c.len()) =~= b.subrange(j, j + c.len()));
}

/// Every part is contained in the joined text.
pub proof fn lemma_join_contains(parts: Seq<Seq<char>>, sep: Seq<char>, i: int)
    requires
        0 <= i < parts.len(),
    ensures
        contains(join(parts, sep), parts[i]),
    decreases parts.len(),
{
    if parts.len() == 1 {
        lemma_contains_self(parts[0]);
    } else if i == parts.len() - 1 {
        lemma_contains_self(parts[i]);
        lemma_contains_concat(join(parts.drop_last(), sep) + sep, parts.last(), parts[i]);
    } else {
        lemma_join_contains(parts.drop_last(), sep, i);
        lemma_contains_concat(join(parts.drop_last(), sep), sep, parts[i]);
        lemma_contains_concat(join(parts.drop_last(), sep) + sep, parts.last(), parts[i]);
    }
}

/// A joined text ends with the last part.
pub proof fn lemma_join_ends_with(parts: Seq<Seq<char>>, sep: Seq<char>)
    requires
        parts.len() >= 1,
    ensures
        join(parts, sep).len() >= parts.last().len(),
        join(parts, sep).subrange(
            join(parts, sep).len() - parts.last().len(),
            join(parts, sep).len() as int,
        ) == parts.last(),
{
    let j = join(parts, sep);
    if parts.len() == 1 {
        assert(j.subrange(0, j.len() as int) =~= j);
    } else {
        let x = join(parts.drop_last(), sep) + sep;
        assert(j == x + parts.last());
        assert(j.subrange(x.len() as int, j.len() as int) =~= parts.last());
    }
}

/// A joined text starts with the first part.
pub proof fn lemma_join_starts_with(parts: Seq<Seq<char>>, sep: Seq<char>)
    requires
        parts.len() >= 1,
    ensures
        starts_with(join(parts, sep), parts[0]),
{
    let j = join(parts, sep);
    if parts.len() == 1 {
        assert(j.subrange(0, j.len() as int) =~= j);
    } else {
        lemma_join_front(parts, sep);
        assert(j.subrange(0, parts[0].len() as int) =~= parts[0]);
    }
}

/// Two neighbouring parts, with the separator between them, are contained
/// in the joined text.
pub proof fn lemma_join_contains_pair(parts: Seq<Seq<char>>, sep: Seq<char>, i: int)
    requires
        0 <= i,
        i + 1 < parts.len(),
    ensures
        contains(join(parts, sep), parts[i] + sep + parts[i + 1]),
    decreases parts.len(),
{
    let d = parts.drop_last();
    if i + 1 == parts.len() - 1 {
        let jd = join(d, sep);
        lemma_join_ends_with(d, sep);
        assert(d.last() == parts[i]);
        let k = jd.len() - parts[i].len();
        let p = parts[i] + sep + parts[i + 1];
        let j = join(parts, sep);
        assert(j == jd + sep + parts.last());
        assert(jd =~= jd.subrange(0, k) + jd.subrange(k, jd.len() as int));
        assert(j =~= jd.subrange(0, k) + p);
        assert(j.subrange(k, k + p.len()) =~= p);
    } else {
        lemma_join_contains_pair(d, sep, i);
        assert(d[i] == parts[i] && d[i + 1] == parts[i + 1]);
        lemma_contains_concat(join(d, sep), sep, parts[i] + sep + parts[i + 1]);
        lemma_contains_concat(join(d, sep) + sep, parts.last(), parts[i] + sep + parts[i + 1]);
    }
}

/// Joining a sequence of at least two parts, seen from its front.
pub proof fn lemma_join_front(parts: Seq<Seq<char>>, sep: Seq<char>)
    requires
        parts.len() >= 2,
    ensures
        join(parts, sep) == parts[0] + sep + join(parts.drop_first(), sep),
    decreases parts.len(),
{
    if parts.len() == 2 {
        assert(parts.drop_last() =~= seq![parts[0]]);
        assert(parts.drop_first() =~= seq![parts[1]]);
        assert(join(parts.drop_last(), sep) == parts[0]);
        assert(join(parts.drop_first(), sep) == parts[1]);
    } else {
        lemma_join_front(parts.drop_last(), sep);
        assert(parts.drop_last().drop_first() =~= parts.drop_first().drop_last());
        assert(parts.drop_first().last() == parts.last());
        assert(parts.drop_last()[0] == parts[0]);
        let j = join(parts.drop_first().drop_last(), sep);
        assert(join(parts.drop_first(), sep) == j + sep + parts.last());
        assert(join(parts, sep) == parts[0] + sep + j + sep + parts.last());
        assert(parts[0] + sep + j + sep + parts.last() =~= parts[0] + sep + (j + sep + parts.last()));
    }
}

/// A text without line endings is one piece.
pub proof fn lemma_split_no_newline(a: Seq<char>)
    requires
        !has_char(a, '\n'),
    ensures
        split_on(a, newline()) == seq![a],
    decreases a.len(),
{
    if a.len() == 0 {
        assert(a =~= empty_text());
    } else {
        assert(!starts_with(a, newline())) by {
            assert(a.subrange(0, 1)[0] == a[0]);
            assert(a[0] != '\n');
        }
        assert(!has_char(a.drop_first(), '\n')) by {
            if has_char(a.drop_first(), '\n') {
                let k = choose|k: int| 0 <= k < a.drop_first().len() && a.drop_first()[k] == '\n';
                assert(a[k + 1] == '\n');
            }
        }
        lemma_split_no_newline(a.drop_first());
        assert(seq![a[0]] + a.drop_first() =~= a);
        assert(prepend_to_first(seq![a[0]], seq![a.drop_first()]) =~= seq![a]);
    }
}

/// Splitting at the first line ending.
pub proof fn lemma_split_at_newline(a: Seq<char>, b: Seq<char>)
    requires
        !has_char(a, '\n'),
    ensures
        split_on(a + newline() + b, newline()) == seq![a] + split_on(b, newline()),
    decreases a.len(),
{
    let s = a + newline() + b;
    if a.len() == 0 {
        assert(s.subrange(0, 1) =~= newline());
        assert(s.skip(1) =~= b);
        assert(a =~= empty_text());
    } else {
        assert(!starts_with(s, newline())) by {
            assert(s.subrange(0, 1)[0] == a[0]);
        }
        assert(!has_char(a.drop_first(), '\n')) by {
            if has_char(a.drop_first(), '\n') {
                let k = choose|k: int| 0 <= k < a.drop_first().len() && a.drop_first()[k] == '\n';
                assert(a[k + 1] == '\n');
            }
        }
        lemma_split_at_newline(a.drop_first(), b);
        assert(s.drop_first() =~= a.drop_first() + newline() + b);
        let r = split_on(b, newline());
        assert(prepend_to_first(seq![a[0]], seq![a.drop_first()] + r) =~= seq![a] + r) by {
            assert(seq![a[0]] + a.drop_first() =~= a);
        }
    }
}

/// Joining lines without line endings by line endings, then splitting at
/// line endings, gives the lines back.
pub proof fn lemma_split_join(parts: Seq<Seq<char>>)
    requires
        parts.len() >= 1,
        forall|i: int| 0 <= i < parts.len() ==> !has_char(#[trigger] parts[i], '\n'),
    ensures
        split_on(join(parts, newline()), newline()) == parts,
    decreases parts.len(),
{
    if parts.len() == 1 {
        lemma_split_no_newline(parts[0]);
        assert(seq![parts[0]] =~= parts);
    } else {
        lemma_join_front(parts, newline());
        let rest = parts.drop_first();
        assert forall|i: int| 0 <= i < rest.len() implies !has_char(#[trigger] rest[i], '\n') by {
            assert(rest[i] == parts[i + 1]);
        }
        lemma_split_join(rest);
        lemma_split_at_newline(parts[0], join(rest, newline()));
        assert(seq![parts[0]] + rest =~= parts);
    }
}

/// The lines of lines joined by, and ended with, line endings.
pub proof fn lemma_lines_of_joined(parts: Seq<Seq<char>>)
    requires
        parts.len() >= 1,
        forall|i: int| 0 <= i < parts.len() ==> !has_char(#[trigger] parts[i], '\n'),
    ensures
        lines(join(parts, newline()) + newline()) == parts.map_values(|l: Seq<char>| strip_cr(l)),
{
    let ext = parts.push(empty_text());
    assert(ext.drop_last() =~= parts);
    assert(join(ext, newline()) =~= join(parts, newline()) + newline());
    assert forall|i: int| 0 <= i < ext.len() implies !has_char(#[trigger] ext[i], '\n') by {
        if i < parts.len() {
            assert(ext[i] == parts[i]);
        }
    }
    lemma_split_join(ext);
    assert(ext.take(parts.len() as int) =~= parts);
    assert(parts.map_values(|l: Seq<char>| strip_cr(l)).len() == parts.len());
}

/// The lines of lines joined by line endings, the last line not empty.
pub proof fn lemma_lines_of_joined_unended(parts: Seq<Seq<char>>)
    requires
        parts.len() >= 1,
        parts.last().len() > 0,
        forall|i: int| 0 <= i < parts.len() ==> !has_char(#[trigger] parts[i], '\n'),
    ensures
        lines(join(parts, newline())) == parts.drop_last().map_values(|l: Seq<char>| strip_cr(l)).push(
            parts.last(),
        ),
{
    lemma_split_join(parts);
    assert(parts.take(parts.len() - 1) =~= parts.drop_last());
}

/// What `str::to_uppercase` returns for a text (its Unicode upper-case
/// mapping, in which one character may become several).
pub uninterp spec fn uppercase(s: Seq<char>) -> Seq<char>;

/// What `str::to_lowercase` returns for a text (its Unicode lower-case
/// mapping, in which one character may become several).
pub uninterp spec fn lowercase(s: Seq<char>) -> Seq<char>;

/// Calls `str::to_uppercase`.  Its result is named by `uppercase`, a function
/// of the text alone; nothing more is claimed of the mapping.
#[verifier::external_body]
pub(crate) fn to_uppercase(s: &str) -> (r: String)
    ensures
        r@ == uppercase(s@),
{
    s.to_uppercase()
}

/// Calls `str::to_lowercase`.  Its result is named by `lowercase`, a function
/// of the text alone; nothing more is claimed of the mapping.
#[verifier::external_body]
pub(crate) fn to_lowercase(s: &str) -> (r: String)
    ensures
        r@ == lowercase(s@),
{
    s.to_lowercase()
}

/// `uppercase` of a character vector.
pub fn uppercase_chars(v: &[char]) -> (r: Vec<char>)
    ensures
        r@ == uppercase(v@),
{
    let s = string_of(v);
    let u = to_uppercase(s.as_str());
    chars_of(u.as_str())
}

/// `lowercase` of a character vector.
pub fn lowercase_chars(v: &[char]) -> (r: Vec<char>)
    ensures
        r@ == lowercase(v@),
{
    let s = string_of(v);
    let l = to_lowercase(s.as_str());
    chars_of(l.as_str())
}

} // verus!
