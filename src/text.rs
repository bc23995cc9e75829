//! Text as sequences of characters: splitting, lines, trimming and joining,
//! each stated as a spec function and computed by an executable one.

use vstd::prelude::*;

verus! {

/// Relies on String::push: the character is appended at the end.
pub assume_specification[ String::push ](s: &mut String, ch: char)
    ensures
        final(s)@ == old(s)@.push(ch),
;

/// A name for what `str::to_lowercase` returns for a text.
pub uninterp spec fn lower_of(s: Seq<char>) -> Seq<char>;

/// Relies on str::to_lowercase: the result depends on the characters alone.
#[verifier::external_body]
pub(crate) fn lowercase(s: &str) -> (r: String)
    ensures
        r@ == lower_of(s@),
{
    s.to_lowercase()
}

/// The views of a sequence of character vectors.
pub open spec fn views(v: Seq<Vec<char>>) -> Seq<Seq<char>> {
    v.map_values(|p: Vec<char>| p@)
}

/// The views of a sequence of strings.
pub open spec fn texts(v: Seq<String>) -> Seq<Seq<char>> {
    v.map_values(|p: String| p@)
}

/// `sep` occurs in `s` at position `i`.
pub open spec fn occurs_at(s: Seq<char>, sep: Seq<char>, i: int) -> bool {
    0 <= i && i + sep.len() <= s.len() && s.subrange(i, i + sep.len()) == sep
}

/// The pieces of `s` from a piece that began at `start`, looking for `sep`
/// from position `i` on; occurrences are taken leftmost first and do not
/// overlap.
pub open spec fn split_from(s: Seq<char>, sep: Seq<char>, start: int, i: int) -> Seq<Seq<char>>
    decreases s.len() - i,
{
    if sep.len() == 0 || i < 0 || i + sep.len() > s.len() {
        seq![s.subrange(start, s.len() as int)]
    } else if occurs_at(s, sep, i) {
        seq![s.subrange(start, i)] + split_from(s, sep, i + sep.len(), i + sep.len())
    } else {
        split_from(s, sep, start, i + 1)
    }
}

/// The pieces of `s` between the occurrences of `sep`, as `str::split` gives them.
pub open spec fn split_on(s: Seq<char>, sep: Seq<char>) -> Seq<Seq<char>> {
    split_from(s, sep, 0, 0)
}

/// A line without the carriage return that ended it.
pub open spec fn strip_cr(l: Seq<char>) -> Seq<char> {
    if l.len() > 0 && l.last() == '\r' {
        l.drop_last()
    } else {
        l
    }
}

/// Each line without the carriage return that ended it.
pub open spec fn strip_crs(ls: Seq<Seq<char>>) -> Seq<Seq<char>> {
    ls.map_values(|l: Seq<char>| strip_cr(l))
}

/// The lines of `s`, as `str::lines` gives them: split at `\n`, a `\r`
/// before it dropped, and no empty line after a final line ending.
pub open spec fn lines(s: Seq<char>) -> Seq<Seq<char>> {
    let p = split_on(s, seq!['\n']);
    let ended = strip_crs(p.drop_last());
    if p.last().len() == 0 {
        ended
    } else {
        ended.push(p.last())
    }
}

/// The pieces joined, with `sep` between each two of them.
pub open spec fn join(ps: Seq<Seq<char>>, sep: Seq<char>) -> Seq<char>
    decreases ps.len(),
{
    if ps.len() == 0 {
        Seq::empty()
    } else if ps.len() == 1 {
        ps[0]
    } else {
        join(ps.drop_last(), sep) + sep + ps.last()
    }
}

/// The characters with the Unicode White_Space property, those for which
/// `char::is_whitespace` holds.
pub open spec fn is_white(c: char) -> bool {
    let u = c as u32;
    ||| 0x09 <= u <= 0x0d
    ||| u == 0x20
    ||| u == 0x85
    ||| u == 0xa0
    ||| u == 0x1680
    ||| 0x2000 <= u <= 0x200a
    ||| u == 0x2028
    ||| u == 0x2029
    ||| u == 0x202f
    ||| u == 0x205f
    ||| u == 0x3000
}

/// `s` without its leading white space.
pub open spec fn trim_start(s: Seq<char>) -> Seq<char>
    decreases s.len(),
{
    if s.len() > 0 && is_white(s[0]) {
        trim_start(s.drop_first())
    } else {
        s
    }
}

/// `s` without its trailing white space.
pub open spec fn trim_end(s: Seq<char>) -> Seq<char>
    decreases s.len(),
{
    if s.len() > 0 && is_white(s.last()) {
        trim_end(s.drop_last())
    } else {
        s
    }
}

/// `s` without white space at either end, as `str::trim` gives it.
pub open spec fn trim(s: Seq<char>) -> Seq<char> {
    trim_end(trim_start(s))
}

/// The pieces that are not empty, in their order.
pub open spec fn non_empty(ps: Seq<Seq<char>>) -> Seq<Seq<char>>
    decreases ps.len(),
{
    if ps.len() == 0 {
        ps
    } else if ps.last().len() == 0 {
        non_empty(ps.drop_last())
    } else {
        non_empty(ps.drop_last()).push(ps.last())
    }
}

/// Whether `c` is white space.
pub fn is_white_char(c: char) -> (r: bool)
    ensures
        r == is_white(c),
{
    let u = c as u32;
    (0x09 <= u && u <= 0x0d) || u == 0x20 || u == 0x85 || u == 0xa0 || u == 0x1680 || (0x2000
        <= u && u <= 0x200a) || u == 0x2028 || u == 0x2029 || u == 0x202f || u == 0x205f || u
        == 0x3000
}

/// The characters of a text.
pub fn chars_of(s: &str) -> (r: Vec<char>)
    ensures
        r@ == s@,
{
    let n = s.unicode_len();
    let mut r: Vec<char> = Vec::new();
    let mut i: usize = 0;
    while i < n
        invariant
            n == s@.len(),
            i <= n,
            r@ == s@.subrange(0, i as int),
        decreases n - i,
    {
        r.push(s.get_char(i));
        i = i + 1;
    }
    r
}

/// The text made of `s[lo..hi]`.
pub fn string_of(s: &Vec<char>, lo: usize, hi: usize) -> (r: String)
    requires
        lo <= hi <= s@.len(),
    ensures
        r@ == s@.subrange(lo as int, hi as int),
{
    let mut r = String::new();
    let mut i: usize = lo;
    while i < hi
        invariant
            lo <= i <= hi <= s@.len(),
            r@ == s@.subrange(lo as int, i as int),
        decreases hi - i,
    {
        r.push(s[i]);
        i = i + 1;
    }
    r
}

/// The characters `s[lo..hi]`.
pub fn slice_of(s: &Vec<char>, lo: usize, hi: usize) -> (r: Vec<char>)
    requires
        lo <= hi <= s@.len(),
    ensures
        r@ == s@.subrange(lo as int, hi as int),
{
    let mut r: Vec<char> = Vec::new();
    let mut i: usize = lo;
    while i < hi
        invariant
            lo <= i <= hi <= s@.len(),
            r@ == s@.subrange(lo as int, i as int),
        decreases hi - i,
    {
        r.push(s[i]);
        i = i + 1;
    }
    r
}

/// Whether `sep` occurs in `s` at position `i`.
pub fn occurs_at_exec(s: &Vec<char>, sep: &Vec<char>, i: usize) -> (r: bool)
    ensures
        r == occurs_at(s@, sep@, i as int),
{
    if sep.len() > s.len() || i > s.len() - sep.len() {
        return false;
    }
    let mut k: usize = 0;
    while k < sep.len()
        invariant
            i + sep@.len() <= s@.len(),
            s@.len() <= usize::MAX,
            k <= sep@.len(),
            forall|j: int| 0 <= j < k ==> s@[i + j] == sep@[j],
        decreases sep@.len() - k,
    {
        if s[i + k] != sep[k] {
            assert(s@.subrange(i as int, i + sep@.len())[k as int] != sep@[k as int]);
            return false;
        }
        k = k + 1;
    }
    assert(s@.subrange(i as int, i + sep@.len()) =~= sep@);
    true
}

/// The pieces of `s` between the occurrences of `sep`.
pub fn split_chars(s: &Vec<char>, sep: &Vec<char>) -> (r: Vec<Vec<char>>)
    ensures
        views(r@) == split_on(s@, sep@),
{
    let mut r: Vec<Vec<char>> = Vec::new();
    let mut start: usize = 0;
    let mut i: usize = 0;
    if sep.len() == 0 {
        let whole = slice_of(s, 0, s.len());
        r.push(whole);
        assert(views(r@) =~= split_on(s@, sep@));
        return r;
    }
    while sep.len() <= s.len() && i <= s.len() - sep.len()
        invariant
            0 < sep@.len(),
            start <= i <= s@.len(),
            views(r@) + split_from(s@, sep@, start as int, i as int) == split_on(s@, sep@),
        decreases s@.len() - i,
    {
        if occurs_at_exec(s, sep, i) {
            let piece = slice_of(s, start, i);
            let ghost before = r@;
            let ghost rest = split_from(s@, sep@, i + sep@.len(), i + sep@.len());
            assert(split_from(s@, sep@, start as int, i as int) == seq![piece@] + rest);
            r.push(piece);
            assert(views(r@) =~= views(before).push(piece@));
            assert(views(before).push(piece@) + rest =~= views(before) + (seq![piece@] + rest));
            i = i + sep.len();
            start = i;
        } else {
            i = i + 1;
        }
    }
    let last = slice_of(s, start, s.len());
    let ghost before = r@;
    r.push(last);
    assert(views(r@) =~= views(before).push(last@));
    assert(views(before) + seq![last@] =~= views(before).push(last@));
    r
}

/// Splitting always gives at least one piece.
pub proof fn lemma_split_from_len(s: Seq<char>, sep: Seq<char>, start: int, i: int)
    ensures
        split_from(s, sep, start, i).len() >= 1,
    decreases s.len() - i,
{
    if sep.len() == 0 || i < 0 || i + sep.len() > s.len() {
    } else if occurs_at(s, sep, i) {
        lemma_split_from_len(s, sep, i + sep.len(), i + sep.len());
    } else {
        lemma_split_from_len(s, sep, start, i + 1);
    }
}

/// Appends the characters of `x` to `r`.
pub fn push_all(r: &mut Vec<char>, x: &Vec<char>)
    ensures
        final(r)@ == old(r)@ + x@,
{
    let mut i: usize = 0;
    while i < x.len()
        invariant
            i <= x@.len(),
            r@ == old(r)@ + x@.subrange(0, i as int),
        decreases x@.len() - i,
    {
        r.push(x[i]);
        i = i + 1;
        assert(r@ =~= old(r)@ + x@.subrange(0, i as int));
    }
    assert(x@.subrange(0, x@.len() as int) =~= x@);
}

/// The lines of `s`.
pub fn lines_of(s: &Vec<char>) -> (r: Vec<Vec<char>>)
    ensures
        views(r@) == lines(s@),
{
    let nl = vec!['\n'];
    assert(nl@ =~= seq!['\n']);
    let p = split_chars(s, &nl);
    proof {
        lemma_split_from_len(s@, nl@, 0, 0);
    }
    let ghost ps = split_on(s@, seq!['\n']);
    let n = p.len();
    let mut r: Vec<Vec<char>> = Vec::new();
    let mut i: usize = 0;
    while i + 1 < n
        invariant
            n == p@.len() >= 1,
            views(p@) == ps,
            i + 1 <= n,
            views(r@) == strip_crs(ps.take(i as int)),
        decreases n - i,
    {
        let line = &p[i];
        let len = line.len();
        let cut = if len > 0 && line[len - 1] == '\r' { len - 1 } else { len };
        let kept = slice_of(line, 0, cut);
        assert(ps[i as int] == line@);
        assert(kept@ == strip_cr(ps[i as int]));
        let ghost before = r@;
        r.push(kept);
        assert(views(r@) =~= views(before).push(kept@));
        assert(strip_crs(ps.take(i + 1)) =~= strip_crs(ps.take(i as int)).push(strip_cr(ps[i as int])));
        i = i + 1;
    }
    assert(ps.take(i as int) =~= ps.drop_last());
    let last = &p[n - 1];
    assert(last@ == ps.last());
    assert(views(r@) == strip_crs(ps.drop_last()));
    if last.len() != 0 {
        let kept = slice_of(last, 0, last.len());
        assert(kept@ =~= last@);
        let ghost before = r@;
        r.push(kept);
        assert(views(r@) =~= views(before).push(kept@));
    }
    r
}

/// The pieces joined, with `sep` between each two of them.
pub fn join_chars(ps: &Vec<Vec<char>>, sep: &Vec<char>) -> (r: Vec<char>)
    ensures
        r@ == join(views(ps@), sep@),
{
    let mut r: Vec<char> = Vec::new();
    let mut i: usize = 0;
    while i < ps.len()
        invariant
            i <= ps@.len(),
            r@ == join(views(ps@).take(i as int), sep@),
        decreases ps@.len() - i,
    {
        let ghost before = r@;
        if i > 0 {
            push_all(&mut r, sep);
        }
        push_all(&mut r, &ps[i]);
        let ghost t = views(ps@).take(i + 1);
        assert(t.drop_last() =~= views(ps@).take(i as int));
        assert(t.last() == ps@[i as int]@);
        if i == 0 {
            assert(r@ =~= t[0]);
        }
        i = i + 1;
    }
    assert(views(ps@).take(i as int) =~= views(ps@));
    r
}

/// The pieces that are not empty, in their order.
pub fn non_empty_chars(ps: &Vec<Vec<char>>) -> (r: Vec<Vec<char>>)
    ensures
        views(r@) == non_empty(views(ps@)),
{
    let mut r: Vec<Vec<char>> = Vec::new();
    let mut i: usize = 0;
    while i < ps.len()
        invariant
            i <= ps@.len(),
            views(r@) == non_empty(views(ps@).take(i as int)),
        decreases ps@.len() - i,
    {
        let ghost t = views(ps@).take(i + 1);
        assert(t.drop_last() =~= views(ps@).take(i as int));
        assert(t.last() == ps@[i as int]@);
        if ps[i].len() != 0 {
            let kept = slice_of(&ps[i], 0, ps[i].len());
            assert(kept@ =~= ps@[i as int]@);
            let ghost before = r@;
            r.push(kept);
            assert(views(r@) =~= views(before).push(kept@));
            assert(non_empty(t) == non_empty(t.drop_last()).push(t.last()));
            assert(views(r@) == non_empty(t));
        } else {
            assert(non_empty(t) == non_empty(t.drop_last()));
            assert(views(r@) == non_empty(t));
        }
        i = i + 1;
    }
    assert(views(ps@).take(i as int) =~= views(ps@));
    r
}

/// `s[lo..hi]` without white space at either end.
pub fn trim_chars(s: &Vec<char>, lo: usize, hi: usize) -> (r: Vec<char>)
    requires
        lo <= hi <= s@.len(),
    ensures
        r@ == trim(s@.subrange(lo as int, hi as int)),
{
    let mut a: usize = lo;
    while a < hi && is_white_char(s[a])
        invariant
            lo <= a <= hi <= s@.len(),
            trim_start(s@.subrange(a as int, hi as int)) == trim_start(s@.subrange(lo as int, hi as int)),
        decreases hi - a,
    {
        assert(s@.subrange(a as int, hi as int).drop_first() =~= s@.subrange(a + 1, hi as int));
        a = a + 1;
    }
    assert(trim_start(s@.subrange(a as int, hi as int)) == s@.subrange(a as int, hi as int));
    let mut b: usize = hi;
    while b > a && is_white_char(s[b - 1])
        invariant
            lo <= a <= b <= hi <= s@.len(),
            trim_end(s@.subrange(a as int, b as int)) == trim_end(s@.subrange(a as int, hi as int)),
        decreases b,
    {
        assert(s@.subrange(a as int, b as int).drop_last() =~= s@.subrange(a as int, b - 1));
        b = b - 1;
    }
    assert(trim_end(s@.subrange(a as int, b as int)) == s@.subrange(a as int, b as int));
    slice_of(s, a, b)
}

} // verus!
