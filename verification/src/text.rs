//! Character-level text handling for Jay sources: whitespace, trimming,
//! line splitting, comment stripping and word splitting, each stated over
//! `Seq<char>` and computed on `Vec<char>`.
use vstd::prelude::*;
use vstd::std_specs::iter::IteratorSpec;

verus! {

/// Unicode `White_Space`, the set that `char::is_whitespace` tests.
pub open spec fn is_white(c: char) -> bool {
    let n = c as u32;
    ||| 0x09 <= n <= 0x0D
    ||| n == 0x20
    ||| n == 0x85
    ||| n == 0xA0
    ||| n == 0x1680
    ||| 0x2000 <= n <= 0x200A
    ||| n == 0x2028
    ||| n == 0x2029
    ||| n == 0x202F
    ||| n == 0x205F
    ||| n == 0x3000
}

/// Whether `c` is Unicode whitespace.
pub fn is_white_char(c: char) -> (r: bool)
    ensures
        r == is_white(c),
{
    let n = c as u32;
    (0x09 <= n && n <= 0x0D) || n == 0x20 || n == 0x85 || n == 0xA0 || n == 0x1680 || (0x2000
        <= n && n <= 0x200A) || n == 0x2028 || n == 0x2029 || n == 0x202F || n == 0x205F || n
        == 0x3000
}

/// `s` without its leading whitespace.
pub open spec fn trim_start(s: Seq<char>) -> Seq<char>
    decreases s.len(),
{
    if s.len() > 0 && is_white(s[0]) {
        trim_start(s.drop_first())
    } else {
        s
    }
}

/// `s` without its trailing whitespace.
pub open spec fn trim_end(s: Seq<char>) -> Seq<char>
    decreases s.len(),
{
    if s.len() > 0 && is_white(s.last()) {
        trim_end(s.drop_last())
    } else {
        s
    }
}

/// `s` without leading and trailing whitespace (what `str::trim` returns).
pub open spec fn trim(s: Seq<char>) -> Seq<char> {
    trim_end(trim_start(s))
}

/// A line without the carriage return that preceded its newline.
pub open spec fn strip_cr(l: Seq<char>) -> Seq<char> {
    if l.len() > 0 && l.last() == '\r' {
        l.drop_last()
    } else {
        l
    }
}

/// The finished lines and the line under way after reading `s`.
pub open spec fn line_state(s: Seq<char>) -> (Seq<Seq<char>>, Seq<char>)
    decreases s.len(),
{
    if s.len() == 0 {
        (seq![], seq![])
    } else {
        let prev = line_state(s.drop_last());
        if s.last() == '\n' {
            (prev.0.push(strip_cr(prev.1)), seq![])
        } else {
            (prev.0, prev.1.push(s.last()))
        }
    }
}

/// The lines of `s` as `str::lines` yields them: split at `\n`, a `\r`
/// directly before the `\n` dropped, no empty last line after a final `\n`.
pub open spec fn lines(s: Seq<char>) -> Seq<Seq<char>> {
    let st = line_state(s);
    if st.1.len() > 0 {
        st.0.push(st.1)
    } else {
        st.0
    }
}

/// The finished words and the word under way after reading `s`.
pub open spec fn word_state(s: Seq<char>) -> (Seq<Seq<char>>, Seq<char>)
    decreases s.len(),
{
    if s.len() == 0 {
        (seq![], seq![])
    } else {
        let prev = word_state(s.drop_last());
        if is_white(s.last()) {
            if prev.1.len() > 0 {
                (prev.0.push(prev.1), seq![])
            } else {
                prev
            }
        } else {
            (prev.0, prev.1.push(s.last()))
        }
    }
}

/// The maximal runs of non-whitespace characters of `s`, in order
/// (what `str::split_whitespace` yields).
pub open spec fn words(s: Seq<char>) -> Seq<Seq<char>> {
    let st = word_state(s);
    if st.1.len() > 0 {
        st.0.push(st.1)
    } else {
        st.0
    }
}

/// Whether `s` begins with the comment marker `//`.
pub open spec fn starts_comment(s: Seq<char>) -> bool {
    s.len() >= 2 && s[0] == '/' && s[1] == '/'
}

/// The part of `s` before the first `//` (the first piece of `split("//")`).
pub open spec fn code_part(s: Seq<char>) -> Seq<char>
    decreases s.len(),
{
    if s.len() == 0 || starts_comment(s) {
        seq![]
    } else {
        seq![s[0]] + code_part(s.drop_first())
    }
}

/// `s` holds `needle` as a contiguous piece (what `str::contains` tests).
pub open spec fn has_piece(s: Seq<char>, needle: Seq<char>) -> bool {
    exists|i: int|
        0 <= i && i + needle.len() <= s.len() && #[trigger] s.subrange(i, i + needle.len())
            == needle
}

/// The view of each string of a vector.
pub open spec fn views_of(v: Seq<String>) -> Seq<Seq<char>> {
    v.map_values(|x: String| x@)
}

/// The view of each character vector of a sequence.
pub open spec fn vec_views(v: Seq<Vec<char>>) -> Seq<Seq<char>> {
    v.map_values(|x: Vec<char>| x@)
}

/// The characters of `s`, in order.
pub fn chars_of(s: &str) -> (r: Vec<char>)
    ensures
        r@ == s@,
{
    broadcast use vstd::string::group_string_axioms;

    let mut it = s.chars();
    let mut out: Vec<char> = Vec::new();
    assert(it.remaining() == s@);
    loop
        invariant
            out@ + it.remaining() == s@,
            it.decrease() is Some,
            it.obeys_prophetic_iter_laws(),
        decreases it.decrease()->0,
    {
        let ghost before = it.remaining();
        match it.next() {
            Some(c) => {
                out.push(c);
                assert(out@ + it.remaining() =~= s@) by {
                    assert(before =~= seq![c] + it.remaining());
                }
            },
            None => {
                assert(out@ =~= s@);
                return out;
            },
        }
    }
}

/// Appends `c` to `s` (`String::push`).
#[verifier::external_body]
pub(crate) fn push_char(s: &mut String, c: char)
    ensures
        final(s)@ == old(s)@.push(c),
{
    s.push(c);
}

/// A string holding the characters of `v`.
pub fn string_of(v: &Vec<char>) -> (r: String)
    ensures
        r@ == v@,
{
    let mut s = String::new();
    let mut i: usize = 0;
    while i < v.len()
        invariant
            i <= v.len(),
            s@ == v@.take(i as int),
        decreases v.len() - i,
    {
        push_char(&mut s, v[i]);
        i += 1;
        assert(s@ =~= v@.take(i as int));
    }
    assert(v@.take(v.len() as int) =~= v@);
    s
}

/// The characters `v[lo..hi]`.
pub fn sub_chars(v: &Vec<char>, lo: usize, hi: usize) -> (r: Vec<char>)
    requires
        lo <= hi <= v.len(),
    ensures
        r@ == v@.subrange(lo as int, hi as int),
{
    let mut out: Vec<char> = Vec::new();
    let mut i = lo;
    while i < hi
        invariant
            lo <= i <= hi <= v.len(),
            out@ == v@.subrange(lo as int, i as int),
        decreases hi - i,
    {
        out.push(v[i]);
        i += 1;
        assert(out@ =~= v@.subrange(lo as int, i as int));
    }
    out
}

proof fn lemma_trim_start_skip(s: Seq<char>, i: int)
    requires
        0 <= i < s.len(),
        is_white(s[i]),
    ensures
        trim_start(s.skip(i)) == trim_start(s.skip(i + 1)),
{
    assert(s.skip(i).drop_first() =~= s.skip(i + 1));
}

proof fn lemma_trim_end_sub(s: Seq<char>, a: int, b: int)
    requires
        0 <= a < b <= s.len(),
        is_white(s[b - 1]),
    ensures
        trim_end(s.subrange(a, b)) == trim_end(s.subrange(a, b - 1)),
{
    assert(s.subrange(a, b).drop_last() =~= s.subrange(a, b - 1));
}

/// `v` without leading and trailing whitespace.
pub fn trim_chars(v: &Vec<char>) -> (r: Vec<char>)
    ensures
        r@ == trim(v@),
{
    let n = v.len();
    let mut a: usize = 0;
    assert(v@.skip(0) =~= v@);
    while a < n && is_white_char(v[a])
        invariant
            a <= n == v.len(),
            trim_start(v@) == trim_start(v@.skip(a as int)),
        decreases n - a,
    {
        proof {
            lemma_trim_start_skip(v@, a as int);
        }
        a += 1;
    }
    assert(trim_start(v@) == v@.skip(a as int)) by {
        if a < n {
            assert(v@.skip(a as int)[0] == v@[a as int]);
        } else {
            assert(v@.skip(a as int) =~= Seq::<char>::empty());
        }
    }
    assert(v@.skip(a as int) =~= v@.subrange(a as int, n as int));
    let mut b: usize = n;
    while b > a && is_white_char(v[b - 1])
        invariant
            a <= b <= n == v.len(),
            trim_start(v@) == v@.subrange(a as int, n as int),
            trim(v@) == trim_end(v@.subrange(a as int, b as int)),
        decreases b,
    {
        proof {
            lemma_trim_end_sub(v@, a as int, b as int);
        }
        b -= 1;
    }
    assert(trim_end(v@.subrange(a as int, b as int)) == v@.subrange(a as int, b as int)) by {
        if b > a {
            assert(v@.subrange(a as int, b as int).last() == v@[b - 1]);
        }
    }
    sub_chars(v, a, b)
}

/// The lines of `v`, as `lines` states them.
pub fn split_lines(v: &Vec<char>) -> (r: Vec<Vec<char>>)
    ensures
        vec_views(r@) == lines(v@),
{
    let mut done: Vec<Vec<char>> = Vec::new();
    let mut cur: Vec<char> = Vec::new();
    let mut i: usize = 0;
    while i < v.len()
        invariant
            i <= v.len(),
            (vec_views(done@), cur@) == line_state(v@.take(i as int)),
        decreases v.len() - i,
    {
        let c = v[i];
        let ghost pre = v@.take(i as int);
        assert(v@.take(i + 1).drop_last() =~= pre);
        if c == '\n' {
            let mut l = cur;
            if l.len() > 0 && l[l.len() - 1] == '\r' {
                l.pop();
                assert(l@ =~= strip_cr(line_state(pre).1));
            }
            done.push(l);
            cur = Vec::new();
            assert(vec_views(done@) =~= line_state(pre).0.push(strip_cr(line_state(pre).1)));
        } else {
            cur.push(c);
        }
        i += 1;
    }
    assert(v@.take(v.len() as int) =~= v@);
    if cur.len() > 0 {
        done.push(cur);
        assert(vec_views(done@) =~= line_state(v@).0.push(line_state(v@).1));
    }
    done
}

/// The words of `v`, as `words` states them.
pub fn split_words(v: &Vec<char>) -> (r: Vec<Vec<char>>)
    ensures
        vec_views(r@) == words(v@),
{
    let mut done: Vec<Vec<char>> = Vec::new();
    let mut cur: Vec<char> = Vec::new();
    let mut i: usize = 0;
    while i < v.len()
        invariant
            i <= v.len(),
            (vec_views(done@), cur@) == word_state(v@.take(i as int)),
        decreases v.len() - i,
    {
        let c = v[i];
        let ghost pre = v@.take(i as int);
        assert(v@.take(i + 1).drop_last() =~= pre);
        if is_white_char(c) {
            if cur.len() > 0 {
                done.push(cur);
                cur = Vec::new();
                assert(vec_views(done@) =~= word_state(pre).0.push(word_state(pre).1));
            }
        } else {
            cur.push(c);
        }
        i += 1;
    }
    assert(v@.take(v.len() as int) =~= v@);
    if cur.len() > 0 {
        done.push(cur);
        assert(vec_views(done@) =~= word_state(v@).0.push(word_state(v@).1));
    }
    done
}

proof fn lemma_code_part_step(s: Seq<char>, i: int)
    requires
        0 <= i < s.len(),
        !starts_comment(s.skip(i)),
    ensures
        s.take(i) + code_part(s.skip(i)) == s.take(i + 1) + code_part(s.skip(i + 1)),
{
    assert(s.skip(i).drop_first() =~= s.skip(i + 1));
    assert(s.take(i + 1) =~= s.take(i) + seq![s.skip(i)[0]]);
}

/// The part of `v` before its first `//`.
pub fn code_chars(v: &Vec<char>) -> (r: Vec<char>)
    ensures
        r@ == code_part(v@),
{
    let n = v.len();
    let mut i: usize = 0;
    assert(v@.skip(0) =~= v@);
    assert(v@.take(0) + code_part(v@.skip(0)) =~= code_part(v@));
    while i < n && !(i + 1 < n && v[i] == '/' && v[i + 1] == '/')
        invariant
            i <= n == v.len(),
            v@.take(i as int) + code_part(v@.skip(i as int)) == code_part(v@),
        decreases n - i,
    {
        proof {
            lemma_code_part_step(v@, i as int);
        }
        i += 1;
    }
    assert(code_part(v@.skip(i as int)) =~= Seq::<char>::empty());
    assert(v@.take(i as int) =~= v@.subrange(0, i as int));
    sub_chars(v, 0, i)
}

/// Whether `s` holds `needle` as a contiguous piece.
pub fn contains_piece(s: &Vec<char>, needle: &Vec<char>) -> (r: bool)
    ensures
        r == has_piece(s@, needle@),
{
    let n = s.len();
    let m = needle.len();
    if m > n {
        return false;
    }
    let mut i: usize = 0;
    while i <= n - m
        invariant
            m <= n == s.len(),
            m == needle.len(),
            forall|k: int|
                0 <= k < i && k + m <= n ==> #[trigger] s@.subrange(k, k + m) != needle@,
        decreases n - i,
    {
        let mut j: usize = 0;
        while j < m && s[i + j] == needle[j]
            invariant
                i + m <= n == s.len(),
                m == needle.len(),
                j <= m,
                forall|t: int| 0 <= t < j ==> s@[i + t] == needle@[t],
            decreases m - j,
        {
            j += 1;
        }
        if j == m {
            assert(s@.subrange(i as int, i + m) =~= needle@);
            return true;
        }
        assert(s@.subrange(i as int, i + m)[j as int] != needle@[j as int]);
        i += 1;
    }
    assert forall|k: int|
        0 <= k && k + needle@.len() <= s@.len() implies #[trigger] s@.subrange(k, k + needle@.len())
        != needle@ by {}
    false
}

/// The finished pieces and the piece under way after reading `s`, cutting
/// at each space.
pub open spec fn space_state(s: Seq<char>) -> (Seq<Seq<char>>, Seq<char>)
    decreases s.len(),
{
    if s.len() == 0 {
        (seq![], seq![])
    } else {
        let prev = space_state(s.drop_last());
        if s.last() == ' ' {
            (prev.0.push(prev.1), seq![])
        } else {
            (prev.0, prev.1.push(s.last()))
        }
    }
}

/// The pieces of `s` between spaces, empty ones included (what
/// `str::split(" ")` yields).
pub open spec fn space_pieces(s: Seq<char>) -> Seq<Seq<char>> {
    let st = space_state(s);
    st.0.push(st.1)
}

/// Each of `ts` followed by one space, all written one after the other.
pub open spec fn spaced(ts: Seq<Seq<char>>) -> Seq<char>
    decreases ts.len(),
{
    if ts.len() == 0 {
        seq![]
    } else {
        spaced(ts.drop_last()) + ts.last() + seq![' ']
    }
}

/// A piece of text that is not empty and holds no whitespace.
pub open spec fn solid(t: Seq<char>) -> bool {
    t.len() > 0 && forall|j: int| 0 <= j < t.len() ==> !is_white(#[trigger] t[j])
}

/// The pieces of `v` between spaces.
pub fn split_spaces(v: &Vec<char>) -> (r: Vec<Vec<char>>)
    ensures
        vec_views(r@) == space_pieces(v@),
{
    let mut done: Vec<Vec<char>> = Vec::new();
    let mut cur: Vec<char> = Vec::new();
    let mut i: usize = 0;
    while i < v.len()
        invariant
            i <= v.len(),
            (vec_views(done@), cur@) == space_state(v@.take(i as int)),
        decreases v.len() - i,
    {
        let c = v[i];
        let ghost pre = v@.take(i as int);
        assert(v@.take(i + 1).drop_last() =~= pre);
        if c == ' ' {
            done.push(cur);
            cur = Vec::new();
            assert(vec_views(done@) =~= space_state(pre).0.push(space_state(pre).1));
        } else {
            cur.push(c);
        }
        i += 1;
    }
    assert(v@.take(v.len() as int) =~= v@);
    done.push(cur);
    assert(vec_views(done@) =~= space_state(v@).0.push(space_state(v@).1));
    done
}

proof fn lemma_space_state_append(x: Seq<char>, t: Seq<char>)
    requires
        forall|j: int| 0 <= j < t.len() ==> t[j] != ' ',
    ensures
        space_state(x + t) == (space_state(x).0, space_state(x).1 + t),
    decreases t.len(),
{
    if t.len() == 0 {
        assert(x + t =~= x);
        assert(space_state(x).1 + t =~= space_state(x).1);
    } else {
        let tp = t.drop_last();
        lemma_space_state_append(x, tp);
        assert((x + t).drop_last() =~= x + tp);
        assert((x + t).last() == t.last());
        assert(t[t.len() - 1] != ' ');
        assert((space_state(x).1 + tp).push(t.last()) =~= space_state(x).1 + t);
    }
}

proof fn lemma_spaced_state(ts: Seq<Seq<char>>)
    requires
        forall|k: int| 0 <= k < ts.len() ==> solid(#[trigger] ts[k]),
    ensures
        space_state(spaced(ts)) == (ts, Seq::<char>::empty()),
    decreases ts.len(),
{
    if ts.len() > 0 {
        let p = ts.drop_last();
        let t = ts.last();
        assert(ts[ts.len() - 1] == t);
        assert(forall|k: int| 0 <= k < p.len() ==> p[k] == ts[k]);
        lemma_spaced_state(p);
        assert(forall|j: int| 0 <= j < t.len() ==> t[j] != ' ') by {
            assert(solid(t));
            assert(is_white(' '));
        }
        lemma_space_state_append(spaced(p), t);
        let y = spaced(p) + t + seq![' '];
        assert(y.drop_last() =~= spaced(p) + t);
        assert(p.push(t) =~= ts);
    }
}

proof fn lemma_spaced_first(ts: Seq<Seq<char>>)
    requires
        ts.len() > 0,
        ts[0].len() > 0,
    ensures
        spaced(ts).len() > 0,
        spaced(ts)[0] == ts[0][0],
    decreases ts.len(),
{
    if ts.len() > 1 {
        let p = ts.drop_last();
        assert(p[0] == ts[0]);
        lemma_spaced_first(p);
        assert((spaced(p) + ts.last() + seq![' '])[0] == spaced(p)[0]);
    } else {
        assert(ts.drop_last() =~= Seq::<Seq<char>>::empty());
        assert((spaced(ts.drop_last()) + ts.last() + seq![' '])[0] == ts.last()[0]);
    }
}

/// The pieces between spaces of the trimmed text of solid terms, each
/// written with a space after it, are those terms.
pub proof fn lemma_spaced_pieces(ts: Seq<Seq<char>>)
    requires
        ts.len() > 0,
        forall|k: int| 0 <= k < ts.len() ==> solid(#[trigger] ts[k]),
    ensures
        space_pieces(trim(spaced(ts))) == ts,
{
    let p = ts.drop_last();
    let t = ts.last();
    assert(ts[ts.len() - 1] == t);
    assert(solid(ts[0]));
    lemma_spaced_first(ts);
    let x = spaced(ts);
    assert(x.len() > 0 && !is_white(x[0]));
    assert(trim_start(x) == x);
    let y = spaced(p) + t;
    assert(x == y + seq![' ']);
    assert(x.drop_last() =~= y);
    assert(is_white(x.last()));
    assert(solid(t));
    assert(y.last() == t[t.len() - 1]);
    assert(trim_end(y) == y);
    assert(trim_end(x) == trim_end(y));
    assert(forall|k: int| 0 <= k < p.len() ==> p[k] == ts[k]);
    lemma_spaced_state(p);
    assert(forall|j: int| 0 <= j < t.len() ==> t[j] != ' ') by {
        assert(is_white(' '));
    }
    lemma_space_state_append(spaced(p), t);
    assert(Seq::<char>::empty() + t =~= t);
    assert(p.push(t) =~= ts);
}

/// The decimal digit for `d`.
pub open spec fn digit_char(d: nat) -> char {
    if d == 0 {
        '0'
    } else if d == 1 {
        '1'
    } else if d == 2 {
        '2'
    } else if d == 3 {
        '3'
    } else if d == 4 {
        '4'
    } else if d == 5 {
        '5'
    } else if d == 6 {
        '6'
    } else if d == 7 {
        '7'
    } else if d == 8 {
        '8'
    } else {
        '9'
    }
}

/// The decimal digits of `n`, without leading zeros.
pub open spec fn decimal_nat(n: nat) -> Seq<char>
    decreases n,
{
    if n < 10 {
        seq![digit_char(n)]
    } else {
        decimal_nat(n / 10).push(digit_char(n % 10))
    }
}

/// `v` written in decimal, with a `-` before a negative number (what
/// `to_string` gives for an integer).
pub open spec fn decimal(v: int) -> Seq<char> {
    if v < 0 {
        seq!['-'] + decimal_nat((-v) as nat)
    } else {
        decimal_nat(v as nat)
    }
}

fn digit(d: u64) -> (c: char)
    requires
        d < 10,
    ensures
        c == digit_char(d as nat),
{
    if d == 0 {
        '0'
    } else if d == 1 {
        '1'
    } else if d == 2 {
        '2'
    } else if d == 3 {
        '3'
    } else if d == 4 {
        '4'
    } else if d == 5 {
        '5'
    } else if d == 6 {
        '6'
    } else if d == 7 {
        '7'
    } else if d == 8 {
        '8'
    } else {
        '9'
    }
}

fn push_decimal(out: &mut String, n: u64)
    ensures
        final(out)@ == old(out)@ + decimal_nat(n as nat),
    decreases n,
{
    if n >= 10 {
        push_decimal(out, n / 10);
        push_char(out, digit(n % 10));
        assert(old(out)@ + decimal_nat((n / 10) as nat) + seq![digit_char((n % 10) as nat)]
            =~= old(out)@ + decimal_nat(n as nat));
    } else {
        push_char(out, digit(n));
        assert(old(out)@.push(digit_char(n as nat)) =~= old(out)@ + decimal_nat(n as nat));
    }
}

/// `v` written in decimal.
pub fn decimal_text(v: i64) -> (r: String)
    ensures
        r@ == decimal(v as int),
{
    let mut out = String::new();
    if v < 0 {
        push_char(&mut out, '-');
        let mag: u64 = if v == i64::MIN {
            9223372036854775808u64
        } else {
            (-v) as u64
        };
        push_decimal(&mut out, mag);
        assert(out@ =~= seq!['-'] + decimal_nat((-(v as int)) as nat));
    } else {
        push_decimal(&mut out, v as u64);
        assert(out@ =~= decimal_nat(v as nat));
    }
    out
}

/// The text that `{:?}` formats a string slice as: quoted, with quotes,
/// backslashes and unprintable characters escaped.
pub uninterp spec fn debug_text(s: Seq<char>) -> Seq<char>;

/// Formats `s` with `{:?}` (`<str as Debug>::fmt`). The contract claims only
/// that the text depends on `s` alone; the escaping rules are left unstated.
#[verifier::external_body]
pub(crate) fn debug_string(s: &String) -> (r: String)
    ensures
        r@ == debug_text(s@),
{
    format!("{:?}", s.as_str())
}

} // verus!
