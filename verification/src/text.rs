use vstd::prelude::*;
use vstd::string::*;

verus! {

/// Appends `c` to `s` (std's `String::push`).
#[verifier::external_body]
pub(crate) fn push_char(s: &mut String, c: char)
    ensures
        final(s)@ == old(s)@.push(c),
{
    s.push(c)
}

/// The characters of `s`, in order.
pub fn chars_of(s: &str) -> (v: Vec<char>)
    ensures
        v@ == s@,
{
    let mut v: Vec<char> = Vec::new();
    for c in it: s.chars()
        invariant
            v@ == it.seq().take(it.index() as int),
            it.seq() == s@,
    {
        v.push(c);
    }
    v
}

/// The string made of `v[from..to]`.
pub fn string_of(v: &Vec<char>, from: usize, to: usize) -> (r: String)
    requires
        from <= to <= v.len(),
    ensures
        r@ == v@.subrange(from as int, to as int),
{
    let mut r = String::new();
    let mut i = from;
    while i < to
        invariant
            from <= i <= to <= v.len(),
            r@ == v@.subrange(from as int, i as int),
        decreases to - i,
    {
        push_char(&mut r, v[i]);
        assert(v@.subrange(from as int, i + 1) =~= v@.subrange(from as int, i as int).push(v@[i as int]));
        i = i + 1;
    }
    r
}

/// Unicode's White_Space property, which `char::is_whitespace` and `str::trim` go by.
pub open spec fn is_white_space(c: char) -> bool {
    ||| '\t' <= c <= '\r'
    ||| c == ' '
    ||| c == '\u{85}'
    ||| c == '\u{a0}'
    ||| c == '\u{1680}'
    ||| '\u{2000}' <= c <= '\u{200a}'
    ||| c == '\u{2028}'
    ||| c == '\u{2029}'
    ||| c == '\u{202f}'
    ||| c == '\u{205f}'
    ||| c == '\u{3000}'
}

/// Whether `c` has Unicode's White_Space property.
pub fn white_space(c: char) -> (b: bool)
    ensures
        b == is_white_space(c),
{
    ('\t' <= c && c <= '\r') || c == ' ' || c == '\u{85}' || c == '\u{a0}' || c == '\u{1680}'
        || ('\u{2000}' <= c && c <= '\u{200a}') || c == '\u{2028}' || c == '\u{2029}'
        || c == '\u{202f}' || c == '\u{205f}' || c == '\u{3000}'
}

/// `s` without its leading white space.
pub open spec fn trim_start(s: Seq<char>) -> Seq<char>
    decreases s.len(),
{
    if s.len() > 0 && is_white_space(s[0]) {
        trim_start(s.drop_first())
    } else {
        s
    }
}

/// `s` without its trailing white space.
pub open spec fn trim_end(s: Seq<char>) -> Seq<char>
    decreases s.len(),
{
    if s.len() > 0 && is_white_space(s.last()) {
        trim_end(s.drop_last())
    } else {
        s
    }
}

/// `s` without its leading and trailing white space, as `str::trim` gives it.
pub open spec fn trim(s: Seq<char>) -> Seq<char> {
    trim_end(trim_start(s))
}

/// `s` without its leading `c`s, as `str::trim_start_matches(c)` gives it.
pub open spec fn strip_leading(s: Seq<char>, c: char) -> Seq<char>
    decreases s.len(),
{
    if s.len() > 0 && s[0] == c {
        strip_leading(s.drop_first(), c)
    } else {
        s
    }
}

proof fn lemma_trim_start_skip(s: Seq<char>, i: int)
    requires
        0 <= i < s.len(),
        is_white_space(s[i]),
    ensures
        trim_start(s.skip(i)) == trim_start(s.skip(i + 1)),
{
    assert(s.skip(i).drop_first() =~= s.skip(i + 1));
}

proof fn lemma_trim_end_take(s: Seq<char>, j: int)
    requires
        0 < j <= s.len(),
        is_white_space(s[j - 1]),
    ensures
        trim_end(s.take(j)) == trim_end(s.take(j - 1)),
{
    assert(s.take(j).drop_last() =~= s.take(j - 1));
}

proof fn lemma_strip_leading_skip(s: Seq<char>, c: char, i: int)
    requires
        0 <= i < s.len(),
        s[i] == c,
    ensures
        strip_leading(s.skip(i), c) == strip_leading(s.skip(i + 1), c),
{
    assert(s.skip(i).drop_first() =~= s.skip(i + 1));
}

/// Index of the first character of `v[from..]` that is not white space (`v.len()` if none).
fn skip_white_space(v: &Vec<char>, from: usize) -> (i: usize)
    requires
        from <= v.len(),
    ensures
        from <= i <= v.len(),
        trim_start(v@.skip(from as int)) == v@.skip(i as int),
{
    let mut i = from;
    while i < v.len() && white_space(v[i])
        invariant
            from <= i <= v.len(),
            trim_start(v@.skip(from as int)) == trim_start(v@.skip(i as int)),
        decreases v.len() - i,
    {
        proof {
            lemma_trim_start_skip(v@, i as int);
        }
        i = i + 1;
    }
    proof {
        if i < v.len() {
            assert(v@.skip(i as int)[0] == v@[i as int]);
        } else {
            assert(v@.skip(i as int).len() == 0);
        }
    }
    i
}

/// `s` without its leading and trailing white space (`str::trim`).
pub fn trim_str(s: &str) -> (r: String)
    ensures
        r@ == trim(s@),
{
    let v = chars_of(s);
    let i = skip_white_space(&v, 0);
    assert(v@.skip(0) =~= v@);
    let mut j = v.len();
    let ghost t = v@.skip(i as int);
    assert(t =~= v@.subrange(i as int, j as int));
    while j > i && white_space(v[j - 1])
        invariant
            i <= j <= v.len(),
            t == v@.skip(i as int),
            trim_end(t) == trim_end(v@.subrange(i as int, j as int)),
        decreases j - i,
    {
        proof {
            let u = v@.subrange(i as int, j as int);
            lemma_trim_end_take(u, j - i);
            assert(u.take(j - i) =~= u);
            assert(u.take(j - i - 1) =~= v@.subrange(i as int, j - 1));
        }
        j = j - 1;
    }
    proof {
        let u = v@.subrange(i as int, j as int);
        if j > i {
            assert(u.last() == v@[j - 1]);
        }
        assert(trim_end(u) == u);
    }
    string_of(&v, i, j)
}

/// `s` without its leading `c`s (`str::trim_start_matches(c)`).
pub fn strip_leading_str(s: &str, c: char) -> (r: String)
    ensures
        r@ == strip_leading(s@, c),
{
    let v = chars_of(s);
    let mut i: usize = 0;
    assert(v@.skip(0) =~= v@);
    while i < v.len() && v[i] == c
        invariant
            i <= v.len(),
            strip_leading(v@, c) == strip_leading(v@.skip(i as int), c),
        decreases v.len() - i,
    {
        proof {
            lemma_strip_leading_skip(v@, c, i as int);
        }
        i = i + 1;
    }
    proof {
        if i < v.len() {
            assert(v@.skip(i as int)[0] == v@[i as int]);
        }
        assert(v@.skip(i as int) =~= v@.subrange(i as int, v@.len() as int));
    }
    string_of(&v, i, v.len())
}

/// Trimming twice gives what trimming once gives, and a trimmed string neither starts nor ends
/// with white space.
pub proof fn lemma_trim_idempotent(s: Seq<char>)
    ensures
        trim(trim(s)) == trim(s),
        trim(s).len() > 0 ==> !is_white_space(trim(s)[0]) && !is_white_space(trim(s).last()),
{
    lemma_trim_start_result(s);
    lemma_trim_end_result(trim_start(s));
    let t = trim(s);
    if t.len() > 0 {
        lemma_trim_end_prefix(trim_start(s));
        assert(t[0] == trim_start(s)[0]);
    }
    assert(trim_start(t) == t);
    assert(trim_end(t) == t);
}

proof fn lemma_trim_start_result(s: Seq<char>)
    ensures
        trim_start(s).len() > 0 ==> !is_white_space(trim_start(s)[0]),
    decreases s.len(),
{
    if s.len() > 0 && is_white_space(s[0]) {
        lemma_trim_start_result(s.drop_first());
    }
}

proof fn lemma_trim_end_result(s: Seq<char>)
    ensures
        trim_end(s).len() > 0 ==> !is_white_space(trim_end(s).last()),
    decreases s.len(),
{
    if s.len() > 0 && is_white_space(s.last()) {
        lemma_trim_end_result(s.drop_last());
    }
}

proof fn lemma_trim_end_prefix(s: Seq<char>)
    ensures
        trim_end(s).len() <= s.len(),
        trim_end(s) == s.take(trim_end(s).len() as int),
    decreases s.len(),
{
    if s.len() > 0 && is_white_space(s.last()) {
        lemma_trim_end_prefix(s.drop_last());
        assert(s.drop_last().take(trim_end(s).len() as int) =~= s.take(trim_end(s).len() as int));
    } else {
        assert(s.take(s.len() as int) =~= s);
    }
}

/// `line` without one trailing carriage return.
pub open spec fn strip_cr(line: Seq<char>) -> Seq<char> {
    if line.len() > 0 && line.last() == '\r' {
        line.drop_last()
    } else {
        line
    }
}

/// The lines of `rest`, the current line having begun with `cur`: a line ends at each `'\n'`
/// (which, with a `'\r'` just before it, is not part of the line); a last line that no `'\n'`
/// ends counts only if it is not empty.
pub open spec fn lines_from(rest: Seq<char>, cur: Seq<char>) -> Seq<Seq<char>>
    decreases rest.len(),
{
    if rest.len() == 0 {
        if cur.len() == 0 {
            seq![]
        } else {
            seq![cur]
        }
    } else if rest[0] == '\n' {
        seq![strip_cr(cur)] + lines_from(rest.drop_first(), seq![])
    } else {
        lines_from(rest.drop_first(), cur.push(rest[0]))
    }
}

/// The lines of `s`, as `str::lines` gives them.
pub open spec fn lines(s: Seq<char>) -> Seq<Seq<char>> {
    lines_from(s, seq![])
}

/// The lines of `s` (`str::lines`): split at each `'\n'`, a `'\r'` just before it dropped, no
/// empty last line after a final `'\n'`.
pub fn split_lines(s: &str) -> (r: Vec<String>)
    ensures
        r.len() == lines(s@).len(),
        forall|k: int| 0 <= k < r.len() ==> #[trigger] r[k]@ == lines(s@)[k],
{
    let v = chars_of(s);
    let mut out: Vec<String> = Vec::new();
    let ghost mut acc: Seq<Seq<char>> = seq![];
    let mut start: usize = 0;
    let mut i: usize = 0;
    assert(v@.skip(0) =~= v@);
    assert(v@.subrange(0, 0) =~= Seq::<char>::empty());
    while i < v.len()
        invariant
            start <= i <= v.len(),
            v@ == s@,
            out.len() == acc.len(),
            forall|k: int| 0 <= k < out.len() ==> #[trigger] out[k]@ == acc[k],
            acc + lines_from(v@.skip(i as int), v@.subrange(start as int, i as int)) == lines(v@),
        decreases v.len() - i,
    {
        let ghost rest = v@.skip(i as int);
        let ghost cur = v@.subrange(start as int, i as int);
        assert(rest[0] == v@[i as int]);
        assert(rest.drop_first() =~= v@.skip(i + 1));
        if v[i] == '\n' {
            let end = if i > start && v[i - 1] == '\r' { i - 1 } else { i };
            let line = string_of(&v, start, end);
            assert(line@ =~= strip_cr(cur));
            out.push(line);
            proof {
                let ghost old_acc = acc;
                acc = acc.push(strip_cr(cur));
                assert(lines_from(rest, cur) == seq![strip_cr(cur)] + lines_from(rest.drop_first(), seq![]));
                assert(old_acc + (seq![strip_cr(cur)] + lines_from(rest.drop_first(), seq![])) =~= acc + lines_from(rest.drop_first(), seq![]));
                assert(v@.subrange(i + 1, i + 1) =~= Seq::<char>::empty());
            }
            start = i + 1;
        } else {
            assert(cur.push(v@[i as int]) =~= v@.subrange(start as int, i + 1));
        }
        i = i + 1;
    }
    let ghost cur = v@.subrange(start as int, v.len() as int);
    assert(v@.skip(v.len() as int) =~= Seq::<char>::empty());
    if start < v.len() {
        let line = string_of(&v, start, v.len());
        out.push(line);
        proof {
            let ghost old_acc = acc;
            acc = acc.push(cur);
            assert(old_acc + seq![cur] =~= acc);
        }
    } else {
        assert(acc + Seq::<Seq<char>>::empty() =~= acc);
    }
    out
}

proof fn lemma_lines_from_no_newline(rest: Seq<char>, cur: Seq<char>)
    requires
        !cur.contains('\n'),
    ensures
        forall|k: int| 0 <= k < lines_from(rest, cur).len() ==> !(#[trigger] lines_from(rest, cur)[k]).contains('\n'),
    decreases rest.len(),
{
    let ls = lines_from(rest, cur);
    if rest.len() == 0 {
        if cur.len() > 0 {
            assert(ls[0] == cur);
        }
    } else if rest[0] == '\n' {
        let e: Seq<char> = seq![];
        assert(!e.contains('\n'));
        lemma_lines_from_no_newline(rest.drop_first(), e);
        assert(ls == seq![strip_cr(cur)] + lines_from(rest.drop_first(), e));
        assert forall|k: int| 0 <= k < ls.len() implies !(#[trigger] ls[k]).contains('\n') by {
            if k == 0 {
                if strip_cr(cur).contains('\n') {
                    let j = choose|j: int| 0 <= j < strip_cr(cur).len() && strip_cr(cur)[j] == '\n';
                    assert(cur[j] == '\n');
                }
            } else {
                assert(ls[k] == lines_from(rest.drop_first(), e)[k - 1]);
            }
        }
    } else {
        let c2 = cur.push(rest[0]);
        if c2.contains('\n') {
            let j = choose|j: int| 0 <= j < c2.len() && c2[j] == '\n';
            assert(j < cur.len() ==> cur[j] == '\n');
        }
        assert(ls == lines_from(rest.drop_first(), c2));
        lemma_lines_from_no_newline(rest.drop_first(), c2);
    }
}

/// No line holds a line feed.
pub proof fn lemma_lines_no_newline(s: Seq<char>)
    ensures
        forall|k: int| 0 <= k < lines(s).len() ==> !(#[trigger] lines(s)[k]).contains('\n'),
{
    lemma_lines_from_no_newline(s, seq![]);
}

proof fn lemma_trim_start_suffix(s: Seq<char>)
    ensures
        trim_start(s).len() <= s.len(),
        trim_start(s) == s.skip(s.len() - trim_start(s).len()),
        forall|k: int| 0 <= k < s.len() - trim_start(s).len() ==> is_white_space(#[trigger] s[k]),
    decreases s.len(),
{
    if s.len() > 0 && is_white_space(s[0]) {
        let t = s.drop_first();
        lemma_trim_start_suffix(t);
        assert(t.skip(t.len() - trim_start(t).len()) =~= s.skip(s.len() - trim_start(s).len()));
        assert forall|k: int| 0 <= k < s.len() - trim_start(s).len() implies is_white_space(#[trigger] s[k]) by {
            if k > 0 {
                assert(s[k] == t[k - 1]);
            }
        }
    } else {
        assert(s.skip(0) =~= s);
    }
}

proof fn lemma_trim_end_prefix_ws(s: Seq<char>)
    ensures
        trim_end(s).len() <= s.len(),
        forall|k: int| trim_end(s).len() <= k < s.len() ==> is_white_space(#[trigger] s[k]),
    decreases s.len(),
{
    if s.len() > 0 && is_white_space(s.last()) {
        let t = s.drop_last();
        lemma_trim_end_prefix_ws(t);
        assert forall|k: int| trim_end(s).len() <= k < s.len() implies is_white_space(#[trigger] s[k]) by {
            if k < s.len() - 1 {
                assert(s[k] == t[k]);
            }
        }
    }
}

/// Trimming keeps a contiguous part of the text and drops only white space before and after it;
/// what it keeps neither starts nor ends with white space.
pub proof fn lemma_trim_exactly(s: Seq<char>)
    ensures
        exists|i: int, j: int|
            0 <= i <= j <= s.len() && #[trigger] s.subrange(i, j) == trim(s) && (forall|k: int|
                0 <= k < i ==> is_white_space(#[trigger] s[k])) && (forall|k: int|
                j <= k < s.len() ==> is_white_space(#[trigger] s[k])),
        trim(s).len() > 0 ==> !is_white_space(trim(s)[0]) && !is_white_space(trim(s).last()),
{
    lemma_trim_idempotent(s);
    let ts = trim_start(s);
    lemma_trim_start_suffix(s);
    lemma_trim_end_prefix(ts);
    lemma_trim_end_prefix_ws(ts);
    let i = s.len() - ts.len();
    let j = i + trim(s).len();
    assert(s.subrange(i, j) =~= trim(s));
    assert forall|k: int| j <= k < s.len() implies is_white_space(#[trigger] s[k]) by {
        assert(s[k] == ts[k - i]);
    }
}

/// Stripping the leading `c`s drops a run of `c` at the start, and only that: the rest of the
/// text is kept whole, and it does not start with `c`.
pub proof fn lemma_strip_leading_exactly(s: Seq<char>, c: char)
    ensures
        strip_leading(s, c).len() <= s.len(),
        strip_leading(s, c) == s.skip(s.len() - strip_leading(s, c).len()),
        forall|k: int| 0 <= k < s.len() - strip_leading(s, c).len() ==> #[trigger] s[k] == c,
        strip_leading(s, c).len() > 0 ==> strip_leading(s, c)[0] != c,
    decreases s.len(),
{
    if s.len() > 0 && s[0] == c {
        let t = s.drop_first();
        lemma_strip_leading_exactly(t, c);
        assert(t.skip(t.len() - strip_leading(t, c).len()) =~= s.skip(s.len() - strip_leading(s, c).len()));
        assert forall|k: int| 0 <= k < s.len() - strip_leading(s, c).len() implies #[trigger] s[k] == c by {
            if k > 0 {
                assert(s[k] == t[k - 1]);
            }
        }
    } else {
        assert(s.skip(0) =~= s);
    }
}

/// The lines written back one after the other, each followed by a line feed.
pub open spec fn join_lines(ls: Seq<Seq<char>>) -> Seq<char>
    decreases ls.len(),
{
    if ls.len() == 0 {
        seq![]
    } else {
        ls[0] + seq!['\n'] + join_lines(ls.drop_first())
    }
}

proof fn lemma_join_lines_cons(x: Seq<char>, b: Seq<Seq<char>>)
    ensures
        join_lines(seq![x] + b) == x + seq!['\n'] + join_lines(b),
{
    assert((seq![x] + b).drop_first() =~= b);
}

proof fn lemma_lines_from_join(rest: Seq<char>, cur: Seq<char>)
    requires
        !cur.contains('\n'),
        !cur.contains('\r'),
        !rest.contains('\r'),
    ensures
        join_lines(lines_from(rest, cur)) == if (cur + rest).len() == 0 || (cur + rest).last() == '\n' {
            cur + rest
        } else {
            (cur + rest).push('\n')
        },
    decreases rest.len(),
{
    let t = cur + rest;
    if rest.len() == 0 {
        assert(t =~= cur);
        if cur.len() > 0 {
            lemma_join_lines_cons(cur, seq![]);
            assert(seq![cur] + Seq::<Seq<char>>::empty() =~= seq![cur]);
            assert(join_lines(Seq::<Seq<char>>::empty()) =~= Seq::<char>::empty());
            if cur.last() == '\n' {
                assert(cur.contains('\n'));
            }
            assert(join_lines(seq![cur]) =~= cur.push('\n'));
        }
    } else {
        let r2 = rest.drop_first();
        assert(!r2.contains('\r')) by {
            if r2.contains('\r') {
                let k = choose|k: int| 0 <= k < r2.len() && r2[k] == '\r';
                assert(rest[k + 1] == '\r');
            }
        }
        if rest[0] == '\n' {
            let e: Seq<char> = seq![];
            assert(!e.contains('\n') && !e.contains('\r'));
            lemma_lines_from_join(r2, e);
            if cur.len() > 0 && cur.last() == '\r' {
                assert(cur.contains('\r'));
            }
            assert(strip_cr(cur) == cur);
            lemma_join_lines_cons(cur, lines_from(r2, e));
            assert(e + r2 =~= r2);
            assert(t =~= cur + seq!['\n'] + r2);
            if r2.len() > 0 {
                assert(t.last() == r2.last());
                assert((cur + seq!['\n'] + r2).push('\n') =~= cur + seq!['\n'] + r2.push('\n'));
            } else {
                assert(cur + seq!['\n'] + r2 =~= cur + seq!['\n']);
            }
        } else {
            let c2 = cur.push(rest[0]);
            assert(!c2.contains('\n')) by {
                if c2.contains('\n') {
                    let k = choose|k: int| 0 <= k < c2.len() && c2[k] == '\n';
                    if k < cur.len() {
                        assert(cur[k] == '\n');
                    }
                }
            }
            assert(!c2.contains('\r')) by {
                if c2.contains('\r') {
                    let k = choose|k: int| 0 <= k < c2.len() && c2[k] == '\r';
                    if k < cur.len() {
                        assert(cur[k] == '\r');
                    } else {
                        assert(rest[0] == '\r');
                    }
                }
            }
            lemma_lines_from_join(r2, c2);
            assert(c2 + r2 =~= t);
        }
    }
}

/// For a text without carriage returns, writing its lines back, each followed by a line feed,
/// gives the text again, with a line feed added where the last line had none.
pub proof fn lemma_lines_join(s: Seq<char>)
    requires
        !s.contains('\r'),
    ensures
        s.len() == 0 || s.last() == '\n' ==> join_lines(lines(s)) == s,
        s.len() > 0 && s.last() != '\n' ==> join_lines(lines(s)) == s.push('\n'),
{
    let e: Seq<char> = seq![];
    assert(!e.contains('\n') && !e.contains('\r'));
    lemma_lines_from_join(s, e);
    assert(e + s =~= s);
}

} // verus!
