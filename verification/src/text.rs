//! Character-level text handling: whitespace, trimming, splitting and
//! ASCII case folding, each stated over the string's characters.
use vstd::prelude::*;

verus! {

/// The Unicode `White_Space` property.
pub open spec fn white_space(c: char) -> bool {
    let u = c as u32;
    ||| 0x09 <= u <= 0x0d
    ||| u == 0x20 || u == 0x85 || u == 0xa0 || u == 0x1680
    ||| 0x2000 <= u <= 0x200a
    ||| u == 0x2028 || u == 0x2029 || u == 0x202f || u == 0x205f || u == 0x3000
}

/// Whether `c` has the Unicode `White_Space` property, as
/// `char::is_whitespace` tells.
pub fn is_white_space(c: char) -> (r: bool)
    ensures
        r == white_space(c),
{
    let u = c as u32;
    (0x09 <= u && u <= 0x0d) || u == 0x20 || u == 0x85 || u == 0xa0 || u == 0x1680 || (0x2000 <= u
        && u <= 0x200a) || u == 0x2028 || u == 0x2029 || u == 0x202f || u == 0x205f || u == 0x3000
}

/// The characters of `s`, one by one.
pub fn chars_of(s: &str) -> (v: Vec<char>)
    ensures
        v@ == s@,
{
    let n = s.unicode_len();
    let mut v: Vec<char> = Vec::new();
    let mut i: usize = 0;
    while i < n
        invariant
            n == s@.len(),
            i <= n,
            v@ == s@.take(i as int),
        decreases n - i,
    {
        let c = s.get_char(i);
        proof {
            assert(s@.take(i + 1) =~= s@.take(i as int).push(c));
        }
        v.push(c);
        i = i + 1;
    }
    proof {
        assert(s@.take(n as int) =~= s@);
    }
    v
}

/// The characters of `s` from index `from` up to `to`, as a new string.
pub fn substring(s: &str, from: usize, to: usize) -> (r: String)
    requires
        from <= to <= s@.len(),
    ensures
        r@ == s@.subrange(from as int, to as int),
{
    broadcast use vstd::string::group_string_axioms;
    s.substring_char(from, to).to_string()
}

/// `c` with `A`..`Z` taken to lower case.
pub open spec fn ascii_lower(c: char) -> char {
    if 'A' <= c && c <= 'Z' {
        ((c as u32) + 32) as char
    } else {
        c
    }
}

pub fn to_ascii_lower(c: char) -> (r: char)
    ensures
        r == ascii_lower(c),
{
    if 'A' <= c && c <= 'Z' {
        let u: u8 = (c as u8) + 32;
        u as char
    } else {
        c
    }
}

/// Equal up to the case of ASCII letters.
pub open spec fn same_ignoring_ascii_case(a: Seq<char>, b: Seq<char>) -> bool {
    &&& a.len() == b.len()
    &&& forall|i: int| 0 <= i < a.len() ==> ascii_lower(#[trigger] a[i]) == ascii_lower(b[i])
}

/// Whether `a` and `b` agree up to the case of ASCII letters.
pub fn eq_ignore_ascii_case(a: &str, b: &str) -> (r: bool)
    ensures
        r == same_ignoring_ascii_case(a@, b@),
{
    let x = chars_of(a);
    let y = chars_of(b);
    if x.len() != y.len() {
        return false;
    }
    let mut i: usize = 0;
    while i < x.len()
        invariant
            x@ == a@,
            y@ == b@,
            x.len() == y.len(),
            i <= x.len(),
            forall|j: int| 0 <= j < i ==> ascii_lower(#[trigger] a@[j]) == ascii_lower(b@[j]),
        decreases x.len() - i,
    {
        if to_ascii_lower(x[i]) != to_ascii_lower(y[i]) {
            return false;
        }
        i = i + 1;
    }
    true
}

/// `s` without its leading whitespace.
pub open spec fn trim_start_ws(s: Seq<char>) -> Seq<char>
    decreases s.len(),
{
    if s.len() > 0 && white_space(s[0]) {
        trim_start_ws(s.drop_first())
    } else {
        s
    }
}

/// `s` without its trailing whitespace.
pub open spec fn trim_end_ws(s: Seq<char>) -> Seq<char>
    decreases s.len(),
{
    if s.len() > 0 && white_space(s.last()) {
        trim_end_ws(s.drop_last())
    } else {
        s
    }
}

/// `s` without leading and trailing whitespace, as `str::trim` gives it.
pub open spec fn trimmed(s: Seq<char>) -> Seq<char> {
    trim_end_ws(trim_start_ws(s))
}

proof fn lemma_trim_start_skip(s: Seq<char>, i: int)
    requires
        0 <= i <= s.len(),
        forall|j: int| 0 <= j < i ==> white_space(#[trigger] s[j]),
    ensures
        trim_start_ws(s) == trim_start_ws(s.skip(i)),
    decreases i,
{
    if i > 0 {
        assert(white_space(s[0]));
        assert forall|j: int| 0 <= j < i - 1 implies white_space(#[trigger] s.drop_first()[j]) by {
            assert(s.drop_first()[j] == s[j + 1]);
        }
        lemma_trim_start_skip(s.drop_first(), i - 1);
        assert(s.drop_first().skip(i - 1) =~= s.skip(i));
    } else {
        assert(s.skip(0) =~= s);
    }
}

proof fn lemma_trim_end_take(s: Seq<char>, i: int)
    requires
        0 <= i <= s.len(),
        forall|j: int| i <= j < s.len() ==> white_space(#[trigger] s[j]),
    ensures
        trim_end_ws(s) == trim_end_ws(s.take(i)),
    decreases s.len() - i,
{
    if i < s.len() {
        lemma_trim_end_take(s.drop_last(), i);
        assert(s.drop_last().take(i) =~= s.take(i));
    } else {
        assert(s.take(i) =~= s);
    }
}

/// `s` with leading and trailing whitespace removed.
pub fn trim(s: &str) -> (r: String)
    ensures
        r@ == trimmed(s@),
{
    let cs = chars_of(s);
    let n = cs.len();
    let mut a: usize = 0;
    while a < n && is_white_space(cs[a])
        invariant
            cs@ == s@,
            n == cs.len(),
            a <= n,
            forall|j: int| 0 <= j < a ==> white_space(#[trigger] s@[j]),
        decreases n - a,
    {
        a = a + 1;
    }
    let mut b: usize = n;
    while b > a && is_white_space(cs[b - 1])
        invariant
            cs@ == s@,
            n == cs.len(),
            a <= b <= n,
            forall|j: int| b <= j < n ==> white_space(#[trigger] s@[j]),
        decreases b,
    {
        b = b - 1;
    }
    proof {
        lemma_trim_start_skip(s@, a as int);
        let t = s@.skip(a as int);
        if a < n {
            assert(!white_space(t[0]));
        }
        assert(trim_start_ws(t) == t);
        assert forall|j: int| (b - a) <= j < t.len() implies white_space(#[trigger] t[j]) by {
            assert(t[j] == s@[j + a]);
        }
        lemma_trim_end_take(t, (b - a) as int);
        let u = t.take((b - a) as int);
        if b > a {
            assert(u.last() == s@[b - 1]);
        }
        assert(trim_end_ws(u) == u);
        assert(u =~= s@.subrange(a as int, b as int));
    }
    substring(s, a, b)
}

/// Splits `s` at every character for which `sep` holds. With `keep_empty`
/// every piece is kept, as `str::split` does; without it the empty pieces
/// are dropped, as `str::split_whitespace` does.
pub open spec fn pieces_from(
    s: Seq<char>,
    sep: spec_fn(char) -> bool,
    keep_empty: bool,
    cur: Seq<char>,
) -> Seq<Seq<char>>
    decreases s.len(),
{
    if s.len() == 0 {
        if keep_empty || cur.len() > 0 {
            seq![cur]
        } else {
            seq![]
        }
    } else if sep(s[0]) {
        (if keep_empty || cur.len() > 0 {
            seq![cur]
        } else {
            seq![]
        }) + pieces_from(s.drop_first(), sep, keep_empty, seq![])
    } else {
        pieces_from(s.drop_first(), sep, keep_empty, cur.push(s[0]))
    }
}

/// The pieces of `s` between commas, as `str::split(',')` yields them.
pub open spec fn comma_pieces(s: Seq<char>) -> Seq<Seq<char>> {
    pieces_from(s, |c: char| c == ',', true, seq![])
}

/// The non-empty runs of non-whitespace characters of `s`, as
/// `str::split_whitespace` yields them.
pub open spec fn whitespace_tokens(s: Seq<char>) -> Seq<Seq<char>> {
    pieces_from(s, |c: char| white_space(c), false, seq![])
}

/// The texts of a list of strings.
pub open spec fn texts(v: Seq<String>) -> Seq<Seq<char>> {
    v.map_values(|x: String| x@)
}

proof fn lemma_texts_push(v: Seq<String>, x: String)
    ensures
        texts(v.push(x)) == texts(v).push(x@),
{
    assert(texts(v.push(x)) =~= texts(v).push(x@));
}

/// Shared loop of `split_commas` and `split_whitespace`.
fn split_by(s: &str, whitespace: bool) -> (r: Vec<String>)
    ensures
        whitespace ==> texts(r@) == whitespace_tokens(s@),
        !whitespace ==> texts(r@) == comma_pieces(s@),
{
    let ghost sep: spec_fn(char) -> bool = if whitespace {
        |c: char| white_space(c)
    } else {
        |c: char| c == ','
    };
    let ghost keep = !whitespace;
    let cs = chars_of(s);
    let n = cs.len();
    let mut out: Vec<String> = Vec::new();
    let mut start: usize = 0;
    let mut i: usize = 0;
    proof {
        assert(s@.skip(0) =~= s@);
        assert(s@.subrange(0, 0) =~= Seq::<char>::empty());
        assert(texts(out@) + pieces_from(s@, sep, keep, seq![]) =~= pieces_from(s@, sep, keep, seq![]));
    }
    while i < n
        invariant
            cs@ == s@,
            n == cs.len(),
            start <= i <= n,
            forall|j: int| start <= j < i ==> !sep(#[trigger] s@[j]),
            texts(out@) + pieces_from(s@.skip(i as int), sep, keep, s@.subrange(start as int, i as int))
                == pieces_from(s@, sep, keep, seq![]),
            sep == (if whitespace {
                |c: char| white_space(c)
            } else {
                |c: char| c == ','
            }),
            keep == !whitespace,
        decreases n - i,
    {
        let c = cs[i];
        let is_sep = if whitespace {
            is_white_space(c)
        } else {
            c == ','
        };
        let ghost rest = s@.skip(i as int);
        let ghost cur = s@.subrange(start as int, i as int);
        proof {
            assert(rest[0] == c);
            assert(rest.drop_first() =~= s@.skip(i + 1));
            assert(is_sep == sep(c));
        }
        if is_sep {
            if !whitespace || i > start {
                let piece = substring(s, start, i);
                proof {
                    lemma_texts_push(out@, piece);
                    assert(texts(out@.push(piece)) + pieces_from(s@.skip(i + 1), sep, keep, seq![])
                        =~= texts(out@) + (seq![cur] + pieces_from(s@.skip(i + 1), sep, keep, seq![])));
                }
                out.push(piece);
            } else {
                proof {
                    assert(cur.len() == 0);
                    assert(seq![] + pieces_from(s@.skip(i + 1), sep, keep, seq![])
                        =~= pieces_from(s@.skip(i + 1), sep, keep, seq![]));
                }
            }
            i = i + 1;
            start = i;
            proof {
                assert(s@.subrange(start as int, i as int) =~= Seq::<char>::empty());
            }
        } else {
            proof {
                assert(cur.push(c) =~= s@.subrange(start as int, i + 1));
            }
            i = i + 1;
        }
    }
    let ghost cur = s@.subrange(start as int, n as int);
    proof {
        assert(s@.skip(n as int).len() == 0);
    }
    if !whitespace || n > start {
        let piece = substring(s, start, n);
        proof {
            lemma_texts_push(out@, piece);
            assert(texts(out@.push(piece)) =~= texts(out@) + seq![cur]);
        }
        out.push(piece);
    } else {
        proof {
            assert(texts(out@) + seq![] =~= texts(out@));
        }
    }
    out
}

/// The pieces of `s` between commas.
pub fn split_commas(s: &str) -> (r: Vec<String>)
    ensures
        texts(r@) == comma_pieces(s@),
{
    split_by(s, false)
}

/// The whitespace-separated tokens of `s`.
pub fn split_whitespace(s: &str) -> (r: Vec<String>)
    ensures
        texts(r@) == whitespace_tokens(s@),
{
    split_by(s, true)
}


/// `s` with every occurrence of `pat` replaced by `rep`, scanning from the
/// left without overlaps, as `str::replace` does for a non-empty pattern.
pub open spec fn replace_all(s: Seq<char>, pat: Seq<char>, rep: Seq<char>) -> Seq<char>
    decreases s.len(),
{
    if pat.len() == 0 || s.len() < pat.len() {
        s
    } else if s.take(pat.len() as int) == pat {
        rep + replace_all(s.skip(pat.len() as int), pat, rep)
    } else {
        seq![s[0]] + replace_all(s.drop_first(), pat, rep)
    }
}

proof fn lemma_replace_step(s: Seq<char>, pat: Seq<char>, rep: Seq<char>, i: int)
    requires
        pat.len() > 0,
        0 <= i < s.len(),
        !(i + pat.len() <= s.len() && s.subrange(i, i + pat.len()) == pat),
    ensures
        replace_all(s.skip(i), pat, rep) == seq![s[i]] + replace_all(s.skip(i + 1), pat, rep),
{
    let t = s.skip(i);
    assert(t.drop_first() =~= s.skip(i + 1));
    if t.len() < pat.len() {
        assert(s.skip(i + 1).len() < pat.len());
        assert(t =~= seq![s[i]] + s.skip(i + 1));
    } else {
        assert(t.take(pat.len() as int) =~= s.subrange(i, i + pat.len()));
    }
}

/// Whether `pat` occurs in `cs` at `i`.
fn occurs_at(cs: &Vec<char>, i: usize, pat: &Vec<char>) -> (r: bool)
    requires
        i <= cs.len(),
    ensures
        r == (i + pat.len() <= cs.len() && cs@.subrange(i as int, i + pat.len()) == pat@),
{
    if pat.len() > cs.len() - i {
        return false;
    }
    let mut k: usize = 0;
    while k < pat.len()
        invariant
            i + pat.len() <= cs.len(),
            k <= pat.len(),
            forall|j: int| 0 <= j < k ==> cs@[i + j] == pat@[j],
        decreases pat.len() - k,
    {
        if cs[i + k] != pat[k] {
            proof {
                assert(cs@.subrange(i as int, i + pat.len())[k as int] != pat@[k as int]);
            }
            return false;
        }
        k = k + 1;
    }
    proof {
        assert(cs@.subrange(i as int, i + pat.len()) =~= pat@);
    }
    true
}

/// `s` with every occurrence of the non-empty `pat` replaced by `rep`.
pub fn replace(s: &str, pat: &str, rep: &str) -> (r: String)
    requires
        pat@.len() > 0,
    ensures
        r@ == replace_all(s@, pat@, rep@),
{
    let cs = chars_of(s);
    let ps = chars_of(pat);
    let n = cs.len();
    let mut out = String::new();
    let mut seg: usize = 0;
    let mut i: usize = 0;
    proof {
        assert(s@.skip(0) =~= s@);
        assert(out@ + s@.subrange(0, 0) + replace_all(s@, pat@, rep@) =~= replace_all(s@, pat@, rep@));
    }
    while i < n
        invariant
            cs@ == s@,
            ps@ == pat@,
            pat@.len() > 0,
            n == cs.len(),
            seg <= i <= n,
            out@ + s@.subrange(seg as int, i as int) + replace_all(s@.skip(i as int), pat@, rep@)
                == replace_all(s@, pat@, rep@),
        decreases n - i,
    {
        if occurs_at(&cs, i, &ps) {
            let piece = substring(s, seg, i);
            proof {
                let t = s@.skip(i as int);
                assert(t.take(pat@.len() as int) =~= s@.subrange(i as int, i + pat@.len()));
                assert(t.skip(pat@.len() as int) =~= s@.skip(i + ps.len()));
            }
            out.append(piece.as_str());
            out.append(rep);
            i = i + ps.len();
            seg = i;
            proof {
                assert(s@.subrange(seg as int, i as int) =~= Seq::<char>::empty());
                assert(out@ + s@.subrange(seg as int, i as int) + replace_all(s@.skip(i as int), pat@, rep@)
                    =~= out@ + replace_all(s@.skip(i as int), pat@, rep@));
            }
        } else {
            proof {
                lemma_replace_step(s@, pat@, rep@, i as int);
                assert(s@.subrange(seg as int, i + 1) =~= s@.subrange(seg as int, i as int).push(s@[i as int]));
                assert(out@ + s@.subrange(seg as int, i + 1) + replace_all(s@.skip(i + 1), pat@, rep@)
                    =~= out@ + s@.subrange(seg as int, i as int) + (seq![s@[i as int]] + replace_all(
                    s@.skip(i + 1),
                    pat@,
                    rep@,
                )));
            }
            i = i + 1;
        }
    }
    let piece = substring(s, seg, n);
    out.append(piece.as_str());
    proof {
        assert(s@.skip(n as int) =~= Seq::<char>::empty());
        assert(replace_all(Seq::<char>::empty(), pat@, rep@) == Seq::<char>::empty());
        assert(out@ =~= out@ + replace_all(s@.skip(n as int), pat@, rep@));
    }
    out
}


/// `pat` occurs in `s` at position `i`.
pub open spec fn occurs(s: Seq<char>, pat: Seq<char>, i: int) -> bool {
    0 <= i && i + pat.len() <= s.len() && s.subrange(i, i + pat.len()) == pat
}

proof fn lemma_replace_prefix(s: Seq<char>, pat: Seq<char>, rep: Seq<char>, k: int)
    requires
        pat.len() > 0,
        0 <= k <= s.len(),
        forall|i: int| 0 <= i < k ==> !#[trigger] occurs(s, pat, i),
    ensures
        replace_all(s, pat, rep) == s.take(k) + replace_all(s.skip(k), pat, rep),
    decreases k,
{
    if k == 0 {
        assert(s.skip(0) =~= s);
        assert(s.take(0) + replace_all(s, pat, rep) =~= replace_all(s, pat, rep));
    } else {
        lemma_replace_prefix(s, pat, rep, k - 1);
        assert(!occurs(s, pat, k - 1));
        lemma_replace_step(s, pat, rep, k - 1);
        assert(s.take(k) =~= s.take(k - 1) + seq![s[k - 1]]);
        assert(s.take(k - 1) + (seq![s[k - 1]] + replace_all(s.skip(k), pat, rep)) =~= s.take(k)
            + replace_all(s.skip(k), pat, rep));
    }
}

/// Text where the pattern does not occur comes back unchanged.
pub proof fn law_replace_without_occurrence(s: Seq<char>, pat: Seq<char>, rep: Seq<char>)
    requires
        pat.len() > 0,
        forall|i: int| !#[trigger] occurs(s, pat, i),
    ensures
        replace_all(s, pat, rep) == s,
{
    lemma_replace_prefix(s, pat, rep, s.len() as int);
    assert(s.skip(s.len() as int) =~= Seq::<char>::empty());
    assert(s.take(s.len() as int) =~= s);
    assert(s + Seq::<char>::empty() =~= s);
}

/// Text holding the pattern once, between `pre` and `post`, gets the
/// replacement in its place and is otherwise unchanged.
pub proof fn law_replace_single_occurrence(pre: Seq<char>, pat: Seq<char>, post: Seq<char>, rep: Seq<char>)
    requires
        pat.len() > 0,
        forall|i: int| #[trigger] occurs(pre + pat + post, pat, i) ==> i == pre.len(),
    ensures
        replace_all(pre + pat + post, pat, rep) == pre + rep + post,
{
    let t = pre + pat + post;
    let n = pre.len() as int;
    assert forall|i: int| 0 <= i < n implies !#[trigger] occurs(t, pat, i) by {
        if occurs(t, pat, i) {
            assert(i == n);
        }
    }
    lemma_replace_prefix(t, pat, rep, n);
    assert(t.take(n) =~= pre);
    let u = t.skip(n);
    assert(u.take(pat.len() as int) =~= pat);
    assert(u.skip(pat.len() as int) =~= post);
    assert forall|i: int| !#[trigger] occurs(post, pat, i) by {
        if occurs(post, pat, i) {
            assert(t.subrange(n + pat.len() + i, n + pat.len() + i + pat.len()) =~= post.subrange(
                i,
                i + pat.len(),
            ));
            assert(occurs(t, pat, n + pat.len() + i));
        }
    }
    law_replace_without_occurrence(post, pat, rep);
    assert(pre + (rep + post) =~= pre + rep + post);
}

} // verus!
