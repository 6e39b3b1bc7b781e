//! Verified string utilities: decimal formatting, joining, substring
//! matching and replacement, and blog-post name normalization.

use vstd::prelude::*;

verus! {

/// Appends one character to a `String`.
/// Relies on `String::push` of std: it appends the given char to the
/// end of the string.
pub assume_specification[ String::push ](s: &mut String, c: char)
    ensures
        final(s)@ == old(s)@.push(c),
;

/// The decimal digit character for a value below ten.
pub open spec fn dec_digit(d: int) -> char
    recommends
        0 <= d < 10,
{
    if d == 0 {
        '0'
    } else if d == 1 {
        '1'
    } else if d == 2 {
        '2'
    } else if d == 3 {
        '3'
    } else if d == 4 {
        '4'
    } else if d == 5 {
        '5'
    } else if d == 6 {
        '6'
    } else if d == 7 {
        '7'
    } else if d == 8 {
        '8'
    } else {
        '9'
    }
}

/// The usual decimal rendering of a natural number: most significant
/// digit first, no leading zeroes, and zero itself rendered as "0".
pub open spec fn spec_dec(n: nat) -> Seq<char>
    decreases n,
{
    if n < 10 {
        seq![dec_digit(n as int)]
    } else {
        spec_dec(n / 10) + seq![dec_digit((n % 10) as int)]
    }
}

fn dec_digit_exec(d: u64) -> (c: char)
    requires
        d < 10,
    ensures
        c == dec_digit(d as int),
{
    match d {
        0 => '0',
        1 => '1',
        2 => '2',
        3 => '3',
        4 => '4',
        5 => '5',
        6 => '6',
        7 => '7',
        8 => '8',
        _ => '9',
    }
}

/// Renders a number in decimal.
pub fn u64_to_string(n: u64) -> (r: String)
    ensures
        r@ == spec_dec(n as nat),
    decreases n,
{
    if n < 10 {
        let mut s = String::new();
        s.push(dec_digit_exec(n));
        assert(s@ =~= spec_dec(n as nat));
        s
    } else {
        let mut s = u64_to_string(n / 10);
        s.push(dec_digit_exec(n % 10));
        assert(s@ =~= spec_dec(n as nat));
        s
    }
}

/// The strings joined with the separator between neighbours.
pub open spec fn spec_join(parts: Seq<Seq<char>>, sep: Seq<char>) -> Seq<char>
    decreases parts.len(),
{
    if parts.len() == 0 {
        Seq::empty()
    } else if parts.len() == 1 {
        parts[0]
    } else {
        parts[0] + sep + spec_join(parts.drop_first(), sep)
    }
}

/// The strings each preceded by the separator, concatenated.
spec fn spec_join_pre(parts: Seq<Seq<char>>, sep: Seq<char>) -> Seq<char>
    decreases parts.len(),
{
    if parts.len() == 0 {
        Seq::empty()
    } else {
        sep + parts[0] + spec_join_pre(parts.drop_first(), sep)
    }
}

proof fn lemma_join_split(parts: Seq<Seq<char>>, sep: Seq<char>)
    requires
        parts.len() > 0,
    ensures
        spec_join(parts, sep) == parts[0] + spec_join_pre(parts.drop_first(), sep),
    decreases parts.len(),
{
    let df = parts.drop_first();
    if parts.len() == 1 {
        assert(spec_join(parts, sep) =~= parts[0] + spec_join_pre(df, sep));
    } else {
        lemma_join_split(df, sep);
        assert(parts[0] + sep + (df[0] + spec_join_pre(df.drop_first(), sep)) =~= parts[0] + (sep
            + df[0] + spec_join_pre(df.drop_first(), sep)));
    }
}

/// Concatenates the strings with `sep` between each pair of
/// neighbours.
pub fn join(parts: &Vec<String>, sep: &str) -> (r: String)
    ensures
        r@ == spec_join(parts@.map_values(|p: String| p@), sep@),
{
    let ghost gparts = parts@.map_values(|p: String| p@);
    let mut r = String::new();
    let n = parts.len();
    if n == 0 {
        assert(r@ =~= spec_join(gparts, sep@));
        return r;
    }
    r.append(parts[0].as_str());
    proof {
        lemma_join_split(gparts, sep@);
        assert(r@ =~= gparts[0]);
        assert(gparts.drop_first() =~= gparts.skip(1));
    }
    let mut i: usize = 1;
    while i < n
        invariant
            1 <= i <= n,
            n == parts@.len(),
            gparts == parts@.map_values(|p: String| p@),
            r@ + spec_join_pre(gparts.skip(i as int), sep@) == spec_join(gparts, sep@),
        decreases n - i,
    {
        let ghost r0 = r@;
        r.append(sep);
        r.append(parts[i].as_str());
        proof {
            assert(gparts.skip(i as int).drop_first() =~= gparts.skip(i + 1));
            assert(r@ + spec_join_pre(gparts.skip(i + 1), sep@) =~= r0 + spec_join_pre(
                gparts.skip(i as int),
                sep@,
            ));
        }
        i = i + 1;
    }
    proof {
        assert(gparts.skip(n as int) =~= Seq::<Seq<char>>::empty());
        assert(r@ + spec_join_pre(gparts.skip(n as int), sep@) =~= r@);
    }
    r
}

/// Whether `from` occurs in `s` at position `i`.
pub fn matches_at(s: &str, i: usize, from: &str) -> (b: bool)
    requires
        i + from@.len() <= s@.len(),
    ensures
        b == (s@.subrange(i as int, i + from@.len()) == from@),
{
    let n = s.unicode_len();
    let m = from.unicode_len();
    let mut j: usize = 0;
    while j < m
        invariant
            j <= m,
            m == from@.len(),
            n == s@.len(),
            i + m <= n,
            forall|k: int| 0 <= k < j ==> s@[i + k] == from@[k],
        decreases m - j,
    {
        if s.get_char(i + j) != from.get_char(j) {
            assert(s@.subrange(i as int, i + from@.len())[j as int] != from@[j as int]);
            return false;
        }
        j = j + 1;
    }
    assert(s@.subrange(i as int, i + from@.len()) =~= from@);
    true
}

/// `s` with every occurrence of `from` replaced by `to`, scanning
/// left to right without overlap, as `str::replace` does for a
/// non-empty pattern.
pub open spec fn spec_replace(s: Seq<char>, from: Seq<char>, to: Seq<char>) -> Seq<char>
    decreases s.len(),
{
    if from.len() == 0 || s.len() < from.len() {
        s
    } else if s.subrange(0, from.len() as int) == from {
        to + spec_replace(s.skip(from.len() as int), from, to)
    } else {
        seq![s[0]] + spec_replace(s.drop_first(), from, to)
    }
}

/// Replaces every occurrence of `from` in `s` by `to`, leftmost
/// first and without overlap.
pub fn replace_all(s: &str, from: &str, to: &str) -> (r: String)
    requires
        from@.len() > 0,
    ensures
        r@ == spec_replace(s@, from@, to@),
{
    let n = s.unicode_len();
    let m = from.unicode_len();
    let mut r = String::new();
    let mut i: usize = 0;
    proof {
        assert(s@.skip(0) =~= s@);
        assert(Seq::<char>::empty() + spec_replace(s@, from@, to@) =~= spec_replace(
            s@,
            from@,
            to@,
        ));
    }
    while i < n
        invariant
            i <= n,
            n == s@.len(),
            m == from@.len(),
            m > 0,
            r@ + spec_replace(s@.skip(i as int), from@, to@) == spec_replace(s@, from@, to@),
        decreases n - i,
    {
        let ghost rest = s@.skip(i as int);
        let ghost r0 = r@;
        if n - i >= m && matches_at(s, i, from) {
            proof {
                assert(rest.subrange(0, m as int) =~= s@.subrange(i as int, i + m));
                assert(rest.skip(m as int) =~= s@.skip(i + m));
                assert(spec_replace(rest, from@, to@) == to@ + spec_replace(
                    rest.skip(m as int),
                    from@,
                    to@,
                ));
                assert((r0 + to@) + spec_replace(s@.skip(i + m), from@, to@) =~= r0 + spec_replace(
                    rest,
                    from@,
                    to@,
                ));
            }
            r.append(to);
            i = i + m;
        } else {
            proof {
                assert(rest.drop_first() =~= s@.skip(i + 1));
                if rest.len() >= m {
                    assert(rest.subrange(0, m as int) =~= s@.subrange(i as int, i + m));
                    assert(rest.subrange(0, m as int) != from@);
                } else {
                    assert(spec_replace(rest, from@, to@) == rest);
                    assert(spec_replace(rest.drop_first(), from@, to@) == rest.drop_first());
                }
                assert(seq![rest[0]] + spec_replace(rest.drop_first(), from@, to@) =~= spec_replace(
                    rest,
                    from@,
                    to@,
                ));
                assert(r0.push(rest[0]) + spec_replace(s@.skip(i + 1), from@, to@) =~= r0
                    + spec_replace(rest, from@, to@));
            }
            r.push(s.get_char(i));
            i = i + 1;
        }
    }
    proof {
        assert(s@.skip(n as int) =~= Seq::<char>::empty());
    }
    r
}

/// The part of the path after its last slash; the whole path when it
/// holds no slash.
pub open spec fn after_last_slash(s: Seq<char>) -> Seq<char>
    decreases s.len(),
{
    if s.len() == 0 {
        s
    } else if s.last() == '/' {
        Seq::empty()
    } else {
        after_last_slash(s.drop_last()).push(s.last())
    }
}

/// The string with every trailing ".html" repetition removed.
pub open spec fn trim_html_suffix(s: Seq<char>) -> Seq<char>
    decreases s.len(),
{
    if s.len() >= 5 && s.subrange(s.len() - 5, s.len() as int) == seq!['.', 'h', 't', 'm', 'l'] {
        trim_html_suffix(s.subrange(0, s.len() - 5))
    } else {
        s
    }
}

/// The name of a blog post: the path's file name with trailing
/// ".html" repetitions removed.
pub open spec fn spec_post_name(s: Seq<char>) -> Seq<char> {
    trim_html_suffix(after_last_slash(s))
}

proof fn lemma_after_last_slash_skip(s: Seq<char>, k: int)
    requires
        0 <= k <= s.len(),
        forall|j: int| k <= j < s.len() ==> s[j] != '/',
        k > 0 ==> s[k - 1] == '/',
    ensures
        after_last_slash(s) == s.skip(k),
    decreases s.len(),
{
    if s.len() == 0 {
        assert(after_last_slash(s) =~= s.skip(k));
    } else if k == s.len() {
        assert(s.last() == '/');
        assert(after_last_slash(s) =~= s.skip(k));
    } else {
        assert(s.last() != '/');
        lemma_after_last_slash_skip(s.drop_last(), k);
        assert(s.drop_last().skip(k).push(s.last()) =~= s.skip(k));
    }
}

/// The segment of the path after its last slash, with any trailing
/// ".html" repetitions removed: how the blog derives a post's name
/// from its file's path. The path must end in a proper file name: a
/// non-empty last segment that is neither "." nor "..".
pub fn get_post_name(file_name: &str) -> (r: &str)
    requires
        after_last_slash(file_name@).len() > 0,
        after_last_slash(file_name@) != seq!['.'],
        after_last_slash(file_name@) != seq!['.', '.'],
    ensures
        r@ == spec_post_name(file_name@),
{
    let n = file_name.unicode_len();
    let mut start: usize = n;
    loop
        invariant
            start <= n,
            n == file_name@.len(),
            forall|j: int| start <= j < n ==> file_name@[j] != '/',
        ensures
            start <= n,
            n == file_name@.len(),
            forall|j: int| start <= j < n ==> file_name@[j] != '/',
            start > 0 ==> file_name@[start - 1] == '/',
        decreases start,
    {
        if start == 0 {
            break ;
        }
        if file_name.get_char(start - 1) == '/' {
            break ;
        }
        start = start - 1;
    }
    proof {
        lemma_after_last_slash_skip(file_name@, start as int);
        assert(file_name@.skip(start as int) =~= file_name@.subrange(start as int, n as int));
        reveal_strlit(".html");
        assert(".html"@ =~= seq!['.', 'h', 't', 'm', 'l']);
    }
    let mut end: usize = n;
    loop
        invariant
            start <= end <= n,
            n == file_name@.len(),
            ".html"@ == seq!['.', 'h', 't', 'm', 'l'],
            trim_html_suffix(file_name@.subrange(start as int, end as int)) == trim_html_suffix(
                after_last_slash(file_name@),
            ),
        ensures
            start <= end <= n,
            file_name@.subrange(start as int, end as int) == trim_html_suffix(
                after_last_slash(file_name@),
            ),
        decreases end,
    {
        let ghost seg = file_name@.subrange(start as int, end as int);
        if end - start < 5 {
            proof {
                assert(trim_html_suffix(seg) == seg);
            }
            break ;
        }
        proof {
            assert(seg.subrange(seg.len() - 5, seg.len() as int) =~= file_name@.subrange(
                end - 5,
                end as int,
            ));
        }
        if !matches_at(file_name, end - 5, ".html") {
            proof {
                assert(trim_html_suffix(seg) == seg);
            }
            break ;
        }
        proof {
            assert(seg.subrange(0, seg.len() - 5) =~= file_name@.subrange(start as int, end - 5));
        }
        end = end - 5;
    }
    file_name.substring_char(start, end)
}

} // verus!
