//! Text primitives over `str`: Unicode whitespace trimming, splitting at a
//! character, and the physical lines of a document.
use vstd::prelude::*;

verus! {

/// The characters of the Unicode `White_Space` property, which is what
/// `char::is_whitespace` and `str::trim` use.
pub open spec fn is_white_space(c: char) -> bool {
    ||| ('\u{9}' <= c && c <= '\u{d}')
    ||| c == ' '
    ||| c == '\u{85}'
    ||| c == '\u{a0}'
    ||| c == '\u{1680}'
    ||| ('\u{2000}' <= c && c <= '\u{200a}')
    ||| c == '\u{2028}'
    ||| c == '\u{2029}'
    ||| c == '\u{202f}'
    ||| c == '\u{205f}'
    ||| c == '\u{3000}'
}

/// `s` without its leading whitespace.
pub open spec fn trim_start_seq(s: Seq<char>) -> Seq<char>
    decreases s.len(),
{
    if s.len() > 0 && is_white_space(s[0]) {
        trim_start_seq(s.drop_first())
    } else {
        s
    }
}

/// `s` without its trailing whitespace.
pub open spec fn trim_end_seq(s: Seq<char>) -> Seq<char>
    decreases s.len(),
{
    if s.len() > 0 && is_white_space(s.last()) {
        trim_end_seq(s.drop_last())
    } else {
        s
    }
}

/// `s` without leading and trailing whitespace.
pub open spec fn trim_seq(s: Seq<char>) -> Seq<char> {
    trim_end_seq(trim_start_seq(s))
}

/// Index of the first occurrence of `c` in `s`, or -1 when there is none.
pub open spec fn find_char(s: Seq<char>, c: char) -> int
    decreases s.len(),
{
    if s.len() == 0 {
        -1
    } else if s[0] == c {
        0
    } else {
        let rest = find_char(s.drop_first(), c);
        if rest < 0 {
            -1
        } else {
            rest + 1
        }
    }
}

/// What `find_char` finds: an in-bounds index holding `c`, with no `c` before it.
pub proof fn lemma_find_char(s: Seq<char>, c: char)
    ensures
        -1 <= find_char(s, c) < s.len(),
        find_char(s, c) >= 0 ==> s[find_char(s, c)] == c,
        forall|j: int| 0 <= j < s.len() && (find_char(s, c) < 0 || j < find_char(s, c)) ==> s[j] != c,
    decreases s.len(),
{
    if s.len() > 0 && s[0] != c {
        lemma_find_char(s.drop_first(), c);
        assert forall|j: int| 0 <= j < s.len() && (find_char(s, c) < 0 || j < find_char(s, c)) implies s[j] != c by {
            if j > 0 {
                assert(s[j] == s.drop_first()[j - 1]);
            }
        }
    }
}

/// `s` without one trailing carriage return.
pub open spec fn strip_cr_seq(s: Seq<char>) -> Seq<char> {
    if s.len() > 0 && s.last() == '\r' {
        s.drop_last()
    } else {
        s
    }
}

/// The lines of `s` as `str::lines` yields them: split at each `'\n'`, a
/// `'\r'` before the `'\n'` dropped, and no empty last line after a final
/// `'\n'`.
pub open spec fn lines_of(s: Seq<char>) -> Seq<Seq<char>>
    decreases s.len(),
{
    if s.len() == 0 {
        Seq::empty()
    } else {
        let k = find_char(s, '\n');
        if k < 0 {
            seq![s]
        } else {
            proof {
                lemma_find_char(s, '\n');
            }
            seq![strip_cr_seq(s.take(k))] + lines_of(s.skip(k + 1))
        }
    }
}

/// A document has no more lines than characters.
pub proof fn lemma_lines_count(s: Seq<char>)
    ensures
        lines_of(s).len() <= s.len(),
    decreases s.len(),
{
    if s.len() > 0 {
        lemma_find_char(s, '\n');
        let k = find_char(s, '\n');
        if k >= 0 {
            lemma_lines_count(s.skip(k + 1));
        }
    }
}

/// Appending a character keeps the first occurrence of `c` when there is
/// one, and makes the appended `c` the first when there is none.
pub proof fn lemma_find_char_push(s: Seq<char>, c: char, x: char)
    ensures
        find_char(s, c) >= 0 ==> find_char(s.push(x), c) == find_char(s, c),
        find_char(s, c) < 0 && x == c ==> find_char(s.push(x), c) == s.len(),
    decreases s.len(),
{
    if s.len() > 0 {
        lemma_find_char_push(s.drop_first(), c, x);
        assert(s.push(x).drop_first() =~= s.drop_first().push(x));
    } else {
        assert(s.push(x).drop_first() =~= Seq::<char>::empty());
    }
}

/// Appending text keeps the first occurrence of `c` when there is one.
pub proof fn lemma_find_char_append(a: Seq<char>, b: Seq<char>, c: char)
    ensures
        find_char(a, c) >= 0 ==> find_char(a + b, c) == find_char(a, c),
    decreases a.len(),
{
    if a.len() > 0 && a[0] != c {
        lemma_find_char_append(a.drop_first(), b, c);
        assert((a + b).drop_first() =~= a.drop_first() + b);
    }
}

/// The lines of two documents, the first empty or ending with a line
/// ending, put one after the other are the lines of the first followed by
/// those of the second.
pub proof fn lemma_lines_of_append(a: Seq<char>, b: Seq<char>)
    requires
        a.len() == 0 || a.last() == '\n',
    ensures
        lines_of(a + b) == lines_of(a) + lines_of(b),
    decreases a.len(),
{
    if a.len() == 0 {
        assert(a + b =~= b);
        assert(lines_of(a) + lines_of(b) =~= lines_of(b));
    } else {
        lemma_find_char(a, '\n');
        lemma_find_char_append(a, b, '\n');
        let k = find_char(a, '\n');
        assert(k >= 0) by {
            if k < 0 {
                assert(a[a.len() - 1] != '\n');
            }
        }
        let rest = a.skip(k + 1);
        assert((a + b).take(k) =~= a.take(k));
        assert((a + b).skip(k + 1) =~= rest + b);
        if rest.len() > 0 {
            assert(rest.last() == a.last());
        }
        lemma_lines_of_append(rest, b);
        assert(lines_of(a + b) =~= lines_of(a) + lines_of(b));
    }
}

/// Adding a line ending after a last line that has none changes only that
/// last line, and only by dropping one trailing carriage return.
pub proof fn lemma_lines_of_final_line_ending(s: Seq<char>)
    requires
        s.len() > 0,
        s.last() != '\n',
    ensures
        lines_of(s).len() > 0,
        lines_of(s.push('\n')) == lines_of(s).drop_last().push(strip_cr_seq(lines_of(s).last())),
    decreases s.len(),
{
    let t = s.push('\n');
    lemma_find_char(s, '\n');
    lemma_find_char_push(s, '\n', '\n');
    let k = find_char(s, '\n');
    if k >= 0 {
        let rest = s.skip(k + 1);
        assert(k != s.len() - 1);
        assert(t.take(k) =~= s.take(k));
        assert(t.skip(k + 1) =~= rest.push('\n'));
        assert(rest.last() == s.last());
        lemma_lines_of_final_line_ending(rest);
        assert(lines_of(s) == seq![strip_cr_seq(s.take(k))] + lines_of(rest));
        assert(lines_of(t) == seq![strip_cr_seq(s.take(k))] + lines_of(rest.push('\n')));
        assert(lines_of(t) =~= lines_of(s).drop_last().push(strip_cr_seq(lines_of(s).last())));
    } else {
        assert(t.take(s.len() as int) =~= s);
        assert(t.skip(s.len() as int + 1) =~= Seq::<char>::empty());
        assert(find_char(t, '\n') == s.len());
        assert(lines_of(t.skip(s.len() as int + 1)) =~= Seq::<Seq<char>>::empty());
        assert(lines_of(t) =~= seq![strip_cr_seq(s)] + Seq::<Seq<char>>::empty());
        assert(lines_of(t) =~= lines_of(s).drop_last().push(strip_cr_seq(lines_of(s).last())));
    }
}

/// Dropping a trailing whitespace character from `s` drops it from the
/// part of `s` after its leading whitespace.
pub proof fn lemma_trim_start_drop_last(s: Seq<char>)
    requires
        s.len() > 0,
        is_white_space(s.last()),
    ensures
        trim_start_seq(s).len() == 0 ==> trim_start_seq(s.drop_last()).len() == 0,
        trim_start_seq(s).len() > 0 ==> trim_start_seq(s).last() == s.last() && trim_start_seq(s.drop_last())
            == trim_start_seq(s).drop_last(),
    decreases s.len(),
{
    if is_white_space(s[0]) {
        if s.len() > 1 {
            assert(s.drop_last().drop_first() =~= s.drop_first().drop_last());
            lemma_trim_start_drop_last(s.drop_first());
        } else {
            assert(s.drop_first() =~= Seq::<char>::empty());
            assert(s.drop_last() =~= Seq::<char>::empty());
        }
    }
}

/// A trailing carriage return makes no difference once a line is trimmed.
pub proof fn lemma_trim_strip_cr(s: Seq<char>)
    ensures
        trim_seq(strip_cr_seq(s)) == trim_seq(s),
{
    if s.len() > 0 && s.last() == '\r' {
        lemma_trim_start_drop_last(s);
    }
}

/// `str::trim`: the slice without leading and trailing Unicode whitespace.
#[verifier::external_body]
pub fn trim(s: &str) -> (res: &str)
    ensures
        res@ == trim_seq(s@),
{
    s.trim()
}

/// `str::split_once` with a `char` delimiter: the text before and after the
/// first occurrence of `c`, or `None` when `c` does not occur.
#[verifier::external_body]
pub fn split_once_char(s: &str, c: char) -> (res: Option<(&str, &str)>)
    ensures
        match res {
            Some((before, after)) => {
                let k = find_char(s@, c);
                &&& k >= 0
                &&& before@ == s@.take(k)
                &&& after@ == s@.skip(k + 1)
            },
            None => find_char(s@, c) < 0,
        },
{
    s.split_once(c)
}

/// `str::strip_suffix` with a `char` pattern: `s` without its last
/// character when that character is `c`, else `None`.
#[verifier::external_body]
pub fn strip_suffix_char(s: &str, c: char) -> (res: Option<&str>)
    ensures
        match res {
            Some(rest) => s@.len() > 0 && s@.last() == c && rest@ == s@.drop_last(),
            None => !(s@.len() > 0 && s@.last() == c),
        },
{
    s.strip_suffix(c)
}

} // verus!
