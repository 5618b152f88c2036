//! Verified text utilities: prefix tests, whitespace trimming and line
//! splitting over `&str` values viewed as sequences of characters.

use vstd::prelude::*;

verus! {

/// Whether a character has the Unicode `White_Space` property.
pub uninterp spec fn is_unicode_space(c: char) -> bool;

/// Relies on `char::is_whitespace`: whether a character has the Unicode
/// `White_Space` property, a function of the character alone. The ASCII
/// characters with the property are exactly space, horizontal tab, line
/// feed, vertical tab, form feed and carriage return.
#[verifier::external_body]
fn char_is_space(c: char) -> (r: bool)
    ensures
        r == is_unicode_space(c),
        (c == ' ' || c == '\t' || c == '\n' || c == '\u{b}' || c == '\u{c}' || c == '\r') ==> r,
        ((c as u32) < 128 && !(c == ' ' || c == '\t' || c == '\n' || c == '\u{b}' || c == '\u{c}'
            || c == '\r')) ==> !r,
{
    c.is_whitespace()
}

/// True when `p` is a prefix of `s`.
pub fn str_starts_with(s: &str, p: &str) -> (r: bool)
    ensures
        r == p@.is_prefix_of(s@),
{
    let sl: usize = s.unicode_len();
    let pl: usize = p.unicode_len();
    if pl > sl {
        return false;
    }
    let mut i: usize = 0;
    while i < pl
        invariant
            i <= pl,
            pl == p@.len(),
            sl == s@.len(),
            pl <= sl,
            forall|j: int| 0 <= j < i ==> s@[j] == p@[j],
        decreases pl - i,
    {
        if s.get_char(i) != p.get_char(i) {
            assert(!p@.is_prefix_of(s@)) by {
                assert(s@.subrange(0, pl as int)[i as int] == s@[i as int]);
            }
            return false;
        }
        i += 1;
    }
    assert(p@ =~= s@.subrange(0, pl as int));
    true
}

/// The input with every leading whitespace character removed.
pub open spec fn trim_start_spec(s: Seq<char>) -> Seq<char>
    decreases s.len(),
{
    if s.len() > 0 && is_unicode_space(s[0]) {
        trim_start_spec(s.drop_first())
    } else {
        s
    }
}

/// The input with every trailing whitespace character removed.
pub open spec fn trim_end_spec(s: Seq<char>) -> Seq<char>
    decreases s.len(),
{
    if s.len() > 0 && is_unicode_space(s.last()) {
        trim_end_spec(s.drop_last())
    } else {
        s
    }
}

/// The input with leading and trailing whitespace removed.
pub open spec fn trim_spec(s: Seq<char>) -> Seq<char> {
    trim_end_spec(trim_start_spec(s))
}

/// Index of the first character that is not whitespace (the length when all
/// of `s` is whitespace).
fn first_non_space(s: &str) -> (i: usize)
    ensures
        i <= s@.len(),
        trim_start_spec(s@) == s@.skip(i as int),
{
    let len: usize = s.unicode_len();
    let mut i: usize = 0;
    proof {
        assert(s@.skip(0) =~= s@);
    }
    while i < len && char_is_space(s.get_char(i))
        invariant
            i <= len,
            len == s@.len(),
            trim_start_spec(s@) == trim_start_spec(s@.skip(i as int)),
        decreases len - i,
    {
        proof {
            assert(s@.skip(i as int)[0] == s@[i as int]);
            assert(s@.skip(i as int).drop_first() =~= s@.skip(i as int + 1));
        }
        i += 1;
    }
    proof {
        if i < len {
            assert(s@.skip(i as int)[0] == s@[i as int]);
        }
        assert(trim_start_spec(s@.skip(i as int)) == s@.skip(i as int));
    }
    i
}

/// The string with leading whitespace removed.
pub fn trim_start_str(s: &str) -> (r: String)
    ensures
        r@ == trim_start_spec(s@),
{
    let len: usize = s.unicode_len();
    let i: usize = first_non_space(s);
    let sub: &str = s.substring_char(i, len);
    proof {
        assert(s@.subrange(i as int, len as int) =~= s@.skip(i as int));
    }
    sub.to_owned()
}

/// The string with leading and trailing whitespace removed.
pub fn trim_str(s: &str) -> (r: String)
    ensures
        r@ == trim_spec(s@),
{
    let len: usize = s.unicode_len();
    let i: usize = first_non_space(s);
    proof {
        assert(s@.subrange(i as int, len as int) =~= s@.skip(i as int));
    }
    let mut j: usize = len;
    while j > i && char_is_space(s.get_char(j - 1))
        invariant
            i <= j <= len,
            len == s@.len(),
            trim_start_spec(s@) == s@.skip(i as int),
            trim_end_spec(s@.skip(i as int)) == trim_end_spec(s@.subrange(i as int, j as int)),
        decreases j,
    {
        proof {
            let u = s@.subrange(i as int, j as int);
            assert(u.last() == s@[j - 1]);
            assert(u.drop_last() =~= s@.subrange(i as int, j as int - 1));
        }
        j -= 1;
    }
    proof {
        let u = s@.subrange(i as int, j as int);
        if j > i {
            assert(u.last() == s@[j - 1]);
        }
        assert(trim_end_spec(u) == u);
    }
    s.substring_char(i, j).to_owned()
}

/// Length of the first line: the index of the first line feed, or the whole
/// length when there is none.
pub open spec fn first_nl(s: Seq<char>) -> nat
    decreases s.len(),
{
    if s.len() == 0 {
        0
    } else if s[0] == '\n' {
        0
    } else {
        (1 + first_nl(s.drop_first())) as nat
    }
}

pub proof fn lemma_first_nl(s: Seq<char>)
    ensures
        first_nl(s) <= s.len(),
        forall|j: int| 0 <= j < first_nl(s) ==> s[j] != '\n',
        first_nl(s) < s.len() ==> s[first_nl(s) as int] == '\n',
    decreases s.len(),
{
    if s.len() > 0 && s[0] != '\n' {
        lemma_first_nl(s.drop_first());
        assert forall|j: int| 0 <= j < first_nl(s) implies s[j] != '\n' by {
            if j > 0 {
                assert(s.drop_first()[j - 1] == s[j]);
            }
        }
        if first_nl(s) < s.len() {
            assert(s.drop_first()[first_nl(s.drop_first()) as int] == s[first_nl(s) as int]);
        }
    }
}

/// The lines of `s`, split at each line feed; the separators are dropped.
pub open spec fn split_lines_spec(s: Seq<char>) -> Seq<Seq<char>>
    decreases s.len(),
{
    if s.len() == 0 {
        Seq::empty()
    } else {
        let n = first_nl(s);
        if n >= s.len() {
            seq![s]
        } else {
            seq![s.take(n as int)] + split_lines_spec(s.skip(n as int + 1))
        }
    }
}

/// Index of the first line feed at or after `from` (the length when there is
/// none), phrased against `first_nl` of the remaining suffix.
fn find_newline(s: &str, from: usize) -> (q: usize)
    requires
        from <= s@.len(),
    ensures
        from <= q <= s@.len(),
        first_nl(s@.skip(from as int)) == q - from,
{
    let len: usize = s.unicode_len();
    let mut q: usize = from;
    while q < len && s.get_char(q) != '\n'
        invariant
            from <= q <= len,
            len == s@.len(),
            forall|j: int| from <= j < q ==> s@[j] != '\n',
        decreases len - q,
    {
        q += 1;
    }
    proof {
        let t = s@.skip(from as int);
        lemma_first_nl(t);
        assert(forall|j: int| 0 <= j < t.len() ==> t[j] == s@[from + j]);
        let n = first_nl(t) as int;
        let m = q - from;
        if n < m {
            assert(t[n] != '\n');
        }
        if n > m {
            assert(t[m] != '\n');
            assert(q < len);
        }
    }
    q
}

/// Splits the text at line feeds, dropping the separators.
pub fn split_lines(s: &str) -> (r: Vec<String>)
    ensures
        r@.map_values(|l: String| l@) == split_lines_spec(s@),
{
    let len: usize = s.unicode_len();
    let mut out: Vec<String> = Vec::new();
    let mut pos: usize = 0;
    proof {
        assert(s@.skip(0) =~= s@);
        assert(out@.map_values(|l: String| l@) + split_lines_spec(s@) =~= split_lines_spec(s@));
    }
    while pos < len
        invariant
            pos <= len,
            len == s@.len(),
            split_lines_spec(s@) == out@.map_values(|l: String| l@) + split_lines_spec(
                s@.skip(pos as int),
            ),
        decreases len - pos,
    {
        let q: usize = find_newline(s, pos);
        let ghost rest = s@.skip(pos as int);
        let ghost n = first_nl(rest);
        let line: &str = s.substring_char(pos, q);
        proof {
            lemma_first_nl(rest);
            assert(line@ =~= rest.take(n as int));
        }
        let owned: String = line.to_owned();
        let ghost prev = out@;
        out.push(owned);
        proof {
            assert(out@.map_values(|l: String| l@) =~= prev.map_values(|l: String| l@) + seq![
                line@,
            ]);
        }
        if q == len {
            proof {
                assert(rest.take(n as int) =~= rest);
                assert(split_lines_spec(rest) =~= seq![line@]);
                assert(split_lines_spec(s@.skip(len as int)) =~= Seq::<Seq<char>>::empty());
                assert(out@.map_values(|l: String| l@) + split_lines_spec(s@.skip(len as int))
                    =~= prev.map_values(|l: String| l@) + split_lines_spec(rest));
            }
            pos = len;
        } else {
            proof {
                assert(n < rest.len());
                assert(split_lines_spec(rest) == seq![rest.take(n as int)] + split_lines_spec(
                    rest.skip(n as int + 1),
                ));
                assert(rest.skip(n as int + 1) =~= s@.skip(q as int + 1));
                assert(out@.map_values(|l: String| l@) + split_lines_spec(s@.skip(q as int + 1))
                    =~= prev.map_values(|l: String| l@) + split_lines_spec(rest));
            }
            pos = q + 1;
        }
    }
    proof {
        assert(split_lines_spec(s@.skip(pos as int)) =~= Seq::<Seq<char>>::empty());
        assert(out@.map_values(|l: String| l@) + Seq::<Seq<char>>::empty() =~= out@.map_values(
            |l: String| l@,
        ));
    }
    out
}

} // verus!
