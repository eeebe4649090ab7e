//! Conversions between strings and character vectors, and the line
//! splitting shared by the history store and the password-file parser.

use vstd::prelude::*;
use vstd::string::StrSliceExecFns;

verus! {

/// The characters of `s`, in order.
pub fn to_char_vec(s: &str) -> (v: Vec<char>)
    ensures
        v@ == s@,
{
    let n = s.unicode_len();
    let mut v: Vec<char> = Vec::new();
    let mut k: usize = 0;
    while k < n
        invariant
            n == s@.len(),
            k <= n,
            v@ == s@.subrange(0, k as int),
        decreases n - k,
    {
        v.push(s.get_char(k));
        proof {
            assert(v@ =~= s@.subrange(0, k as int + 1));
        }
        k = k + 1;
    }
    proof {
        assert(s@.subrange(0, n as int) =~= s@);
    }
    v
}

/// Relies on `String`'s `FromIterator<char>`: collecting characters yields
/// the string of exactly those characters, in order.
#[verifier::external_body]
pub fn string_from_chars(v: &Vec<char>) -> (s: String)
    ensures
        s@ == v@,
{
    v.iter().collect()
}

/// A copy of `v`.
pub fn clone_chars(v: &Vec<char>) -> (r: Vec<char>)
    ensures
        r@ == v@,
{
    let mut r: Vec<char> = Vec::new();
    let mut k: usize = 0;
    while k < v.len()
        invariant
            k <= v@.len(),
            r@ == v@.subrange(0, k as int),
        decreases v@.len() - k,
    {
        r.push(v[k]);
        proof {
            assert(r@ =~= v@.subrange(0, k as int + 1));
        }
        k = k + 1;
    }
    proof {
        assert(v@.subrange(0, v@.len() as int) =~= v@);
    }
    r
}

/// Whether two character vectors hold the same characters.
pub fn chars_eq(a: &Vec<char>, b: &Vec<char>) -> (r: bool)
    ensures
        r == (a@ == b@),
{
    if a.len() != b.len() {
        proof {
            assert(a@ != b@);
        }
        return false;
    }
    let mut k: usize = 0;
    while k < a.len()
        invariant
            a@.len() == b@.len(),
            k <= a@.len(),
            forall|i: int| 0 <= i < k ==> a@[i] == b@[i],
        decreases a@.len() - k,
    {
        if a[k] != b[k] {
            proof {
                assert(a@ != b@);
            }
            return false;
        }
        k = k + 1;
    }
    proof {
        assert(a@ =~= b@);
    }
    true
}

/// Whether two string slices hold the same characters.
pub fn str_eq(a: &str, b: &str) -> (r: bool)
    ensures
        r == (a@ == b@),
{
    let na = a.unicode_len();
    let nb = b.unicode_len();
    if na != nb {
        proof {
            assert(a@ != b@);
        }
        return false;
    }
    let mut k: usize = 0;
    while k < na
        invariant
            na == a@.len(),
            a@.len() == b@.len(),
            k <= na,
            forall|i: int| 0 <= i < k ==> a@[i] == b@[i],
        decreases na - k,
    {
        if a.get_char(k) != b.get_char(k) {
            proof {
                assert(a@ != b@);
            }
            return false;
        }
        k = k + 1;
    }
    proof {
        assert(a@ =~= b@);
    }
    true
}

/// Index of the first newline at or after `j` in `s`, or the length of `s`
/// when there is none.
pub open spec fn find_nl(s: Seq<char>, j: int) -> int
    decreases s.len() - j,
{
    if j >= s.len() {
        s.len() as int
    } else if s[j] == '\n' {
        j
    } else {
        find_nl(s, j + 1)
    }
}

/// A line with a trailing carriage return loses it.
pub open spec fn strip_tail_cr(l: Seq<char>) -> Seq<char> {
    if l.len() > 0 && l[l.len() - 1] == '\r' {
        l.drop_last()
    } else {
        l
    }
}

/// The lines of `s` from position `pos` on: split at each newline, a
/// carriage return before the newline stripped, the unterminated tail kept
/// as a final line when it is not empty.
pub open spec fn lines_from(s: Seq<char>, pos: int) -> Seq<Seq<char>>
    decreases s.len() - pos,
    via lines_from_dec
{
    if pos < 0 || pos >= s.len() {
        Seq::empty()
    } else {
        let k = find_nl(s, pos);
        if k >= s.len() {
            seq![s.subrange(pos, s.len() as int)]
        } else {
            seq![strip_tail_cr(s.subrange(pos, k))].add(lines_from(s, k + 1))
        }
    }
}

#[via_fn]
proof fn lines_from_dec(s: Seq<char>, pos: int) {
    if 0 <= pos < s.len() {
        lemma_find_nl_bounds(s, pos);
    }
}

/// The lines of `s`.
pub open spec fn lines_spec(s: Seq<char>) -> Seq<Seq<char>> {
    lines_from(s, 0)
}

/// Bound used to keep line counts within the history cursor's range.
pub proof fn lemma_lines_count(s: Seq<char>, pos: int)
    requires
        pos <= s.len(),
    ensures
        lines_from(s, pos).len() <= s.len() - pos + 1,
    decreases s.len() - pos,
{
    if pos < 0 || pos >= s.len() {
    } else {
        let k = find_nl(s, pos);
        lemma_find_nl_bounds(s, pos);
        if k >= s.len() {
        } else {
            lemma_lines_count(s, k + 1);
        }
    }
}

/// The first newline at or after `j` lies between `j` and the end.
pub proof fn lemma_find_nl_bounds(s: Seq<char>, j: int)
    requires
        j <= s.len(),
    ensures
        j <= find_nl(s, j) <= s.len(),
        find_nl(s, j) < s.len() ==> s[find_nl(s, j)] == '\n',
        forall|i: int| j <= i < find_nl(s, j) ==> s[i] != '\n',
    decreases s.len() - j,
{
    if j >= s.len() {
    } else if s[j] == '\n' {
    } else {
        lemma_find_nl_bounds(s, j + 1);
    }
}

/// The lines of `s`, as subslices of `s`.
pub fn split_lines<'a>(s: &'a str) -> (v: Vec<&'a str>)
    ensures
        v.deep_view() == lines_spec(s@),
        v@.len() <= s@.len() + 1,
{
    let n = s.unicode_len();
    let mut v: Vec<&'a str> = Vec::new();
    let mut pos: usize = 0;
    proof {
        lemma_lines_count(s@, 0);
    }
    while pos < n
        invariant
            n == s@.len(),
            pos <= n,
            lines_spec(s@) == v.deep_view().add(lines_from(s@, pos as int)),
            v@.len() + lines_from(s@, pos as int).len() <= s@.len() + 1,
        decreases n - pos,
    {
        let ghost prefix = v.deep_view();
        // find the next newline
        let mut k: usize = pos;
        while k < n && s.get_char(k) != '\n'
            invariant
                n == s@.len(),
                pos <= k <= n,
                find_nl(s@, pos as int) == find_nl(s@, k as int),
            decreases n - k,
        {
            k = k + 1;
        }
        assert(find_nl(s@, pos as int) == k);
        if k == n {
            let line = s.substring_char(pos, n);
            v.push(line);
            proof {
                assert(v.deep_view() =~= prefix.add(lines_from(s@, pos as int)));
            }
            pos = n;
        } else {
            let line_end = if k > pos && s.get_char(k - 1) == '\r' {
                k - 1
            } else {
                k
            };
            let line = s.substring_char(pos, line_end);
            v.push(line);
            proof {
                lemma_lines_count(s@, k + 1);
                assert(line@ =~= strip_tail_cr(s@.subrange(pos as int, k as int)));
                assert(v.deep_view() =~= prefix.push(line@));
                assert(v.deep_view().add(lines_from(s@, k + 1 as int)) =~= prefix.add(
                    lines_from(s@, pos as int),
                ));
            }
            pos = k + 1;
        }
    }
    proof {
        assert(lines_from(s@, pos as int) =~= Seq::<Seq<char>>::empty());
        assert(v.deep_view().add(Seq::<Seq<char>>::empty()) =~= v.deep_view());
    }
    v
}

} // verus!
