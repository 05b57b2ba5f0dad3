//! Character-sequence utilities: whitespace classification, trimming,
//! substring search, string equality, and decimal rendering.

use vstd::prelude::*;

verus! {

/// The whitespace characters this library recognises.
pub open spec fn is_space_char(c: char) -> bool {
    c == ' ' || c == '\t' || c == '\r' || c == '\n'
}

/// Executable whitespace test.
pub fn is_space(c: char) -> (r: bool)
    ensures
        r == is_space_char(c),
{
    c == ' ' || c == '\t' || c == '\r' || c == '\n'
}

/// Relies on String::push: appends one character at the end of the string.
#[verifier::external_body]
pub(crate) fn push_char(s: &mut String, c: char)
    ensures
        final(s)@ == old(s)@.push(c),
{
    s.push(c);
}

/// The sequence with its leading whitespace removed.
pub open spec fn trim_front(s: Seq<char>) -> Seq<char>
    decreases s.len(),
{
    if s.len() > 0 && is_space_char(s[0]) {
        trim_front(s.drop_first())
    } else {
        s
    }
}

/// The sequence with its trailing whitespace removed.
pub open spec fn trim_back(s: Seq<char>) -> Seq<char>
    decreases s.len(),
{
    if s.len() > 0 && is_space_char(s[s.len() - 1]) {
        trim_back(s.drop_last())
    } else {
        s
    }
}

/// The sequence with whitespace removed at both ends.
pub open spec fn trim_spec(s: Seq<char>) -> Seq<char> {
    trim_back(trim_front(s))
}

/// Trims whitespace from both ends of a string slice.
pub fn trim<'a>(s: &'a str) -> (r: &'a str)
    ensures
        r@ == trim_spec(s@),
{
    let len = s.unicode_len();
    proof {
        assert(s@.skip(0) =~= s@);
    }
    let mut i: usize = 0;
    while i < len && is_space(s.get_char(i))
        invariant
            0 <= i <= len,
            len == s@.len(),
            trim_front(s@) == trim_front(s@.skip(i as int)),
        decreases len - i,
    {
        proof {
            assert(s@.skip(i as int)[0] == s@[i as int]);
            assert(s@.skip(i as int).drop_first() =~= s@.skip(i + 1));
        }
        i = i + 1;
    }
    proof {
        assert(trim_front(s@) == s@.skip(i as int)) by {
            if i < len {
                assert(s@.skip(i as int)[0] == s@[i as int]);
            }
        }
    }
    let mut j: usize = len;
    while j > i && is_space(s.get_char(j - 1))
        invariant
            i <= j <= len,
            len == s@.len(),
            trim_front(s@) == s@.skip(i as int),
            trim_back(s@.skip(i as int)) == trim_back(s@.subrange(i as int, j as int)),
        decreases j,
    {
        proof {
            let t = s@.subrange(i as int, j as int);
            assert(t[t.len() - 1] == s@[j - 1]);
            assert(t.drop_last() =~= s@.subrange(i as int, j - 1));
        }
        j = j - 1;
    }
    proof {
        let t = s@.subrange(i as int, j as int);
        if j > i {
            assert(t[t.len() - 1] == s@[j - 1]);
        }
        assert(trim_back(t) == t);
    }
    s.substring_char(i, j)
}

/// The needle `n` occurs in `h` starting at position `i`.
pub open spec fn is_match_at(h: Seq<char>, n: Seq<char>, i: int) -> bool {
    0 <= i && i + n.len() <= h.len() && h.subrange(i, i + n.len() as int) == n
}

/// Position of the first occurrence of `n` in `h`, or -1 when there is none.
pub open spec fn find_first(h: Seq<char>, n: Seq<char>) -> int
    decreases h.len(),
{
    if is_match_at(h, n, 0) {
        0
    } else if h.len() == 0 {
        -1
    } else {
        let r = find_first(h.drop_first(), n);
        if r < 0 {
            -1
        } else {
            r + 1
        }
    }
}

/// The needle `n` occurs somewhere in `h`.
pub open spec fn contains_seq(h: Seq<char>, n: Seq<char>) -> bool {
    find_first(h, n) >= 0
}

/// A match one position further in `h` is a match in `h.drop_first()`.
proof fn lemma_match_shift(h: Seq<char>, n: Seq<char>, i: int)
    requires
        h.len() > 0,
        0 <= i,
    ensures
        is_match_at(h, n, i + 1) == is_match_at(h.drop_first(), n, i),
{
    if i + 1 + n.len() <= h.len() {
        assert(h.subrange(i + 1, i + 1 + n.len() as int) =~= h.drop_first().subrange(
            i,
            i + n.len() as int,
        ));
    }
}

/// `find_first` returns the position of the first occurrence, or -1 exactly
/// when there is no occurrence at all.
pub proof fn lemma_find_first(h: Seq<char>, n: Seq<char>)
    ensures
        find_first(h, n) >= 0 ==> is_match_at(h, n, find_first(h, n)),
        find_first(h, n) >= 0 ==> forall|j: int| 0 <= j < find_first(h, n) ==> !is_match_at(h, n, j),
        find_first(h, n) == -1 ==> forall|j: int| !is_match_at(h, n, j),
        find_first(h, n) == -1 || find_first(h, n) >= 0,
    decreases h.len(),
{
    if is_match_at(h, n, 0) {
    } else if h.len() == 0 {
        assert forall|j: int| !is_match_at(h, n, j) by {
            if 0 <= j && j + n.len() <= h.len() {
                assert(j == 0 && n.len() == 0);
            }
        }
    } else {
        lemma_find_first(h.drop_first(), n);
        let r = find_first(h.drop_first(), n);
        if r >= 0 {
            lemma_match_shift(h, n, r);
            assert forall|j: int| 0 <= j < r + 1 implies !is_match_at(h, n, j) by {
                if j > 0 {
                    lemma_match_shift(h, n, j - 1);
                }
            }
        } else {
            assert forall|j: int| !is_match_at(h, n, j) by {
                if j > 0 {
                    lemma_match_shift(h, n, j - 1);
                }
            }
        }
    }
}

/// Whether `n` occurs in `h` at exactly position `i`.
fn match_at(h: &str, n: &str, i: usize) -> (r: bool)
    requires
        i + n@.len() <= h@.len(),
        h@.len() <= usize::MAX,
    ensures
        r == is_match_at(h@, n@, i as int),
{
    let nl = n.unicode_len();
    let mut k: usize = 0;
    while k < nl
        invariant
            nl == n@.len(),
            i + nl <= h@.len(),
            h@.len() <= usize::MAX,
            0 <= k <= nl,
            forall|m: int| 0 <= m < k ==> h@[i + m] == n@[m],
        decreases nl - k,
    {
        if h.get_char(i + k) != n.get_char(k) {
            proof {
                assert(h@.subrange(i as int, i + nl as int)[k as int] == h@[i + k]);
            }
            return false;
        }
        k = k + 1;
    }
    proof {
        assert(h@.subrange(i as int, i + nl as int) =~= n@);
    }
    true
}

/// Finds the first occurrence of `n` in `h`, by character position.
pub fn find_sub(h: &str, n: &str) -> (r: Option<usize>)
    ensures
        match r {
            Some(i) => find_first(h@, n@) == i,
            None => find_first(h@, n@) == -1,
        },
{
    proof {
        lemma_find_first(h@, n@);
    }
    let hl = h.unicode_len();
    let nl = n.unicode_len();
    if nl > hl {
        return None;
    }
    if nl == 0 {
        proof {
            assert(h@.subrange(0, 0) =~= n@);
        }
        return Some(0);
    }
    let mut i: usize = 0;
    while i <= hl - nl
        invariant
            hl == h@.len(),
            nl == n@.len(),
            0 < nl <= hl,
            0 <= i <= hl - nl + 1,
            forall|j: int| 0 <= j < i ==> !is_match_at(h@, n@, j),
        decreases hl + 1 - nl - i,
    {
        if match_at(h, n, i) {
            proof {
                lemma_find_first(h@, n@);
            }
            return Some(i);
        }
        i = i + 1;
    }
    proof {
        assert forall|j: int| !is_match_at(h@, n@, j) by {
            if 0 <= j && j + n@.len() <= h@.len() {
                assert(j <= hl - nl);
            }
        }
        lemma_find_first(h@, n@);
    }
    None
}

/// Substring containment test.
pub fn contains_sub(h: &str, n: &str) -> (r: bool)
    ensures
        r == contains_seq(h@, n@),
{
    match find_sub(h, n) {
        Some(_) => true,
        None => false,
    }
}

/// `p` is a prefix of `h`.
pub open spec fn starts_with_spec(h: Seq<char>, p: Seq<char>) -> bool {
    p.len() <= h.len() && h.subrange(0, p.len() as int) == p
}

/// Prefix test.
pub fn starts_with(h: &str, p: &str) -> (r: bool)
    ensures
        r == starts_with_spec(h@, p@),
{
    let hl = h.unicode_len();
    let pl = p.unicode_len();
    if pl > hl {
        return false;
    }
    let mut k: usize = 0;
    while k < pl
        invariant
            hl == h@.len(),
            pl == p@.len(),
            pl <= hl,
            0 <= k <= pl,
            forall|m: int| 0 <= m < k ==> h@[m] == p@[m],
        decreases pl - k,
    {
        if h.get_char(k) != p.get_char(k) {
            proof {
                assert(h@.subrange(0, pl as int)[k as int] == h@[k as int]);
            }
            return false;
        }
        k = k + 1;
    }
    proof {
        assert(h@.subrange(0, pl as int) =~= p@);
    }
    true
}

/// String equality by contents.
pub fn str_eq(a: &str, b: &str) -> (r: bool)
    ensures
        r == (a@ == b@),
{
    let al = a.unicode_len();
    let bl = b.unicode_len();
    if al != bl {
        return false;
    }
    let mut k: usize = 0;
    while k < al
        invariant
            al == a@.len(),
            bl == b@.len(),
            al == bl,
            0 <= k <= al,
            forall|m: int| 0 <= m < k ==> a@[m] == b@[m],
        decreases al - k,
    {
        if a.get_char(k) != b.get_char(k) {
            return false;
        }
        k = k + 1;
    }
    proof {
        assert(a@ =~= b@);
    }
    true
}

/// View of a sequence of strings as a sequence of character sequences.
pub open spec fn strs_view(v: Seq<String>) -> Seq<Seq<char>> {
    v.map_values(|x: String| x@)
}

/// Splits a sequence into lines at newline characters.  The result always
/// holds at least one (possibly empty) line.
pub open spec fn split_lines_spec(s: Seq<char>) -> Seq<Seq<char>>
    decreases s.len(),
{
    if s.len() == 0 {
        seq![Seq::<char>::empty()]
    } else if s[0] == '\n' {
        seq![Seq::<char>::empty()] + split_lines_spec(s.drop_first())
    } else {
        let rest = split_lines_spec(s.drop_first());
        seq![seq![s[0]] + rest[0]] + rest.drop_first()
    }
}

pub proof fn lemma_split_lines_len(s: Seq<char>)
    ensures
        split_lines_spec(s).len() >= 1,
    decreases s.len(),
{
    if s.len() > 0 {
        lemma_split_lines_len(s.drop_first());
    }
}

/// The first split line glued in front of the rest of the lines.
spec fn cons_front(p: Seq<char>, lines: Seq<Seq<char>>) -> Seq<Seq<char>> {
    seq![p + lines[0]] + lines.drop_first()
}

/// Splits a string into its lines, without the newline terminators.
pub fn split_lines(s: &str) -> (r: Vec<String>)
    ensures
        strs_view(r@) == split_lines_spec(s@),
{
    let len = s.unicode_len();
    let mut acc: Vec<String> = Vec::new();
    let mut cur: String = String::new();
    proof {
        assert(s@.skip(0) =~= s@);
        lemma_split_lines_len(s@);
        assert(cur@ + split_lines_spec(s@)[0] =~= split_lines_spec(s@)[0]);
        assert(strs_view(acc@) + cons_front(cur@, split_lines_spec(s@)) =~= split_lines_spec(
            s@,
        ));
    }
    let mut i: usize = 0;
    while i < len
        invariant
            len == s@.len(),
            0 <= i <= len,
            split_lines_spec(s@) == strs_view(acc@) + cons_front(
                cur@,
                split_lines_spec(s@.skip(i as int)),
            ),
        decreases len - i,
    {
        let c = s.get_char(i);
        proof {
            assert(s@.skip(i as int)[0] == s@[i as int]);
            assert(s@.skip(i as int).drop_first() =~= s@.skip(i + 1));
            lemma_split_lines_len(s@.skip(i + 1));
        }
        let ghost l_next = split_lines_spec(s@.skip(i + 1));
        if c == '\n' {
            proof {
                assert((seq![Seq::<char>::empty()] + l_next).drop_first() =~= l_next);
                assert(cur@ + Seq::<char>::empty() =~= cur@);
                assert(strs_view(acc@.push(cur)) =~= strs_view(acc@) + seq![cur@]);
                assert(Seq::<char>::empty() + l_next[0] =~= l_next[0]);
                assert(strs_view(acc@) + cons_front(cur@, split_lines_spec(s@.skip(i as int)))
                    =~= strs_view(acc@.push(cur)) + cons_front(Seq::<char>::empty(), l_next));
            }
            acc.push(cur);
            cur = String::new();
        } else {
            proof {
                assert((seq![seq![s@[i as int]] + l_next[0]] + l_next.drop_first()).drop_first()
                    =~= l_next.drop_first());
                assert(cur@ + (seq![c] + l_next[0]) =~= cur@.push(c) + l_next[0]);
                assert(cons_front(cur@, split_lines_spec(s@.skip(i as int))) =~= cons_front(
                    cur@.push(c),
                    l_next,
                ));
            }
            push_char(&mut cur, c);
        }
        i = i + 1;
    }
    proof {
        assert(s@.skip(len as int) =~= Seq::<char>::empty());
        assert(cur@ + Seq::<char>::empty() =~= cur@);
        assert(cons_front(cur@, split_lines_spec(s@.skip(len as int))) =~= seq![cur@]);
        assert(strs_view(acc@.push(cur)) =~= strs_view(acc@) + seq![cur@]);
        assert(strs_view(acc@.push(cur)) =~= split_lines_spec(s@));
    }
    acc.push(cur);
    acc
}

/// Whitespace runs replaced by single spaces; `prev_space` says whether a
/// space was just emitted (or the output is still empty), so that leading
/// runs vanish entirely.
pub open spec fn collapse_rec(s: Seq<char>, prev_space: bool) -> Seq<char>
    decreases s.len(),
{
    if s.len() == 0 {
        Seq::<char>::empty()
    } else if is_space_char(s[0]) {
        if prev_space {
            collapse_rec(s.drop_first(), true)
        } else {
            seq![' '] + collapse_rec(s.drop_first(), true)
        }
    } else {
        seq![s[0]] + collapse_rec(s.drop_first(), false)
    }
}

/// All whitespace runs of `s` collapsed to single spaces, with any leading
/// run removed.
pub open spec fn collapse_ws(s: Seq<char>) -> Seq<char> {
    collapse_rec(s, true)
}

/// Collapses whitespace runs in a string to single spaces.
pub fn collapse(s: &str) -> (r: String)
    ensures
        r@ == collapse_ws(s@),
{
    let len = s.unicode_len();
    let mut out = String::new();
    let mut prev_space = true;
    proof {
        assert(s@.skip(0) =~= s@);
        assert(out@ + collapse_rec(s@, true) =~= collapse_rec(s@, true));
    }
    let mut i: usize = 0;
    while i < len
        invariant
            len == s@.len(),
            0 <= i <= len,
            collapse_ws(s@) == out@ + collapse_rec(s@.skip(i as int), prev_space),
        decreases len - i,
    {
        let c = s.get_char(i);
        proof {
            assert(s@.skip(i as int)[0] == s@[i as int]);
            assert(s@.skip(i as int).drop_first() =~= s@.skip(i + 1));
        }
        let ghost rest = s@.skip(i + 1);
        if is_space(c) {
            if !prev_space {
                proof {
                    assert(out@ + (seq![' '] + collapse_rec(rest, true)) =~= out@.push(' ')
                        + collapse_rec(rest, true));
                }
                push_char(&mut out, ' ');
            }
            prev_space = true;
        } else {
            proof {
                assert(out@ + (seq![c] + collapse_rec(rest, false)) =~= out@.push(c)
                    + collapse_rec(rest, false));
            }
            push_char(&mut out, c);
            prev_space = false;
        }
        i = i + 1;
    }
    proof {
        assert(s@.skip(len as int) =~= Seq::<char>::empty());
        assert(out@ + Seq::<char>::empty() =~= out@);
    }
    out
}

/// The character for a single decimal digit.
pub open spec fn dec_digit_char(d: nat) -> char {
    if d == 0 {
        '0'
    } else if d == 1 {
        '1'
    } else if d == 2 {
        '2'
    } else if d == 3 {
        '3'
    } else if d == 4 {
        '4'
    } else if d == 5 {
        '5'
    } else if d == 6 {
        '6'
    } else if d == 7 {
        '7'
    } else if d == 8 {
        '8'
    } else {
        '9'
    }
}

/// Decimal rendering of a natural number, most significant digit first.
pub open spec fn dec_str(n: nat) -> Seq<char>
    decreases n,
{
    if n < 10 {
        seq![dec_digit_char(n)]
    } else {
        dec_str(n / 10).push(dec_digit_char(n % 10))
    }
}

fn digit_char(d: usize) -> (c: char)
    requires
        d < 10,
    ensures
        c == dec_digit_char(d as nat),
{
    if d == 0 {
        '0'
    } else if d == 1 {
        '1'
    } else if d == 2 {
        '2'
    } else if d == 3 {
        '3'
    } else if d == 4 {
        '4'
    } else if d == 5 {
        '5'
    } else if d == 6 {
        '6'
    } else if d == 7 {
        '7'
    } else if d == 8 {
        '8'
    } else {
        '9'
    }
}

/// Appends the decimal rendering of `n` to `out`.
pub fn push_dec(out: &mut String, n: usize)
    ensures
        final(out)@ == old(out)@ + dec_str(n as nat),
    decreases n,
{
    if n < 10 {
        push_char(out, digit_char(n));
        proof {
            assert(old(out)@.push(dec_digit_char(n as nat)) =~= old(out)@ + dec_str(n as nat));
        }
    } else {
        push_dec(out, n / 10);
        push_char(out, digit_char(n % 10));
        proof {
            assert((old(out)@ + dec_str((n / 10) as nat)).push(dec_digit_char((n % 10) as nat))
                =~= old(out)@ + dec_str(n as nat));
        }
    }
}

} // verus!
