//! Character-level helpers for the string matching that the rest of the
//! crate needs: exact equality, prefix and suffix tests, repeated suffix
//! trimming, and ASCII case-insensitive substring search.
use vstd::prelude::*;

verus! {

/// ASCII lowercase folding of a single character, as a scalar value.
/// Characters outside `A..=Z` are left as they are.
pub open spec fn fold_lower(c: char) -> int {
    if 65 <= c as u32 && c as u32 <= 90 {
        c as u32 + 32
    } else {
        c as u32 as int
    }
}

/// Two characters are equal up to ASCII case.
pub open spec fn char_eq_ci(a: char, b: char) -> bool {
    fold_lower(a) == fold_lower(b)
}

/// `pat` occurs in `s` at offset `i`, comparing characters up to ASCII case.
pub open spec fn matches_ci_at(s: Seq<char>, pat: Seq<char>, i: int) -> bool {
    &&& 0 <= i
    &&& i + pat.len() <= s.len()
    &&& forall|j: int| 0 <= j < pat.len() ==> char_eq_ci(s[i + j], pat[j])
}

/// `pat` occurs somewhere in `s`, comparing characters up to ASCII case.
pub open spec fn contains_ci(s: Seq<char>, pat: Seq<char>) -> bool {
    exists|i: int| matches_ci_at(s, pat, i)
}

/// `s` with every trailing occurrence of `suf` removed, one after the other.
pub open spec fn trim_end_all(s: Seq<char>, suf: Seq<char>) -> Seq<char>
    decreases s.len(),
{
    if suf.len() > 0 && suf.is_suffix_of(s) {
        trim_end_all(s.subrange(0, s.len() - suf.len()), suf)
    } else {
        s
    }
}

/// Case-insensitive comparison of two characters.
pub fn chars_eq_ci(a: char, b: char) -> (r: bool)
    ensures
        r == char_eq_ci(a, b),
{
    let x: u32 = a as u32;
    let y: u32 = b as u32;
    let x: u32 = if 65 <= x && x <= 90 {
        x + 32
    } else {
        x
    };
    let y: u32 = if 65 <= y && y <= 90 {
        y + 32
    } else {
        y
    };
    x == y
}

/// Exact string equality, stated over the character sequences.
pub fn str_eq(a: &str, b: &str) -> (r: bool)
    ensures
        r == (a@ == b@),
{
    let alen = a.unicode_len();
    let blen = b.unicode_len();
    if alen != blen {
        return false;
    }
    let mut i: usize = 0;
    while i < alen
        invariant
            alen == a@.len(),
            alen == b@.len(),
            i <= alen,
            forall|j: int| 0 <= j < i ==> a@[j] == b@[j],
        decreases alen - i,
    {
        if a.get_char(i) != b.get_char(i) {
            return false;
        }
        i = i + 1;
    }
    proof {
        assert(a@ =~= b@);
    }
    true
}

/// Whether `p` is a prefix of `s`.
pub fn str_starts_with(s: &str, p: &str) -> (r: bool)
    ensures
        r == p@.is_prefix_of(s@),
{
    let slen = s.unicode_len();
    let plen = p.unicode_len();
    if plen > slen {
        return false;
    }
    let mut i: usize = 0;
    while i < plen
        invariant
            slen == s@.len(),
            plen == p@.len(),
            plen <= slen,
            i <= plen,
            forall|j: int| 0 <= j < i ==> s@[j] == p@[j],
        decreases plen - i,
    {
        if s.get_char(i) != p.get_char(i) {
            return false;
        }
        i = i + 1;
    }
    proof {
        assert(p@ =~= s@.subrange(0, p@.len() as int));
    }
    true
}

/// Whether `p` is a suffix of `s`.
pub fn str_ends_with(s: &str, p: &str) -> (r: bool)
    ensures
        r == p@.is_suffix_of(s@),
{
    let slen = s.unicode_len();
    let plen = p.unicode_len();
    if plen > slen {
        return false;
    }
    let off: usize = slen - plen;
    let mut i: usize = 0;
    while i < plen
        invariant
            slen == s@.len(),
            plen == p@.len(),
            plen <= slen,
            off == slen - plen,
            i <= plen,
            forall|j: int| 0 <= j < i ==> s@[off + j] == p@[j],
        decreases plen - i,
    {
        if s.get_char(off + i) != p.get_char(i) {
            return false;
        }
        i = i + 1;
    }
    proof {
        assert(p@ =~= s@.subrange(s@.len() - p@.len(), s@.len() as int));
    }
    true
}

/// `s` with every trailing occurrence of `suf` removed.
pub fn str_trim_end_all<'a>(s: &'a str, suf: &str) -> (r: &'a str)
    ensures
        r@ == trim_end_all(s@, suf@),
{
    let suflen = suf.unicode_len();
    if suflen == 0 {
        return s;
    }
    let mut cur: &'a str = s;
    while str_ends_with(cur, suf)
        invariant
            suflen == suf@.len(),
            suflen > 0,
            trim_end_all(cur@, suf@) == trim_end_all(s@, suf@),
        decreases cur@.len(),
    {
        let curlen = cur.unicode_len();
        cur = cur.substring_char(0, curlen - suflen);
    }
    cur
}

/// The index of the first occurrence of `c` in `s`, or -1 when there is
/// none.
pub open spec fn find_char(s: Seq<char>, c: char) -> int
    decreases s.len(),
{
    if s.len() == 0 {
        -1
    } else if s[0] == c {
        0
    } else {
        let r = find_char(s.subrange(1, s.len() as int), c);
        if r < 0 {
            -1
        } else {
            r + 1
        }
    }
}

/// `find_char` names the first occurrence: the character stands there and
/// nowhere earlier; -1 means it occurs nowhere.
pub proof fn lemma_find_char(s: Seq<char>, c: char)
    ensures
        ({
            let i = find_char(s, c);
            &&& -1 <= i < s.len()
            &&& i >= 0 ==> s[i] == c && (forall|j: int| 0 <= j < i ==> s[j] != c)
            &&& i == -1 ==> forall|j: int| 0 <= j < s.len() ==> s[j] != c
        }),
    decreases s.len(),
{
    if s.len() > 0 && s[0] != c {
        let tail = s.subrange(1, s.len() as int);
        lemma_find_char(tail, c);
        assert(forall|j: int| 0 <= j < tail.len() ==> tail[j] == s[j + 1]);
        let r = find_char(tail, c);
        if r >= 0 {
            let i = find_char(s, c);
            assert(i == r + 1);
            assert(s[i] == tail[r]);
            assert forall|j: int| 0 <= j < i implies s[j] != c by {
                if j > 0 {
                    assert(tail[j - 1] != c);
                    assert(tail[j - 1] == s[j]);
                }
            }
        } else {
            assert forall|j: int| 0 <= j < s.len() implies s[j] != c by {
                if j > 0 {
                    assert(tail[j - 1] != c);
                    assert(tail[j - 1] == s[j]);
                }
            }
        }
    }
}

/// A first occurrence pins `find_char` down.
pub proof fn lemma_find_char_is(s: Seq<char>, c: char, i: int)
    requires
        0 <= i < s.len(),
        s[i] == c,
        forall|j: int| 0 <= j < i ==> s[j] != c,
    ensures
        find_char(s, c) == i,
{
    lemma_find_char(s, c);
    let r = find_char(s, c);
    if r >= 0 {
        if r < i {
            assert(s[r] == c);
        } else if r > i {
            assert(s[i] != c);
        }
    } else {
        assert(s[i] != c);
    }
}

/// The index of the first occurrence of `c` in `s`, as executable code.
pub fn find_char_at(s: &str, c: char) -> (r: Option<usize>)
    ensures
        match r {
            Some(i) => find_char(s@, c) == i,
            None => find_char(s@, c) == -1,
        },
{
    let n = s.unicode_len();
    let mut i: usize = 0;
    while i < n
        invariant
            n == s@.len(),
            i <= n,
            forall|j: int| 0 <= j < i ==> s@[j] != c,
        decreases n - i,
    {
        if s.get_char(i) == c {
            proof {
                lemma_find_char_is(s@, c, i as int);
            }
            return Some(i);
        }
        i = i + 1;
    }
    proof {
        lemma_find_char(s@, c);
        let r = find_char(s@, c);
        if r >= 0 {
            assert(s@[r] == c);
        }
    }
    None
}

/// `s` split at each occurrence of `c`, the separators dropped. The
/// result holds one more piece than there are separators; an empty `s`
/// gives one empty piece.
pub open spec fn split_on(s: Seq<char>, c: char) -> Seq<Seq<char>>
    decreases s.len(),
{
    let i = find_char(s, c);
    if 0 <= i < s.len() {
        seq![s.subrange(0, i)] + split_on(s.subrange(i + 1, s.len() as int), c)
    } else {
        seq![s]
    }
}

/// A line with a trailing carriage return loses it.
pub open spec fn strip_cr(l: Seq<char>) -> Seq<char> {
    if l.len() > 0 && l.last() == '\r' {
        l.drop_last()
    } else {
        l
    }
}

/// The lines of a text: split at each newline, each line's trailing
/// carriage return dropped.
pub open spec fn spec_lines(s: Seq<char>) -> Seq<Seq<char>> {
    split_on(s, '\n').map(|i: int, l: Seq<char>| strip_cr(l))
}

/// A line without its trailing carriage return, as executable code.
fn strip_cr_line<'a>(l: &'a str) -> (r: &'a str)
    ensures
        r@ == strip_cr(l@),
{
    let n = l.unicode_len();
    if n > 0 && l.get_char(n - 1) == '\r' {
        l.substring_char(0, n - 1)
    } else {
        l
    }
}

/// The lines of a text, as executable code.
pub fn split_lines<'a>(s: &'a str) -> (r: Vec<&'a str>)
    ensures
        r@.len() == spec_lines(s@).len(),
        forall|i: int| 0 <= i < r@.len() ==> (#[trigger] r@[i])@ == spec_lines(s@)[i],
    decreases s@.len(),
{
    let n = s.unicode_len();
    match find_char_at(s, '\n') {
        Some(i) => {
            proof {
                lemma_find_char(s@, '\n');
            }
            let head = strip_cr_line(s.substring_char(0, i));
            let tail = s.substring_char(i + 1, n);
            let rest = split_lines(tail);
            let mut r: Vec<&'a str> = Vec::new();
            r.push(head);
            let mut t: usize = 0;
            while t < rest.len()
                invariant
                    r@.len() == t + 1,
                    t <= rest@.len(),
                    r@[0] == head,
                    forall|j: int| 0 <= j < t ==> r@[j + 1] == rest@[j],
                decreases rest@.len() - t,
            {
                let piece = *vec_str_ref(&rest, t);
                r.push(piece);
                t = t + 1;
            }
            proof {
                assert(split_on(s@, '\n') == seq![s@.subrange(0, i as int)] + split_on(
                    tail@,
                    '\n',
                ));
                assert forall|j: int| 0 <= j < r@.len() implies (#[trigger] r@[j])@ == spec_lines(
                    s@,
                )[j] by {
                    if j == 0 {
                        assert(spec_lines(s@)[0] == strip_cr(split_on(s@, '\n')[0]));
                        assert(split_on(s@, '\n')[0] == s@.subrange(0, i as int));
                    } else {
                        assert(r@[j] == rest@[j - 1]);
                        assert(rest@[j - 1]@ == spec_lines(tail@)[j - 1]);
                        assert(split_on(s@, '\n')[j] == split_on(tail@, '\n')[j - 1]);
                        assert(spec_lines(s@)[j] == strip_cr(split_on(s@, '\n')[j]));
                        assert(spec_lines(tail@)[j - 1] == strip_cr(split_on(tail@, '\n')[j - 1]));
                    }
                }
            }
            r
        },
        None => {
            proof {
                lemma_find_char(s@, '\n');
            }
            let mut r: Vec<&'a str> = Vec::new();
            r.push(strip_cr_line(s));
            proof {
                assert(split_on(s@, '\n') == seq![s@]);
                assert(spec_lines(s@)[0] == strip_cr(s@));
            }
            r
        },
    }
}

/// A borrowed element of a vector of string slices.
pub fn vec_str_ref<'a, 'v>(v: &'v Vec<&'a str>, i: usize) -> (r: &'v &'a str)
    requires
        i < v@.len(),
    ensures
        *r == v@[i as int],
{
    &v[i]
}

/// `s` with every leading occurrence of `pre` removed.
pub open spec fn trim_start_all(s: Seq<char>, pre: Seq<char>) -> Seq<char>
    decreases s.len(),
{
    if pre.len() > 0 && pre.is_prefix_of(s) {
        trim_start_all(s.subrange(pre.len() as int, s.len() as int), pre)
    } else {
        s
    }
}

/// `s` with every leading occurrence of `pre` removed, as executable code.
pub fn str_trim_start_all<'a>(s: &'a str, pre: &str) -> (r: &'a str)
    ensures
        r@ == trim_start_all(s@, pre@),
{
    let prelen = pre.unicode_len();
    if prelen == 0 {
        return s;
    }
    let mut cur: &'a str = s;
    while str_starts_with(cur, pre)
        invariant
            prelen == pre@.len(),
            prelen > 0,
            trim_start_all(cur@, pre@) == trim_start_all(s@, pre@),
        decreases cur@.len(),
    {
        let curlen = cur.unicode_len();
        cur = cur.substring_char(prelen, curlen);
    }
    cur
}

/// Whether the character counts as whitespace in these listings: blank,
/// tab, carriage return or newline.
pub open spec fn is_ws(c: char) -> bool {
    c == ' ' || c == '\t' || c == '\r' || c == '\n'
}

/// Whether the character counts as whitespace, as executable code.
pub fn is_ws_char(c: char) -> (r: bool)
    ensures
        r == is_ws(c),
{
    c == ' ' || c == '\t' || c == '\r' || c == '\n'
}

/// The index of the first whitespace character in `s`, or -1 when there
/// is none.
pub open spec fn find_ws(s: Seq<char>) -> int
    decreases s.len(),
{
    if s.len() == 0 {
        -1
    } else if is_ws(s[0]) {
        0
    } else {
        let r = find_ws(s.subrange(1, s.len() as int));
        if r < 0 {
            -1
        } else {
            r + 1
        }
    }
}

/// `find_ws` names the first whitespace character: it stands there and
/// nowhere earlier; -1 means there is none.
pub proof fn lemma_find_ws(s: Seq<char>)
    ensures
        ({
            let i = find_ws(s);
            &&& -1 <= i < s.len()
            &&& i >= 0 ==> is_ws(s[i]) && (forall|j: int| 0 <= j < i ==> !is_ws(s[j]))
            &&& i == -1 ==> forall|j: int| 0 <= j < s.len() ==> !is_ws(s[j])
        }),
    decreases s.len(),
{
    if s.len() > 0 && !is_ws(s[0]) {
        let tail = s.subrange(1, s.len() as int);
        lemma_find_ws(tail);
        assert(forall|j: int| 0 <= j < tail.len() ==> tail[j] == s[j + 1]);
        let r = find_ws(tail);
        if r >= 0 {
            let i = find_ws(s);
            assert(i == r + 1);
            assert(s[i] == tail[r]);
            assert forall|j: int| 0 <= j < i implies !is_ws(s[j]) by {
                if j > 0 {
                    assert(!is_ws(tail[j - 1]));
                    assert(tail[j - 1] == s[j]);
                }
            }
        } else {
            assert forall|j: int| 0 <= j < s.len() implies !is_ws(s[j]) by {
                if j > 0 {
                    assert(!is_ws(tail[j - 1]));
                    assert(tail[j - 1] == s[j]);
                }
            }
        }
    }
}

/// A first whitespace position pins `find_ws` down.
pub proof fn lemma_find_ws_is(s: Seq<char>, i: int)
    requires
        0 <= i < s.len(),
        is_ws(s[i]),
        forall|j: int| 0 <= j < i ==> !is_ws(s[j]),
    ensures
        find_ws(s) == i,
{
    lemma_find_ws(s);
    let r = find_ws(s);
    if r >= 0 {
        if r < i {
            assert(is_ws(s[r]));
        } else if r > i {
            assert(!is_ws(s[i]));
        }
    } else {
        assert(!is_ws(s[i]));
    }
}

/// The index of the first whitespace character, as executable code.
pub fn find_ws_at(s: &str) -> (r: Option<usize>)
    ensures
        match r {
            Some(i) => find_ws(s@) == i,
            None => find_ws(s@) == -1,
        },
{
    let n = s.unicode_len();
    let mut i: usize = 0;
    while i < n
        invariant
            n == s@.len(),
            i <= n,
            forall|j: int| 0 <= j < i ==> !is_ws(s@[j]),
        decreases n - i,
    {
        if is_ws_char(s.get_char(i)) {
            proof {
                lemma_find_ws_is(s@, i as int);
            }
            return Some(i);
        }
        i = i + 1;
    }
    proof {
        lemma_find_ws(s@);
        let r = find_ws(s@);
        if r >= 0 {
            assert(is_ws(s@[r]));
        }
    }
    None
}

/// The whitespace-separated fields of `s`, in order, each non-empty.
pub open spec fn spec_fields(s: Seq<char>) -> Seq<Seq<char>>
    decreases s.len(),
{
    if s.len() == 0 {
        Seq::empty()
    } else if is_ws(s[0]) {
        spec_fields(s.subrange(1, s.len() as int))
    } else {
        let i = find_ws(s);
        if 0 <= i < s.len() {
            seq![s.subrange(0, i)] + spec_fields(s.subrange(i, s.len() as int))
        } else {
            seq![s]
        }
    }
}

/// The whitespace-separated fields of `s`, as executable code.
pub fn split_fields<'a>(s: &'a str) -> (r: Vec<&'a str>)
    ensures
        r@.len() == spec_fields(s@).len(),
        forall|i: int| 0 <= i < r@.len() ==> (#[trigger] r@[i])@ == spec_fields(s@)[i],
    decreases s@.len(),
{
    let n = s.unicode_len();
    if n == 0 {
        return Vec::new();
    }
    if is_ws_char(s.get_char(0)) {
        return split_fields(s.substring_char(1, n));
    }
    match find_ws_at(s) {
        Some(i) => {
            proof {
                lemma_find_ws(s@);
            }
            let head = s.substring_char(0, i);
            let tail = s.substring_char(i, n);
            let rest = split_fields(tail);
            let mut r: Vec<&'a str> = Vec::new();
            r.push(head);
            let mut t: usize = 0;
            while t < rest.len()
                invariant
                    r@.len() == t + 1,
                    t <= rest@.len(),
                    r@[0] == head,
                    forall|j: int| 0 <= j < t ==> r@[j + 1] == rest@[j],
                decreases rest@.len() - t,
            {
                let piece = *vec_str_ref(&rest, t);
                r.push(piece);
                t = t + 1;
            }
            proof {
                assert(spec_fields(s@) == seq![s@.subrange(0, i as int)] + spec_fields(tail@));
                assert forall|j: int| 0 <= j < r@.len() implies (#[trigger] r@[j])@ == spec_fields(
                    s@,
                )[j] by {
                    if j == 0 {
                        assert(spec_fields(s@)[0] == s@.subrange(0, i as int));
                    } else {
                        assert(r@[j] == rest@[j - 1]);
                        assert(rest@[j - 1]@ == spec_fields(tail@)[j - 1]);
                        assert(spec_fields(s@)[j] == spec_fields(tail@)[j - 1]);
                    }
                }
            }
            r
        },
        None => {
            proof {
                lemma_find_ws(s@);
                assert(spec_fields(s@) == seq![s@]);
            }
            let mut r: Vec<&'a str> = Vec::new();
            r.push(s);
            r
        },
    }
}

/// `s` with leading whitespace removed.
pub open spec fn trim_start_ws(s: Seq<char>) -> Seq<char>
    decreases s.len(),
{
    if s.len() > 0 && is_ws(s[0]) {
        trim_start_ws(s.subrange(1, s.len() as int))
    } else {
        s
    }
}

/// `s` with trailing whitespace removed.
pub open spec fn trim_end_ws(s: Seq<char>) -> Seq<char>
    decreases s.len(),
{
    if s.len() > 0 && is_ws(s.last()) {
        trim_end_ws(s.drop_last())
    } else {
        s
    }
}

/// `s` with whitespace removed at both ends.
pub open spec fn trim_ws(s: Seq<char>) -> Seq<char> {
    trim_end_ws(trim_start_ws(s))
}

/// `s` with whitespace removed at both ends, as executable code.
pub fn str_trim_ws<'a>(s: &'a str) -> (r: &'a str)
    ensures
        r@ == trim_ws(s@),
{
    let mut cur: &'a str = s;
    while cur.unicode_len() > 0 && is_ws_char(cur.get_char(0))
        invariant
            trim_start_ws(cur@) == trim_start_ws(s@),
        decreases cur@.len(),
    {
        let curlen = cur.unicode_len();
        cur = cur.substring_char(1, curlen);
    }
    proof {
        assert(cur@ == trim_start_ws(s@));
    }
    let ghost started = cur@;
    loop
        invariant
            trim_end_ws(cur@) == trim_end_ws(started),
        ensures
            trim_end_ws(cur@) == trim_end_ws(started),
            cur@.len() == 0 || !is_ws(cur@.last()),
        decreases cur@.len(),
    {
        let curlen = cur.unicode_len();
        if curlen == 0 {
            break ;
        }
        if !is_ws_char(cur.get_char(curlen - 1)) {
            break ;
        }
        let ghost before = cur@;
        cur = cur.substring_char(0, curlen - 1);
        proof {
            assert(cur@ =~= before.drop_last());
        }
    }
    cur
}

/// Case-insensitive substring search: does `pat` occur in `s`?
pub fn str_contains_ci(s: &str, pat: &str) -> (r: bool)
    ensures
        r == contains_ci(s@, pat@),
{
    let slen = s.unicode_len();
    let plen = pat.unicode_len();
    if plen > slen {
        return false;
    }
    if plen == 0 {
        proof {
            assert(matches_ci_at(s@, pat@, 0));
        }
        return true;
    }
    let mut i: usize = 0;
    while i <= slen - plen
        invariant
            slen == s@.len(),
            plen == pat@.len(),
            0 < plen <= slen,
            i <= slen - plen + 1,
            forall|k: int| 0 <= k < i ==> !matches_ci_at(s@, pat@, k),
        decreases slen - i,
    {
        let mut j: usize = 0;
        let mut hit: bool = true;
        while j < plen
            invariant
                slen == s@.len(),
                plen == pat@.len(),
                i + plen <= slen,
                j <= plen,
                hit ==> forall|t: int| 0 <= t < j ==> char_eq_ci(s@[i + t], pat@[t]),
                !hit ==> !matches_ci_at(s@, pat@, i as int),
            decreases plen - j,
        {
            if !chars_eq_ci(s.get_char(i + j), pat.get_char(j)) {
                hit = false;
                proof {
                    assert(!matches_ci_at(s@, pat@, i as int));
                }
                j = plen;
            } else {
                j = j + 1;
            }
        }
        if hit {
            proof {
                assert(matches_ci_at(s@, pat@, i as int));
            }
            return true;
        }
        i = i + 1;
    }
    proof {
        assert(forall|k: int| matches_ci_at(s@, pat@, k) ==> 0 <= k < i);
    }
    false
}

} // verus!
