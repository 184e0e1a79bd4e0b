//! Character-level text utilities: extracting the characters of a string,
//! substring search, whitespace tokenization and line splitting.

use vstd::prelude::*;
use vstd::string::StrSliceExecFns;

verus! {

/// Whitespace for this line-oriented format: space, tab, carriage return, line feed.
pub open spec fn is_space(c: char) -> bool {
    c == ' ' || c == '\t' || c == '\r' || c == '\n'
}

/// The character sequences of a sequence of character vectors.
pub open spec fn char_seqs(v: Seq<Vec<char>>) -> Seq<Seq<char>> {
    Seq::new(v.len(), |i: int| v[i]@)
}

fn is_space_exec(c: char) -> (r: bool)
    ensures
        r == is_space(c),
{
    c == ' ' || c == '\t' || c == '\r' || c == '\n'
}

/// The characters of a string slice, in order.
pub fn chars_of(s: &str) -> (r: Vec<char>)
    ensures
        r@ == s@,
{
    let n = s.unicode_len();
    let mut r: Vec<char> = Vec::new();
    let mut i: usize = 0;
    while i < n
        invariant
            n == s@.len(),
            i <= n,
            r@ == s@.subrange(0, i as int),
        decreases n - i,
    {
        r.push(s.get_char(i));
        i += 1;
        proof {
            assert(r@ =~= s@.subrange(0, i as int));
        }
    }
    proof {
        assert(r@ =~= s@);
    }
    r
}

/// Relies on `String::push`: appends exactly one character at the end.
#[verifier::external_body]
fn push_char(s: &mut String, c: char)
    ensures
        final(s)@ == old(s)@.push(c),
{
    s.push(c);
}

/// A freshly built string holding exactly the given characters.
pub fn string_of(v: &Vec<char>) -> (r: String)
    ensures
        r@ == v@,
{
    let mut r = String::new();
    let mut i: usize = 0;
    while i < v.len()
        invariant
            i <= v.len(),
            r@ == v@.subrange(0, i as int),
        decreases v.len() - i,
    {
        push_char(&mut r, v[i]);
        i += 1;
        proof {
            assert(r@ =~= v@.subrange(0, i as int));
        }
    }
    proof {
        assert(r@ =~= v@);
    }
    r
}

/// Appends the given characters and a final line feed to the string.
pub fn append_line(s: &mut String, line: &Vec<char>)
    ensures
        final(s)@ == old(s)@ + line@ + seq!['\n'],
{
    let ghost start = s@;
    let mut i: usize = 0;
    while i < line.len()
        invariant
            i <= line.len(),
            s@ == start + line@.subrange(0, i as int),
        decreases line.len() - i,
    {
        push_char(s, line[i]);
        i += 1;
        proof {
            assert(s@ =~= start + line@.subrange(0, i as int));
        }
    }
    push_char(s, '\n');
    proof {
        assert(s@ =~= start + line@ + seq!['\n']);
    }
}

/// The pattern occurs in `s` starting at position `i`.
pub open spec fn matches_at(s: Seq<char>, pat: Seq<char>, i: int) -> bool {
    &&& 0 <= i
    &&& i + pat.len() <= s.len()
    &&& forall|j: int| 0 <= j < pat.len() ==> s[i + j] == pat[j]
}

/// The pattern occurs somewhere in `s`.
pub open spec fn contains_pat(s: Seq<char>, pat: Seq<char>) -> bool {
    exists|i: int| matches_at(s, pat, i)
}

/// Substring search: whether `pat` occurs anywhere in `s`.
pub fn contains_chars(s: &Vec<char>, pat: &Vec<char>) -> (r: bool)
    ensures
        r == contains_pat(s@, pat@),
{
    let n = s.len();
    let m = pat.len();
    if m == 0 {
        proof {
            assert(matches_at(s@, pat@, 0));
        }
        return true;
    }
    if m > n {
        proof {
            assert forall|i: int| !matches_at(s@, pat@, i) by {}
        }
        return false;
    }
    let mut i: usize = 0;
    while i <= n - m
        invariant
            0 < m <= n,
            n == s@.len(),
            m == pat@.len(),
            i <= n - m + 1,
            forall|k: int| 0 <= k < i ==> !matches_at(s@, pat@, k),
        decreases n - m + 1 - i,
    {
        let mut j: usize = 0;
        while j < m && s[i + j] == pat[j]
            invariant
                0 < m <= n,
                n == s@.len(),
                m == pat@.len(),
                i + m <= n,
                j <= m,
                forall|t: int| 0 <= t < j ==> s@[i + t] == pat@[t],
            decreases m - j,
        {
            j += 1;
        }
        if j == m {
            proof {
                assert(matches_at(s@, pat@, i as int));
            }
            return true;
        }
        proof {
            assert(s@[i + j] != pat@[j as int]);
            assert(!matches_at(s@, pat@, i as int));
        }
        i += 1;
    }
    proof {
        assert forall|k: int| !matches_at(s@, pat@, k) by {
            if 0 <= k < i {
            } else if k > n - m {
                assert(!(k + pat@.len() <= s@.len()));
            }
        }
    }
    false
}

/// Length of the maximal non-whitespace prefix of `s`.
pub open spec fn token_len(s: Seq<char>) -> int
    decreases s.len(),
{
    if s.len() == 0 {
        0
    } else if is_space(s[0]) {
        0
    } else {
        1 + token_len(s.drop_first())
    }
}

pub proof fn lemma_token_len(s: Seq<char>)
    ensures
        0 <= token_len(s) <= s.len(),
        forall|k: int| 0 <= k < token_len(s) ==> !is_space(s[k]),
        token_len(s) < s.len() ==> is_space(s[token_len(s)]),
    decreases s.len(),
{
    if s.len() == 0 || is_space(s[0]) {
    } else {
        lemma_token_len(s.drop_first());
        assert forall|k: int| 0 <= k < token_len(s) implies !is_space(s[k]) by {
            if k >= 1 {
                assert(s.drop_first()[k - 1] == s[k]);
            }
        }
        if token_len(s) < s.len() {
            assert(s.drop_first()[token_len(s) - 1] == s[token_len(s)]);
        }
    }
}

/// The maximal non-whitespace prefix ends exactly where the scan says it does.
pub proof fn lemma_token_len_is(s: Seq<char>, j: int)
    requires
        0 <= j <= s.len(),
        forall|k: int| 0 <= k < j ==> !is_space(s[k]),
        j == s.len() || is_space(s[j]),
    ensures
        token_len(s) == j,
    decreases s.len(),
{
    if j == 0 {
    } else {
        let d = s.drop_first();
        assert forall|k: int| 0 <= k < j - 1 implies !is_space(d[k]) by {
            assert(d[k] == s[k + 1]);
        }
        if j < s.len() {
            assert(d[j - 1] == s[j]);
        }
        lemma_token_len_is(d, j - 1);
    }
}

/// The ordered sequence of maximal non-whitespace substrings of `s`.
pub open spec fn spec_tokens(s: Seq<char>) -> Seq<Seq<char>>
    decreases s.len(),
    via spec_tokens_decreases
{
    if s.len() == 0 {
        Seq::empty()
    } else if is_space(s[0]) {
        spec_tokens(s.drop_first())
    } else {
        let k = token_len(s);
        seq![s.subrange(0, k)] + spec_tokens(s.subrange(k, s.len() as int))
    }
}

#[via_fn]
proof fn spec_tokens_decreases(s: Seq<char>) {
    if s.len() > 0 && !is_space(s[0]) {
        lemma_token_len(s);
        lemma_token_len(s.drop_first());
    }
}

/// Splits a line into its whitespace-delimited tokens.
pub fn tokenize(line: &Vec<char>) -> (r: Vec<Vec<char>>)
    ensures
        char_seqs(r@) == spec_tokens(line@),
{
    let n = line.len();
    let mut toks: Vec<Vec<char>> = Vec::new();
    let mut i: usize = 0;
    proof {
        assert(line@.subrange(0, n as int) =~= line@);
        assert(char_seqs(toks@) + spec_tokens(line@) =~= spec_tokens(line@));
    }
    while i < n
        invariant
            n == line@.len(),
            i <= n,
            char_seqs(toks@) + spec_tokens(line@.subrange(i as int, n as int)) == spec_tokens(
                line@,
            ),
        decreases n - i,
    {
        if is_space_exec(line[i]) {
            proof {
                let rem = line@.subrange(i as int, n as int);
                assert(rem.drop_first() =~= line@.subrange(i as int + 1, n as int));
            }
            i += 1;
        } else {
            let mut j: usize = i + 1;
            while j < n && !is_space_exec(line[j])
                invariant
                    i < j <= n,
                    n == line@.len(),
                    forall|k: int| i < k < j ==> !is_space(line@[k]),
                decreases n - j,
            {
                j += 1;
            }
            let mut tok: Vec<char> = Vec::new();
            let mut k: usize = i;
            while k < j
                invariant
                    i <= k <= j <= n,
                    n == line@.len(),
                    tok@ == line@.subrange(i as int, k as int),
                decreases j - k,
            {
                tok.push(line[k]);
                k += 1;
                proof {
                    assert(tok@ =~= line@.subrange(i as int, k as int));
                }
            }
            proof {
                let rem = line@.subrange(i as int, n as int);
                assert forall|t: int| 0 <= t < j - i implies !is_space(rem[t]) by {
                    assert(rem[t] == line@[i + t]);
                }
                if j < n {
                    assert(rem[j - i] == line@[j as int]);
                }
                lemma_token_len_is(rem, j - i);
                assert(rem.subrange(0, j - i) =~= line@.subrange(i as int, j as int));
                assert(rem.subrange(j - i, rem.len() as int) =~= line@.subrange(
                    j as int,
                    n as int,
                ));
                let old_views = char_seqs(toks@);
                assert(char_seqs(toks@.push(tok)) =~= old_views + seq![tok@]);
                assert(old_views + (seq![tok@] + spec_tokens(line@.subrange(j as int, n as int)))
                    =~= (old_views + seq![tok@]) + spec_tokens(line@.subrange(j as int, n as int)));
            }
            toks.push(tok);
            i = j;
        }
    }
    proof {
        assert(line@.subrange(i as int, n as int) =~= Seq::<char>::empty());
        assert(char_seqs(toks@) + spec_tokens(Seq::<char>::empty()) =~= char_seqs(toks@));
    }
    toks
}

/// Index of the first occurrence of `pat` in `s`, or -1 if there is none.
pub open spec fn first_match(s: Seq<char>, pat: Seq<char>) -> int
    decreases s.len(),
{
    if matches_at(s, pat, 0) {
        0
    } else if s.len() == 0 {
        -1
    } else {
        let r = first_match(s.drop_first(), pat);
        if r < 0 {
            -1
        } else {
            1 + r
        }
    }
}

/// An occurrence one position further in is an occurrence of the remainder.
proof fn lemma_matches_at_shift(s: Seq<char>, pat: Seq<char>, i: int)
    requires
        s.len() > 0,
        i >= 1,
    ensures
        matches_at(s, pat, i) == matches_at(s.drop_first(), pat, i - 1),
{
    let d = s.drop_first();
    if matches_at(s, pat, i) {
        assert forall|j: int| 0 <= j < pat.len() implies d[i - 1 + j] == pat[j] by {
            assert(d[i - 1 + j] == s[i + j]);
        }
    }
    if matches_at(d, pat, i - 1) {
        assert forall|j: int| 0 <= j < pat.len() implies s[i + j] == pat[j] by {
            assert(d[i - 1 + j] == s[i + j]);
        }
    }
}

pub proof fn lemma_first_match(s: Seq<char>, pat: Seq<char>)
    ensures
        first_match(s, pat) == -1 ==> forall|i: int| !matches_at(s, pat, i),
        first_match(s, pat) != -1 ==> {
            &&& 0 <= first_match(s, pat)
            &&& first_match(s, pat) + pat.len() <= s.len()
            &&& matches_at(s, pat, first_match(s, pat))
            &&& forall|k: int| 0 <= k < first_match(s, pat) ==> !matches_at(s, pat, k)
        },
    decreases s.len(),
{
    if matches_at(s, pat, 0) {
    } else if s.len() == 0 {
        assert forall|i: int| !matches_at(s, pat, i) by {
            if matches_at(s, pat, i) {
                assert(i == 0);
            }
        }
    } else {
        let d = s.drop_first();
        lemma_first_match(d, pat);
        let r = first_match(d, pat);
        if r < 0 {
            assert forall|i: int| !matches_at(s, pat, i) by {
                if i >= 1 {
                    lemma_matches_at_shift(s, pat, i);
                }
            }
        } else {
            lemma_matches_at_shift(s, pat, 1 + r);
            assert forall|k: int| 0 <= k < 1 + r implies !matches_at(s, pat, k) by {
                if k >= 1 {
                    lemma_matches_at_shift(s, pat, k);
                }
            }
        }
    }
}

/// A position that matches, before which nothing matches, is the first match.
pub proof fn lemma_first_match_is(s: Seq<char>, pat: Seq<char>, i: int)
    requires
        matches_at(s, pat, i),
        forall|k: int| 0 <= k < i ==> !matches_at(s, pat, k),
    ensures
        first_match(s, pat) == i,
{
    lemma_first_match(s, pat);
    let f = first_match(s, pat);
    if f == -1 {
        assert(!matches_at(s, pat, i));
    } else if f < i {
        assert(!matches_at(s, pat, f));
    } else if f > i {
        assert(!matches_at(s, pat, i));
    }
}

/// `s` with every occurrence of `pat` removed, repeatedly, so that the
/// result holds no occurrence at all.
pub open spec fn strip_all(s: Seq<char>, pat: Seq<char>) -> Seq<char>
    decreases s.len(),
    via strip_all_decreases
{
    if pat.len() == 0 {
        s
    } else {
        let i = first_match(s, pat);
        if i < 0 {
            s
        } else {
            strip_all(s.subrange(0, i) + s.subrange(i + pat.len(), s.len() as int), pat)
        }
    }
}

#[via_fn]
proof fn strip_all_decreases(s: Seq<char>, pat: Seq<char>) {
    if pat.len() > 0 {
        lemma_first_match(s, pat);
    }
}

/// What remains after stripping holds no occurrence of the pattern.
pub proof fn lemma_strip_all_no_match(s: Seq<char>, pat: Seq<char>)
    requires
        pat.len() > 0,
    ensures
        !contains_pat(strip_all(s, pat), pat),
    decreases s.len(),
{
    lemma_first_match(s, pat);
    let i = first_match(s, pat);
    if i < 0 {
        assert(!contains_pat(s, pat));
    } else {
        lemma_strip_all_no_match(s.subrange(0, i) + s.subrange(i + pat.len(), s.len() as int), pat);
    }
}

/// Finds the first occurrence of `pat` in `s`.
fn find_first(s: &Vec<char>, pat: &Vec<char>) -> (r: Option<usize>)
    requires
        pat@.len() > 0,
    ensures
        match r {
            Some(i) => i == first_match(s@, pat@),
            None => first_match(s@, pat@) == -1,
        },
{
    let n = s.len();
    let m = pat.len();
    if m > n {
        proof {
            assert forall|i: int| !matches_at(s@, pat@, i) by {}
            lemma_first_match(s@, pat@);
            if first_match(s@, pat@) != -1 {
                assert(matches_at(s@, pat@, first_match(s@, pat@)));
            }
        }
        return None;
    }
    let mut i: usize = 0;
    while i <= n - m
        invariant
            0 < m <= n,
            n == s@.len(),
            m == pat@.len(),
            i <= n - m + 1,
            forall|k: int| 0 <= k < i ==> !matches_at(s@, pat@, k),
        decreases n - m + 1 - i,
    {
        let mut j: usize = 0;
        while j < m && s[i + j] == pat[j]
            invariant
                0 < m <= n,
                n == s@.len(),
                m == pat@.len(),
                i + m <= n,
                j <= m,
                forall|t: int| 0 <= t < j ==> s@[i + t] == pat@[t],
            decreases m - j,
        {
            j += 1;
        }
        if j == m {
            proof {
                assert(matches_at(s@, pat@, i as int));
                lemma_first_match_is(s@, pat@, i as int);
            }
            return Some(i);
        }
        proof {
            assert(s@[i + j] != pat@[j as int]);
            assert(!matches_at(s@, pat@, i as int));
        }
        i += 1;
    }
    proof {
        assert forall|k: int| !matches_at(s@, pat@, k) by {
            if 0 <= k < i {
            } else if k > n - m {
                assert(!(k + pat@.len() <= s@.len()));
            }
        }
        lemma_first_match(s@, pat@);
        if first_match(s@, pat@) != -1 {
            assert(matches_at(s@, pat@, first_match(s@, pat@)));
        }
    }
    None
}

/// Removes every occurrence of `pat` from `s`, repeatedly, so that the
/// result never holds the pattern.
pub fn strip_pattern(s: &Vec<char>, pat: &Vec<char>) -> (r: Vec<char>)
    requires
        pat@.len() > 0,
    ensures
        r@ == strip_all(s@, pat@),
{
    let mut cur: Vec<char> = Vec::new();
    let mut c: usize = 0;
    while c < s.len()
        invariant
            c <= s@.len(),
            cur@ == s@.subrange(0, c as int),
        decreases s.len() - c,
    {
        cur.push(s[c]);
        c += 1;
        proof {
            assert(cur@ =~= s@.subrange(0, c as int));
        }
    }
    proof {
        assert(cur@ =~= s@);
    }
    loop
        invariant
            pat@.len() > 0,
            strip_all(cur@, pat@) == strip_all(s@, pat@),
        decreases cur@.len(),
    {
        let found = find_first(&cur, pat);
        match found {
            None => {
                return cur;
            },
            Some(i) => {
                let clen: usize = cur.len();
                let plen: usize = pat.len();
                proof {
                    lemma_first_match(cur@, pat@);
                    assert(i + plen <= clen);
                }
                let mut next: Vec<char> = Vec::new();
                let mut k: usize = 0;
                while k < i
                    invariant
                        k <= i,
                        i + pat@.len() <= cur@.len(),
                        next@ == cur@.subrange(0, k as int),
                    decreases i - k,
                {
                    next.push(cur[k]);
                    k += 1;
                    proof {
                        assert(next@ =~= cur@.subrange(0, k as int));
                    }
                }
                let mut k2: usize = i + plen;
                while k2 < cur.len()
                    invariant
                        i + pat@.len() <= k2 <= cur@.len(),
                        next@ == cur@.subrange(0, i as int) + cur@.subrange(
                            i + pat@.len(),
                            k2 as int,
                        ),
                    decreases cur.len() - k2,
                {
                    next.push(cur[k2]);
                    k2 += 1;
                    proof {
                        assert(next@ =~= cur@.subrange(0, i as int) + cur@.subrange(
                            i + pat@.len(),
                            k2 as int,
                        ));
                    }
                }
                proof {
                    assert(next@ =~= cur@.subrange(0, i as int) + cur@.subrange(
                        i + pat@.len(),
                        cur@.len() as int,
                    ));
                }
                cur = next;
            },
        }
    }
}

/// Distance from the start of `s` to its first line feed, or its length.
pub open spec fn line_len(s: Seq<char>) -> int
    decreases s.len(),
{
    if s.len() == 0 {
        0
    } else if s[0] == '\n' {
        0
    } else {
        1 + line_len(s.drop_first())
    }
}

pub proof fn lemma_line_len(s: Seq<char>)
    ensures
        0 <= line_len(s) <= s.len(),
        line_len(s) < s.len() ==> s[line_len(s)] == '\n',
    decreases s.len(),
{
    if s.len() == 0 || s[0] == '\n' {
    } else {
        lemma_line_len(s.drop_first());
        if line_len(s) < s.len() {
            assert(s.drop_first()[line_len(s) - 1] == s[line_len(s)]);
        }
    }
}

/// The first line ends exactly where the scan says it does.
pub proof fn lemma_line_len_is(s: Seq<char>, j: int)
    requires
        0 <= j <= s.len(),
        forall|k: int| 0 <= k < j ==> s[k] != '\n',
        j == s.len() || s[j] == '\n',
    ensures
        line_len(s) == j,
    decreases s.len(),
{
    if j == 0 {
    } else {
        let d = s.drop_first();
        assert forall|k: int| 0 <= k < j - 1 implies d[k] != '\n' by {
            assert(d[k] == s[k + 1]);
        }
        if j < s.len() {
            assert(d[j - 1] == s[j]);
        }
        lemma_line_len_is(d, j - 1);
    }
}

/// Removes one trailing carriage return, if present.
pub open spec fn strip_cr(s: Seq<char>) -> Seq<char> {
    if s.len() > 0 && s[s.len() - 1] == '\r' {
        s.drop_last()
    } else {
        s
    }
}

/// The lines of the document: split at line feeds, each line without its
/// trailing carriage return; a final empty segment is not a line.
pub open spec fn spec_lines(s: Seq<char>) -> Seq<Seq<char>>
    decreases s.len(),
    via spec_lines_decreases
{
    if s.len() == 0 {
        Seq::empty()
    } else {
        let k = line_len(s);
        let head = strip_cr(s.subrange(0, k));
        let rest = if k < s.len() {
            spec_lines(s.subrange(k + 1, s.len() as int))
        } else {
            Seq::empty()
        };
        seq![head] + rest
    }
}

#[via_fn]
proof fn spec_lines_decreases(s: Seq<char>) {
    if s.len() > 0 {
        lemma_line_len(s);
    }
}

/// Splits a document into its lines.
pub fn split_lines(s: &Vec<char>) -> (r: Vec<Vec<char>>)
    ensures
        char_seqs(r@) == spec_lines(s@),
{
    let n = s.len();
    let mut lines: Vec<Vec<char>> = Vec::new();
    let mut i: usize = 0;
    proof {
        assert(s@.subrange(0, n as int) =~= s@);
        assert(char_seqs(lines@) + spec_lines(s@) =~= spec_lines(s@));
    }
    while i < n
        invariant
            n == s@.len(),
            i <= n,
            char_seqs(lines@) + spec_lines(s@.subrange(i as int, n as int)) == spec_lines(s@),
        decreases n - i,
    {
        let mut j: usize = i;
        while j < n && s[j] != '\n'
            invariant
                i <= j <= n,
                n == s@.len(),
                forall|k: int| i <= k < j ==> s@[k] != '\n',
            decreases n - j,
        {
            j += 1;
        }
        let end: usize = if j > i && s[j - 1] == '\r' {
            j - 1
        } else {
            j
        };
        let mut ln: Vec<char> = Vec::new();
        let mut k: usize = i;
        while k < end
            invariant
                i <= k <= end <= n,
                n == s@.len(),
                ln@ == s@.subrange(i as int, k as int),
            decreases end - k,
        {
            ln.push(s[k]);
            k += 1;
            proof {
                assert(ln@ =~= s@.subrange(i as int, k as int));
            }
        }
        proof {
            let rem = s@.subrange(i as int, n as int);
            assert forall|t: int| 0 <= t < j - i implies rem[t] != '\n' by {
                assert(rem[t] == s@[i + t]);
            }
            if j < n {
                assert(rem[j - i] == s@[j as int]);
            }
            lemma_line_len_is(rem, j - i);
            let seg = rem.subrange(0, j - i);
            assert(seg =~= s@.subrange(i as int, j as int));
            if j > i && s@[j - 1] == '\r' {
                assert(seg[seg.len() - 1] == s@[j - 1]);
                assert(strip_cr(seg) =~= s@.subrange(i as int, end as int));
            } else {
                if seg.len() > 0 {
                    assert(seg[seg.len() - 1] == s@[j - 1]);
                }
                assert(strip_cr(seg) =~= s@.subrange(i as int, end as int));
            }
            assert(ln@ == strip_cr(seg));
            let old_views = char_seqs(lines@);
            assert(char_seqs(lines@.push(ln)) =~= old_views + seq![ln@]);
            if j < n {
                assert(rem.subrange(j - i + 1, rem.len() as int) =~= s@.subrange(
                    j + 1,
                    n as int,
                ));
                assert(old_views + (seq![ln@] + spec_lines(s@.subrange(j + 1, n as int))) =~= (
                old_views + seq![ln@]) + spec_lines(s@.subrange(j + 1, n as int)));
            } else {
                assert(spec_lines(rem) =~= seq![ln@]);
                assert(old_views + seq![ln@] =~= char_seqs(lines@.push(ln)));
            }
        }
        lines.push(ln);
        if j < n {
            i = j + 1;
        } else {
            i = j;
        }
    }
    proof {
        assert(s@.subrange(i as int, n as int) =~= Seq::<char>::empty());
        assert(char_seqs(lines@) + spec_lines(Seq::<char>::empty()) =~= char_seqs(lines@));
    }
    lines
}

} // verus!
