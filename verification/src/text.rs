//! Character-level text handling shared by the rest of the library: strings
//! are read into `Vec<char>` and all matching, splitting and parsing is done
//! on characters, with its meaning stated over `Seq<char>`.
use vstd::prelude::*;
use vstd::string::*;

verus! {

/// `String::push` appends one character.
pub assume_specification[ String::push ](s: &mut String, ch: char)
    ensures
        final(s)@ == old(s)@.push(ch),
;

/// The characters of `s`, in order.
pub fn chars_of(s: &str) -> (v: Vec<char>)
    ensures
        v@ == s@,
{
    let mut v: Vec<char> = Vec::new();
    for c in it: s.chars()
        invariant
            v@ == it.seq().take(it.index() as int),
    {
        v.push(c);
    }
    v
}

/// A string holding exactly the characters `v`.
pub fn string_of(v: &[char]) -> (s: String)
    ensures
        s@ == v@,
{
    let mut s = String::new();
    let mut i: usize = 0;
    while i < v.len()
        invariant
            i <= v@.len(),
            s@ == v@.take(i as int),
        decreases v@.len() - i,
    {
        s.push(v[i]);
        i = i + 1;
        assert(s@ =~= v@.take(i as int));
    }
    assert(v@.take(v@.len() as int) =~= v@);
    s
}


/// `pat` occurs in `s` starting at index `i`.
pub open spec fn occurs_at(s: Seq<char>, pat: Seq<char>, i: int) -> bool {
    &&& 0 <= i
    &&& i + pat.len() <= s.len()
    &&& s.subrange(i, i + pat.len()) == pat
}

/// `pat` occurs somewhere in `s`.
pub open spec fn contains_seq(s: Seq<char>, pat: Seq<char>) -> bool {
    exists|i: int| occurs_at(s, pat, i)
}

/// `s` begins with `pat`.
pub open spec fn starts_with(s: Seq<char>, pat: Seq<char>) -> bool {
    occurs_at(s, pat, 0)
}

/// `s` ends with `pat`.
pub open spec fn ends_with(s: Seq<char>, pat: Seq<char>) -> bool {
    occurs_at(s, pat, s.len() - pat.len())
}

/// Index of the first occurrence of `pat` in `s`, if any.
pub open spec fn find_seq(s: Seq<char>, pat: Seq<char>) -> Option<int>
    decreases s.len(),
{
    if starts_with(s, pat) {
        Some(0)
    } else if s.len() == 0 {
        None
    } else {
        match find_seq(s.drop_first(), pat) {
            Some(i) => Some(i + 1),
            None => None,
        }
    }
}

/// Index of the first occurrence of the character `c` in `s`, if any.
pub open spec fn index_of(s: Seq<char>, c: char) -> Option<int> {
    find_seq(s, seq![c])
}

proof fn lemma_occurs_shift(s: Seq<char>, pat: Seq<char>, i: int)
    requires
        s.len() > 0,
    ensures
        occurs_at(s.drop_first(), pat, i) <==> (0 <= i && occurs_at(s, pat, i + 1)),
{
    if 0 <= i && i + pat.len() <= s.drop_first().len() {
        assert(s.drop_first().subrange(i, i + pat.len()) =~= s.subrange(i + 1, i + 1 + pat.len()));
    }
}

/// `find_seq` gives the first occurrence.
pub proof fn lemma_find_seq(s: Seq<char>, pat: Seq<char>)
    ensures
        match find_seq(s, pat) {
            Some(i) => occurs_at(s, pat, i) && forall|j: int| 0 <= j < i ==> !occurs_at(s, pat, j),
            None => forall|j: int| !occurs_at(s, pat, j),
        },
    decreases s.len(),
{
    if starts_with(s, pat) {
    } else if s.len() == 0 {
        assert forall|j: int| !occurs_at(s, pat, j) by {
            if occurs_at(s, pat, j) {
                assert(j == 0);
            }
        }
    } else {
        lemma_find_seq(s.drop_first(), pat);
        assert forall|j: int| #![trigger occurs_at(s, pat, j)] occurs_at(s, pat, j) && j >= 1 ==> occurs_at(s.drop_first(), pat, j - 1) by {
            lemma_occurs_shift(s, pat, j - 1);
        }
        match find_seq(s.drop_first(), pat) {
            Some(i) => {
                lemma_occurs_shift(s, pat, i);
            },
            None => {},
        }
    }
}

/// Index of the first occurrence of `pat` in `s`.
pub fn find(s: &[char], pat: &[char]) -> (r: Option<usize>)
    ensures
        match r {
            Some(i) => find_seq(s@, pat@) == Some(i as int),
            None => find_seq(s@, pat@) is None,
        },
{
    proof {
        lemma_find_seq(s@, pat@);
    }
    if pat.len() > s.len() {
        return None;
    }
    let last = s.len() - pat.len();
    let mut i: usize = 0;
    loop
        invariant
            last == s.len() - pat.len(),
            i <= last,
            forall|j: int| 0 <= j < i ==> !occurs_at(s@, pat@, j),
        decreases last - i,
    {
        if matches_at(s, pat, i) {
            proof {
                lemma_find_seq(s@, pat@);
                if find_seq(s@, pat@) is Some {
                    let k = find_seq(s@, pat@)->0;
                    assert(k == i);
                }
            }
            return Some(i);
        }
        if i == last {
            proof {
                lemma_find_seq(s@, pat@);
                if find_seq(s@, pat@) is Some {
                    let k = find_seq(s@, pat@)->0;
                    assert(occurs_at(s@, pat@, k));
                    assert(false);
                }
            }
            return None;
        }
        i = i + 1;
    }
}

/// Whether `pat` occurs in `s` at index `i`.
pub fn matches_at(s: &[char], pat: &[char], i: usize) -> (b: bool)
    ensures
        b == occurs_at(s@, pat@, i as int),
{
    if i > s.len() || pat.len() > s.len() - i {
        return false;
    }
    let mut k: usize = 0;
    while k < pat.len()
        invariant
            i + pat.len() <= s.len(),
            k <= pat.len(),
            forall|m: int| 0 <= m < k ==> s@[i + m] == pat@[m],
        decreases pat.len() - k,
    {
        if s[i + k] != pat[k] {
            assert(s@.subrange(i as int, i + pat.len())[k as int] != pat@[k as int]);
            return false;
        }
        k = k + 1;
    }
    assert(s@.subrange(i as int, i + pat.len()) =~= pat@);
    true
}

/// Whether `pat` occurs in `s`.
pub fn contains(s: &[char], pat: &[char]) -> (b: bool)
    ensures
        b == contains_seq(s@, pat@),
{
    proof {
        lemma_find_seq(s@, pat@);
    }
    let r = find(s, pat);
    r.is_some()
}

/// Whether `s` begins with `pat`.
pub fn has_prefix(s: &[char], pat: &[char]) -> (b: bool)
    ensures
        b == starts_with(s@, pat@),
{
    matches_at(s, pat, 0)
}

/// Whether `s` ends with `pat`.
pub fn has_suffix(s: &[char], pat: &[char]) -> (b: bool)
    ensures
        b == ends_with(s@, pat@),
{
    if pat.len() > s.len() {
        false
    } else {
        matches_at(s, pat, s.len() - pat.len())
    }
}


/// Appends all of `src` to `out`.
pub fn push_all(out: &mut Vec<char>, src: &[char])
    ensures
        final(out)@ == old(out)@ + src@,
{
    let mut k: usize = 0;
    while k < src.len()
        invariant
            k <= src@.len(),
            out@ == old(out)@ + src@.take(k as int),
        decreases src@.len() - k,
    {
        out.push(src[k]);
        k = k + 1;
        assert(out@ =~= old(out)@ + src@.take(k as int));
    }
    assert(src@.take(src@.len() as int) =~= src@);
}

/// `s` with every occurrence of `pat` replaced by `rep`, occurrences being
/// taken left to right without overlap (the meaning of `str::replace`).
pub open spec fn replace_all(s: Seq<char>, pat: Seq<char>, rep: Seq<char>) -> Seq<char>
    decreases s.len(),
{
    if s.len() == 0 || pat.len() == 0 {
        s
    } else if starts_with(s, pat) {
        rep + replace_all(s.skip(pat.len() as int), pat, rep)
    } else {
        seq![s[0]] + replace_all(s.drop_first(), pat, rep)
    }
}

pub proof fn lemma_occurs_skip(s: Seq<char>, pat: Seq<char>, i: int)
    requires
        0 <= i <= s.len(),
    ensures
        occurs_at(s, pat, i) == starts_with(s.skip(i), pat),
{
    if i + pat.len() <= s.len() {
        assert(s.skip(i).subrange(0, pat.len() as int) =~= s.subrange(i, i + pat.len()));
    }
}

/// `s` with every occurrence of the non-empty pattern `pat` replaced by `rep`.
pub fn replace(s: &[char], pat: &[char], rep: &[char]) -> (r: Vec<char>)
    requires
        pat@.len() > 0,
    ensures
        r@ == replace_all(s@, pat@, rep@),
{
    let mut out: Vec<char> = Vec::new();
    let mut i: usize = 0;
    proof {
        assert(s@.skip(0) =~= s@);
        assert(out@ + replace_all(s@, pat@, rep@) =~= replace_all(s@, pat@, rep@));
    }
    while i < s.len()
        invariant
            pat@.len() > 0,
            i <= s@.len(),
            out@ + replace_all(s@.skip(i as int), pat@, rep@) == replace_all(s@, pat@, rep@),
        decreases s@.len() - i,
    {
        let ghost rest = s@.skip(i as int);
        proof {
            lemma_occurs_skip(s@, pat@, i as int);
        }
        let ghost before = out@;
        if matches_at(s, pat, i) {
            push_all(&mut out, rep);
            proof {
                let tail = replace_all(s@.skip(i + pat@.len()), pat@, rep@);
                assert(rest.skip(pat@.len() as int) =~= s@.skip(i + pat@.len()));
                assert(out@ + tail =~= before + (rep@ + tail));
            }
            i = i + pat.len();
        } else {
            out.push(s[i]);
            proof {
                let tail = replace_all(s@.skip(i + 1), pat@, rep@);
                assert(rest.drop_first() =~= s@.skip(i + 1));
                assert(out@ + tail =~= before + (seq![rest[0]] + tail));
            }
            i = i + 1;
        }
    }
    proof {
        assert(s@.skip(i as int) =~= Seq::<char>::empty());
    }
    out
}


/// The characters `s[a..b]` as a new vector.
pub fn slice_of(s: &[char], a: usize, b: usize) -> (r: Vec<char>)
    requires
        a <= b <= s@.len(),
    ensures
        r@ == s@.subrange(a as int, b as int),
{
    let mut r: Vec<char> = Vec::new();
    let mut k: usize = a;
    while k < b
        invariant
            a <= k <= b <= s@.len(),
            r@ == s@.subrange(a as int, k as int),
        decreases b - k,
    {
        r.push(s[k]);
        k = k + 1;
        assert(r@ =~= s@.subrange(a as int, k as int));
    }
    r
}

/// `index_of` finds the first position holding `c`.
pub proof fn lemma_index_of(s: Seq<char>, c: char)
    ensures
        match index_of(s, c) {
            Some(i) => 0 <= i < s.len() && s[i] == c && forall|j: int| 0 <= j < i ==> s[j] != c,
            None => forall|j: int| 0 <= j < s.len() ==> s[j] != c,
        },
{
    lemma_find_seq(s, seq![c]);
    assert forall|j: int| 0 <= j < s.len() implies (occurs_at(s, seq![c], j) <==> s[j] == c) by {
        if s[j] == c {
            assert(s.subrange(j, j + 1) =~= seq![c]);
        }
        if occurs_at(s, seq![c], j) {
            assert(s.subrange(j, j + 1)[0] == s[j]);
        }
    }
}

/// First position at or after `start` that holds `c`.
pub fn find_char_from(s: &[char], c: char, start: usize) -> (r: Option<usize>)
    requires
        start <= s@.len(),
    ensures
        match r {
            Some(i) => start <= i && index_of(s@.skip(start as int), c) == Some(i - start),
            None => index_of(s@.skip(start as int), c) is None,
        },
{
    let ghost t = s@.skip(start as int);
    let mut i: usize = start;
    while i < s.len()
        invariant
            start <= i <= s@.len(),
            t == s@.skip(start as int),
            forall|j: int| start <= j < i ==> s@[j] != c,
        decreases s@.len() - i,
    {
        if s[i] == c {
            proof {
                lemma_index_of(t, c);
                match index_of(t, c) {
                    Some(k) => {
                        assert(t[i - start] == c);
                        assert(t[k] == s@[start + k]);
                    },
                    None => {
                        assert(t[i - start] == c);
                    },
                }
            }
            return Some(i);
        }
        i = i + 1;
    }
    proof {
        lemma_index_of(t, c);
        match index_of(t, c) {
            Some(k) => {
                assert(t[k] == s@[start + k]);
            },
            None => {},
        }
    }
    None
}

/// The part before the first `c` and the part after it (`str::split_once`).
pub open spec fn split_once_spec(s: Seq<char>, c: char) -> Option<(Seq<char>, Seq<char>)> {
    match index_of(s, c) {
        Some(i) => Some((s.take(i), s.skip(i + 1))),
        None => None,
    }
}

/// Splits `s` at the first `c`.
pub fn split_once(s: &[char], c: char) -> (r: Option<(Vec<char>, Vec<char>)>)
    ensures
        match r {
            Some((a, b)) => split_once_spec(s@, c) == Some((a@, b@)),
            None => split_once_spec(s@, c) is None,
        },
{
    proof {
        assert(s@.skip(0) =~= s@);
        lemma_index_of(s@, c);
    }
    match find_char_from(s, c, 0) {
        Some(i) => {
            proof {
                lemma_index_of(s@.skip(0), c);
                assert(index_of(s@.skip(0), c) == Some(i as int));
                assert(i < s@.skip(0).len());
                assert(s@.skip(0).len() == s@.len());
                assert(i < s.len());
            }
            let a = slice_of(s, 0, i);
            let b = slice_of(s, i + 1, s.len());
            assert(a@ =~= s@.take(i as int));
            assert(b@ =~= s@.skip(i + 1));
            Some((a, b))
        },
        None => None,
    }
}

/// The Unicode `White_Space` characters, which `char::is_whitespace`,
/// `str::trim` and `str::split_whitespace` go by.
pub open spec fn is_whitespace(c: char) -> bool {
    let n = c as u32;
    ||| 0x09 <= n <= 0x0d
    ||| n == 0x20
    ||| n == 0x85
    ||| n == 0xa0
    ||| n == 0x1680
    ||| 0x2000 <= n <= 0x200a
    ||| n == 0x2028
    ||| n == 0x2029
    ||| n == 0x202f
    ||| n == 0x205f
    ||| n == 0x3000
}

/// Whether `c` is Unicode white space.
pub fn whitespace(c: char) -> (b: bool)
    ensures
        b == is_whitespace(c),
{
    let n = c as u32;
    (0x09 <= n && n <= 0x0d) || n == 0x20 || n == 0x85 || n == 0xa0 || n == 0x1680 || (0x2000
        <= n && n <= 0x200a) || n == 0x2028 || n == 0x2029 || n == 0x202f || n == 0x205f || n
        == 0x3000
}

/// `s` without its leading white space.
pub open spec fn trim_start(s: Seq<char>) -> Seq<char>
    decreases s.len(),
{
    if s.len() > 0 && is_whitespace(s[0]) {
        trim_start(s.drop_first())
    } else {
        s
    }
}

/// `s` without its trailing white space.
pub open spec fn trim_end(s: Seq<char>) -> Seq<char>
    decreases s.len(),
{
    if s.len() > 0 && is_whitespace(s.last()) {
        trim_end(s.drop_last())
    } else {
        s
    }
}

/// `s` without leading and trailing white space (`str::trim`).
pub open spec fn trim(s: Seq<char>) -> Seq<char> {
    trim_end(trim_start(s))
}

/// Index of the first character of `s[start..]` that is not white space
/// (or the length of `s`), with `trim_start` of the rest.
fn skip_whitespace(s: &[char], start: usize) -> (r: usize)
    requires
        start <= s@.len(),
    ensures
        start <= r <= s@.len(),
        trim_start(s@.skip(start as int)) == s@.skip(r as int),
{
    let mut i = start;
    while i < s.len() && whitespace(s[i])
        invariant
            start <= i <= s@.len(),
            trim_start(s@.skip(start as int)) == trim_start(s@.skip(i as int)),
        decreases s@.len() - i,
    {
        assert(s@.skip(i as int).drop_first() =~= s@.skip(i + 1));
        i = i + 1;
    }
    i
}

/// `s` without leading white space.
pub fn trimmed_start(s: &[char]) -> (r: Vec<char>)
    ensures
        r@ == trim_start(s@),
{
    assert(s@.skip(0) =~= s@);
    let a = skip_whitespace(s, 0);
    let r = slice_of(s, a, s.len());
    assert(r@ =~= s@.skip(a as int));
    r
}

/// `s` without trailing white space.
pub fn trimmed_end(s: &[char]) -> (r: Vec<char>)
    ensures
        r@ == trim_end(s@),
{
    let mut j = s.len();
    assert(s@.take(j as int) =~= s@);
    while j > 0 && whitespace(s[j - 1])
        invariant
            j <= s@.len(),
            trim_end(s@) == trim_end(s@.take(j as int)),
        decreases j,
    {
        assert(s@.take(j as int).drop_last() =~= s@.take(j - 1));
        j = j - 1;
    }
    let r = slice_of(s, 0, j);
    assert(r@ =~= s@.take(j as int));
    r
}

/// `s` without leading and trailing white space.
pub fn trimmed(s: &[char]) -> (r: Vec<char>)
    ensures
        r@ == trim(s@),
{
    let t = trimmed_start(s);
    trimmed_end(&t)
}

/// A line as `str::lines` yields it: without its `\r` if it had one.
pub open spec fn strip_cr(line: Seq<char>) -> Seq<char> {
    if line.len() > 0 && line.last() == '\r' {
        line.drop_last()
    } else {
        line
    }
}

/// The lines of `s` (`str::lines`): split at each `\n`, a `\r` right before
/// it dropped, no empty line after a final `\n`, and a last line without `\n`
/// kept as it is.
pub open spec fn lines_of(s: Seq<char>) -> Seq<Seq<char>>
    decreases s.len(),
{
    if s.len() == 0 {
        seq![]
    } else {
        match index_of(s, '\n') {
            Some(i) => {
                proof {
                    lemma_index_of(s, '\n');
                }
                seq![strip_cr(s.take(i))] + lines_of(s.skip(i + 1))
            },
            None => seq![s],
        }
    }
}

/// `line` without one trailing `\r`.
fn stripped_cr(line: Vec<char>) -> (r: Vec<char>)
    ensures
        r@ == strip_cr(line@),
{
    let mut line = line;
    let ghost before = line@;
    if line.len() > 0 && line[line.len() - 1] == '\r' {
        line.pop();
        assert(line@ =~= before.drop_last());
    }
    line
}

/// The lines of `s`.
pub fn lines(s: &[char]) -> (r: Vec<Vec<char>>)
    ensures
        r@.len() == lines_of(s@).len(),
        forall|k: int| 0 <= k < r@.len() ==> (#[trigger] r@[k])@ == lines_of(s@)[k],
{
    let mut out: Vec<Vec<char>> = Vec::new();
    let mut pos: usize = 0;
    assert(s@.skip(0) =~= s@);
    while pos < s.len()
        invariant
            pos <= s@.len(),
            out@.len() + lines_of(s@.skip(pos as int)).len() == lines_of(s@).len(),
            forall|k: int| 0 <= k < out@.len() ==> (#[trigger] out@[k])@ == lines_of(s@)[k],
            forall|k: int|
                0 <= k < lines_of(s@.skip(pos as int)).len() ==> lines_of(s@.skip(pos as int))[k]
                    == lines_of(s@)[out@.len() + k],
        decreases s@.len() - pos,
    {
        let ghost rest = s@.skip(pos as int);
        proof {
            lemma_index_of(rest, '\n');
        }
        match find_char_from(s, '\n', pos) {
            Some(i) => {
                let line = slice_of(s, pos, i);
                let line = stripped_cr(line);
                let ghost old_out = out@;
                proof {
                    assert(s@.subrange(pos as int, i as int) =~= rest.take(i - pos));
                    assert(rest.skip(i - pos + 1) =~= s@.skip(i + 1));
                    assert(lines_of(rest) == seq![line@] + lines_of(s@.skip(i + 1)));
                }
                out.push(line);
                pos = i + 1;
                proof {
                    assert forall|k: int| 0 <= k < out@.len() implies (#[trigger] out@[k])@
                        == lines_of(s@)[k] by {
                        if k < old_out.len() {
                            assert(out@[k] == old_out[k]);
                        } else {
                            assert(lines_of(rest)[0] == lines_of(s@)[old_out.len() as int]);
                        }
                    }
                    assert forall|k: int| 0 <= k < lines_of(s@.skip(pos as int)).len() implies
                        lines_of(s@.skip(pos as int))[k] == lines_of(s@)[out@.len() + k] by {
                        assert(lines_of(rest)[k + 1] == lines_of(s@)[old_out.len() + (k + 1)]);
                    }
                }
            },
            None => {
                let line = slice_of(s, pos, s.len());
                let ghost old_out = out@;
                proof {
                    assert(line@ =~= rest);
                    assert(lines_of(rest) == seq![rest]);
                    assert(lines_of(rest)[0] == lines_of(s@)[old_out.len() as int]);
                }
                out.push(line);
                proof {
                    assert forall|k: int| 0 <= k < out@.len() implies (#[trigger] out@[k])@
                        == lines_of(s@)[k] by {
                        if k < old_out.len() {
                            assert(out@[k] == old_out[k]);
                        }
                    }
                }
                pos = s.len();
                proof {
                    assert(s@.skip(pos as int) =~= Seq::<char>::empty());
                }
            },
        }
    }
    proof {
        assert(s@.skip(pos as int) =~= Seq::<char>::empty());
    }
    out
}


/// Number of leading characters of `t` that are not white space.
pub open spec fn word_len(t: Seq<char>) -> nat
    decreases t.len(),
{
    if t.len() == 0 || is_whitespace(t[0]) {
        0
    } else {
        1 + word_len(t.drop_first())
    }
}

pub proof fn lemma_trim_start(s: Seq<char>)
    ensures
        trim_start(s).len() <= s.len(),
        trim_start(s) == s.skip(s.len() - trim_start(s).len()),
        trim_start(s).len() > 0 ==> !is_whitespace(trim_start(s)[0]),
    decreases s.len(),
{
    if s.len() > 0 && is_whitespace(s[0]) {
        lemma_trim_start(s.drop_first());
        assert(s.drop_first().skip(s.drop_first().len() - trim_start(s).len()) =~= s.skip(
            s.len() - trim_start(s).len(),
        ));
    } else {
        assert(s.skip(0) =~= s);
    }
}

pub proof fn lemma_word_len(t: Seq<char>)
    ensures
        word_len(t) <= t.len(),
        forall|i: int| 0 <= i < word_len(t) ==> !is_whitespace(#[trigger] t[i]),
        word_len(t) < t.len() ==> is_whitespace(t[word_len(t) as int]),
    decreases t.len(),
{
    if t.len() > 0 && !is_whitespace(t[0]) {
        lemma_word_len(t.drop_first());
        assert forall|i: int| 0 <= i < word_len(t) implies !is_whitespace(#[trigger] t[i]) by {
            if i > 0 {
                assert(t[i] == t.drop_first()[i - 1]);
            }
        }
    }
}

/// The white-space separated words of `s` (`str::split_whitespace`).
pub open spec fn words(s: Seq<char>) -> Seq<Seq<char>>
    decreases s.len(),
{
    let t = trim_start(s);
    proof {
        lemma_trim_start(s);
        lemma_word_len(t);
    }
    if t.len() == 0 {
        seq![]
    } else {
        seq![t.take(word_len(t) as int)] + words(t.skip(word_len(t) as int))
    }
}

/// The white-space separated words of `s`.
pub fn split_words(s: &[char]) -> (r: Vec<Vec<char>>)
    ensures
        r@.len() == words(s@).len(),
        forall|k: int| 0 <= k < r@.len() ==> (#[trigger] r@[k])@ == words(s@)[k],
{
    let mut out: Vec<Vec<char>> = Vec::new();
    let mut pos: usize = 0;
    assert(s@.skip(0) =~= s@);
    loop
        invariant
            pos <= s@.len(),
            out@.len() + words(s@.skip(pos as int)).len() == words(s@).len(),
            forall|k: int| 0 <= k < out@.len() ==> (#[trigger] out@[k])@ == words(s@)[k],
            forall|k: int|
                0 <= k < words(s@.skip(pos as int)).len() ==> words(s@.skip(pos as int))[k]
                    == words(s@)[out@.len() + k],
        decreases s@.len() - pos,
    {
        let ghost rest = s@.skip(pos as int);
        let a = skip_whitespace(s, pos);
        let ghost t = s@.skip(a as int);
        if a == s.len() {
            proof {
                assert(t =~= Seq::<char>::empty());
                assert(words(rest) == Seq::<Seq<char>>::empty());
            }
            return out;
        }
        let mut b = a;
        while b < s.len() && !whitespace(s[b])
            invariant
                a <= b <= s@.len(),
                t == s@.skip(a as int),
                forall|i: int| a <= i < b ==> !is_whitespace(s@[i]),
            decreases s@.len() - b,
        {
            b = b + 1;
        }
        proof {
            lemma_word_len(t);
            assert forall|i: int| 0 <= i < b - a implies !is_whitespace(#[trigger] t[i]) by {
                assert(t[i] == s@[a + i]);
            }
            if word_len(t) < b - a {
                assert(!is_whitespace(t[word_len(t) as int]));
            }
            if b - a < word_len(t) {
                assert(t[b - a] == s@[b as int]);
            }
            assert(word_len(t) == b - a);
            assert(t.skip(b - a) =~= s@.skip(b as int));
            assert(words(rest) == seq![t.take(b - a)] + words(s@.skip(b as int)));
        }
        let w = slice_of(s, a, b);
        let ghost old_out = out@;
        proof {
            assert(w@ =~= t.take(b - a));
            assert(words(rest)[0] == words(s@)[old_out.len() as int]);
        }
        out.push(w);
        pos = b;
        proof {
            assert forall|k: int| 0 <= k < out@.len() implies (#[trigger] out@[k])@ == words(s@)[k] by {
                if k < old_out.len() {
                    assert(out@[k] == old_out[k]);
                }
            }
            assert forall|k: int| 0 <= k < words(s@.skip(pos as int)).len() implies words(
                s@.skip(pos as int),
            )[k] == words(s@)[out@.len() + k] by {
                assert(words(rest)[k + 1] == words(s@)[old_out.len() + (k + 1)]);
            }
        }
    }
}

/// `c` is an ASCII decimal digit.
pub open spec fn is_digit(c: char) -> bool {
    '0' <= c <= '9'
}

/// The number written by the decimal digits `d`, most significant first.
pub open spec fn digits_value(d: Seq<char>) -> nat
    decreases d.len(),
{
    if d.len() == 0 {
        0
    } else {
        digits_value(d.drop_last()) * 10 + ((d.last() as u32) - ('0' as u32)) as nat
    }
}

/// Every character of `d` is a decimal digit.
pub open spec fn all_digits(d: Seq<char>) -> bool {
    forall|i: int| 0 <= i < d.len() ==> is_digit(#[trigger] d[i])
}

/// The value `str::parse` gives for an unsigned integer type whose largest
/// value is `max`: an optional `+`, then one or more decimal digits whose
/// value is at most `max`.
pub open spec fn parse_unsigned(s: Seq<char>, max: nat) -> Option<nat> {
    let d = if s.len() > 0 && s[0] == '+' {
        s.drop_first()
    } else {
        s
    };
    if d.len() > 0 && all_digits(d) && digits_value(d) <= max {
        Some(digits_value(d))
    } else {
        None
    }
}

/// The value `str::parse` gives for a signed integer type with range
/// `min..=max`: an optional `+` or `-`, then one or more decimal digits, the
/// value in range.
pub open spec fn parse_signed(s: Seq<char>, min: int, max: int) -> Option<int> {
    if s.len() > 0 && s[0] == '-' {
        let d = s.drop_first();
        if d.len() > 0 && all_digits(d) && min <= -(digits_value(d) as int) {
            Some(-(digits_value(d) as int))
        } else {
            None
        }
    } else {
        match parse_unsigned(s, max as nat) {
            Some(v) => if max >= 0 { Some(v as int) } else { None },
            None => None,
        }
    }
}

proof fn lemma_digits_prefix(d: Seq<char>, k: int)
    requires
        0 <= k <= d.len(),
    ensures
        digits_value(d.take(k)) <= digits_value(d),
    decreases d.len(),
{
    if k < d.len() {
        assert(d.drop_last().take(k) =~= d.take(k));
        lemma_digits_prefix(d.drop_last(), k);
    } else {
        assert(d.take(k) =~= d);
    }
}

/// Reads the decimal digits `s[start..]` as a number no larger than `max`.
fn digits_upto(s: &[char], start: usize, max: u64) -> (r: Option<u64>)
    requires
        start <= s@.len(),
    ensures
        ({
            let d = s@.skip(start as int);
            match r {
                Some(v) => d.len() > 0 && all_digits(d) && digits_value(d) <= max && v
                    == digits_value(d),
                None => !(d.len() > 0 && all_digits(d) && digits_value(d) <= max),
            }
        }),
{
    let ghost d = s@.skip(start as int);
    if start == s.len() {
        return None;
    }
    let mut acc: u64 = 0;
    let mut i: usize = start;
    assert(d.take(0) =~= Seq::<char>::empty());
    while i < s.len()
        invariant
            start <= i <= s@.len(),
            d == s@.skip(start as int),
            all_digits(d.take(i - start)),
            acc == digits_value(d.take(i - start)),
            acc <= max,
        decreases s@.len() - i,
    {
        let c = s[i];
        if !('0' <= c && c <= '9') {
            proof {
                assert(d[i - start] == c);
            }
            return None;
        }
        let digit: u64 = (c as u32 - '0' as u32) as u64;
        proof {
            assert(d.take(i - start + 1).drop_last() =~= d.take(i - start));
            assert(d.take(i - start + 1).last() == c);
        }
        if digit > max || acc > (max - digit) / 10 {
            proof {
                assert(digits_value(d.take(i - start + 1)) > max);
                lemma_digits_prefix(d, i - start + 1);
            }
            return None;
        }
        acc = acc * 10 + digit;
        i = i + 1;
        proof {
            assert forall|j: int| 0 <= j < i - start implies is_digit(#[trigger] d.take(i - start)[j]) by {
                if j < i - start - 1 {
                    assert(d.take(i - start)[j] == d.take(i - start - 1)[j]);
                }
            }
        }
    }
    assert(d.take(i - start) =~= d);
    Some(acc)
}

/// `s` parsed as a `u64` (`str::parse::<u64>`).
pub fn parse_u64(s: &[char]) -> (r: Option<u64>)
    ensures
        match parse_unsigned(s@, u64::MAX as nat) {
            Some(v) => r == Some(v as u64),
            None => r is None,
        },
{
    if s.len() > 0 && s[0] == '+' {
        assert(s@.skip(1) =~= s@.drop_first());
        digits_upto(s, 1, u64::MAX)
    } else {
        assert(s@.skip(0) =~= s@);
        digits_upto(s, 0, u64::MAX)
    }
}

/// `s` parsed as a `u16` (`str::parse::<u16>`).
pub fn parse_u16(s: &[char]) -> (r: Option<u16>)
    ensures
        match parse_unsigned(s@, u16::MAX as nat) {
            Some(v) => r == Some(v as u16),
            None => r is None,
        },
{
    let r = if s.len() > 0 && s[0] == '+' {
        assert(s@.skip(1) =~= s@.drop_first());
        digits_upto(s, 1, 0xffff)
    } else {
        assert(s@.skip(0) =~= s@);
        digits_upto(s, 0, 0xffff)
    };
    match r {
        Some(v) => Some(v as u16),
        None => None,
    }
}

/// `s` parsed as an `i64` (`str::parse::<i64>`).
pub fn parse_i64(s: &[char]) -> (r: Option<i64>)
    ensures
        match parse_signed(s@, i64::MIN as int, i64::MAX as int) {
            Some(v) => r == Some(v as i64),
            None => r is None,
        },
{
    if s.len() > 0 && s[0] == '-' {
        assert(s@.skip(1) =~= s@.drop_first());
        match digits_upto(s, 1, 0x8000_0000_0000_0000) {
            Some(v) => {
                if v == 0x8000_0000_0000_0000 {
                    Some(i64::MIN)
                } else {
                    Some(-(v as i64))
                }
            },
            None => None,
        }
    } else if s.len() > 0 && s[0] == '+' {
        assert(s@.skip(1) =~= s@.drop_first());
        match digits_upto(s, 1, 0x7fff_ffff_ffff_ffff) {
            Some(v) => Some(v as i64),
            None => None,
        }
    } else {
        assert(s@.skip(0) =~= s@);
        match digits_upto(s, 0, 0x7fff_ffff_ffff_ffff) {
            Some(v) => Some(v as i64),
            None => None,
        }
    }
}

/// The character of the decimal digit `d`.
pub open spec fn digit_char(d: nat) -> char {
    (('0' as u32) + d) as char
}

/// The decimal notation of `n` (`to_string` of an unsigned integer).
pub open spec fn decimal(n: nat) -> Seq<char>
    decreases n,
{
    if n < 10 {
        seq![digit_char(n)]
    } else {
        decimal(n / 10).push(digit_char(n % 10))
    }
}

/// Appends the decimal notation of `n` to `out`.
pub fn push_decimal(out: &mut Vec<char>, n: u32)
    ensures
        final(out)@ == old(out)@ + decimal(n as nat),
    decreases n,
{
    let ghost before = out@;
    if n >= 10 {
        push_decimal(out, n / 10);
    }
    let d: u32 = n % 10;
    let c: char = ((d as u8) + 48u8) as char;
    assert(c == digit_char((n % 10) as nat));
    out.push(c);
    assert(out@ =~= before + decimal(n as nat));
}


/// Whether `a` and `b` hold the same characters.
pub fn same_chars(a: &[char], b: &[char]) -> (r: bool)
    ensures
        r == (a@ == b@),
{
    if a.len() != b.len() {
        return false;
    }
    let r = matches_at(a, b, 0);
    proof {
        assert(a@.subrange(0, b@.len() as int) =~= a@);
    }
    r
}

/// Whether the string `a` equals the string `b`.
pub fn str_eq(a: &str, b: &str) -> (r: bool)
    ensures
        r == (a@ == b@),
{
    let x = chars_of(a);
    let y = chars_of(b);
    same_chars(&x, &y)
}

/// The first white-space separated word of `s`, if any
/// (`s.split_whitespace().next()`).
pub open spec fn first_word(s: Seq<char>) -> Option<Seq<char>> {
    if words(s).len() > 0 {
        Some(words(s)[0])
    } else {
        None
    }
}

/// Without a `pat` in it, replacing `pat` leaves `s` as it is.
pub proof fn lemma_replace_absent(s: Seq<char>, pat: Seq<char>, rep: Seq<char>)
    requires
        !contains_seq(s, pat),
    ensures
        replace_all(s, pat, rep) == s,
    decreases s.len(),
{
    if s.len() > 0 && pat.len() > 0 {
        assert(!occurs_at(s, pat, 0));
        assert forall|i: int| !occurs_at(s.drop_first(), pat, i) by {
            lemma_occurs_shift(s, pat, i);
        }
        lemma_replace_absent(s.drop_first(), pat, rep);
        assert(seq![s[0]] + s.drop_first() =~= s);
    }
}


/// Appends the characters of `s` to `out`.
pub fn push_str(out: &mut Vec<char>, s: &str)
    ensures
        final(out)@ == old(out)@ + s@,
{
    let cs = chars_of(s);
    push_all(out, &cs);
}


/// The pieces of `s` split at `c`, at most `n` of them, the last holding the
/// rest (`str::splitn`).
pub open spec fn splitn_spec(s: Seq<char>, n: nat, c: char) -> Seq<Seq<char>>
    decreases n,
{
    if n == 0 {
        seq![]
    } else if n == 1 {
        seq![s]
    } else {
        match split_once_spec(s, c) {
            Some((a, b)) => seq![a] + splitn_spec(b, (n - 1) as nat, c),
            None => seq![s],
        }
    }
}

/// Splits `s` at `c` into at most `n` pieces.
pub fn splitn(s: &[char], n: usize, c: char) -> (r: Vec<Vec<char>>)
    ensures
        r@.len() == splitn_spec(s@, n as nat, c).len(),
        forall|k: int| 0 <= k < r@.len() ==> (#[trigger] r@[k])@ == splitn_spec(s@, n as nat, c)[k],
    decreases n,
{
    if n == 0 {
        return Vec::new();
    }
    if n == 1 {
        let mut r: Vec<Vec<char>> = Vec::new();
        r.push(slice_of(s, 0, s.len()));
        assert(r@[0]@ =~= s@);
        return r;
    }
    match split_once(s, c) {
        Some((a, b)) => {
            let rest = splitn(&b, n - 1, c);
            let mut r: Vec<Vec<char>> = Vec::new();
            r.push(a);
            let mut k: usize = 0;
            while k < rest.len()
                invariant
                    k <= rest@.len(),
                    r@.len() == k + 1,
                    r@[0]@ == (split_once_spec(s@, c)->0).0,
                    forall|m: int| 0 < m <= k ==> (#[trigger] r@[m])@ == rest@[m - 1]@,
                decreases rest@.len() - k,
            {
                let piece = slice_of(&rest[k], 0, rest[k].len());
                r.push(piece);
                k = k + 1;
            }
            proof {
                let want = splitn_spec(s@, n as nat, c);
                assert(want == seq![a@] + splitn_spec(b@, (n - 1) as nat, c));
                assert forall|m: int| 0 <= m < r@.len() implies (#[trigger] r@[m])@ == want[m] by {
                    if m > 0 {
                        assert(rest@[m - 1]@ == splitn_spec(b@, (n - 1) as nat, c)[m - 1]);
                    }
                }
            }
            r
        },
        None => {
            let mut r: Vec<Vec<char>> = Vec::new();
            r.push(slice_of(s, 0, s.len()));
            assert(r@[0]@ =~= s@);
            r
        },
    }
}


/// The characters of an optional string.
pub open spec fn opt_chars(o: Option<String>) -> Option<Seq<char>> {
    match o {
        Some(s) => Some(s@),
        None => None,
    }
}

/// The `i`-th of `pieces`, if there is one.
pub open spec fn piece(pieces: Seq<Seq<char>>, i: int) -> Option<Seq<char>> {
    if 0 <= i < pieces.len() {
        Some(pieces[i])
    } else {
        None
    }
}

/// `s` parsed as a `u64`, or `default`.
pub open spec fn u64_or(s: Option<Seq<char>>, default: u64) -> u64 {
    match s {
        Some(t) => match parse_unsigned(t, u64::MAX as nat) {
            Some(v) => v as u64,
            None => default,
        },
        None => default,
    }
}

/// `s` parsed as an `i64`, if it is present and parses.
pub open spec fn i64_of(s: Option<Seq<char>>) -> Option<i64> {
    match s {
        Some(t) => match parse_signed(t, i64::MIN as int, i64::MAX as int) {
            Some(v) => Some(v as i64),
            None => None,
        },
        None => None,
    }
}

/// The `i`-th piece parsed as a `u64`, or `default` when it is missing or
/// does not parse.
pub fn piece_u64_or(pieces: &Vec<Vec<char>>, i: usize, default: u64) -> (r: u64)
    ensures
        r == u64_or(piece(pieces@.map_values(|p: Vec<char>| p@), i as int), default),
{
    if i < pieces.len() {
        assert(pieces@.map_values(|p: Vec<char>| p@)[i as int] == pieces@[i as int]@);
        match parse_u64(&pieces[i]) {
            Some(v) => v,
            None => default,
        }
    } else {
        default
    }
}

/// The `i`-th piece parsed as an `i64`, if it is there and parses.
pub fn piece_i64(pieces: &Vec<Vec<char>>, i: usize) -> (r: Option<i64>)
    ensures
        r == i64_of(piece(pieces@.map_values(|p: Vec<char>| p@), i as int)),
{
    if i < pieces.len() {
        assert(pieces@.map_values(|p: Vec<char>| p@)[i as int] == pieces@[i as int]@);
        parse_i64(&pieces[i])
    } else {
        None
    }
}

} // verus!
