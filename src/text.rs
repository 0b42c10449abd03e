//! Line normalisation and literal splitting.
use vstd::prelude::*;
use vstd::string::*;

verus! {

/// The characters with the Unicode property White_Space, which `str::trim`
/// removes from both ends of a line.
pub open spec fn is_white_space(c: char) -> bool {
    let u = c as u32;
    (0x9 <= u && u <= 0xd) || u == 0x20 || u == 0x85 || u == 0xa0 || u == 0x1680 || (0x2000 <= u
        && u <= 0x200a) || u == 0x2028 || u == 0x2029 || u == 0x202f || u == 0x205f || u == 0x3000
}

/// `s` without its leading white space.
pub open spec fn trim_start_text(s: Seq<char>) -> Seq<char>
    decreases s.len(),
{
    if s.len() > 0 && is_white_space(s[0]) {
        trim_start_text(s.drop_first())
    } else {
        s
    }
}

/// `s` without its trailing white space.
pub open spec fn trim_end_text(s: Seq<char>) -> Seq<char>
    decreases s.len(),
{
    if s.len() > 0 && is_white_space(s.last()) {
        trim_end_text(s.drop_last())
    } else {
        s
    }
}

/// `s` without white space at either end.
pub open spec fn trim_text(s: Seq<char>) -> Seq<char> {
    trim_end_text(trim_start_text(s))
}

/// Tells whether `c` is white space in the sense of `is_white_space`.
pub fn white_space(c: char) -> (r: bool)
    ensures
        r == is_white_space(c),
{
    let u = c as u32;
    (0x9 <= u && u <= 0xd) || u == 0x20 || u == 0x85 || u == 0xa0 || u == 0x1680 || (0x2000 <= u
        && u <= 0x200a) || u == 0x2028 || u == 0x2029 || u == 0x202f || u == 0x205f || u == 0x3000
}

proof fn lemma_trim_start_skips(s: Seq<char>, i: int)
    requires
        0 <= i <= s.len(),
        forall|k: int| 0 <= k < i ==> is_white_space(#[trigger] s[k]),
    ensures
        trim_start_text(s) == trim_start_text(s.subrange(i, s.len() as int)),
    decreases i,
{
    if i > 0 {
        lemma_trim_start_skips(s.drop_first(), i - 1);
        assert(s.drop_first().subrange(i - 1, s.drop_first().len() as int) =~= s.subrange(
            i,
            s.len() as int,
        ));
    } else {
        assert(s.subrange(0, s.len() as int) =~= s);
    }
}

proof fn lemma_trim_end_skips(s: Seq<char>, j: int)
    requires
        0 <= j <= s.len(),
        forall|k: int| j <= k < s.len() ==> is_white_space(#[trigger] s[k]),
    ensures
        trim_end_text(s) == trim_end_text(s.subrange(0, j)),
    decreases s.len() - j,
{
    if j < s.len() {
        lemma_trim_end_skips(s.drop_last(), j);
        assert(s.drop_last().subrange(0, j) =~= s.subrange(0, j));
    } else {
        assert(s.subrange(0, s.len() as int) =~= s);
    }
}

/// Removes white space from both ends of `s`.
pub fn trim_line(s: &str) -> (r: &str)
    ensures
        r@ == trim_text(s@),
{
    let n = s.unicode_len();
    let mut i: usize = 0;
    while i < n && white_space(s.get_char(i))
        invariant
            n == s@.len(),
            0 <= i <= n,
            forall|k: int| 0 <= k < i ==> is_white_space(#[trigger] s@[k]),
        decreases n - i,
    {
        i = i + 1;
    }
    let mut j: usize = n;
    while j > i && white_space(s.get_char(j - 1))
        invariant
            n == s@.len(),
            0 <= i <= j <= n,
            forall|k: int| j <= k < n ==> is_white_space(#[trigger] s@[k]),
        decreases j,
    {
        j = j - 1;
    }
    proof {
        let t = s@.subrange(i as int, n as int);
        lemma_trim_start_skips(s@, i as int);
        if i < n {
            assert(!is_white_space(t[0]));
        }
        assert(trim_start_text(t) == t);
        lemma_trim_end_skips(t, j - i);
        let u = t.subrange(0, j - i);
        assert(u =~= s@.subrange(i as int, j as int));
        if j > i {
            assert(!is_white_space(u.last()));
        }
    }
    s.substring_char(i, j)
}

/// What `str::to_uppercase` makes of a text: it depends on the characters
/// alone (the Unicode Uppercase mapping).
pub uninterp spec fn upper_of(s: Seq<char>) -> Seq<char>;

/// Relies on `str::to_uppercase` for the upper-case form of `s`.
#[verifier::external_body]
fn uppercase(s: &str) -> (r: String)
    ensures
        r@ == upper_of(s@),
{
    s.to_uppercase()
}

/// A line as the prompts compare it: white space removed from both ends
/// (the line terminator included), then in upper case.
pub open spec fn normalized(raw: Seq<char>) -> Seq<char> {
    upper_of(trim_text(raw))
}

/// Normalises one line of input as read from the console.
pub fn normalize_line(raw: &str) -> (r: String)
    ensures
        r@ == normalized(raw@),
{
    uppercase(trim_line(raw))
}

/// Tells whether two texts hold the same characters.
pub fn same_text(a: &str, b: &str) -> (r: bool)
    ensures
        r == (a@ == b@),
{
    let n = a.unicode_len();
    if n != b.unicode_len() {
        return false;
    }
    let mut i: usize = 0;
    while i < n
        invariant
            n == a@.len(),
            n == b@.len(),
            0 <= i <= n,
            forall|k: int| 0 <= k < i ==> a@[k] == b@[k],
        decreases n - i,
    {
        if a.get_char(i) != b.get_char(i) {
            return false;
        }
        i = i + 1;
    }
    assert(a@ =~= b@);
    true
}

/// The characters of `s`, one by one.
fn chars_of(s: &str) -> (r: Vec<char>)
    ensures
        r@ == s@,
{
    let n = s.unicode_len();
    let mut r: Vec<char> = Vec::new();
    let mut i: usize = 0;
    while i < n
        invariant
            n == s@.len(),
            0 <= i <= n,
            r@ == s@.subrange(0, i as int),
        decreases n - i,
    {
        r.push(s.get_char(i));
        i = i + 1;
    }
    assert(r@ =~= s@);
    r
}

/// The texts held in a sequence of strings.
pub open spec fn texts(v: Seq<String>) -> Seq<Seq<char>> {
    v.map_values(|x: String| x@)
}

/// The pieces of `s` that follow position `start`, where matching of a
/// non-empty `sep` resumes at position `i`: every leftmost occurrence of
/// `sep` ends a piece, and the occurrences do not overlap.
pub open spec fn split_from(s: Seq<char>, sep: Seq<char>, start: int, i: int) -> Seq<Seq<char>>
    decreases s.len() - i,
{
    if sep.len() == 0 || i < 0 || i + sep.len() > s.len() {
        seq![s.subrange(start, s.len() as int)]
    } else if s.subrange(i, i + sep.len()) == sep {
        seq![s.subrange(start, i)] + split_from(s, sep, i + sep.len(), i + sep.len())
    } else {
        split_from(s, sep, start, i + 1)
    }
}

/// The pieces of `s` around each occurrence of the literal separator `sep`,
/// in order; empty pieces are kept. An empty separator parts every character
/// from its neighbours and from both ends of `s`.
pub open spec fn split_text(s: Seq<char>, sep: Seq<char>) -> Seq<Seq<char>> {
    if sep.len() == 0 {
        seq![Seq::<char>::empty()] + Seq::new(s.len(), |k: int| seq![s[k]]) + seq![
            Seq::<char>::empty(),
        ]
    } else {
        split_from(s, sep, 0, 0)
    }
}

/// Tells whether `p` occurs in `c` at position `i`.
fn occurs_at(c: &Vec<char>, p: &Vec<char>, i: usize) -> (r: bool)
    requires
        i + p@.len() <= c@.len(),
    ensures
        r == (c@.subrange(i as int, i + p@.len()) == p@),
{
    let m = p.len();
    let n = c.len();
    let mut k: usize = 0;
    while k < m
        invariant
            m == p@.len(),
            n == c@.len(),
            i + m <= c@.len(),
            0 <= k <= m,
            forall|j: int| 0 <= j < k ==> c@[i + j] == p@[j],
        decreases m - k,
    {
        if c[i + k] != p[k] {
            assert(c@.subrange(i as int, i + p@.len())[k as int] != p@[k as int]);
            return false;
        }
        k = k + 1;
    }
    assert(c@.subrange(i as int, i + p@.len()) =~= p@);
    true
}

/// Splits `s` on each occurrence of the literal separator `sep`.
pub fn split_line(s: &str, sep: &str) -> (r: Vec<String>)
    ensures
        texts(r@) == split_text(s@, sep@),
{
    let c = chars_of(s);
    let p = chars_of(sep);
    let n = c.len();
    let m = p.len();
    let mut out: Vec<String> = Vec::new();
    if m == 0 {
        out.push(String::new());
        let mut i: usize = 0;
        while i < n
            invariant
                n == s@.len(),
                0 <= i <= n,
                texts(out@) == seq![Seq::<char>::empty()] + Seq::new(
                    i as nat,
                    |k: int| seq![s@[k]],
                ),
            decreases n - i,
        {
            let piece = s.substring_char(i, i + 1).to_owned();
            proof {
                assert(piece@ =~= seq![s@[i as int]]);
                let ghost before = texts(out@);
                assert(texts(out@.push(piece)) =~= before.push(piece@));
            }
            out.push(piece);
            i = i + 1;
            assert(texts(out@) =~= seq![Seq::<char>::empty()] + Seq::new(
                i as nat,
                |k: int| seq![s@[k]],
            ));
        }
        out.push(String::new());
        assert(texts(out@) =~= split_text(s@, sep@));
        return out;
    }
    let mut start: usize = 0;
    let mut i: usize = 0;
    while m <= n && i <= n - m
        invariant
            n == s@.len(),
            m == sep@.len(),
            m > 0,
            c@ == s@,
            p@ == sep@,
            0 <= start <= i <= n,
            texts(out@) + split_from(s@, sep@, start as int, i as int) == split_text(s@, sep@),
        decreases n - i,
    {
        if occurs_at(&c, &p, i) {
            let piece = s.substring_char(start, i).to_owned();
            proof {
                let ghost before = texts(out@);
                assert(texts(out@.push(piece)) =~= before.push(piece@));
                assert(before.push(piece@) + split_from(s@, sep@, (i + m) as int, (i + m) as int)
                    =~= before + split_from(s@, sep@, start as int, i as int));
            }
            out.push(piece);
            i = i + m;
            start = i;
        } else {
            i = i + 1;
        }
    }
    let piece = s.substring_char(start, n).to_owned();
    proof {
        let ghost before = texts(out@);
        assert(texts(out@.push(piece)) =~= before.push(piece@));
        assert(before.push(piece@) =~= before + split_from(s@, sep@, start as int, i as int));
    }
    out.push(piece);
    out
}

} // verus!
