//! Character and string groundwork: whitespace trimming, line splitting,
//! token extraction and plain string comparisons, each proved against a
//! sequence-level model.

use vstd::prelude::*;
use vstd::string::*;

verus! {

/// The characters that count as whitespace when a command line is trimmed:
/// the Unicode white-space set.
pub open spec fn is_ws(c: char) -> bool {
    let v = c as u32;
    (9 <= v && v <= 13) || v == 32 || v == 133 || v == 160 || v == 5760 || (8192 <= v && v
        <= 8202) || v == 8232 || v == 8233 || v == 8239 || v == 8287 || v == 12288
}

pub fn is_ws_char(c: char) -> (r: bool)
    ensures
        r == is_ws(c),
{
    let v = c as u32;
    (9 <= v && v <= 13) || v == 32 || v == 133 || v == 160 || v == 5760 || (8192 <= v && v
        <= 8202) || v == 8232 || v == 8233 || v == 8239 || v == 8287 || v == 12288
}

/// The views of a sequence of owned strings.
pub open spec fn seq_views(s: Seq<String>) -> Seq<Seq<char>> {
    s.map_values(|x: String| x@)
}

/// `p` is a prefix of `s`.
pub open spec fn spec_starts_with(s: Seq<char>, p: Seq<char>) -> bool {
    p.len() <= s.len() && s.subrange(0, p.len() as int) == p
}

pub fn str_eq(a: &str, b: &str) -> (r: bool)
    ensures
        r == (a@ == b@),
{
    let alen = a.unicode_len();
    let blen = b.unicode_len();
    if alen != blen {
        return false;
    }
    let mut i: usize = 0;
    while i < alen
        invariant
            alen == a@.len(),
            alen == b@.len(),
            i <= alen,
            forall|k: int| 0 <= k < i ==> a@[k] == b@[k],
        decreases alen - i,
    {
        if a.get_char(i) != b.get_char(i) {
            return false;
        }
        i += 1;
    }
    proof {
        assert(a@ =~= b@);
    }
    true
}

pub fn str_starts_with(s: &str, p: &str) -> (r: bool)
    ensures
        r == spec_starts_with(s@, p@),
{
    let slen = s.unicode_len();
    let plen = p.unicode_len();
    if plen > slen {
        return false;
    }
    let mut i: usize = 0;
    while i < plen
        invariant
            slen == s@.len(),
            plen == p@.len(),
            plen <= slen,
            i <= plen,
            forall|k: int| 0 <= k < i ==> s@[k] == p@[k],
        decreases plen - i,
    {
        if s.get_char(i) != p.get_char(i) {
            proof {
                assert(s@.subrange(0, plen as int)[i as int] != p@[i as int]);
            }
            return false;
        }
        i += 1;
    }
    proof {
        assert(s@.subrange(0, plen as int) =~= p@);
    }
    true
}

/// Index of the first occurrence of `c` in `s`, if any.
pub open spec fn find_char_in(s: Seq<char>, c: char) -> Option<int>
    decreases s.len(),
{
    if s.len() == 0 {
        None
    } else if s[0] == c {
        Some(0)
    } else {
        match find_char_in(s.drop_first(), c) {
            Some(i) => Some(i + 1),
            None => None,
        }
    }
}

pub proof fn lemma_find_char_in(s: Seq<char>, c: char)
    ensures
        match find_char_in(s, c) {
            Some(i) => 0 <= i < s.len() && s[i] == c && (forall|k: int| 0 <= k < i ==> s[k] != c),
            None => forall|k: int| 0 <= k < s.len() ==> s[k] != c,
        },
    decreases s.len(),
{
    if s.len() > 0 && s[0] != c {
        let d = s.drop_first();
        lemma_find_char_in(d, c);
        match find_char_in(d, c) {
            Some(i) => {
                assert(d[i] == s[i + 1]);
                assert forall|k: int| 0 <= k < i + 1 implies s[k] != c by {
                    if k > 0 {
                        assert(d[k - 1] == s[k]);
                    }
                }
            },
            None => {
                assert forall|k: int| 0 <= k < s.len() implies s[k] != c by {
                    if k > 0 {
                        assert(d[k - 1] == s[k]);
                    }
                }
            },
        }
    }
}

/// The first occurrence index determines `find_char_in` uniquely.
pub proof fn lemma_find_char_in_is(s: Seq<char>, c: char, j: int)
    requires
        0 <= j < s.len(),
        s[j] == c,
        forall|k: int| 0 <= k < j ==> s[k] != c,
    ensures
        find_char_in(s, c) == Some(j),
{
    lemma_find_char_in(s, c);
    match find_char_in(s, c) {
        Some(i) => {
            if i < j {
                assert(s[i] != c);
            }
            if j < i {
                assert(s[j] != c);
            }
        },
        None => {
            assert(s[j] != c);
        },
    }
}

pub proof fn lemma_find_char_in_none(s: Seq<char>, c: char)
    requires
        forall|k: int| 0 <= k < s.len() ==> s[k] != c,
    ensures
        find_char_in(s, c) == None::<int>,
{
    lemma_find_char_in(s, c);
    match find_char_in(s, c) {
        Some(i) => {
            assert(s[i] != c);
        },
        None => {
        },
    }
}

pub fn find_char_from(s: &str, from: usize, c: char) -> (r: Option<usize>)
    requires
        from <= s@.len(),
    ensures
        match r {
            Some(j) => from <= j < s@.len() && s@[j as int] == c && (forall|k: int|
                from <= k < j ==> s@[k] != c),
            None => forall|k: int| from <= k < s@.len() ==> s@[k] != c,
        },
{
    let n = s.unicode_len();
    let mut i: usize = from;
    while i < n
        invariant
            n == s@.len(),
            from <= i <= n,
            forall|k: int| from <= k < i ==> s@[k] != c,
        decreases n - i,
    {
        if s.get_char(i) == c {
            return Some(i);
        }
        i += 1;
    }
    None
}

/// Index of the first position where two consecutive slashes begin, if any.
pub open spec fn find_comment_in(s: Seq<char>) -> Option<int>
    decreases s.len(),
{
    if s.len() < 2 {
        None
    } else if s[0] == '/' && s[1] == '/' {
        Some(0)
    } else {
        match find_comment_in(s.drop_first()) {
            Some(i) => Some(i + 1),
            None => None,
        }
    }
}

pub proof fn lemma_find_comment_in(s: Seq<char>)
    ensures
        match find_comment_in(s) {
            Some(i) => 0 <= i && i + 1 < s.len() && s[i] == '/' && s[i + 1] == '/' && (forall|
                k: int,
            | 0 <= k < i ==> !(#[trigger] s[k] == '/' && s[k + 1] == '/')),
            None => forall|k: int|
                0 <= k && k + 1 < s.len() ==> !(#[trigger] s[k] == '/' && s[k + 1] == '/'),
        },
    decreases s.len(),
{
    if s.len() >= 2 && !(s[0] == '/' && s[1] == '/') {
        let d = s.drop_first();
        lemma_find_comment_in(d);
        match find_comment_in(d) {
            Some(i) => {
                assert(d[i] == s[i + 1] && d[i + 1] == s[i + 2]);
                assert forall|k: int| 0 <= k < i + 1 implies !(#[trigger] s[k] == '/' && s[k + 1]
                    == '/') by {
                    if k > 0 {
                        assert(d[k - 1] == s[k] && d[k] == s[k + 1]);
                    }
                }
            },
            None => {
                assert forall|k: int| 0 <= k && k + 1 < s.len() implies !(#[trigger] s[k] == '/'
                    && s[k + 1] == '/') by {
                    if k > 0 {
                        assert(d[k - 1] == s[k] && d[k] == s[k + 1]);
                    }
                }
            },
        }
    }
}

pub proof fn lemma_find_comment_in_is(s: Seq<char>, j: int)
    requires
        0 <= j,
        j + 1 < s.len(),
        s[j] == '/',
        s[j + 1] == '/',
        forall|k: int| 0 <= k < j ==> !(#[trigger] s[k] == '/' && s[k + 1] == '/'),
    ensures
        find_comment_in(s) == Some(j),
{
    lemma_find_comment_in(s);
    match find_comment_in(s) {
        Some(i) => {
            if i < j {
                assert(!(s[i] == '/' && s[i + 1] == '/'));
            }
            if j < i {
                assert(!(s[j] == '/' && s[j + 1] == '/'));
            }
        },
        None => {
            assert(!(s[j] == '/' && s[j + 1] == '/'));
        },
    }
}

pub proof fn lemma_find_comment_in_none(s: Seq<char>)
    requires
        forall|k: int| 0 <= k && k + 1 < s.len() ==> !(#[trigger] s[k] == '/' && s[k + 1] == '/'),
    ensures
        find_comment_in(s) == None::<int>,
{
    lemma_find_comment_in(s);
    match find_comment_in(s) {
        Some(i) => {
            assert(!(s[i] == '/' && s[i + 1] == '/'));
        },
        None => {
        },
    }
}

pub fn find_comment(s: &str) -> (r: Option<usize>)
    ensures
        find_comment_in(s@) == match r {
            Some(j) => Some(j as int),
            None => None::<int>,
        },
{
    let n = s.unicode_len();
    if n < 2 {
        proof {
            lemma_find_comment_in(s@);
        }
        return None;
    }
    let mut i: usize = 0;
    while i + 1 < n
        invariant
            n == s@.len(),
            i + 1 <= n,
            forall|k: int| 0 <= k < i ==> !(#[trigger] s@[k] == '/' && s@[k + 1] == '/'),
        decreases n - i,
    {
        if s.get_char(i) == '/' && s.get_char(i + 1) == '/' {
            proof {
                lemma_find_comment_in_is(s@, i as int);
            }
            return Some(i);
        }
        i += 1;
    }
    proof {
        lemma_find_comment_in_none(s@);
    }
    None
}

/// What is left of `s` after removing leading whitespace.
pub open spec fn trim_front(s: Seq<char>) -> Seq<char>
    decreases s.len(),
{
    if s.len() > 0 && is_ws(s[0]) {
        trim_front(s.drop_first())
    } else {
        s
    }
}

/// What is left of `s` after removing trailing whitespace.
pub open spec fn trim_back(s: Seq<char>) -> Seq<char>
    decreases s.len(),
{
    if s.len() > 0 && is_ws(s[s.len() - 1]) {
        trim_back(s.drop_last())
    } else {
        s
    }
}

/// What is left of `s` after removing leading and trailing whitespace.
pub open spec fn spec_trim(s: Seq<char>) -> Seq<char> {
    trim_back(trim_front(s))
}

pub proof fn lemma_trim_front_skip(s: Seq<char>, a: int)
    requires
        0 <= a <= s.len(),
        forall|k: int| 0 <= k < a ==> is_ws(s[k]),
        a == s.len() || !is_ws(s[a]),
    ensures
        trim_front(s) == s.subrange(a, s.len() as int),
    decreases a,
{
    if a == 0 {
        assert(s.subrange(0, s.len() as int) =~= s);
    } else {
        assert(is_ws(s[0]));
        lemma_trim_front_skip(s.drop_first(), a - 1);
        assert(s.drop_first().subrange(a - 1, s.drop_first().len() as int) =~= s.subrange(
            a,
            s.len() as int,
        ));
    }
}

pub proof fn lemma_trim_back_take(s: Seq<char>, b: int)
    requires
        0 <= b <= s.len(),
        forall|k: int| b <= k < s.len() ==> is_ws(s[k]),
        b == 0 || !is_ws(s[b - 1]),
    ensures
        trim_back(s) == s.subrange(0, b),
    decreases s.len() - b,
{
    if b == s.len() {
        assert(s.subrange(0, s.len() as int) =~= s);
    } else {
        assert(is_ws(s[s.len() - 1]));
        lemma_trim_back_take(s.drop_last(), b);
        assert(s.drop_last().subrange(0, b) =~= s.subrange(0, b));
    }
}

pub fn trim_str<'a>(s: &'a str) -> (r: &'a str)
    ensures
        r@ == spec_trim(s@),
{
    let n = s.unicode_len();
    let mut a: usize = 0;
    while a < n && is_ws_char(s.get_char(a))
        invariant
            n == s@.len(),
            a <= n,
            forall|k: int| 0 <= k < a ==> is_ws(s@[k]),
        decreases n - a,
    {
        a += 1;
    }
    if a == n {
        proof {
            lemma_trim_front_skip(s@, a as int);
            assert(trim_front(s@) =~= Seq::<char>::empty());
            assert(spec_trim(s@) =~= s@.subrange(n as int, n as int));
        }
        s.substring_char(n, n)
    } else {
        let mut b: usize = n;
        while is_ws_char(s.get_char(b - 1))
            invariant
                n == s@.len(),
                a < n,
                !is_ws(s@[a as int]),
                a + 1 <= b <= n,
                forall|k: int| b <= k < n ==> is_ws(s@[k]),
            decreases b,
        {
            b -= 1;
        }
        proof {
            lemma_trim_front_skip(s@, a as int);
            let t = s@.subrange(a as int, n as int);
            lemma_trim_back_take(t, b - a);
            assert(t.subrange(0, b - a) =~= s@.subrange(a as int, b as int));
        }
        s.substring_char(a, b)
    }
}

/// `t` with one trailing carriage return removed, if it has one.
pub open spec fn strip_cr(t: Seq<char>) -> Seq<char> {
    if t.len() > 0 && t[t.len() - 1] == '\r' {
        t.drop_last()
    } else {
        t
    }
}

/// The lines of `s`, split at newlines, with a carriage return removed from
/// the end of any line that a newline terminated, and with no final empty
/// line when `s` ends in a newline.  This models how Rust iterates the lines
/// of a string.
pub open spec fn spec_lines(s: Seq<char>) -> Seq<Seq<char>>
    decreases s.len(),
    via spec_lines_decreases
{
    if s.len() == 0 {
        Seq::empty()
    } else {
        match find_char_in(s, '\n') {
            None => seq![s],
            Some(i) => seq![strip_cr(s.subrange(0, i))] + spec_lines(
                s.subrange(i + 1, s.len() as int),
            ),
        }
    }
}

#[via_fn]
proof fn spec_lines_decreases(s: Seq<char>) {
    if s.len() != 0 {
        lemma_find_char_in(s, '\n');
    }
}

pub fn split_lines(s: &str) -> (r: Vec<String>)
    ensures
        seq_views(r@) == spec_lines(s@),
{
    let n = s.unicode_len();
    let mut out: Vec<String> = Vec::new();
    let mut pos: usize = 0;
    proof {
        assert(s@.subrange(0, n as int) =~= s@);
        assert(seq_views(out@) =~= Seq::<Seq<char>>::empty());
        assert(seq_views(out@) + spec_lines(s@) =~= spec_lines(s@));
    }
    while pos < n
        invariant
            n == s@.len(),
            pos <= n,
            spec_lines(s@) == seq_views(out@) + spec_lines(s@.subrange(pos as int, n as int)),
        decreases n - pos,
    {
        let ghost suffix = s@.subrange(pos as int, n as int);
        match find_char_from(s, pos, '\n') {
            Some(j) => {
                let piece_end = if j > pos && s.get_char(j - 1) == '\r' {
                    j - 1
                } else {
                    j
                };
                let piece = s.substring_char(pos, piece_end).to_owned();
                proof {
                    assert(forall|k: int| 0 <= k < j - pos ==> suffix[k] == s@[pos + k]);
                    lemma_find_char_in_is(suffix, '\n', j - pos);
                    assert(strip_cr(suffix.subrange(0, j - pos)) =~= s@.subrange(
                        pos as int,
                        piece_end as int,
                    ));
                    assert(suffix.subrange(j - pos + 1, suffix.len() as int) =~= s@.subrange(
                        j + 1,
                        n as int,
                    ));
                    assert(seq_views(out@.push(piece)) =~= seq_views(out@) + seq![piece@]);
                    assert(seq_views(out@) + spec_lines(suffix) == (seq_views(out@) + seq![piece@])
                        + spec_lines(s@.subrange(j + 1, n as int))) by {
                        assert(spec_lines(suffix) == seq![piece@] + spec_lines(
                            s@.subrange(j + 1, n as int),
                        ));
                        assert((seq_views(out@) + (seq![piece@] + spec_lines(
                            s@.subrange(j + 1, n as int),
                        ))) =~= (seq_views(out@) + seq![piece@]) + spec_lines(
                            s@.subrange(j + 1, n as int),
                        ));
                    }
                }
                out.push(piece);
                pos = j + 1;
            },
            None => {
                let piece = s.substring_char(pos, n).to_owned();
                proof {
                    assert(forall|k: int| 0 <= k < suffix.len() ==> suffix[k] == s@[pos + k]);
                    lemma_find_char_in_none(suffix, '\n');
                    assert(suffix.len() > 0);
                    assert(spec_lines(suffix) == seq![suffix]);
                    assert(piece@ == suffix);
                    assert(seq_views(out@.push(piece)) =~= seq_views(out@) + seq![piece@]);
                    assert(spec_lines(s@.subrange(n as int, n as int)) =~= Seq::<Seq<char>>::empty());
                    assert((seq_views(out@) + seq![suffix]) + Seq::<Seq<char>>::empty() =~= seq_views(
                        out@,
                    ) + seq![suffix]);
                }
                out.push(piece);
                pos = n;
            },
        }
    }
    proof {
        assert(spec_lines(s@.subrange(pos as int, n as int)) =~= Seq::<Seq<char>>::empty());
        assert(seq_views(out@) + Seq::<Seq<char>>::empty() =~= seq_views(out@));
    }
    out
}

/// The `n`-th piece of `s` when `s` is cut at every single space.
pub open spec fn nth_token(s: Seq<char>, n: nat) -> Option<Seq<char>>
    decreases n,
{
    match find_char_in(s, ' ') {
        None => if n == 0 {
            Some(s)
        } else {
            None
        },
        Some(i) => if n == 0 {
            Some(s.subrange(0, i))
        } else {
            nth_token(s.subrange(i + 1, s.len() as int), (n - 1) as nat)
        },
    }
}

pub fn get_token<'a>(s: &'a str, n: usize) -> (r: Option<&'a str>)
    ensures
        match r {
            Some(x) => nth_token(s@, n as nat) == Some(x@),
            None => nth_token(s@, n as nat) == None::<Seq<char>>,
        },
{
    let len = s.unicode_len();
    let mut pos: usize = 0;
    let mut k: usize = 0;
    proof {
        assert(s@.subrange(0, len as int) =~= s@);
    }
    while k < n
        invariant
            len == s@.len(),
            pos <= len,
            k <= n,
            nth_token(s@, n as nat) == nth_token(
                s@.subrange(pos as int, len as int),
                (n - k) as nat,
            ),
        decreases n - k,
    {
        let ghost suffix = s@.subrange(pos as int, len as int);
        match find_char_from(s, pos, ' ') {
            Some(j) => {
                proof {
                    assert(forall|t: int| 0 <= t < suffix.len() ==> suffix[t] == s@[pos + t]);
                    lemma_find_char_in_is(suffix, ' ', j - pos);
                    assert(suffix.subrange(j - pos + 1, suffix.len() as int) =~= s@.subrange(
                        j + 1,
                        len as int,
                    ));
                }
                pos = j + 1;
            },
            None => {
                proof {
                    assert(forall|t: int| 0 <= t < suffix.len() ==> suffix[t] == s@[pos + t]);
                    lemma_find_char_in_none(suffix, ' ');
                }
                return None;
            },
        }
        k += 1;
    }
    let ghost suffix = s@.subrange(pos as int, len as int);
    proof {
        assert(forall|t: int| 0 <= t < suffix.len() ==> suffix[t] == s@[pos + t]);
    }
    match find_char_from(s, pos, ' ') {
        Some(j) => {
            proof {
                lemma_find_char_in_is(suffix, ' ', j - pos);
                assert(suffix.subrange(0, j - pos) =~= s@.subrange(pos as int, j as int));
            }
            Some(s.substring_char(pos, j))
        },
        None => {
            proof {
                lemma_find_char_in_none(suffix, ' ');
            }
            Some(s.substring_char(pos, len))
        },
    }
}

/// Relies on `String::push`: appends one character at the end.
#[verifier::external_body]
pub fn push_char(s: &mut String, c: char)
    ensures
        final(s)@ == old(s)@.push(c),
{
    s.push(c);
}

/// `c` with an ASCII lower-case letter mapped to its upper-case form; any
/// other character is left alone, which is all the segment vocabulary needs.
pub open spec fn spec_upper_char(c: char) -> char {
    match c {
        'a' => 'A',
        'b' => 'B',
        'c' => 'C',
        'd' => 'D',
        'e' => 'E',
        'f' => 'F',
        'g' => 'G',
        'h' => 'H',
        'i' => 'I',
        'j' => 'J',
        'k' => 'K',
        'l' => 'L',
        'm' => 'M',
        'n' => 'N',
        'o' => 'O',
        'p' => 'P',
        'q' => 'Q',
        'r' => 'R',
        's' => 'S',
        't' => 'T',
        'u' => 'U',
        'v' => 'V',
        'w' => 'W',
        'x' => 'X',
        'y' => 'Y',
        'z' => 'Z',
        _ => c,
    }
}

pub open spec fn spec_to_upper(s: Seq<char>) -> Seq<char> {
    Seq::new(s.len(), |i: int| spec_upper_char(s[i]))
}

fn upper_char(c: char) -> (r: char)
    ensures
        r == spec_upper_char(c),
{
    match c {
        'a' => 'A',
        'b' => 'B',
        'c' => 'C',
        'd' => 'D',
        'e' => 'E',
        'f' => 'F',
        'g' => 'G',
        'h' => 'H',
        'i' => 'I',
        'j' => 'J',
        'k' => 'K',
        'l' => 'L',
        'm' => 'M',
        'n' => 'N',
        'o' => 'O',
        'p' => 'P',
        'q' => 'Q',
        'r' => 'R',
        's' => 'S',
        't' => 'T',
        'u' => 'U',
        'v' => 'V',
        'w' => 'W',
        'x' => 'X',
        'y' => 'Y',
        'z' => 'Z',
        _ => c,
    }
}

pub fn to_upper(s: &str) -> (r: String)
    ensures
        r@ == spec_to_upper(s@),
{
    let n = s.unicode_len();
    let mut out = String::new();
    let mut i: usize = 0;
    proof {
        assert(out@ =~= spec_to_upper(s@).subrange(0, 0));
    }
    while i < n
        invariant
            n == s@.len(),
            i <= n,
            out@ == spec_to_upper(s@).subrange(0, i as int),
        decreases n - i,
    {
        let c = upper_char(s.get_char(i));
        push_char(&mut out, c);
        proof {
            assert(out@ =~= spec_to_upper(s@).subrange(0, i + 1));
        }
        i += 1;
    }
    proof {
        assert(spec_to_upper(s@).subrange(0, n as int) =~= spec_to_upper(s@));
    }
    out
}

} // verus!
