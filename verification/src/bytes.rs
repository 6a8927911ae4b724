//! Byte-level building blocks shared by the framer and the parsers.
//!
//! Messages travel as raw bytes; every splitting and searching step used by
//! the parsers is specified here over `Seq<u8>` and implemented over slices
//! and `Vec<u8>`.

use vstd::prelude::*;

verus! {

/// Padding byte stripped by the framer.
pub const NUL: u8 = 0;

/// Line feed, `\n`.
pub const LF: u8 = 10;

/// Carriage return, `\r`.
pub const CR: u8 = 13;

/// `&`, the separator between query pairs.
pub const AMP: u8 = 38;

/// `=`, the separator inside a query pair.
pub const EQUALS_SIGN: u8 = 61;

/// `?`, the separator between path and query string.
pub const QUESTION_MARK: u8 = 63;

/// First index of `b` in `s`, if any.
pub open spec fn find_byte(s: Seq<u8>, b: u8) -> Option<int>
    decreases s.len(),
{
    if s.len() == 0 {
        None
    } else if s[0] == b {
        Some(0int)
    } else {
        match find_byte(s.drop_first(), b) {
            Some(i) => Some(i + 1),
            None => None,
        }
    }
}

/// `find_byte` returns the first occurrence of `b`, and `None` exactly when
/// `b` does not occur.
pub proof fn lemma_find_byte(s: Seq<u8>, b: u8)
    ensures
        match find_byte(s, b) {
            Some(i) => 0 <= i < s.len() && s[i] == b && (forall|j: int| 0 <= j < i ==> s[j] != b),
            None => forall|j: int| 0 <= j < s.len() ==> s[j] != b,
        },
    decreases s.len(),
{
    if s.len() > 0 && s[0] != b {
        let t = s.drop_first();
        lemma_find_byte(t, b);
        assert(forall|j: int| 0 <= j < t.len() ==> t[j] == s[j + 1]);
        match find_byte(t, b) {
            Some(i) => {
                assert forall|j: int| 0 <= j < i + 1 implies s[j] != b by {
                    if j > 0 {
                        assert(s[j] == t[j - 1]);
                    }
                }
            }
            None => {
                assert forall|j: int| 0 <= j < s.len() implies s[j] != b by {
                    if j > 0 {
                        assert(s[j] == t[j - 1]);
                    }
                }
            }
        }
    }
}

/// An occurrence at `i` with none before it pins `find_byte` down.
pub proof fn lemma_find_byte_is_first(s: Seq<u8>, b: u8, i: int)
    requires
        0 <= i < s.len(),
        s[i] == b,
        forall|j: int| 0 <= j < i ==> s[j] != b,
    ensures
        find_byte(s, b) == Some(i),
{
    lemma_find_byte(s, b);
    match find_byte(s, b) {
        Some(k) => {
            if k < i {
                assert(s[k] == b);
                assert(false);
            }
            if k > i {
                assert(s[i] != b);
                assert(false);
            }
        }
        None => {
            assert(s[i] == b);
            assert(false);
        }
    }
}

/// No occurrence at all pins `find_byte` to `None`.
pub proof fn lemma_find_byte_none(s: Seq<u8>, b: u8)
    requires
        forall|j: int| 0 <= j < s.len() ==> s[j] != b,
    ensures
        find_byte(s, b) is None,
{
    lemma_find_byte(s, b);
    match find_byte(s, b) {
        Some(i) => {
            assert(s[i] != b);
            assert(false);
        }
        None => {}
    }
}

/// First index at which `pat` occurs as a contiguous subsequence of `s`.
pub open spec fn find_subseq(s: Seq<u8>, pat: Seq<u8>) -> Option<int>
    decreases s.len(),
{
    if pat.is_prefix_of(s) {
        Some(0int)
    } else if s.len() == 0 {
        None
    } else {
        match find_subseq(s.drop_first(), pat) {
            Some(i) => Some(i + 1),
            None => None,
        }
    }
}

/// Whether `pat` occurs in `s` starting at `i`.
pub open spec fn subseq_at(s: Seq<u8>, pat: Seq<u8>, i: int) -> bool {
    0 <= i && i + pat.len() <= s.len() && s.subrange(i, i + pat.len()) == pat
}

/// `find_subseq` returns the first match of `pat`, and `None` exactly when
/// `pat` occurs nowhere.
pub proof fn lemma_find_subseq(s: Seq<u8>, pat: Seq<u8>)
    ensures
        match find_subseq(s, pat) {
            Some(i) => subseq_at(s, pat, i) && (forall|j: int| 0 <= j < i ==> !subseq_at(s, pat, j)),
            None => forall|j: int| 0 <= j <= s.len() ==> !subseq_at(s, pat, j),
        },
    decreases s.len(),
{
    if pat.is_prefix_of(s) {
        assert(s.subrange(0, pat.len() as int) =~= pat);
    } else if s.len() == 0 {
        assert(forall|j: int| 0 <= j <= s.len() ==> !subseq_at(s, pat, j)) by {
            if pat.len() == 0 {
                assert(s.subrange(0, 0) =~= pat);
                assert(pat.is_prefix_of(s));
            }
        }
    } else {
        lemma_find_subseq(s.drop_first(), pat);
        let t = s.drop_first();
        assert(forall|j: int| 0 <= j <= t.len() && subseq_at(s, pat, j + 1) ==> subseq_at(t, pat, j)) by {
            assert forall|j: int| 0 <= j <= t.len() && subseq_at(s, pat, j + 1) implies subseq_at(t, pat, j) by {
                assert(t.subrange(j, j + pat.len() as int) =~= s.subrange(j + 1, j + 1 + pat.len() as int));
            }
        }
        assert(forall|j: int| 0 <= j <= t.len() && subseq_at(t, pat, j) ==> subseq_at(s, pat, j + 1)) by {
            assert forall|j: int| 0 <= j <= t.len() && subseq_at(t, pat, j) implies subseq_at(s, pat, j + 1) by {
                assert(s.subrange(j + 1, j + 1 + pat.len() as int) =~= t.subrange(j, j + pat.len() as int));
            }
        }
        match find_subseq(t, pat) {
            Some(i) => {
                assert(subseq_at(s, pat, i + 1));
                assert forall|j: int| 0 <= j < i + 1 implies !subseq_at(s, pat, j) by {
                    if j == 0 {
                        if subseq_at(s, pat, 0) {
                            assert(pat.is_prefix_of(s));
                        }
                    } else {
                        if subseq_at(s, pat, j) {
                            assert(subseq_at(t, pat, j - 1));
                            assert(false);
                        }
                    }
                }
            }
            None => {
                assert forall|j: int| 0 <= j <= s.len() implies !subseq_at(s, pat, j) by {
                    if j == 0 {
                        if subseq_at(s, pat, 0) {
                            assert(pat.is_prefix_of(s));
                        }
                    } else {
                        if subseq_at(s, pat, j) {
                            assert(subseq_at(t, pat, j - 1));
                            assert(false);
                        }
                    }
                }
            }
        }
    }
}

/// A match at `i` with none before it pins `find_subseq` down.
pub proof fn lemma_find_subseq_is_first(s: Seq<u8>, pat: Seq<u8>, i: int)
    requires
        subseq_at(s, pat, i),
        forall|j: int| 0 <= j < i ==> !subseq_at(s, pat, j),
    ensures
        find_subseq(s, pat) == Some(i),
{
    lemma_find_subseq(s, pat);
    match find_subseq(s, pat) {
        Some(k) => {
            if k < i {
                assert(!subseq_at(s, pat, k));
                assert(false);
            }
            if k > i {
                assert(!subseq_at(s, pat, i));
                assert(false);
            }
        }
        None => {
            assert(!subseq_at(s, pat, i));
            assert(false);
        }
    }
}

/// No match at all pins `find_subseq` to `None`.
pub proof fn lemma_find_subseq_none(s: Seq<u8>, pat: Seq<u8>)
    requires
        forall|j: int| 0 <= j <= s.len() ==> !subseq_at(s, pat, j),
    ensures
        find_subseq(s, pat) is None,
{
    lemma_find_subseq(s, pat);
    match find_subseq(s, pat) {
        Some(i) => {
            assert(!subseq_at(s, pat, i));
            assert(false);
        }
        None => {}
    }
}

/// A line with its delimiter's `\r` removed, as `str::lines` does.
pub open spec fn strip_cr(l: Seq<u8>) -> Seq<u8> {
    if l.len() > 0 && l.last() == CR {
        l.drop_last()
    } else {
        l
    }
}

/// The lines of `s`, delimited by `\n` or `\r\n`, with no final empty line,
/// mirroring `str::lines`.
pub open spec fn split_lines(s: Seq<u8>) -> Seq<Seq<u8>>
    decreases s.len(),
    via split_lines_decreases
{
    if s.len() == 0 {
        Seq::empty()
    } else {
        match find_byte(s, LF) {
            Some(i) => seq![strip_cr(s.take(i))] + split_lines(s.skip(i + 1)),
            None => seq![s],
        }
    }
}

#[via_fn]
proof fn split_lines_decreases(s: Seq<u8>) {
    if s.len() > 0 {
        lemma_find_byte(s, LF);
    }
}

/// The pieces of `s` split on `sep`; an empty input gives one empty piece,
/// mirroring `str::split`.
pub open spec fn split_on(s: Seq<u8>, sep: u8) -> Seq<Seq<u8>>
    decreases s.len(),
    via split_on_decreases
{
    match find_byte(s, sep) {
        Some(i) => seq![s.take(i)] + split_on(s.skip(i + 1), sep),
        None => seq![s],
    }
}

#[via_fn]
proof fn split_on_decreases(s: Seq<u8>, sep: u8) {
    lemma_find_byte(s, sep);
}

/// A piece without the separator is its own whole split.
pub proof fn lemma_split_on_no_sep(s: Seq<u8>, sep: u8)
    requires
        forall|i: int| 0 <= i < s.len() ==> s[i] != sep,
    ensures
        split_on(s, sep) == seq![s],
{
    lemma_find_byte_none(s, sep);
}

/// Splitting peels off a separator-free head before the first separator.
pub proof fn lemma_split_on_head(a: Seq<u8>, rest: Seq<u8>, sep: u8)
    requires
        forall|i: int| 0 <= i < a.len() ==> a[i] != sep,
    ensures
        split_on(a + seq![sep] + rest, sep) == seq![a] + split_on(rest, sep),
{
    let s = a + seq![sep] + rest;
    assert(s[a.len() as int] == sep);
    assert(forall|i: int| 0 <= i < a.len() ==> s[i] == a[i]);
    lemma_find_byte_is_first(s, sep, a.len() as int);
    assert(s.take(a.len() as int) =~= a);
    assert(s.skip(a.len() as int + 1) =~= rest);
}

/// ASCII whitespace, the byte-level counterpart of `char::is_whitespace`.
pub open spec fn is_ws(b: u8) -> bool {
    b == 32 || (9 <= b <= 13)
}

/// Length of the whitespace-free token at the head of `s`.
pub open spec fn token_len(s: Seq<u8>) -> int
    decreases s.len(),
{
    if s.len() == 0 || is_ws(s[0]) {
        0
    } else {
        1 + token_len(s.drop_first())
    }
}

/// The token length is in bounds, covers no whitespace, and is maximal.
pub proof fn lemma_token_len(s: Seq<u8>)
    ensures
        0 <= token_len(s) <= s.len(),
        forall|j: int| 0 <= j < token_len(s) ==> !is_ws(s[j]),
        token_len(s) < s.len() ==> is_ws(s[token_len(s)]),
        s.len() > 0 && !is_ws(s[0]) ==> token_len(s) >= 1,
    decreases s.len(),
{
    if s.len() > 0 && !is_ws(s[0]) {
        let t = s.drop_first();
        lemma_token_len(t);
        assert(forall|j: int| 0 <= j < t.len() ==> t[j] == s[j + 1]);
        assert forall|j: int| 0 <= j < token_len(s) implies !is_ws(s[j]) by {
            if j > 0 {
                assert(s[j] == t[j - 1]);
                assert(!is_ws(t[j - 1]));
            }
        }
        if token_len(s) < s.len() {
            assert(s[token_len(s)] == t[token_len(t)]);
        }
    }
}

/// The whitespace-separated tokens of `s`, mirroring `str::split_whitespace`.
pub open spec fn split_ws(s: Seq<u8>) -> Seq<Seq<u8>>
    decreases s.len(),
    via split_ws_decreases
{
    if s.len() == 0 {
        Seq::empty()
    } else if is_ws(s[0]) {
        split_ws(s.drop_first())
    } else {
        seq![s.take(token_len(s))] + split_ws(s.skip(token_len(s)))
    }
}

#[via_fn]
proof fn split_ws_decreases(s: Seq<u8>) {
    if s.len() > 0 && !is_ws(s[0]) {
        lemma_token_len(s);
    }
}

/// `s` with leading whitespace removed.
pub open spec fn trim_start(s: Seq<u8>) -> Seq<u8>
    decreases s.len(),
{
    if s.len() > 0 && is_ws(s[0]) {
        trim_start(s.drop_first())
    } else {
        s
    }
}

/// `s` with trailing whitespace removed.
pub open spec fn trim_end(s: Seq<u8>) -> Seq<u8>
    decreases s.len(),
{
    if s.len() > 0 && is_ws(s.last()) {
        trim_end(s.drop_last())
    } else {
        s
    }
}

/// `s` with surrounding whitespace removed, mirroring `str::trim`.
pub open spec fn trim(s: Seq<u8>) -> Seq<u8> {
    trim_end(trim_start(s))
}

/// `s` with every padding byte removed.
pub open spec fn without_nuls(s: Seq<u8>) -> Seq<u8>
    decreases s.len(),
{
    if s.len() == 0 {
        Seq::empty()
    } else {
        let rest = without_nuls(s.drop_first());
        if s[0] != NUL {
            seq![s[0]] + rest
        } else {
            rest
        }
    }
}

/// Decimal digits of `n`, most significant first.
pub open spec fn dec_digits(n: int) -> Seq<u8>
    recommends
        n >= 0,
    decreases n,
    via dec_digits_decreases
{
    if n < 10 {
        seq![(48 + n) as u8]
    } else {
        dec_digits(n / 10).push((48 + n % 10) as u8)
    }
}

#[via_fn]
proof fn dec_digits_decreases(n: int) {
    if n >= 10 {
        assert(n / 10 < n) by (nonlinear_arith)
            requires
                n >= 10,
        ;
    }
}

/// Reading one element of a vector of byte vectors through its deep view.
pub proof fn lemma_deep_index(v: &Vec<Vec<u8>>, i: int)
    requires
        0 <= i < v@.len(),
    ensures
        v.deep_view().len() == v@.len(),
        v.deep_view()[i] == v@[i]@,
{
    assert(v.deep_view()[i] =~= v@[i]@);
}

/// Whether `b` counts as whitespace for the splitters.
pub fn is_ws_byte(b: u8) -> (r: bool)
    ensures
        r == is_ws(b),
{
    b == 32 || (9 <= b && b <= 13)
}

/// Byte-for-byte equality of two slices.
pub fn eq_bytes(a: &[u8], b: &[u8]) -> (r: bool)
    ensures
        r == (a@ == b@),
{
    if a.len() != b.len() {
        return false;
    }
    let mut i: usize = 0;
    while i < a.len()
        invariant
            a@.len() == b@.len(),
            0 <= i <= a@.len(),
            forall|j: int| 0 <= j < i ==> a@[j] == b@[j],
        decreases a@.len() - i,
    {
        if a[i] != b[i] {
            return false;
        }
        i = i + 1;
    }
    proof {
        assert(a@ =~= b@);
    }
    true
}

/// Whether `p` is a prefix of `s`.
pub fn starts_with_bytes(s: &[u8], p: &[u8]) -> (r: bool)
    ensures
        r == p@.is_prefix_of(s@),
{
    if p.len() > s.len() {
        return false;
    }
    let mut i: usize = 0;
    while i < p.len()
        invariant
            p@.len() <= s@.len(),
            0 <= i <= p@.len(),
            forall|j: int| 0 <= j < i ==> p@[j] == s@[j],
        decreases p@.len() - i,
    {
        if p[i] != s[i] {
            proof {
                assert(s@.subrange(0, p@.len() as int)[i as int] == s@[i as int]);
            }
            return false;
        }
        i = i + 1;
    }
    proof {
        assert(p@ =~= s@.subrange(0, p@.len() as int));
    }
    true
}

/// An owned copy of `s[from..to]`.
pub fn copy_range(s: &[u8], from: usize, to: usize) -> (r: Vec<u8>)
    requires
        0 <= from <= to <= s@.len(),
    ensures
        r@ == s@.subrange(from as int, to as int),
{
    vstd::slice::slice_to_vec(vstd::slice::slice_subrange(s, from, to))
}

/// First index `>= from` holding `b`, if any.
pub fn find_byte_from(s: &[u8], from: usize, b: u8) -> (r: Option<usize>)
    requires
        from <= s@.len(),
    ensures
        match r {
            Some(j) => from <= j < s@.len() && s@[j as int] == b && (forall|k: int|
                from <= k < j ==> s@[k] != b),
            None => forall|k: int| from <= k < s@.len() ==> s@[k] != b,
        },
{
    let mut i: usize = from;
    while i < s.len()
        invariant
            from <= i <= s@.len(),
            forall|k: int| from <= k < i ==> s@[k] != b,
        decreases s@.len() - i,
    {
        if s[i] == b {
            return Some(i);
        }
        i = i + 1;
    }
    None
}

/// First index at which `pat` occurs in `s`, if any, agreeing with
/// `find_subseq`.
pub fn find_subseq_exec(s: &[u8], pat: &[u8]) -> (r: Option<usize>)
    ensures
        match r {
            Some(i) => find_subseq(s@, pat@) == Some(i as int) && i + pat@.len() <= s@.len(),
            None => find_subseq(s@, pat@) is None,
        },
{
    if pat.len() > s.len() {
        proof {
            lemma_find_subseq_none(s@, pat@);
        }
        return None;
    }
    let mut i: usize = 0;
    while i <= s.len() - pat.len()
        invariant
            pat@.len() <= s@.len(),
            0 <= i <= s@.len() - pat@.len() + 1,
            forall|j: int| 0 <= j < i ==> !subseq_at(s@, pat@, j),
        decreases s@.len() - pat@.len() + 1 - i,
    {
        let tail = vstd::slice::slice_subrange(s, i, s.len());
        if starts_with_bytes(tail, pat) {
            proof {
                assert(s@.subrange(i as int, i + pat@.len()) =~= tail@.subrange(
                    0,
                    pat@.len() as int,
                ));
                assert(subseq_at(s@, pat@, i as int));
                lemma_find_subseq_is_first(s@, pat@, i as int);
            }
            return Some(i);
        }
        proof {
            if subseq_at(s@, pat@, i as int) {
                assert(tail@.subrange(0, pat@.len() as int) =~= s@.subrange(
                    i as int,
                    i + pat@.len(),
                ));
                assert(pat@.is_prefix_of(tail@));
            }
        }
        i = i + 1;
    }
    proof {
        assert forall|j: int| 0 <= j <= s@.len() implies !subseq_at(s@, pat@, j) by {
            if j + pat@.len() > s@.len() {
                assert(!subseq_at(s@, pat@, j));
            }
        }
        lemma_find_subseq_none(s@, pat@);
    }
    None
}

/// Appending a byte extends `without_nuls` at the end.
proof fn lemma_without_nuls_push(t: Seq<u8>, x: u8)
    ensures
        without_nuls(t.push(x)) == if x != NUL {
            without_nuls(t).push(x)
        } else {
            without_nuls(t)
        },
    decreases t.len(),
{
    let s = t.push(x);
    if t.len() == 0 {
        assert(s.len() == 1);
        assert(s[0] == x);
        assert(s.drop_first() =~= Seq::<u8>::empty());
        assert(without_nuls(s.drop_first()) == Seq::<u8>::empty());
        assert(without_nuls(s) == if x != NUL { seq![x] + Seq::<u8>::empty() } else { Seq::<u8>::empty() });
        assert(without_nuls(t) == Seq::<u8>::empty());
        if x != NUL {
            assert(seq![x] + Seq::<u8>::empty() =~= Seq::<u8>::empty().push(x));
        }
    } else {
        assert(s[0] == t[0]);
        assert(s.drop_first() =~= t.drop_first().push(x));
        lemma_without_nuls_push(t.drop_first(), x);
        if t[0] != NUL {
            if x != NUL {
                assert(seq![t[0]] + without_nuls(t.drop_first()).push(x) =~= (seq![t[0]]
                    + without_nuls(t.drop_first())).push(x));
            }
        }
    }
}

/// `s` with every padding byte removed.
pub fn remove_nuls(s: &[u8]) -> (r: Vec<u8>)
    ensures
        r@ == without_nuls(s@),
{
    let mut r: Vec<u8> = Vec::new();
    let mut i: usize = 0;
    while i < s.len()
        invariant
            0 <= i <= s@.len(),
            r@ == without_nuls(s@.take(i as int)),
        decreases s@.len() - i,
    {
        let x = s[i];
        proof {
            assert(s@.take(i + 1) =~= s@.take(i as int).push(s@[i as int]));
            lemma_without_nuls_push(s@.take(i as int), s@[i as int]);
        }
        if x != NUL {
            r.push(x);
        }
        i = i + 1;
    }
    proof {
        assert(s@.take(s@.len() as int) =~= s@);
    }
    r
}

/// The lines of `s`, as `split_lines` describes them.
pub fn split_lines_exec(s: &[u8]) -> (r: Vec<Vec<u8>>)
    ensures
        r.deep_view() == split_lines(s@),
{
    let mut r: Vec<Vec<u8>> = Vec::new();
    let mut pos: usize = 0;
    proof {
        assert(s@.skip(0) =~= s@);
    }
    while pos < s.len()
        invariant
            0 <= pos <= s@.len(),
            split_lines(s@) == r.deep_view() + split_lines(s@.skip(pos as int)),
        decreases s@.len() - pos,
    {
        let ghost rem = s@.skip(pos as int);
        let ghost old_r = r.deep_view();
        match find_byte_from(s, pos, LF) {
            Some(j) => {
                let mut line = copy_range(s, pos, j);
                if line.len() > 0 && line[line.len() - 1] == CR {
                    line.pop();
                    proof {
                        assert(line@ =~= strip_cr(s@.subrange(pos as int, j as int)));
                    }
                }
                proof {
                    assert(line@ == strip_cr(s@.subrange(pos as int, j as int)));
                    assert(rem[j - pos] == LF);
                    assert(forall|k: int| 0 <= k < j - pos ==> rem[k] == s@[pos + k]);
                    lemma_find_byte_is_first(rem, LF, j - pos);
                    assert(rem.take(j - pos) =~= s@.subrange(pos as int, j as int));
                    assert(rem.skip(j - pos + 1) =~= s@.skip(j + 1));
                    assert(split_lines(rem) == seq![line@] + split_lines(s@.skip(j + 1)));
                }
                r.push(line);
                proof {
                    assert(r.deep_view() =~~= old_r.push(line@));
                    assert(old_r + split_lines(rem) =~~= r.deep_view() + split_lines(
                        s@.skip(j + 1),
                    ));
                }
                pos = j + 1;
            }
            None => {
                let line = copy_range(s, pos, s.len());
                proof {
                    assert(forall|k: int| 0 <= k < rem.len() ==> rem[k] == s@[pos + k]);
                    lemma_find_byte_none(rem, LF);
                    assert(rem.len() > 0);
                    assert(line@ =~= rem);
                    assert(split_lines(rem) == seq![line@]);
                }
                r.push(line);
                proof {
                    assert(r.deep_view() =~~= old_r.push(line@));
                    assert(s@.skip(s@.len() as int) =~= Seq::<u8>::empty());
                    assert(old_r + split_lines(rem) =~~= r.deep_view() + split_lines(
                        s@.skip(s@.len() as int),
                    ));
                }
                pos = s.len();
            }
        }
    }
    proof {
        assert(s@.skip(s@.len() as int) =~= Seq::<u8>::empty());
        assert(r.deep_view() + split_lines(s@.skip(pos as int)) =~~= r.deep_view());
    }
    r
}

/// `token_len` is pinned down by its first-run description.
proof fn lemma_token_len_is(t: Seq<u8>, n: int)
    requires
        0 <= n <= t.len(),
        forall|k: int| 0 <= k < n ==> !is_ws(t[k]),
        n < t.len() ==> is_ws(t[n]),
    ensures
        token_len(t) == n,
    decreases n,
{
    if n == 0 {
    } else {
        assert(!is_ws(t[0]));
        let u = t.drop_first();
        assert(forall|k: int| 0 <= k < u.len() ==> u[k] == t[k + 1]);
        lemma_token_len_is(u, n - 1);
    }
}

/// The whitespace-separated tokens of `s`, as `split_ws` describes them.
pub fn split_ws_exec(s: &[u8]) -> (r: Vec<Vec<u8>>)
    ensures
        r.deep_view() == split_ws(s@),
{
    let mut r: Vec<Vec<u8>> = Vec::new();
    let mut pos: usize = 0;
    proof {
        assert(s@.skip(0) =~= s@);
    }
    while pos < s.len()
        invariant
            0 <= pos <= s@.len(),
            split_ws(s@) == r.deep_view() + split_ws(s@.skip(pos as int)),
        decreases s@.len() - pos,
    {
        if is_ws_byte(s[pos]) {
            proof {
                let rem = s@.skip(pos as int);
                assert(rem[0] == s@[pos as int]);
                assert(rem.drop_first() =~= s@.skip(pos + 1));
            }
            pos = pos + 1;
        } else {
            let ghost rem = s@.skip(pos as int);
            let ghost old_r = r.deep_view();
            let mut j: usize = pos;
            while j < s.len() && !is_ws_byte(s[j])
                invariant
                    pos <= j <= s@.len(),
                    forall|k: int| pos <= k < j ==> !is_ws(s@[k]),
                decreases s@.len() - j,
            {
                j = j + 1;
            }
            let token = copy_range(s, pos, j);
            proof {
                assert(forall|k: int| 0 <= k < rem.len() ==> rem[k] == s@[pos + k]);
                lemma_token_len_is(rem, j - pos);
                assert(rem.take(j - pos) =~= s@.subrange(pos as int, j as int));
                assert(rem.skip(j - pos) =~= s@.skip(j as int));
                assert(split_ws(rem) == seq![token@] + split_ws(s@.skip(j as int)));
            }
            r.push(token);
            proof {
                assert(r.deep_view() =~~= old_r.push(token@));
                assert(old_r + split_ws(rem) =~~= r.deep_view() + split_ws(s@.skip(j as int)));
            }
            pos = j;
        }
    }
    proof {
        assert(s@.skip(s@.len() as int) =~= Seq::<u8>::empty());
        assert(r.deep_view() + split_ws(s@.skip(pos as int)) =~~= r.deep_view());
    }
    r
}

/// `trim_start` removes exactly the leading whitespace run.
proof fn lemma_trim_start_is(s: Seq<u8>, n: int)
    requires
        0 <= n <= s.len(),
        forall|k: int| 0 <= k < n ==> is_ws(s[k]),
        n < s.len() ==> !is_ws(s[n]),
    ensures
        trim_start(s) == s.skip(n),
    decreases n,
{
    if n == 0 {
        assert(s.skip(0) =~= s);
    } else {
        assert(is_ws(s[0]));
        let u = s.drop_first();
        assert(forall|k: int| 0 <= k < u.len() ==> u[k] == s[k + 1]);
        lemma_trim_start_is(u, n - 1);
        assert(u.skip(n - 1) =~= s.skip(n));
    }
}

/// `trim_end` removes exactly the trailing whitespace run.
proof fn lemma_trim_end_is(s: Seq<u8>, m: int)
    requires
        0 <= m <= s.len(),
        forall|k: int| m <= k < s.len() ==> is_ws(s[k]),
        m > 0 ==> !is_ws(s[m - 1]),
    ensures
        trim_end(s) == s.take(m),
    decreases s.len(),
{
    if m == s.len() {
        if s.len() > 0 && is_ws(s.last()) {
            assert(false);
        }
        assert(s.take(m) =~= s);
    } else {
        assert(is_ws(s.last()));
        let u = s.drop_last();
        assert(forall|k: int| 0 <= k < u.len() ==> u[k] == s[k]);
        lemma_trim_end_is(u, m);
        assert(u.take(m) =~= s.take(m));
    }
}

/// `s` with surrounding whitespace removed, as `trim` describes it.
pub fn trim_exec(s: &[u8]) -> (r: Vec<u8>)
    ensures
        r@ == trim(s@),
{
    let mut a: usize = 0;
    while a < s.len() && is_ws_byte(s[a])
        invariant
            0 <= a <= s@.len(),
            forall|k: int| 0 <= k < a ==> is_ws(s@[k]),
        decreases s@.len() - a,
    {
        a = a + 1;
    }
    let mut z: usize = s.len();
    while z > a && is_ws_byte(s[z - 1])
        invariant
            a <= z <= s@.len(),
            forall|k: int| z <= k < s@.len() ==> is_ws(s@[k]),
        decreases z,
    {
        z = z - 1;
    }
    let r = copy_range(s, a, z);
    proof {
        lemma_trim_start_is(s@, a as int);
        let t = s@.skip(a as int);
        assert(forall|k: int| 0 <= k < t.len() ==> t[k] == s@[a + k]);
        lemma_trim_end_is(t, z - a);
        assert(t.take(z - a) =~= s@.subrange(a as int, z as int));
    }
    r
}

/// Appends all of `src` to `dst`.
pub fn append_bytes(dst: &mut Vec<u8>, src: &[u8])
    ensures
        final(dst)@ == old(dst)@ + src@,
{
    let mut i: usize = 0;
    while i < src.len()
        invariant
            0 <= i <= src@.len(),
            dst@ == old(dst)@ + src@.take(i as int),
        decreases src@.len() - i,
    {
        dst.push(src[i]);
        proof {
            assert(old(dst)@ + src@.take(i + 1) =~= (old(dst)@ + src@.take(i as int)).push(
                src@[i as int],
            ));
        }
        i = i + 1;
    }
    proof {
        assert(src@.take(src@.len() as int) =~= src@);
    }
}

/// The decimal digits of `n`, as `dec_digits` describes them.
pub fn to_decimal(n: u64) -> (r: Vec<u8>)
    ensures
        r@ == dec_digits(n as int),
    decreases n,
{
    if n < 10 {
        let mut v: Vec<u8> = Vec::new();
        v.push(48 + (n as u8));
        proof {
            assert(v@ =~= dec_digits(n as int));
        }
        v
    } else {
        proof {
            assert(n / 10 < n) by (nonlinear_arith)
                requires
                    n >= 10,
            ;
        }
        let mut v = to_decimal(n / 10);
        v.push(48 + ((n % 10) as u8));
        v
    }
}

} // verus!
