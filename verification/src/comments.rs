//! The comment preprocessor.
//!
//! Before tokenization, every line comment (`//` up to, and not
//! including, the next newline or the end of the text) and every block
//! comment (`/*` up to and including the first following `*/`) is
//! deleted from the text — replaced by nothing, not by a space. A `/*`
//! with no closing `*/` is not a comment and stays in the text. The
//! text is scanned left to right, and scanning resumes right after each
//! deleted comment, so the markers of a deleted comment never combine
//! with neighbouring characters into a new marker.
//!
//! [`strip_from`] is the specification of that scan; [`remove_comments`]
//! is the executable pass, proved to return exactly what the
//! specification says. The lemmas at the end state the laws of
//! deletion: a text without comment markers is left unchanged, and a
//! comment between two pieces of text is deleted outright, joining the
//! pieces with nothing in between.

use vstd::prelude::*;

verus! {

/// A line comment opens at `i`: the two characters `//`.
pub open spec fn line_comment_at(s: Seq<char>, i: int) -> bool {
    0 <= i && i + 2 <= s.len() && s[i] == '/' && s[i + 1] == '/'
}

/// A block comment opens at `i`: the two characters `/*`.
pub open spec fn block_open_at(s: Seq<char>, i: int) -> bool {
    0 <= i && i + 2 <= s.len() && s[i] == '/' && s[i + 1] == '*'
}

/// Some comment marker, of either kind, opens at `i`.
pub open spec fn comment_marker_at(s: Seq<char>, i: int) -> bool {
    line_comment_at(s, i) || block_open_at(s, i)
}

/// The text holds no comment marker at all.
pub open spec fn marker_free(s: Seq<char>) -> bool {
    forall|i: int| !comment_marker_at(s, i)
}

/// The index of the first newline at or after `i`, or `s.len()` if
/// there is none.
pub open spec fn find_newline(s: Seq<char>, i: int) -> int
    decreases s.len() - i,
        when 0 <= i <= s.len()
{
    if i == s.len() {
        i
    } else if s[i] == '\n' {
        i
    } else {
        find_newline(s, i + 1)
    }
}

/// The index of the first `*/` whose `*` stands at or after `i`, or
/// `None` if there is none.
pub open spec fn find_block_close(s: Seq<char>, i: int) -> Option<int>
    decreases s.len() - i,
        when 0 <= i <= s.len()
{
    if i + 2 > s.len() {
        None
    } else if s[i] == '*' && s[i + 1] == '/' {
        Some(i)
    } else {
        find_block_close(s, i + 1)
    }
}

/// What [`find_newline`] returns: the first newline position, or the
/// length when no newline follows.
pub proof fn lemma_find_newline(s: Seq<char>, i: int)
    requires
        0 <= i <= s.len(),
    ensures
        i <= find_newline(s, i) <= s.len(),
        find_newline(s, i) < s.len() ==> s[find_newline(s, i)] == '\n',
        forall|j: int| i <= j < find_newline(s, i) ==> s[j] != '\n',
    decreases s.len() - i,
{
    if i == s.len() {
    } else if s[i] == '\n' {
    } else {
        lemma_find_newline(s, i + 1);
    }
}

/// What [`find_block_close`] returns: the first position of a `*/`
/// pair, or `None` when no such pair follows.
pub proof fn lemma_find_block_close(s: Seq<char>, i: int)
    requires
        0 <= i <= s.len(),
    ensures
        match find_block_close(s, i) {
            Some(k) => i <= k && k + 2 <= s.len() && s[k] == '*' && s[k + 1] == '/' && (forall|
                j: int,
            | i <= j < k ==> !(#[trigger] s[j] == '*' && s[j + 1] == '/')),
            None => forall|j: int|
                i <= j && j + 2 <= s.len() ==> !(#[trigger] s[j] == '*' && s[j + 1] == '/'),
        },
    decreases s.len() - i,
{
    if i + 2 > s.len() {
    } else if s[i] == '*' && s[i + 1] == '/' {
    } else {
        lemma_find_block_close(s, i + 1);
    }
}

/// The text with every comment at or after `i` deleted.
///
/// At each position: a `//` skips to the next newline (the newline
/// itself stays); a `/*` with a closing `*/` skips to just after that
/// close; anything else — including a `/*` that is never closed — is
/// kept. This mirrors a left-to-right, non-greedy match of the two
/// comment forms, each replaced by the empty string.
pub open spec fn strip_from(s: Seq<char>, i: int) -> Seq<char>
    decreases s.len() - i,
        when 0 <= i <= s.len()
        via strip_from_decreases
{
    if i == s.len() {
        Seq::empty()
    } else if line_comment_at(s, i) {
        strip_from(s, find_newline(s, i + 2))
    } else if block_open_at(s, i) {
        match find_block_close(s, i + 2) {
            Some(k) => strip_from(s, k + 2),
            None => seq![s[i]] + strip_from(s, i + 1),
        }
    } else {
        seq![s[i]] + strip_from(s, i + 1)
    }
}

#[via_fn]
proof fn strip_from_decreases(s: Seq<char>, i: int) {
    if 0 <= i && i < s.len() {
        if line_comment_at(s, i) {
            lemma_find_newline(s, i + 2);
        } else if block_open_at(s, i) {
            lemma_find_block_close(s, i + 2);
        }
    }
}

/// The text with every comment deleted.
pub open spec fn strip_comments(s: Seq<char>) -> Seq<char> {
    strip_from(s, 0)
}

/// Deleting comments from position `i` of `s` is deleting comments
/// from the suffix of `s` that starts at `i`.
pub proof fn lemma_strip_from_shift(s: Seq<char>, i: int, j: int)
    requires
        0 <= i <= j <= s.len(),
    ensures
        strip_from(s, j) == strip_from(s.skip(i), j - i),
    decreases s.len() - j,
{
    let t = s.skip(i);
    assert(t.len() == s.len() - i);
    assert(forall|k: int| 0 <= k < t.len() ==> t[k] == s[i + k]);
    if j == s.len() {
    } else if line_comment_at(s, j) {
        assert(line_comment_at(t, j - i));
        lemma_find_newline_shift(s, i, j + 2);
        lemma_find_newline(s, j + 2);
        lemma_strip_from_shift(s, i, find_newline(s, j + 2));
    } else if block_open_at(s, j) {
        assert(block_open_at(t, j - i));
        lemma_find_block_close_shift(s, i, j + 2);
        lemma_find_block_close(s, j + 2);
        match find_block_close(s, j + 2) {
            Some(k) => {
                lemma_strip_from_shift(s, i, k + 2);
            },
            None => {
                lemma_strip_from_shift(s, i, j + 1);
            },
        }
    } else {
        assert(!line_comment_at(t, j - i) && !block_open_at(t, j - i));
        lemma_strip_from_shift(s, i, j + 1);
    }
}

/// Searching for a newline commutes with taking the suffix at `i`.
pub proof fn lemma_find_newline_shift(s: Seq<char>, i: int, j: int)
    requires
        0 <= i <= j <= s.len(),
    ensures
        find_newline(s, j) == i + find_newline(s.skip(i), j - i),
    decreases s.len() - j,
{
    let t = s.skip(i);
    if j == s.len() {
    } else if s[j] == '\n' {
        assert(t[j - i] == '\n');
    } else {
        lemma_find_newline_shift(s, i, j + 1);
    }
}

/// Searching for a `*/` pair commutes with taking the suffix at `i`.
pub proof fn lemma_find_block_close_shift(s: Seq<char>, i: int, j: int)
    requires
        0 <= i <= j <= s.len(),
    ensures
        match find_block_close(s, j) {
            Some(k) => find_block_close(s.skip(i), j - i) == Some(k - i),
            None => find_block_close(s.skip(i), j - i) is None,
        },
    decreases s.len() - j,
{
    let t = s.skip(i);
    if j + 2 > s.len() {
    } else if s[j] == '*' && s[j + 1] == '/' {
        assert(t[j - i] == '*' && t[j - i + 1] == '/');
    } else {
        assert(!(t[j - i] == '*' && t[j - i + 1] == '/'));
        lemma_find_block_close_shift(s, i, j + 1);
    }
}

/// A text without comment markers is left unchanged by deletion.
pub proof fn lemma_strip_marker_free(s: Seq<char>)
    requires
        marker_free(s),
    ensures
        strip_comments(s) == s,
    decreases s.len(),
{
    if s.len() == 0 {
        assert(strip_comments(s) =~= s);
    } else {
        assert(!comment_marker_at(s, 0));
        let rest = s.skip(1);
        assert(forall|k: int| comment_marker_at(rest, k) ==> comment_marker_at(s, k + 1));
        lemma_strip_from_shift(s, 1, 1);
        lemma_strip_marker_free(rest);
        assert(strip_comments(s) =~= s);
    }
}

/// A marker-free piece of text that does not end in `/` passes through
/// deletion unchanged, whatever follows it.
pub proof fn lemma_strip_clean_prefix(a: Seq<char>, b: Seq<char>)
    requires
        marker_free(a),
        a.len() > 0 ==> a.last() != '/',
    ensures
        strip_comments(a + b) == a + strip_comments(b),
    decreases a.len(),
{
    let s = a + b;
    if a.len() == 0 {
        assert(s =~= b);
        assert(a + strip_comments(b) =~= strip_comments(b));
    } else {
        assert(s[0] == a[0]);
        if a.len() >= 2 {
            assert(s[1] == a[1]);
            assert(!comment_marker_at(a, 0));
            assert(!comment_marker_at(s, 0));
        } else {
            // one character, and it is not '/', so no marker can open at 0
            assert(a[0] != '/');
            assert(!comment_marker_at(s, 0));
        }
        lemma_strip_from_shift(s, 1, 1);
        assert(s.skip(1) =~= a.skip(1) + b);
        let a1 = a.skip(1);
        assert(forall|k: int| comment_marker_at(a1, k) ==> comment_marker_at(a, k + 1));
        if a1.len() > 0 {
            assert(a1.last() == a.last());
        }
        lemma_strip_clean_prefix(a1, b);
        assert(strip_comments(s) == seq![a[0]] + (a1 + strip_comments(b)));
        assert(seq![a[0]] + (a1 + strip_comments(b)) =~= a + strip_comments(b));
    }
}

/// Deletion, not blanking, of a block comment: a `/*`..`*/` comment
/// standing between two pieces of text is removed outright, so the
/// pieces meet with nothing in between. The text before the comment
/// must hold no marker of its own and not end in `/`, and the comment
/// body must hold no early `*/`; the text after the comment is
/// arbitrary.
pub proof fn lemma_block_comment_deleted(a: Seq<char>, inner: Seq<char>, b: Seq<char>)
    requires
        marker_free(a),
        a.len() > 0 ==> a.last() != '/',
        forall|j: int|
            0 <= j && j + 2 <= inner.len() ==> !(#[trigger] inner[j] == '*' && inner[j + 1] == '/'),
    ensures
        strip_comments(a + seq!['/', '*'] + inner + seq!['*', '/'] + b) == strip_comments(a + b),
{
    let m = seq!['/', '*'] + inner + seq!['*', '/'] + b;
    assert(a + seq!['/', '*'] + inner + seq!['*', '/'] + b =~= a + m);
    lemma_strip_clean_prefix(a, m);
    // the comment opens at 0 of m and closes at the written `*/`
    assert(block_open_at(m, 0));
    assert(!line_comment_at(m, 0));
    let close = 2 + inner.len() as int;
    assert(m[close] == '*' && m[close + 1] == '/');
    assert(forall|j: int| 2 <= j < close ==> m[j] == inner[j - 2]);
    lemma_find_block_close(m, 2);
    match find_block_close(m, 2) {
        Some(k) => {
            if k < close {
                assert(m[k] == '*' && m[k + 1] == '/');
                if k + 1 < close {
                    assert(inner[k - 2] == '*' && inner[k - 1] == '/');
                    assert(false);
                } else {
                    // the pair would span the end of the body and the
                    // written close, whose first character is '*'
                    assert(m[k + 1] == '*');
                    assert(false);
                }
            }
            assert(k == close);
        },
        None => {
            assert(false);
        },
    }
    lemma_strip_from_shift(m, close + 2, close + 2);
    assert(m.skip(close + 2) =~= b);
    assert(strip_comments(m) == strip_comments(b));
    lemma_strip_clean_prefix(a, b);
}

/// Deletion of a line comment: `//` and the comment body are removed
/// up to, and not including, the newline that ends the line, so the
/// text lexes as if only the newline stood between the two pieces.
pub proof fn lemma_line_comment_deleted(a: Seq<char>, inner: Seq<char>, b: Seq<char>)
    requires
        marker_free(a),
        a.len() > 0 ==> a.last() != '/',
        forall|j: int| 0 <= j < inner.len() ==> inner[j] != '\n',
    ensures
        strip_comments(a + seq!['/', '/'] + inner + seq!['\n'] + b) == strip_comments(
            a + seq!['\n'] + b,
        ),
{
    let m = seq!['/', '/'] + inner + seq!['\n'] + b;
    assert(a + seq!['/', '/'] + inner + seq!['\n'] + b =~= a + m);
    lemma_strip_clean_prefix(a, m);
    assert(line_comment_at(m, 0));
    let nl = 2 + inner.len() as int;
    assert(m[nl] == '\n');
    assert(forall|j: int| 2 <= j < nl ==> m[j] == inner[j - 2]);
    lemma_find_newline(m, 2);
    let f = find_newline(m, 2);
    if f < nl {
        assert(m[f] == '\n');
        assert(inner[f - 2] == '\n');
        assert(false);
    }
    if f > nl {
        assert(m[nl] != '\n');
        assert(false);
    }
    assert(f == nl);
    lemma_strip_from_shift(m, nl, nl);
    assert(m.skip(nl) =~= seq!['\n'] + b);
    assert(strip_comments(m) == strip_comments(seq!['\n'] + b));
    lemma_strip_clean_prefix(a, seq!['\n'] + b);
    assert(a + seq!['\n'] + b =~= a + (seq!['\n'] + b));
}

/// The index of the first newline at or after `start`, or the length
/// of the text if there is none.
fn find_newline_from(v: &Vec<char>, start: usize) -> (r: usize)
    requires
        start <= v@.len(),
    ensures
        r == find_newline(v@, start as int),
{
    let mut j = start;
    while j < v.len()
        invariant
            start <= j <= v@.len(),
            find_newline(v@, start as int) == find_newline(v@, j as int),
        decreases v@.len() - j,
    {
        if v[j] == '\n' {
            return j;
        }
        j = j + 1;
    }
    j
}

/// The index of the first `*/` whose `*` stands at or after `start`,
/// or `None` if there is none.
fn find_block_close_from(v: &Vec<char>, start: usize) -> (r: Option<usize>)
    requires
        start <= v@.len(),
    ensures
        match r {
            Some(k) => find_block_close(v@, start as int) == Some(k as int),
            None => find_block_close(v@, start as int) is None,
        },
{
    let mut j = start;
    while j < v.len() && j + 1 < v.len()
        invariant
            start <= j <= v@.len(),
            find_block_close(v@, start as int) == find_block_close(v@, j as int),
        decreases v@.len() - j,
    {
        if v[j] == '*' && v[j + 1] == '/' {
            return Some(j);
        }
        j = j + 1;
    }
    None
}

/// The comment preprocessor: the text with every line comment and
/// every block comment deleted, as [`strip_comments`] specifies.
pub fn remove_comments(v: &Vec<char>) -> (r: Vec<char>)
    ensures
        r@ == strip_comments(v@),
{
    let mut out: Vec<char> = Vec::new();
    let mut i: usize = 0;
    while i < v.len()
        invariant
            i <= v@.len(),
            strip_comments(v@) == out@ + strip_from(v@, i as int),
        decreases v@.len() - i,
    {
        let ghost i0 = i as int;
        let c = v[i];
        if c == '/' && i + 1 < v.len() && v[i + 1] == '/' {
            assert(line_comment_at(v@, i0));
            let j = find_newline_from(v, i + 2);
            proof {
                lemma_find_newline(v@, i0 + 2);
            }
            i = j;
        } else if c == '/' && i + 1 < v.len() && v[i + 1] == '*' {
            assert(block_open_at(v@, i0));
            match find_block_close_from(v, i + 2) {
                Some(k) => {
                    proof {
                        lemma_find_block_close(v@, i0 + 2);
                    }
                    i = k + 2;
                },
                None => {
                    out.push(c);
                    i = i + 1;
                    assert(out@ + strip_from(v@, i as int) =~= strip_comments(v@));
                },
            }
        } else {
            assert(!line_comment_at(v@, i0) && !block_open_at(v@, i0));
            out.push(c);
            i = i + 1;
            assert(out@ + strip_from(v@, i as int) =~= strip_comments(v@));
        }
    }
    assert(out@ + strip_from(v@, v@.len() as int) =~= out@);
    out
}

} // verus!
