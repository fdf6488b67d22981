//! Small verified text helpers shared across the crate.

use vstd::prelude::*;

verus! {

/// Relies on std's `String::push`: appends the given character to the string.
pub assume_specification[ String::push ](s: &mut String, c: char)
    ensures
        final(s)@ == old(s)@.push(c),
;

/// An ASCII whitespace character.
pub open spec fn is_space(c: char) -> bool {
    c == ' ' || c == '\t' || c == '\r' || c == '\n'
}

/// A string of nothing but whitespace (or nothing at all).
pub open spec fn is_blank(s: Seq<char>) -> bool {
    forall|i: int| 0 <= i < s.len() ==> is_space(s[i])
}

/// Whether two string slices hold the same characters.
pub fn str_eq(a: &str, b: &str) -> (r: bool)
    ensures
        r == (a@ == b@),
{
    let alen = a.unicode_len();
    let blen = b.unicode_len();
    if alen != blen {
        proof {
            assert(a@ != b@);
        }
        return false;
    }
    let mut i: usize = 0;
    while i < alen
        invariant
            i <= alen,
            alen == a@.len(),
            alen == b@.len(),
            forall|j: int| 0 <= j < i ==> a@[j] == b@[j],
        decreases alen - i,
    {
        if a.get_char(i) != b.get_char(i) {
            proof {
                assert(a@[i as int] != b@[i as int]);
            }
            return false;
        }
        i = i + 1;
    }
    proof {
        assert(a@ =~= b@);
    }
    true
}

/// The character's scalar value, with ASCII capitals folded to lower case.
pub open spec fn fold_code(c: char) -> int {
    if 65 <= c as u32 && c as u32 <= 90 {
        c as u32 + 32
    } else {
        c as u32 as int
    }
}

/// Two texts that are equal up to ASCII case.
pub open spec fn fold_eq(a: Seq<char>, b: Seq<char>) -> bool {
    a.len() == b.len() && (forall|i: int| 0 <= i < a.len() ==> fold_code(a[i]) == fold_code(b[i]))
}

/// Lexicographic order on texts, comparing ASCII-case-folded scalar values.
pub open spec fn lex_fold_le(a: Seq<char>, b: Seq<char>) -> bool
    decreases a.len(),
{
    if a.len() == 0 {
        true
    } else if b.len() == 0 {
        false
    } else if fold_code(a[0]) < fold_code(b[0]) {
        true
    } else if fold_code(a[0]) > fold_code(b[0]) {
        false
    } else {
        lex_fold_le(a.drop_first(), b.drop_first())
    }
}

/// The folded order relates every pair of texts one way or the other.
pub proof fn lemma_lex_fold_total(a: Seq<char>, b: Seq<char>)
    ensures
        lex_fold_le(a, b) || lex_fold_le(b, a),
    decreases a.len(),
{
    if a.len() > 0 && b.len() > 0 && fold_code(a[0]) == fold_code(b[0]) {
        lemma_lex_fold_total(a.drop_first(), b.drop_first());
    }
}

/// The folded order is transitive.
pub proof fn lemma_lex_fold_trans(a: Seq<char>, b: Seq<char>, c: Seq<char>)
    requires
        lex_fold_le(a, b),
        lex_fold_le(b, c),
    ensures
        lex_fold_le(a, c),
    decreases a.len(),
{
    if a.len() > 0 {
        if b.len() > 0 && c.len() > 0 && fold_code(a[0]) == fold_code(b[0]) && fold_code(b[0])
            == fold_code(c[0]) {
            lemma_lex_fold_trans(a.drop_first(), b.drop_first(), c.drop_first());
        }
    }
}

/// When the first `i` characters fold alike, the comparison is decided by
/// the rest.
proof fn lemma_lex_fold_skip(a: Seq<char>, b: Seq<char>, i: int)
    requires
        0 <= i <= a.len(),
        i <= b.len(),
        forall|j: int| 0 <= j < i ==> fold_code(a[j]) == fold_code(b[j]),
    ensures
        lex_fold_le(a, b) == lex_fold_le(a.skip(i), b.skip(i)),
    decreases i,
{
    if i == 0 {
        assert(a.skip(0) =~= a);
        assert(b.skip(0) =~= b);
    } else {
        assert(fold_code(a[0]) == fold_code(b[0]));
        assert(forall|j: int|
            0 <= j < i - 1 ==> fold_code(a.drop_first()[j]) == fold_code(b.drop_first()[j]));
        lemma_lex_fold_skip(a.drop_first(), b.drop_first(), i - 1);
        assert(a.drop_first().skip(i - 1) =~= a.skip(i));
        assert(b.drop_first().skip(i - 1) =~= b.skip(i));
    }
}

/// The character's ASCII-case-folded scalar value.
pub fn fold_code_of(c: char) -> (r: u32)
    ensures
        r == fold_code(c),
{
    let u = c as u32;
    if 65 <= u && u <= 90 {
        u + 32
    } else {
        u
    }
}

/// Whether two slices are equal up to ASCII case.
pub fn str_fold_eq(a: &str, b: &str) -> (r: bool)
    ensures
        r == fold_eq(a@, b@),
{
    let alen = a.unicode_len();
    let blen = b.unicode_len();
    if alen != blen {
        return false;
    }
    let mut i: usize = 0;
    while i < alen
        invariant
            i <= alen,
            alen == a@.len(),
            alen == b@.len(),
            forall|j: int| 0 <= j < i ==> fold_code(a@[j]) == fold_code(b@[j]),
        decreases alen - i,
    {
        if fold_code_of(a.get_char(i)) != fold_code_of(b.get_char(i)) {
            return false;
        }
        i = i + 1;
    }
    true
}

/// Whether `a` comes no later than `b` in the folded lexicographic order.
pub fn str_fold_le(a: &str, b: &str) -> (r: bool)
    ensures
        r == lex_fold_le(a@, b@),
{
    let alen = a.unicode_len();
    let blen = b.unicode_len();
    let mut i: usize = 0;
    loop
        invariant
            i <= alen,
            i <= blen,
            alen == a@.len(),
            blen == b@.len(),
            forall|j: int| 0 <= j < i ==> fold_code(a@[j]) == fold_code(b@[j]),
        decreases alen - i,
    {
        if i >= alen {
            proof {
                lemma_lex_fold_skip(a@, b@, i as int);
            }
            return true;
        }
        if i >= blen {
            proof {
                lemma_lex_fold_skip(a@, b@, i as int);
            }
            return false;
        }
        let ca = fold_code_of(a.get_char(i));
        let cb = fold_code_of(b.get_char(i));
        if ca < cb {
            proof {
                lemma_lex_fold_skip(a@, b@, i as int);
            }
            return true;
        }
        if ca > cb {
            proof {
                lemma_lex_fold_skip(a@, b@, i as int);
            }
            return false;
        }
        i = i + 1;
    }
}

/// The characters of a vector gathered into a string.
pub(crate) fn chars_to_string(v: &Vec<char>) -> (r: String)
    ensures
        r@ == v@,
{
    let mut out = String::new();
    let mut i: usize = 0;
    while i < v.len()
        invariant
            i <= v@.len(),
            out@ == v@.subrange(0, i as int),
        decreases v@.len() - i,
    {
        out.push(v[i]);
        proof {
            assert(out@ =~= v@.subrange(0, i + 1));
        }
        i = i + 1;
    }
    proof {
        assert(v@.subrange(0, v@.len() as int) =~= v@);
    }
    out
}

/// Whether the slice is empty or all whitespace.
pub fn str_is_blank(s: &str) -> (r: bool)
    ensures
        r == is_blank(s@),
{
    let len = s.unicode_len();
    let mut i: usize = 0;
    while i < len
        invariant
            i <= len,
            len == s@.len(),
            forall|j: int| 0 <= j < i ==> is_space(s@[j]),
        decreases len - i,
    {
        let c = s.get_char(i);
        if !(c == ' ' || c == '\t' || c == '\r' || c == '\n') {
            return false;
        }
        i = i + 1;
    }
    true
}

} // verus!
