//! Character-level string helpers: ASCII lowercasing, string equality and
//! first-occurrence search.

use vstd::prelude::*;

verus! {

/// ASCII lowercasing of one character: `'A'..='Z'` shift down by 32,
/// everything else (including non-ASCII) unchanged.
pub open spec fn lower_char(c: char) -> char {
    if 'A' <= c && c <= 'Z' {
        ((c as u32) + 32) as char
    } else {
        c
    }
}

/// ASCII lowercasing of a character sequence, position by position.
pub open spec fn lower(s: Seq<char>) -> Seq<char> {
    s.map_values(|c: char| lower_char(c))
}

/// Relies on `String::push` of std: appends the given character to the end
/// of the string.
#[verifier::external_body]
pub(crate) fn push_char(s: &mut String, c: char)
    ensures
        final(s)@ == old(s)@.push(c),
{
    s.push(c)
}

/// ASCII-lowercase a string, character by character.
pub fn to_ans_lowercase(s: &str) -> (r: String)
    ensures
        r@ == lower(s@),
{
    let n: usize = s.unicode_len();
    let mut out = String::new();
    let mut i: usize = 0;
    while i < n
        invariant
            n == s@.len(),
            i <= n,
            out@ == lower(s@.take(i as int)),
        decreases n - i,
    {
        let c = s.get_char(i);
        let lc: char = if 'A' <= c && c <= 'Z' {
            let cu: u32 = c as u32;
            let b: u8 = (cu + 32) as u8;
            proof {
                assert(b == cu + 32) by (bit_vector)
                    requires
                        cu <= 90,
                        b == (cu + 32) as u8,
                ;
            }
            b as char
        } else {
            c
        };
        proof {
            assert(lc == lower_char(c));
            assert(lower(s@.take(i + 1)) == lower(s@.take(i as int)).push(lower_char(c))) by {
                assert(s@.take(i + 1) =~= s@.take(i as int).push(c));
                assert(lower(s@.take(i as int).push(c)) =~= lower(s@.take(i as int)).push(
                    lower_char(c),
                ));
            }
        }
        push_char(&mut out, lc);
        i = i + 1;
    }
    proof {
        assert(s@.take(n as int) =~= s@);
    }
    out
}

/// Character-by-character string equality.
pub fn str_eq(a: &str, b: &str) -> (r: bool)
    ensures
        r == (a@ == b@),
{
    let na: usize = a.unicode_len();
    let nb: usize = b.unicode_len();
    if na != nb {
        proof {
            assert(a@ != b@);
        }
        return false;
    }
    let mut i: usize = 0;
    while i < na
        invariant
            na == a@.len(),
            na == b@.len(),
            i <= na,
            forall|j: int| 0 <= j < i ==> a@[j] == b@[j],
        decreases na - i,
    {
        if a.get_char(i) != b.get_char(i) {
            return false;
        }
        i = i + 1;
    }
    proof {
        assert(a@ =~= b@);
    }
    true
}

/// Index of the first occurrence of `c` in `s` at or after position `i`,
/// or `s.len()` if there is none.
pub open spec fn first_index_from(s: Seq<char>, c: char, i: int) -> int
    decreases s.len() - i,
{
    if !(0 <= i < s.len()) {
        s.len() as int
    } else if s[i] == c {
        i
    } else {
        first_index_from(s, c, i + 1)
    }
}

pub proof fn lemma_first_index_from_bounds(s: Seq<char>, c: char, i: int)
    requires
        0 <= i <= s.len(),
    ensures
        i <= first_index_from(s, c, i) <= s.len(),
        first_index_from(s, c, i) < s.len() ==> s[first_index_from(s, c, i)] == c,
        forall|j: int| i <= j < first_index_from(s, c, i) ==> s[j] != c,
    decreases s.len() - i,
{
    if 0 <= i < s.len() && s[i] != c {
        lemma_first_index_from_bounds(s, c, i + 1);
    }
}

/// Find the first occurrence of `c` in `s` at or after `from`, or
/// `s@.len()` if there is none.
pub fn find_char(s: &str, c: char, from: usize) -> (r: usize)
    requires
        from <= s@.len(),
    ensures
        r == first_index_from(s@, c, from as int),
{
    let n: usize = s.unicode_len();
    let mut i: usize = from;
    while i < n
        invariant
            n == s@.len(),
            i <= n,
            first_index_from(s@, c, from as int) == first_index_from(s@, c, i as int),
        decreases n - i,
    {
        if s.get_char(i) == c {
            return i;
        }
        i = i + 1;
    }
    i
}

/// The characters this crate's document parsing counts as blank.
pub open spec fn is_doc_space(c: char) -> bool {
    c == ' ' || c == '\t' || c == '\r' || c == '\n'
}

/// `s` with its leading run of `pred` characters removed.
pub open spec fn trim_front(s: Seq<char>, pred: spec_fn(char) -> bool) -> Seq<char>
    decreases s.len(),
{
    if s.len() > 0 && pred(s[0]) {
        trim_front(s.drop_first(), pred)
    } else {
        s
    }
}

/// `s` with its trailing run of `pred` characters removed.
pub open spec fn trim_back(s: Seq<char>, pred: spec_fn(char) -> bool) -> Seq<char>
    decreases s.len(),
{
    if s.len() > 0 && pred(s.last()) {
        trim_back(s.drop_last(), pred)
    } else {
        s
    }
}

/// `s` with both runs removed.
pub open spec fn trim_by(s: Seq<char>, pred: spec_fn(char) -> bool) -> Seq<char> {
    trim_back(trim_front(s, pred), pred)
}

/// The blank-character predicate.
pub open spec fn space_pred() -> spec_fn(char) -> bool {
    |c: char| is_doc_space(c)
}

/// The predicate matching exactly one character.
pub open spec fn char_pred(t: char) -> spec_fn(char) -> bool {
    |c: char| c == t
}

/// The predicate a trim mode stands for: blanks, or one given character.
pub open spec fn pred_of(m: Option<char>) -> spec_fn(char) -> bool {
    match m {
        None => space_pred(),
        Some(t) => char_pred(t),
    }
}

proof fn lemma_trim_front_idx(s: Seq<char>, pred: spec_fn(char) -> bool, k: int)
    requires
        0 <= k <= s.len(),
        forall|j: int| 0 <= j < k ==> pred(s[j]),
        k < s.len() ==> !pred(s[k]),
    ensures
        trim_front(s, pred) == s.subrange(k, s.len() as int),
    decreases k,
{
    if k == 0 {
        assert(s.subrange(0, s.len() as int) =~= s);
    } else {
        lemma_trim_front_idx(s.drop_first(), pred, k - 1);
        assert(s.drop_first().subrange(k - 1, s.drop_first().len() as int) =~= s.subrange(
            k,
            s.len() as int,
        ));
    }
}

proof fn lemma_trim_back_idx(s: Seq<char>, pred: spec_fn(char) -> bool, k: int)
    requires
        0 <= k <= s.len(),
        forall|j: int| k <= j < s.len() ==> pred(s[j]),
        k > 0 ==> !pred(s[k - 1]),
    ensures
        trim_back(s, pred) == s.subrange(0, k),
    decreases s.len(),
{
    if k == s.len() {
        assert(s.subrange(0, k) =~= s);
    } else {
        assert(pred(s.last()));
        lemma_trim_back_idx(s.drop_last(), pred, k);
        assert(s.drop_last().subrange(0, k) =~= s.subrange(0, k));
    }
}

/// Whether `c` is blank (`m` of `None`) or equals the given character.
fn matches_trim_mode(c: char, m: Option<char>) -> (r: bool)
    ensures
        r == pred_of(m)(c),
{
    match m {
        None => c == ' ' || c == '\t' || c == '\r' || c == '\n',
        Some(t) => c == t,
    }
}

/// Remove the leading and trailing run of blanks (`m` of `None`) or of
/// one given character from `s`.
pub fn trim_with<'a>(s: &'a str, m: Option<char>) -> (r: &'a str)
    ensures
        r@ == trim_by(s@, pred_of(m)),
{
    let ghost pred = pred_of(m);
    let n: usize = s.unicode_len();
    let mut a: usize = 0;
    while a < n && matches_trim_mode(s.get_char(a), m)
        invariant
            n == s@.len(),
            pred == pred_of(m),
            a <= n,
            forall|j: int| 0 <= j < a ==> pred(s@[j]),
        decreases n - a,
    {
        a = a + 1;
    }
    let mut b: usize = n;
    while b > a && matches_trim_mode(s.get_char(b - 1), m)
        invariant
            n == s@.len(),
            pred == pred_of(m),
            a <= b <= n,
            forall|j: int| b <= j < n ==> pred(s@[j]),
        decreases b,
    {
        b = b - 1;
    }
    let r = s.substring_char(a, b);
    proof {
        lemma_trim_front_idx(s@, pred, a as int);
        let tf = s@.subrange(a as int, n as int);
        lemma_trim_back_idx(tf, pred, b - a);
        assert(tf.subrange(0, b - a) =~= s@.subrange(a as int, b as int));
    }
    r
}

} // verus!
