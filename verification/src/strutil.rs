//! Small string predicates the listings and input checks rely on: ASCII
//! whitespace trimming, blank tests, and ASCII-case-insensitive substring
//! search, all stated over character sequences.

use vstd::prelude::*;

verus! {

use vstd::string::StrSliceExecFns;

/// ASCII whitespace: space, tab, line feed, carriage return.
pub open spec fn is_space(c: char) -> bool {
    c as u32 == 32 || c as u32 == 9 || c as u32 == 10 || c as u32 == 13
}

/// Whether every character is whitespace (true of the empty sequence).
pub open spec fn all_space(s: Seq<char>) -> bool {
    forall|i: int| 0 <= i < s.len() ==> is_space(#[trigger] s[i])
}

/// The sequence with leading whitespace dropped.
pub open spec fn drop_leading(s: Seq<char>) -> Seq<char>
    decreases s.len(),
{
    if s.len() > 0 && is_space(s[0]) {
        drop_leading(s.drop_first())
    } else {
        s
    }
}

/// The sequence with trailing whitespace dropped.
pub open spec fn drop_trailing(s: Seq<char>) -> Seq<char>
    decreases s.len(),
{
    if s.len() > 0 && is_space(s.last()) {
        drop_trailing(s.drop_last())
    } else {
        s
    }
}

/// The sequence with whitespace dropped at both ends.
pub open spec fn trim_of(s: Seq<char>) -> Seq<char> {
    drop_trailing(drop_leading(s))
}

/// The lowercase image of an ASCII letter's scalar value; other values
/// unchanged.
pub open spec fn lower32(v: u32) -> u32 {
    if 65 <= v && v <= 90 {
        (v + 32) as u32
    } else {
        v
    }
}

/// The scalar values of a character sequence, ASCII-lowercased.
pub open spec fn lower_of(s: Seq<char>) -> Seq<u32> {
    Seq::new(s.len(), |i: int| lower32(s[i] as u32))
}

/// Whether `needle` occurs in `hay` starting at `i`.
pub open spec fn contains_at(hay: Seq<u32>, needle: Seq<u32>, i: int) -> bool {
    forall|j: int| 0 <= j < needle.len() ==> hay[i + j] == #[trigger] needle[j]
}

/// Whether `needle` occurs anywhere in `hay` (the empty needle always
/// does).
pub open spec fn contains_sub(hay: Seq<u32>, needle: Seq<u32>) -> bool {
    exists|i: int| 0 <= i && i + needle.len() <= hay.len() && contains_at(hay, needle, i)
}

/// Dropping leading whitespace keeps the suffix from the first
/// non-whitespace character.
pub proof fn lemma_drop_leading_at(s: Seq<char>, k: int)
    requires
        0 <= k <= s.len(),
        forall|j: int| 0 <= j < k ==> is_space(#[trigger] s[j]),
        k == s.len() || !is_space(s[k]),
    ensures
        drop_leading(s) == s.subrange(k, s.len() as int),
    decreases k,
{
    if k == 0 {
        assert(s.subrange(0, s.len() as int) =~= s);
    } else {
        assert(is_space(s[0]));
        assert forall|j: int| 0 <= j < k - 1 implies is_space(#[trigger] s.drop_first()[j]) by {
            assert(s.drop_first()[j] == s[j + 1]);
        }
        if k - 1 < s.drop_first().len() {
            assert(s.drop_first()[k - 1] == s[k]);
        }
        lemma_drop_leading_at(s.drop_first(), k - 1);
        assert(s.drop_first().subrange(k - 1, s.drop_first().len() as int) =~= s.subrange(
            k,
            s.len() as int,
        ));
    }
}

/// Dropping trailing whitespace keeps the prefix up to the last
/// non-whitespace character.
pub proof fn lemma_drop_trailing_at(s: Seq<char>, k: int)
    requires
        0 <= k <= s.len(),
        forall|j: int| k <= j < s.len() ==> is_space(#[trigger] s[j]),
        k == 0 || !is_space(s[k - 1]),
    ensures
        drop_trailing(s) == s.subrange(0, k),
    decreases s.len() - k,
{
    if k == s.len() {
        if s.len() > 0 && is_space(s.last()) {
            assert(false);
        }
        assert(s.subrange(0, k) =~= s);
    } else {
        assert(is_space(s.last()));
        assert forall|j: int| k <= j < s.drop_last().len() implies is_space(
            #[trigger] s.drop_last()[j],
        ) by {
            assert(s.drop_last()[j] == s[j]);
        }
        if k > 0 {
            assert(s.drop_last()[k - 1] == s[k - 1]);
        }
        lemma_drop_trailing_at(s.drop_last(), k);
        assert(s.drop_last().subrange(0, k) =~= s.subrange(0, k));
    }
}

/// Whether the scalar is ASCII whitespace.
fn is_space_val(v: u32) -> (r: bool)
    ensures
        r == (v == 32 || v == 9 || v == 10 || v == 13),
{
    v == 32 || v == 9 || v == 10 || v == 13
}

/// Whether a string is empty or whitespace throughout — what "blank
/// after trimming" means.
pub fn is_blank(s: &str) -> (r: bool)
    ensures
        r == all_space(s@),
{
    let n = s.unicode_len();
    let mut i: usize = 0;
    while i < n
        invariant
            n == s@.len(),
            i <= n,
            forall|j: int| 0 <= j < i ==> is_space(#[trigger] s@[j]),
        decreases n - i,
    {
        let c = s.get_char(i);
        if !is_space_val(c as u32) {
            assert(!is_space(s@[i as int]));
            return false;
        }
        i = i + 1;
    }
    true
}

/// Trims ASCII whitespace from both ends.
pub fn trim_str(s: &str) -> (r: String)
    ensures
        r@ == trim_of(s@),
{
    let n = s.unicode_len();
    let mut a: usize = 0;
    loop
        invariant_except_break
            n == s@.len(),
            a <= n,
            forall|j: int| 0 <= j < a ==> is_space(#[trigger] s@[j]),
        ensures
            n == s@.len(),
            a <= n,
            forall|j: int| 0 <= j < a ==> is_space(#[trigger] s@[j]),
            a == n || !is_space(s@[a as int]),
        decreases n - a,
    {
        if a >= n {
            break ;
        }
        let c = s.get_char(a);
        if !is_space_val(c as u32) {
            break ;
        }
        a = a + 1;
    }
    let mut b: usize = n;
    loop
        invariant_except_break
            n == s@.len(),
            a <= b <= n,
            forall|j: int| b <= j < n ==> is_space(#[trigger] s@[j]),
        ensures
            n == s@.len(),
            a <= b <= n,
            forall|j: int| b <= j < n ==> is_space(#[trigger] s@[j]),
            b == a || !is_space(s@[b - 1]),
        decreases b,
    {
        if b <= a {
            break ;
        }
        let c = s.get_char(b - 1);
        if !is_space_val(c as u32) {
            break ;
        }
        b = b - 1;
    }
    proof {
        lemma_drop_leading_at(s@, a as int);
        let mid = s@.subrange(a as int, s@.len() as int);
        assert forall|j: int| b - a <= j < mid.len() implies is_space(#[trigger] mid[j]) by {
            assert(mid[j] == s@[j + a]);
        }
        if b > a {
            assert(mid[b - a - 1] == s@[b - 1]);
        }
        lemma_drop_trailing_at(mid, b - a);
        assert(mid.subrange(0, b - a) =~= s@.subrange(a as int, b as int));
    }
    let slice = s.substring_char(a, b);
    slice.to_owned()
}

/// The characters ASCII bytes spell.
pub open spec fn ascii_chars_of(b: Seq<u8>) -> Seq<char> {
    Seq::new(b.len(), |i: int| b[i] as char)
}

/// Relies on `String::from_utf8`: ASCII bytes decode to themselves, one
/// character per byte. The caller guarantees the bytes are ASCII, so the
/// conversion cannot fail.
#[verifier::external_body]
pub fn ascii_to_string(b: Vec<u8>) -> (r: String)
    requires
        forall|i: int| 0 <= i < b@.len() ==> b@[i] < 128,
    ensures
        r@ == ascii_chars_of(b@),
{
    String::from_utf8(b).unwrap_or_default()
}

/// The lowercase image of a scalar.
fn lower_val(v: u32) -> (r: u32)
    ensures
        r == lower32(v),
{
    if v >= 65 && v <= 90 {
        v + 32
    } else {
        v
    }
}

/// Whether `needle` occurs in `hay`, compared ASCII-case-insensitively.
pub fn contains_ci(hay: &str, needle: &str) -> (r: bool)
    ensures
        r == contains_sub(lower_of(hay@), lower_of(needle@)),
{
    let n_h = hay.unicode_len();
    let n_n = needle.unicode_len();
    if n_n > n_h {
        assert(lower_of(needle@).len() > lower_of(hay@).len());
        return false;
    }
    let mut i: usize = 0;
    while i <= n_h - n_n
        invariant
            n_h == hay@.len(),
            n_n == needle@.len(),
            n_n <= n_h,
            i <= n_h - n_n + 1,
            forall|i2: int| 0 <= i2 < i ==> !contains_at(lower_of(hay@), lower_of(needle@), i2),
        decreases n_h - n_n + 1 - i,
    {
        let mut j: usize = 0;
        let mut all_match = true;
        while j < n_n
            invariant
                n_h == hay@.len(),
                n_n == needle@.len(),
                i + n_n <= n_h,
                j <= n_n,
                all_match <==> forall|j2: int|
                    0 <= j2 < j ==> lower_of(hay@)[i + j2] == #[trigger] lower_of(needle@)[j2],
            decreases n_n - j,
        {
            let hc = hay.get_char(i + j);
            let nc = needle.get_char(j);
            if lower_val(hc as u32) != lower_val(nc as u32) {
                assert(lower_of(hay@)[i + j] != lower_of(needle@)[j as int]);
                all_match = false;
            }
            j = j + 1;
        }
        if all_match {
            assert(contains_at(lower_of(hay@), lower_of(needle@), i as int));
            return true;
        }
        i = i + 1;
    }
    false
}

} // verus!
