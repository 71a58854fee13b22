//! Reading, comparing and ordering strings.

use vstd::prelude::*;
use vstd::string::StrSliceExecFns;
use vstd::string::StringSliceAdditionalSpecFns;
use vstd::utf8::encode_utf8;

verus! {

/// The characters of each string of `v`, in order.
pub open spec fn texts(v: Seq<String>) -> Seq<Seq<char>> {
    v.map_values(|s: String| s@)
}

/// A string that may be missing, as the proofs see it.
pub open spec fn text_of(s: Option<String>) -> Option<Seq<char>> {
    match s {
        Some(t) => Some(t@),
        None => None,
    }
}

/// Whether the byte string `a` comes before `b` in lexicographic order.
pub open spec fn bytes_lt(a: Seq<u8>, b: Seq<u8>) -> bool
    decreases a.len(),
{
    if b.len() == 0 {
        false
    } else if a.len() == 0 {
        true
    } else if a[0] != b[0] {
        a[0] < b[0]
    } else {
        bytes_lt(a.drop_first(), b.drop_first())
    }
}

/// Whether the text `a` comes before `b`: strings are ordered by their bytes.
pub open spec fn text_lt(a: Seq<char>, b: Seq<char>) -> bool {
    bytes_lt(encode_utf8(a), encode_utf8(b))
}

/// Whether each text is followed only by texts that do not come before it.
pub open spec fn ascending(s: Seq<Seq<char>>) -> bool {
    forall|i: int, j: int| 0 <= i < j < s.len() ==> !text_lt(#[trigger] s[j], #[trigger] s[i])
}

/// `s` with every `c` at its end taken off.
pub open spec fn without_trailing(s: Seq<char>, c: char) -> Seq<char>
    decreases s.len(),
{
    if s.len() > 0 && s.last() == c {
        without_trailing(s.drop_last(), c)
    } else {
        s
    }
}

/// `c` in upper case where it is an ASCII letter, `c` itself otherwise.
pub open spec fn ascii_upper(c: char) -> char {
    if 'a' <= c <= 'z' {
        (c as int - 32) as char
    } else {
        c
    }
}

/// Whether `needle` stands in `s` from position `at`, once the letters of `s`
/// are put in upper case.
pub open spec fn upper_match_at(s: Seq<char>, needle: Seq<char>, at: int) -> bool {
    &&& 0 <= at
    &&& at + needle.len() <= s.len()
    &&& forall|j: int| 0 <= j < needle.len() ==> ascii_upper(s[at + j]) == #[trigger] needle[j]
}

/// Whether `needle` stands anywhere in `s` once the letters of `s` are put in
/// upper case.
pub open spec fn upper_contains(s: Seq<char>, needle: Seq<char>) -> bool {
    exists|at: int| upper_match_at(s, needle, at)
}

/// The characters of `s`, in order.
pub fn chars_of(s: &str) -> (v: Vec<char>)
    ensures
        v@ == s@,
{
    let mut v: Vec<char> = Vec::new();
    for c in it: s.chars()
        invariant
            it.seq() == s@,
            v@ == s@.take(it.index()),
    {
        assert(s@.take(it.index() + 1) =~= s@.take(it.index()).push(c));
        v.push(c);
    }
    assert(s@.take(s@.len() as int) =~= s@);
    v
}

/// Whether two strings hold the same characters.
pub fn same_text(a: &str, b: &str) -> (r: bool)
    ensures
        r == (a@ == b@),
{
    let x = a.as_bytes();
    let y = b.as_bytes();
    if x.len() != y.len() {
        return false;
    }
    for i in 0..x.len()
        invariant
            x@ == a.spec_bytes(),
            y@ == b.spec_bytes(),
            x@.len() == y@.len(),
            forall|j: int| 0 <= j < i ==> x@[j] == y@[j],
    {
        if x[i] != y[i] {
            return false;
        }
    }
    assert(x@ =~= y@);
    proof {
        lemma_encoding_injective(a@, b@);
    }
    true
}

/// Whether `a` comes before `b` in the order of strings.
pub fn text_before(a: &str, b: &str) -> (r: bool)
    ensures
        r == text_lt(a@, b@),
{
    let x = a.as_bytes();
    let y = b.as_bytes();
    let mut i: usize = 0;
    assert(x@.skip(0) =~= x@);
    assert(y@.skip(0) =~= y@);
    while i < x.len() && i < y.len()
        invariant
            x@ == a.spec_bytes(),
            y@ == b.spec_bytes(),
            i <= x@.len(),
            i <= y@.len(),
            bytes_lt(x@, y@) == bytes_lt(x@.skip(i as int), y@.skip(i as int)),
        decreases x@.len() - i,
    {
        if x[i] != y[i] {
            return x[i] < y[i];
        }
        assert(x@.skip(i as int).drop_first() =~= x@.skip(i + 1));
        assert(y@.skip(i as int).drop_first() =~= y@.skip(i + 1));
        i += 1;
    }
    i < y.len()
}

/// `s` without the slashes at its end.
pub fn trim_end_slashes(s: &str) -> (r: &str)
    ensures
        r@ == without_trailing(s@, '/'),
{
    let v = chars_of(s);
    let mut end: usize = v.len();
    assert(s@.take(end as int) =~= s@);
    while end > 0 && v[end - 1] == '/'
        invariant
            v@ == s@,
            end <= v@.len(),
            without_trailing(s@, '/') == without_trailing(s@.take(end as int), '/'),
        decreases end,
    {
        assert(s@.take(end as int).drop_last() =~= s@.take(end - 1));
        end -= 1;
    }
    s.substring_char(0, end)
}

/// `c` in upper case where it is an ASCII letter.
fn upper(c: char) -> (r: char)
    ensures
        r == ascii_upper(c),
{
    if 'a' <= c && c <= 'z' {
        ((c as u8) - 32) as char
    } else {
        c
    }
}

/// Whether `needle` stands anywhere in `s` once the letters of `s` are put in
/// upper case.
pub fn contains_upper(s: &str, needle: &str) -> (r: bool)
    ensures
        r == upper_contains(s@, needle@),
{
    let v = chars_of(s);
    let w = chars_of(needle);
    if w.len() > v.len() {
        return false;
    }
    let last: usize = v.len() - w.len();
    let mut at: usize = 0;
    while at <= last
        invariant
            v@ == s@,
            w@ == needle@,
            last + w.len() == v.len(),
            at <= last + 1,
            forall|i: int| 0 <= i < at ==> !upper_match_at(s@, needle@, i),
        decreases last + 1 - at,
    {
        let mut j: usize = 0;
        while j < w.len() && upper(v[at + j]) == w[j]
            invariant
                v@ == s@,
                w@ == needle@,
                last + w.len() == v.len(),
                at <= last,
                j <= w@.len(),
                forall|k: int| 0 <= k < j ==> ascii_upper(s@[at + k]) == #[trigger] needle@[k],
            decreases w@.len() - j,
        {
            j += 1;
        }
        if j == w.len() {
            assert(upper_match_at(s@, needle@, at as int));
            return true;
        }
        assert(ascii_upper(s@[at + j]) != needle@[j as int]);
        if at == last {
            return false;
        }
        at += 1;
    }
    false
}

proof fn lemma_encoding_injective(a: Seq<char>, b: Seq<char>)
    ensures
        encode_utf8(a) == encode_utf8(b) ==> a == b,
{
    vstd::utf8::encode_utf8_decode_utf8(a);
    vstd::utf8::encode_utf8_decode_utf8(b);
}

proof fn lemma_bytes_lt_irreflexive(a: Seq<u8>)
    ensures
        !bytes_lt(a, a),
    decreases a.len(),
{
    if a.len() > 0 {
        lemma_bytes_lt_irreflexive(a.drop_first());
    }
}

proof fn lemma_bytes_lt_transitive(a: Seq<u8>, b: Seq<u8>, c: Seq<u8>)
    requires
        bytes_lt(a, b),
        bytes_lt(b, c),
    ensures
        bytes_lt(a, c),
    decreases a.len(),
{
    if a.len() > 0 && a[0] == b[0] && b[0] == c[0] {
        lemma_bytes_lt_transitive(a.drop_first(), b.drop_first(), c.drop_first());
    }
}

proof fn lemma_bytes_lt_total(a: Seq<u8>, b: Seq<u8>)
    ensures
        a == b || bytes_lt(a, b) || bytes_lt(b, a),
    decreases a.len(),
{
    if a.len() == 0 {
        assert(b.len() == 0 ==> a =~= b);
    } else if b.len() > 0 && a[0] == b[0] {
        lemma_bytes_lt_total(a.drop_first(), b.drop_first());
        if a.drop_first() == b.drop_first() {
            assert(a =~= seq![a[0]] + a.drop_first());
            assert(b =~= seq![b[0]] + b.drop_first());
        }
    }
}

/// The order of texts is a strict total order: no text comes before itself,
/// the order is transitive, and of two different texts one comes before the
/// other.
pub proof fn law_text_order(a: Seq<char>, b: Seq<char>, c: Seq<char>)
    ensures
        !text_lt(a, a),
        text_lt(a, b) && text_lt(b, c) ==> text_lt(a, c),
        a == b || text_lt(a, b) || text_lt(b, a),
{
    lemma_encoding_injective(a, b);
    lemma_bytes_lt_irreflexive(encode_utf8(a));
    lemma_bytes_lt_total(encode_utf8(a), encode_utf8(b));
    if text_lt(a, b) && text_lt(b, c) {
        lemma_bytes_lt_transitive(encode_utf8(a), encode_utf8(b), encode_utf8(c));
    }
}

/// A string comes before another if and only if its bytes end where the other's
/// go on, or the first byte in which they differ is the smaller one.
pub proof fn law_first_difference_decides(a: Seq<char>, b: Seq<char>)
    ensures
        ({
            let (x, y) = (encode_utf8(a), encode_utf8(b));
            text_lt(a, b) <==> exists|k: int|
                {
                    &&& 0 <= k <= x.len()
                    &&& k < y.len()
                    &&& x.take(k) == #[trigger] y.take(k)
                    &&& k == x.len() || x[k] < y[k]
                }
        }),
{
    let (x, y) = (encode_utf8(a), encode_utf8(b));
    lemma_first_difference(x, y);
    if text_lt(a, b) {
        let k = choose|k: int|
            {
                &&& 0 <= k <= x.len()
                &&& k < y.len()
                &&& x.take(k) == #[trigger] y.take(k)
                &&& k == x.len() || x[k] < y[k]
            };
        assert(x.take(k) =~= y.take(k));
    }
}

proof fn lemma_first_difference(x: Seq<u8>, y: Seq<u8>)
    ensures
        bytes_lt(x, y) <==> exists|k: int|
            {
                &&& 0 <= k <= x.len()
                &&& k < y.len()
                &&& x.take(k) == #[trigger] y.take(k)
                &&& k == x.len() || x[k] < y[k]
            },
    decreases x.len(),
{
    assert(x.take(0) =~= y.take(0));
    if x.len() > 0 && y.len() > 0 {
        let (p, q) = (x.drop_first(), y.drop_first());
        lemma_first_difference(p, q);
        if x[0] == y[0] && bytes_lt(p, q) {
            let k = choose|k: int|
                {
                    &&& 0 <= k <= p.len()
                    &&& k < q.len()
                    &&& p.take(k) == #[trigger] q.take(k)
                    &&& k == p.len() || p[k] < q[k]
                };
            assert forall|j: int| 0 <= j < k + 1 implies x[j] == y[j] by {
                if j > 0 {
                    assert(p.take(k)[j - 1] == q.take(k)[j - 1]);
                }
            }
            assert(x.take(k + 1) =~= y.take(k + 1));
            assert(k + 1 == x.len() || x[k + 1] < y[k + 1]);
        }
        assert forall|k: int|
            0 <= k <= x.len() && k < y.len() && x.take(k) == #[trigger] y.take(k) && (k == x.len()
                || x[k] < y[k]) implies bytes_lt(x, y) by {
            if k > 0 {
                assert(x.take(k)[0] == y.take(k)[0]);
                assert forall|j: int| 0 <= j < k - 1 implies p[j] == q[j] by {
                    assert(x.take(k)[j + 1] == y.take(k)[j + 1]);
                }
                assert(p.take(k - 1) =~= q.take(k - 1));
                assert(k - 1 == p.len() || p[k - 1] < q[k - 1]);
            }
        }
    }
}

/// What is left of a text is its start, does not end in the character, and only
/// that character was taken off.
pub proof fn law_only_the_end_is_taken_off(s: Seq<char>, c: char)
    ensures
        ({
            let r = without_trailing(s, c);
            &&& r.len() <= s.len()
            &&& r == s.take(r.len() as int)
            &&& r.len() > 0 ==> r[r.len() - 1] != c
            &&& forall|i: int| r.len() <= i < s.len() ==> s[i] == c
        }),
    decreases s.len(),
{
    if s.len() > 0 && s.last() == c {
        law_only_the_end_is_taken_off(s.drop_last(), c);
        let r = without_trailing(s, c);
        assert(s.drop_last().take(r.len() as int) =~= s.take(r.len() as int));
        assert forall|i: int| r.len() <= i < s.len() implies s[i] == c by {
            if i < s.len() - 1 {
                assert(s.drop_last()[i] == c);
            }
        }
    } else {
        assert(s.take(s.len() as int) =~= s);
    }
}

/// A text is found in another if and only if it stands somewhere in it, where
/// the 26 small letters of ASCII, and no other characters, count as the capital
/// ones.
pub proof fn law_found_where_it_stands(s: Seq<char>, needle: Seq<char>)
    ensures
        upper_contains(s, needle) <==> exists|at: int|
            {
                &&& 0 <= at <= s.len() - needle.len()
                &&& #[trigger] s.skip(at).len() >= needle.len()
                &&& forall|j: int|
                    0 <= j < needle.len() ==> #[trigger] needle[j] as int == (if 97 <= s[at + j] as int
                        <= 122 {
                        s[at + j] as int - 32
                    } else {
                        s[at + j] as int
                    })
            },
{
    if upper_contains(s, needle) {
        let at = choose|at: int| upper_match_at(s, needle, at);
        assert(s.skip(at).len() >= needle.len());
        assert forall|j: int| 0 <= j < needle.len() implies #[trigger] needle[j] as int == (if 97
            <= s[at + j] as int <= 122 {
            s[at + j] as int - 32
        } else {
            s[at + j] as int
        }) by {
            assert(ascii_upper(s[at + j]) == needle[j]);
        }
    }
    assert forall|at: int|
        0 <= at <= s.len() - needle.len() && #[trigger] s.skip(at).len() >= needle.len() && (forall|
            j: int,
        |
            0 <= j < needle.len() ==> #[trigger] needle[j] as int == (if 97 <= s[at + j] as int
                <= 122 {
                s[at + j] as int - 32
            } else {
                s[at + j] as int
            })) implies upper_contains(s, needle) by {
        assert forall|j: int| 0 <= j < needle.len() implies ascii_upper(s[at + j])
            == #[trigger] needle[j] by {}
        assert(upper_match_at(s, needle, at));
    }
}

/// The texts of a row of strings are theirs, one for one, and a text that may be
/// missing is there if and only if its string is.
pub proof fn law_texts_are_the_strings(v: Seq<String>, s: Option<String>)
    ensures
        texts(v).len() == v.len(),
        forall|i: int| 0 <= i < v.len() ==> #[trigger] texts(v)[i] == v[i]@,
        s is Some <==> text_of(s) is Some,
        s is Some ==> text_of(s) == Some((s->0)@),
{
}

} // verus!
