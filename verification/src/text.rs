//! Small verified helpers on text: equality, substring search and lists of
//! strings.

use vstd::prelude::*;

verus! {

/// Whether `needle` occurs in `hay` as a run of consecutive characters.
pub open spec fn has_infix(hay: Seq<char>, needle: Seq<char>) -> bool {
    exists|i: int| 0 <= i && i + needle.len() <= hay.len() && #[trigger] hay.subrange(i, i + needle.len()) == needle
}

/// The characters of each string of a sequence.
pub open spec fn texts(v: Seq<String>) -> Seq<Seq<char>> {
    v.map_values(|s: String| s@)
}

/// The text that std's `Debug` prints for a string: its characters in
/// double quotes, escaped as `char::escape_debug` describes.
pub uninterp spec fn quoted(s: Seq<char>) -> Seq<char>;

/// Whether every character of `s` is printable ASCII other than a quote, an
/// apostrophe or a backslash: such characters are printed as they are.
pub open spec fn plain_ascii(s: Seq<char>) -> bool {
    forall|i: int|
        0 <= i < s.len() ==> 0x20 <= (#[trigger] s[i]) as u32 <= 0x7e && s[i] != '"' && s[i] != '\'' && s[i] != '\\'
}

/// `format!("{:?}", s)` of std for a string slice: the text in double
/// quotes with special characters escaped. The contract names the result
/// and ties it to the text alone; of the escaping it states only that plain
/// printable ASCII stands as it is, which `char::escape_debug` documents.
#[verifier::external_body]
pub fn quoted_text(s: &str) -> (res: String)
    ensures
        res@ == quoted(s@),
        plain_ascii(s@) ==> res@ == seq!['"'] + s@ + seq!['"'],
{
    format!("{:?}", s)
}

/// Whether two texts hold the same characters.
pub fn text_eq(a: &str, b: &str) -> (res: bool)
    ensures
        res == (a@ == b@),
{
    let x = String::from_str(a);
    let y = String::from_str(b);
    x == y
}

/// The characters of a text, one by one.
pub fn chars_of(s: &str) -> (res: Vec<char>)
    ensures
        res@ == s@,
{
    let n = s.unicode_len();
    let mut v: Vec<char> = Vec::new();
    let mut i: usize = 0;
    while i < n
        invariant
            n == s@.len(),
            i <= n,
            v@ == s@.take(i as int),
        decreases n - i,
    {
        v.push(s.get_char(i));
        i = i + 1;
        assert(v@ =~= s@.take(i as int));
    }
    assert(s@.take(n as int) =~= s@);
    v
}

/// Whether `needle` stands in `hay` from position `at` on.
fn matches_at(hay: &Vec<char>, needle: &Vec<char>, at: usize) -> (res: bool)
    requires
        at + needle@.len() <= hay@.len(),
    ensures
        res == (hay@.subrange(at as int, at + needle@.len()) == needle@),
{
    let hay_len = hay.len();
    let mut j: usize = 0;
    while j < needle.len()
        invariant
            hay_len == hay@.len(),
            j <= needle@.len(),
            at + needle@.len() <= hay@.len(),
            forall|k: int| 0 <= k < j ==> hay@[at + k] == needle@[k],
        decreases needle@.len() - j,
    {
        assert(at + j < hay@.len());
        if hay[at + j] != needle[j] {
            assert(hay@.subrange(at as int, at + needle@.len())[j as int] != needle@[j as int]);
            return false;
        }
        j = j + 1;
    }
    assert(hay@.subrange(at as int, at + needle@.len()) =~= needle@);
    true
}

/// Whether `needle` occurs in `hay`.
pub fn text_contains(hay: &str, needle: &str) -> (res: bool)
    ensures
        res == has_infix(hay@, needle@),
{
    let h = chars_of(hay);
    let n = chars_of(needle);
    if n.len() > h.len() {
        return false;
    }
    let last = h.len() - n.len();
    let mut i: usize = 0;
    loop
        invariant
            last == h@.len() - n@.len(),
            i <= last,
            h@ == hay@,
            n@ == needle@,
            forall|k: int| 0 <= k < i ==> #[trigger] h@.subrange(k, k + n@.len()) != n@,
        decreases last - i,
    {
        if matches_at(&h, &n, i) {
            return true;
        }
        if i == last {
            assert forall|k: int| 0 <= k && k + n@.len() <= h@.len() implies #[trigger] h@.subrange(
                k,
                k + n@.len(),
            ) != n@ by {
                assert(k <= i);
            }
            return false;
        }
        i = i + 1;
    }
}

/// Appends a copy of `s` to a list of strings.
pub fn push_text(v: &mut Vec<String>, s: &str)
    ensures
        texts(final(v)@) == texts(old(v)@).push(s@),
{
    v.push(String::from_str(s));
    assert(texts(v@) =~= texts(old(v)@).push(s@));
}

/// Whether `a` comes strictly before `b` in lexicographic order of their
/// characters' code points, which is also the order of their UTF-8 bytes.
pub open spec fn text_lt(a: Seq<char>, b: Seq<char>) -> bool
    decreases a.len(),
{
    if a.len() == 0 {
        b.len() > 0
    } else if b.len() == 0 {
        false
    } else if a[0] != b[0] {
        a[0] < b[0]
    } else {
        text_lt(a.drop_first(), b.drop_first())
    }
}

/// No text comes before itself, and of two texts at most one comes before
/// the other.
pub proof fn lemma_text_lt_asymmetric(a: Seq<char>, b: Seq<char>)
    ensures
        !(text_lt(a, b) && text_lt(b, a)),
        !text_lt(a, a),
    decreases a.len(),
{
    if a.len() > 0 && b.len() > 0 && a[0] == b[0] {
        lemma_text_lt_asymmetric(a.drop_first(), b.drop_first());
    }
    if a.len() > 0 {
        lemma_text_lt_asymmetric(a.drop_first(), a.drop_first());
    }
}

/// The order of texts is transitive.
pub proof fn lemma_text_lt_transitive(a: Seq<char>, b: Seq<char>, c: Seq<char>)
    requires
        text_lt(a, b),
        text_lt(b, c),
    ensures
        text_lt(a, c),
    decreases a.len(),
{
    if a.len() > 0 && b.len() > 0 && c.len() > 0 && a[0] == b[0] && b[0] == c[0] {
        lemma_text_lt_transitive(a.drop_first(), b.drop_first(), c.drop_first());
    }
}

/// Of two different texts, one comes before the other.
pub proof fn lemma_text_lt_total(a: Seq<char>, b: Seq<char>)
    ensures
        a == b || text_lt(a, b) || text_lt(b, a),
    decreases a.len(),
{
    if a.len() > 0 && b.len() > 0 && a[0] == b[0] {
        lemma_text_lt_total(a.drop_first(), b.drop_first());
        if a.drop_first() == b.drop_first() {
            assert(a =~= seq![a[0]] + a.drop_first());
            assert(b =~= seq![b[0]] + b.drop_first());
        }
    } else if a.len() == 0 && b.len() == 0 {
        assert(a =~= b);
    } else if a.len() > 0 && b.len() > 0 {
        assert(a[0] < b[0] || b[0] < a[0]);
    }
}

/// Compares two texts: negative when `a` comes first, zero when they are
/// equal, positive when `b` comes first.
pub fn text_order(a: &str, b: &str) -> (res: i8)
    ensures
        res < 0 <==> text_lt(a@, b@),
        res == 0 <==> a@ == b@,
        res > 0 <==> text_lt(b@, a@),
{
    let x = chars_of(a);
    let y = chars_of(b);
    let lx = x.len();
    let ly = y.len();
    let mut i: usize = 0;
    proof {
        lemma_text_lt_asymmetric(a@, b@);
        assert(x@.skip(0) =~= x@);
        assert(y@.skip(0) =~= y@);
    }
    while i < lx && i < ly
        invariant
            lx == x@.len(),
            ly == y@.len(),
            x@ == a@,
            y@ == b@,
            i <= lx,
            i <= ly,
            text_lt(a@, b@) == text_lt(x@.skip(i as int), y@.skip(i as int)),
            text_lt(b@, a@) == text_lt(y@.skip(i as int), x@.skip(i as int)),
            (a@ == b@) == (x@.skip(i as int) == y@.skip(i as int)),
        decreases lx - i,
    {
        let c = x[i];
        let d = y[i];
        let ghost xs = x@.skip(i as int);
        let ghost ys = y@.skip(i as int);
        assert(xs[0] == c && ys[0] == d);
        if c != d {
            assert(xs != ys);
            if c < d {
                return -1;
            } else {
                assert(d < c);
                return 1;
            }
        }
        assert(xs.drop_first() =~= x@.skip(i + 1));
        assert(ys.drop_first() =~= y@.skip(i + 1));
        assert(xs =~= seq![c] + xs.drop_first());
        assert(ys =~= seq![d] + ys.drop_first());
        i = i + 1;
    }
    if lx == ly {
        assert(x@.skip(i as int) =~= y@.skip(i as int));
        0
    } else if i == lx {
        assert(x@.skip(i as int).len() == 0);
        -1
    } else {
        assert(y@.skip(i as int).len() == 0);
        1
    }
}

} // verus!
