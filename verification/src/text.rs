//! Character-level string helpers shared by the rest of the library.

use vstd::prelude::*;

verus! {

broadcast use vstd::string::group_string_axioms;

/// The Unicode lowercase mapping of a string, as `str::to_lowercase` computes it.
pub uninterp spec fn lowercase(s: Seq<char>) -> Seq<char>;

/// The characters with the Unicode `White_Space` property (PropList.txt),
/// the white space that `str::trim` removes.
pub open spec fn is_white_space(c: char) -> bool {
    let v = c as u32;
    ||| 0x09 <= v <= 0x0D
    ||| v == 0x20
    ||| v == 0x85
    ||| v == 0xA0
    ||| v == 0x1680
    ||| 0x2000 <= v <= 0x200A
    ||| v == 0x2028
    ||| v == 0x2029
    ||| v == 0x202F
    ||| v == 0x205F
    ||| v == 0x3000
}

/// The string without its leading white space.
pub open spec fn trim_start_ws(s: Seq<char>) -> Seq<char>
    decreases s.len(),
{
    if s.len() > 0 && is_white_space(s[0]) {
        trim_start_ws(s.drop_first())
    } else {
        s
    }
}

/// The string without its trailing white space.
pub open spec fn trim_end_ws(s: Seq<char>) -> Seq<char>
    decreases s.len(),
{
    if s.len() > 0 && is_white_space(s.last()) {
        trim_end_ws(s.drop_last())
    } else {
        s
    }
}

/// What `str::trim` leaves of a string: the string without its leading and
/// trailing white space.
pub open spec fn trim_whitespace(s: Seq<char>) -> Seq<char> {
    trim_end_ws(trim_start_ws(s))
}

/// Trimming the start leaves a suffix that does not begin with white space.
pub proof fn lemma_trim_start(s: Seq<char>)
    ensures
        trim_start_ws(s).len() <= s.len(),
        trim_start_ws(s) == s.subrange(s.len() - trim_start_ws(s).len(), s.len() as int),
        trim_start_ws(s).len() > 0 ==> !is_white_space(trim_start_ws(s)[0]),
    decreases s.len(),
{
    if s.len() > 0 && is_white_space(s[0]) {
        lemma_trim_start(s.drop_first());
        let r = trim_start_ws(s.drop_first());
        assert(s.drop_first().subrange(s.len() - 1 - r.len(), s.len() - 1) =~= s.subrange(
            s.len() - r.len(),
            s.len() as int,
        ));
    } else {
        assert(s.subrange(0, s.len() as int) =~= s);
    }
}

/// Trimming the end leaves a prefix that does not end with white space.
pub proof fn lemma_trim_end(s: Seq<char>)
    ensures
        trim_end_ws(s).len() <= s.len(),
        trim_end_ws(s) == s.subrange(0, trim_end_ws(s).len() as int),
        trim_end_ws(s).len() > 0 ==> !is_white_space(trim_end_ws(s).last()),
    decreases s.len(),
{
    if s.len() > 0 && is_white_space(s.last()) {
        lemma_trim_end(s.drop_last());
        let r = trim_end_ws(s.drop_last());
        assert(s.drop_last().subrange(0, r.len() as int) =~= s.subrange(0, r.len() as int));
    } else {
        assert(s.subrange(0, s.len() as int) =~= s);
    }
}

/// `t` stands in `s` at position `k`.
pub open spec fn is_part_at(s: Seq<char>, k: int, t: Seq<char>) -> bool {
    0 <= k && k + t.len() <= s.len() && t == s.subrange(k, k + t.len())
}

/// A trimmed string is a contiguous part of the string, neither begins nor
/// ends with white space, and trimming it again changes nothing.
pub proof fn lemma_trim(s: Seq<char>)
    ensures
        exists|k: int| #[trigger] is_part_at(s, k, trim_whitespace(s)),
        forall|i: int|
            0 <= i < trim_whitespace(s).len() ==> s.contains(#[trigger] trim_whitespace(s)[i]),
        trim_whitespace(s).len() > 0 ==> !is_white_space(trim_whitespace(s)[0])
            && !is_white_space(trim_whitespace(s).last()),
        trim_whitespace(trim_whitespace(s)) == trim_whitespace(s),
{
    let u = trim_start_ws(s);
    let t = trim_end_ws(u);
    lemma_trim_start(s);
    lemma_trim_end(u);
    let k = s.len() - u.len();
    assert(t =~= s.subrange(k, k + t.len()));
    assert(is_part_at(s, k, trim_whitespace(s)));
    assert forall|i: int| 0 <= i < t.len() implies s.contains(#[trigger] t[i]) by {
        assert(s[k + i] == t[i]);
    }
    if t.len() > 0 {
        assert(t[0] == u[0]);
    }
    assert(trim_start_ws(t) == t);
    assert(trim_end_ws(t) == t);
}

/// Calls `str::to_lowercase`; the result is the lowercase mapping of `s`,
/// named `lowercase` here and otherwise left unstated.
#[verifier::external_body]
pub(crate) fn to_lowercase(s: &str) -> (r: String)
    ensures
        r@ == lowercase(s@),
{
    s.to_lowercase()
}

/// Whether `c` is white space.
pub fn is_white_space_char(c: char) -> (r: bool)
    ensures
        r == is_white_space(c),
{
    let v = c as u32;
    (0x09 <= v && v <= 0x0D) || v == 0x20 || v == 0x85 || v == 0xA0 || v == 0x1680 || (0x2000 <= v
        && v <= 0x200A) || v == 0x2028 || v == 0x2029 || v == 0x202F || v == 0x205F || v == 0x3000
}

/// `s` without its leading and trailing white space.
pub fn trim(s: &str) -> (r: String)
    ensures
        r@ == trim_whitespace(s@),
{
    let cs = chars_of(s);
    let n = cs.len();
    let mut start: usize = 0;
    assert(s@.subrange(0, n as int) =~= s@);
    while start < n && is_white_space_char(cs[start])
        invariant
            cs@ == s@,
            n == cs@.len(),
            start <= n,
            trim_start_ws(s@) == trim_start_ws(s@.subrange(start as int, n as int)),
        decreases n - start,
    {
        assert(s@.subrange(start as int, n as int).drop_first() =~= s@.subrange(
            start + 1,
            n as int,
        ));
        start = start + 1;
    }
    let ghost u = s@.subrange(start as int, n as int);
    assert(trim_start_ws(s@) == u);
    let mut end: usize = n;
    while end > start && is_white_space_char(cs[end - 1])
        invariant
            cs@ == s@,
            n == cs@.len(),
            start <= end <= n,
            u == s@.subrange(start as int, n as int),
            trim_end_ws(u) == trim_end_ws(s@.subrange(start as int, end as int)),
        decreases end - start,
    {
        assert(s@.subrange(start as int, end as int).drop_last() =~= s@.subrange(
            start as int,
            end - 1,
        ));
        end = end - 1;
    }
    assert(trim_end_ws(u) == s@.subrange(start as int, end as int));
    let mut r = String::new();
    let mut i: usize = start;
    while i < end
        invariant
            cs@ == s@,
            n == cs@.len(),
            start <= i <= end <= n,
            r@ == s@.subrange(start as int, i as int),
        decreases end - i,
    {
        push_char(&mut r, cs[i]);
        assert(s@.subrange(start as int, i + 1) =~= s@.subrange(start as int, i as int).push(
            cs@[i as int],
        ));
        i = i + 1;
    }
    r
}

/// Calls `String::push`: appends one character.
#[verifier::external_body]
pub(crate) fn push_char(s: &mut String, c: char)
    ensures
        final(s)@ == old(s)@.push(c),
{
    s.push(c)
}

/// The views of a sequence of strings.
pub open spec fn string_views(v: Seq<String>) -> Seq<Seq<char>> {
    v.map_values(|s: String| s@)
}

/// An owned copy of a string slice.
pub fn owned(s: &str) -> (r: String)
    ensures
        r@ == s@,
{
    s.to_string()
}

/// The concatenation of two string slices.
pub fn concat2(a: &str, b: &str) -> (r: String)
    ensures
        r@ == a@ + b@,
{
    let mut r = a.to_string();
    r.append(b);
    r
}

/// The concatenation of three string slices.
pub fn concat3(a: &str, b: &str, c: &str) -> (r: String)
    ensures
        r@ == a@ + b@ + c@,
{
    let mut r = a.to_string();
    r.append(b);
    r.append(c);
    r
}

/// The characters of `s`, in order.
pub fn chars_of(s: &str) -> (v: Vec<char>)
    ensures
        v@ == s@,
{
    let mut v: Vec<char> = Vec::new();
    for c in it: s.chars()
        invariant
            it.seq() == s@,
            v@ == it.seq().take(it.index() as int),
    {
        v.push(c);
    }
    v
}

/// Whether `p` is a prefix of `s`.
pub open spec fn is_prefix(p: Seq<char>, s: Seq<char>) -> bool {
    p.len() <= s.len() && s.subrange(0, p.len() as int) == p
}

/// Whether `s` begins with `prefix`.
pub fn starts_with(s: &str, prefix: &str) -> (r: bool)
    ensures
        r == is_prefix(prefix@, s@),
{
    let sv = chars_of(s);
    let pv = chars_of(prefix);
    if pv.len() > sv.len() {
        return false;
    }
    let mut i: usize = 0;
    while i < pv.len()
        invariant
            sv@ == s@,
            pv@ == prefix@,
            pv.len() <= sv.len(),
            i <= pv.len(),
            forall|j: int| 0 <= j < i ==> sv@[j] == pv@[j],
        decreases pv.len() - i,
    {
        if sv[i] != pv[i] {
            assert(s@.subrange(0, prefix@.len() as int)[i as int] != prefix@[i as int]);
            return false;
        }
        i = i + 1;
    }
    assert(s@.subrange(0, prefix@.len() as int) =~= prefix@);
    true
}

/// Whether two string slices hold the same characters.
pub fn str_eq(a: &str, b: &str) -> (r: bool)
    ensures
        r == (a@ == b@),
{
    let av = chars_of(a);
    let bv = chars_of(b);
    if av.len() != bv.len() {
        return false;
    }
    let mut i: usize = 0;
    while i < av.len()
        invariant
            av@ == a@,
            bv@ == b@,
            av.len() == bv.len(),
            i <= av.len(),
            forall|j: int| 0 <= j < i ==> av@[j] == bv@[j],
        decreases av.len() - i,
    {
        if av[i] != bv[i] {
            return false;
        }
        i = i + 1;
    }
    assert(a@ =~= b@);
    true
}

/// Whether `v` holds the name `x`.
pub fn contains_name(v: &[String], x: &str) -> (r: bool)
    ensures
        r == string_views(v@).contains(x@),
{
    let mut i: usize = 0;
    while i < v.len()
        invariant
            i <= v@.len(),
            forall|j: int| 0 <= j < i ==> v@[j]@ != x@,
        decreases v@.len() - i,
    {
        if str_eq(v[i].as_str(), x) {
            assert(string_views(v@)[i as int] == x@);
            return true;
        }
        i = i + 1;
    }
    assert(!string_views(v@).contains(x@)) by {
        if string_views(v@).contains(x@) {
            let k = choose|k: int| 0 <= k < v@.len() && string_views(v@)[k] == x@;
            assert(v@[k]@ == x@);
        }
    }
    false
}

} // verus!
