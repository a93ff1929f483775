//! Text as sequences of `char`: the specifications of the string operations the
//! launcher relies on (trimming, searching, replacing), and verified
//! implementations of them.
use vstd::prelude::*;
use vstd::utf8::{encode_scalar, encode_utf8};

verus! {

/// Unicode `White_Space`, the property that `char::is_whitespace` and
/// `str::trim` go by.
pub open spec fn is_space(c: char) -> bool {
    let u = c as u32;
    ||| 0x9 <= u <= 0xD
    ||| u == 0x20
    ||| u == 0x85
    ||| u == 0xA0
    ||| u == 0x1680
    ||| 0x2000 <= u <= 0x200A
    ||| u == 0x2028
    ||| u == 0x2029
    ||| u == 0x202F
    ||| u == 0x205F
    ||| u == 0x3000
}

/// `s` without its leading white space.
pub open spec fn trim_start(s: Seq<char>) -> Seq<char>
    decreases s.len(),
{
    if s.len() > 0 && is_space(s[0]) {
        trim_start(s.drop_first())
    } else {
        s
    }
}

/// `s` without its trailing white space.
pub open spec fn trim_end(s: Seq<char>) -> Seq<char>
    decreases s.len(),
{
    if s.len() > 0 && is_space(s.last()) {
        trim_end(s.drop_last())
    } else {
        s
    }
}

/// `s` without leading and trailing white space, as `str::trim` gives it.
pub open spec fn trim(s: Seq<char>) -> Seq<char> {
    trim_end(trim_start(s))
}

/// `p` occurs in `s` at position `i`.
pub open spec fn occurs_at(s: Seq<char>, p: Seq<char>, i: int) -> bool {
    0 <= i && i + p.len() <= s.len() && s.subrange(i, i + p.len()) == p
}

/// `s` begins with `p`.
pub open spec fn starts_with(s: Seq<char>, p: Seq<char>) -> bool {
    occurs_at(s, p, 0)
}

/// `p` occurs somewhere in `s`.
pub open spec fn contains(s: Seq<char>, p: Seq<char>) -> bool {
    exists|i: int| #[trigger] occurs_at(s, p, i)
}

/// The position of the first `c` in `s`, as `str::find` with a `char` gives it
/// (counted in characters).
pub open spec fn first_index(s: Seq<char>, c: char) -> Option<int>
    decreases s.len(),
{
    if s.len() == 0 {
        None
    } else if s[0] == c {
        Some(0)
    } else {
        match first_index(s.drop_first(), c) {
            Some(i) => Some(i + 1),
            None => None,
        }
    }
}

/// `s` with every occurrence of `p` replaced by `r`, scanning from the left
/// and not overlapping, as `str::replace` does.
pub open spec fn replace_all(s: Seq<char>, p: Seq<char>, r: Seq<char>) -> Seq<char>
    decreases s.len(),
{
    if p.len() == 0 || s.len() < p.len() {
        s
    } else if s.take(p.len() as int) == p {
        r + replace_all(s.skip(p.len() as int), p, r)
    } else {
        seq![s[0]] + replace_all(s.drop_first(), p, r)
    }
}

/// What follows the last cut when `s` is split at `p` from the left, if `p`
/// occurs in `s` at all.
pub open spec fn after_last_cut(s: Seq<char>, p: Seq<char>) -> Option<Seq<char>>
    decreases s.len(),
{
    if p.len() == 0 || s.len() < p.len() {
        None
    } else if s.take(p.len() as int) == p {
        match after_last_cut(s.skip(p.len() as int), p) {
            Some(t) => Some(t),
            None => Some(s.skip(p.len() as int)),
        }
    } else {
        after_last_cut(s.drop_first(), p)
    }
}

/// The last piece of `s` split at `p`, as `s.split(p).last()` gives it.
pub open spec fn last_piece(s: Seq<char>, p: Seq<char>) -> Seq<char> {
    match after_last_cut(s, p) {
        Some(t) => t,
        None => s,
    }
}

/// The words of `s` after the partial word `cur`: the maximal runs of
/// characters that are not white space.
pub open spec fn words_from(s: Seq<char>, cur: Seq<char>) -> Seq<Seq<char>>
    decreases s.len(),
{
    if s.len() == 0 {
        if cur.len() > 0 {
            seq![cur]
        } else {
            Seq::empty()
        }
    } else if is_space(s[0]) {
        (if cur.len() > 0 {
            seq![cur]
        } else {
            Seq::empty()
        }) + words_from(s.drop_first(), Seq::empty())
    } else {
        words_from(s.drop_first(), cur.push(s[0]))
    }
}

/// The words of `s`, as `str::split_whitespace` gives them.
pub open spec fn words(s: Seq<char>) -> Seq<Seq<char>> {
    words_from(s, Seq::empty())
}

/// Whether `c` occurs in `s`.
pub open spec fn has_char(s: Seq<char>, c: char) -> bool {
    exists|i: int| 0 <= i < s.len() && s[i] == c
}

/// `{name}`: the placeholder for `name` in a template.
pub open spec fn braced(name: Seq<char>) -> Seq<char> {
    seq!['{'] + name + seq!['}']
}

pub proof fn lemma_first_index(s: Seq<char>, c: char)
    ensures
        match first_index(s, c) {
            Some(i) => 0 <= i < s.len() && s[i] == c && forall|j: int| 0 <= j < i ==> s[j] != c,
            None => forall|j: int| 0 <= j < s.len() ==> s[j] != c,
        },
    decreases s.len(),
{
    if s.len() > 0 && s[0] != c {
        lemma_first_index(s.drop_first(), c);
        assert forall|j: int| 1 <= j < s.len() implies s[j] == s.drop_first()[j - 1] by {}
    }
}

proof fn lemma_first_index_is(s: Seq<char>, c: char, i: int)
    requires
        0 <= i < s.len(),
        s[i] == c,
        forall|j: int| 0 <= j < i ==> s[j] != c,
    ensures
        first_index(s, c) == Some(i),
{
    lemma_first_index(s, c);
}

proof fn lemma_first_index_none(s: Seq<char>, c: char)
    requires
        forall|j: int| 0 <= j < s.len() ==> s[j] != c,
    ensures
        first_index(s, c) is None,
{
    lemma_first_index(s, c);
}

proof fn lemma_trim_start_step(s: Seq<char>, i: int)
    requires
        0 <= i < s.len(),
        is_space(s[i]),
    ensures
        trim_start(s.subrange(i, s.len() as int)) == trim_start(s.subrange(i + 1, s.len() as int)),
{
    assert(s.subrange(i, s.len() as int).drop_first() =~= s.subrange(i + 1, s.len() as int));
}

proof fn lemma_trim_end_step(t: Seq<char>, j: int)
    requires
        0 < j <= t.len(),
        is_space(t[j - 1]),
    ensures
        trim_end(t.take(j)) == trim_end(t.take(j - 1)),
{
    assert(t.take(j).drop_last() =~= t.take(j - 1));
}

proof fn lemma_replace_short(s: Seq<char>, p: Seq<char>, r: Seq<char>)
    requires
        s.len() < p.len(),
    ensures
        replace_all(s, p, r) == s,
{
}

/// Each character takes at least one byte in UTF-8.
pub proof fn lemma_utf8_len_at_least(q: Seq<char>)
    ensures
        encode_utf8(q).len() >= q.len(),
    decreases q.len(),
{
    if q.len() > 0 {
        lemma_utf8_len_at_least(q.drop_first());
    }
}

/// A character takes one byte exactly when it is ASCII.
pub proof fn lemma_utf8_len_one(c: char)
    ensures
        encode_utf8(seq![c]).len() == 1 <==> (c as u32) < 0x80,
        encode_utf8(seq![c]).len() >= 1,
{
    assert(seq![c].drop_first() =~= Seq::<char>::empty());
    assert(encode_utf8(Seq::<char>::empty()) =~= Seq::<u8>::empty());
    assert(encode_utf8(seq![c]) =~= encode_scalar(c as u32));
}

/// The UTF-8 length of two characters.
pub proof fn lemma_utf8_len_two(a: char, b: char)
    ensures
        encode_utf8(seq![a, b]).len() == encode_utf8(seq![a]).len() + encode_utf8(seq![b]).len(),
{
    assert(seq![a, b].drop_first() =~= seq![b]);
    assert(seq![a].drop_first() =~= Seq::<char>::empty());
    assert(encode_utf8(Seq::<char>::empty()) =~= Seq::<u8>::empty());
    assert(encode_utf8(seq![a]) =~= encode_scalar(a as u32));
    assert(encode_utf8(seq![a, b]) =~= encode_scalar(a as u32) + encode_utf8(seq![b]));
}

/// Whether `q` takes fewer than two bytes in UTF-8.
pub fn utf8_shorter_than_two(q: &[char]) -> (b: bool)
    ensures
        b == (encode_utf8(q@).len() < 2),
{
    proof {
        lemma_utf8_len_at_least(q@);
    }
    if q.len() >= 2 {
        false
    } else if q.len() == 0 {
        assert(q@ =~= Seq::<char>::empty());
        true
    } else {
        proof {
            lemma_utf8_len_one(q@[0]);
            assert(q@ =~= seq![q@[0]]);
        }
        (q[0] as u32) < 0x80
    }
}

proof fn lemma_trim_start_shape(s: Seq<char>)
    ensures
        trim_start(s).len() == 0 || !is_space(trim_start(s)[0]),
    decreases s.len(),
{
    if s.len() > 0 && is_space(s[0]) {
        lemma_trim_start_shape(s.drop_first());
    }
}

proof fn lemma_trim_end_shape(s: Seq<char>)
    ensures
        trim_end(s).len() <= s.len(),
        trim_end(s) == s.take(trim_end(s).len() as int),
        trim_end(s).len() == 0 || !is_space(trim_end(s).last()),
    decreases s.len(),
{
    if s.len() > 0 && is_space(s.last()) {
        lemma_trim_end_shape(s.drop_last());
        let t = trim_end(s.drop_last());
        assert(s.drop_last().take(t.len() as int) =~= s.take(t.len() as int));
    } else {
        assert(s.take(s.len() as int) =~= s);
    }
}

/// Trimming twice is trimming once.
pub proof fn lemma_trim_idempotent(s: Seq<char>)
    ensures
        trim(trim(s)) == trim(s),
{
    let t = trim_start(s);
    lemma_trim_start_shape(s);
    lemma_trim_end_shape(t);
    let u = trim_end(t);
    if u.len() > 0 {
        assert(u[0] == t[0]);
    }
    assert(trim_start(u) == u);
    lemma_trim_end_shape(u);
    assert(trim_end(u) == u);
}

proof fn lemma_trim_start_suffix(s: Seq<char>)
    ensures
        trim_start(s).len() <= s.len(),
        trim_start(s) == s.skip(s.len() - trim_start(s).len()),
    decreases s.len(),
{
    if s.len() > 0 && is_space(s[0]) {
        lemma_trim_start_suffix(s.drop_first());
        let t = trim_start(s.drop_first());
        assert(s.drop_first().skip(s.drop_first().len() - t.len()) =~= s.skip(s.len() - t.len()));
    } else {
        assert(s.skip(0) =~= s);
    }
}

/// Whether the only white space in `s` is the plain space.
pub open spec fn only_plain_spaces(s: Seq<char>) -> bool {
    forall|i: int| 0 <= i < s.len() && is_space(#[trigger] s[i]) ==> s[i] == ' '
}

/// Trimming keeps a text free of white space other than the plain space.
pub proof fn lemma_trim_plain(s: Seq<char>)
    requires
        only_plain_spaces(s),
    ensures
        only_plain_spaces(trim(s)),
{
    lemma_trim_start_suffix(s);
    let t = trim_start(s);
    let k = s.len() - t.len();
    lemma_trim_end_shape(t);
    let u = trim_end(t);
    assert forall|i: int| 0 <= i < u.len() && is_space(#[trigger] u[i]) implies u[i] == ' ' by {
        assert(u[i] == t[i]);
        assert(t[i] == s[i + k]);
    }
}

/// A text without white space is its own trimming.
pub proof fn lemma_trim_no_space(s: Seq<char>)
    requires
        forall|i: int| 0 <= i < s.len() ==> !is_space(#[trigger] s[i]),
    ensures
        trim(s) == s,
{
    assert(trim_start(s) == s);
    if s.len() > 0 {
        assert(!is_space(s.last()));
    }
    assert(trim_end(s) == s);
}

/// Replacing a text that does not occur changes nothing.
pub proof fn lemma_replace_absent(s: Seq<char>, p: Seq<char>, r: Seq<char>)
    requires
        !contains(s, p),
    ensures
        replace_all(s, p, r) == s,
    decreases s.len(),
{
    if p.len() > 0 && s.len() >= p.len() {
        assert(!occurs_at(s, p, 0));
        assert(s.subrange(0, p.len() as int) =~= s.take(p.len() as int));
        assert forall|i: int| !occurs_at(s.drop_first(), p, i) by {
            if occurs_at(s.drop_first(), p, i) {
                assert(s.drop_first().subrange(i, i + p.len()) =~= s.subrange(i + 1, i + 1 + p.len()));
                assert(occurs_at(s, p, i + 1));
            }
        }
        lemma_replace_absent(s.drop_first(), p, r);
        assert(seq![s[0]] + s.drop_first() =~= s);
    }
}

/// The characters of `s`, in order.
pub fn chars_of(s: &str) -> (r: Vec<char>)
    ensures
        r@ == s@,
{
    let mut r: Vec<char> = Vec::new();
    for c in it: s.chars()
        invariant
            r@ == it.seq().take(it.index() as int),
    {
        r.push(c);
    }
    r
}

/// Appends one character (`String::push`).
#[verifier::external_body]
pub(crate) fn push_char(s: &mut String, c: char)
    ensures
        final(s)@ == old(s)@.push(c),
{
    s.push(c);
}

/// The string made of the characters `v`.
pub fn string_of(v: &[char]) -> (r: String)
    ensures
        r@ == v@,
{
    let mut r = String::new();
    for i in 0..v.len()
        invariant
            r@ == v@.take(i as int),
    {
        push_char(&mut r, v[i]);
        assert(v@.take(i + 1) =~= v@.take(i as int).push(v@[i as int]));
    }
    assert(v@.take(v@.len() as int) =~= v@);
    r
}

/// Appends the characters `v` to `out`.
pub fn push_all(out: &mut Vec<char>, v: &[char])
    ensures
        final(out)@ == old(out)@ + v@,
{
    for i in 0..v.len()
        invariant
            out@ == old(out)@ + v@.take(i as int),
    {
        out.push(v[i]);
        assert(v@.take(i + 1) =~= v@.take(i as int).push(v@[i as int]));
    }
    assert(v@.take(v@.len() as int) =~= v@);
}

/// The characters `a` followed by `b`.
pub fn join2(a: &[char], b: &[char]) -> (r: Vec<char>)
    ensures
        r@ == a@ + b@,
{
    let mut r: Vec<char> = Vec::new();
    push_all(&mut r, a);
    push_all(&mut r, b);
    assert(r@ =~= a@ + b@);
    r
}

/// The characters of `a` followed by those of `b`.
pub fn concat_str(a: &str, b: &str) -> (r: String)
    ensures
        r@ == a@ + b@,
{
    let mut s = String::from_str(a);
    s.append(b);
    s
}

/// The characters of `a`, `b` and `c` in turn.
pub fn concat3(a: &str, b: &str, c: &str) -> (r: String)
    ensures
        r@ == a@ + b@ + c@,
{
    let mut s = String::from_str(a);
    s.append(b);
    s.append(c);
    s
}

/// A copy of the string `s`.
pub fn copy_string(s: &String) -> (r: String)
    ensures
        r@ == s@,
{
    String::from_str(s.as_str())
}

/// A copy of the optional string `s`.
pub fn copy_opt_string(s: &Option<String>) -> (r: Option<String>)
    ensures
        opt_view(*s) == opt_view(r),
{
    match s {
        Some(t) => Some(copy_string(t)),
        None => None,
    }
}

/// A copy of the strings `v`.
pub fn copy_strings(v: &Vec<String>) -> (r: Vec<String>)
    ensures
        r.deep_view() == v.deep_view(),
{
    let mut r: Vec<String> = Vec::new();
    for i in 0..v.len()
        invariant
            r@.len() == i,
            forall|j: int| 0 <= j < i ==> #[trigger] r@[j]@ == v@[j]@,
    {
        r.push(copy_string(&v[i]));
    }
    assert(r.deep_view() =~= v.deep_view());
    r
}

/// The characters of an optional string.
pub open spec fn opt_view(s: Option<String>) -> Option<Seq<char>> {
    match s {
        Some(t) => Some(t@),
        None => None,
    }
}

/// Whether `c` is white space (`char::is_whitespace`).
pub fn is_space_char(c: char) -> (b: bool)
    ensures
        b == is_space(c),
{
    let u = c as u32;
    (0x9 <= u && u <= 0xD) || u == 0x20 || u == 0x85 || u == 0xA0 || u == 0x1680 || (0x2000 <= u
        && u <= 0x200A) || u == 0x2028 || u == 0x2029 || u == 0x202F || u == 0x205F || u == 0x3000
}

/// The characters `s[from..to]`.
pub fn slice_chars(s: &[char], from: usize, to: usize) -> (r: Vec<char>)
    requires
        from <= to <= s@.len(),
    ensures
        r@ == s@.subrange(from as int, to as int),
{
    let mut r: Vec<char> = Vec::new();
    for i in from..to
        invariant
            from <= to <= s@.len(),
            r@ == s@.subrange(from as int, i as int),
    {
        r.push(s[i]);
        assert(s@.subrange(from as int, i + 1) =~= s@.subrange(from as int, i as int).push(
            s@[i as int],
        ));
    }
    r
}

/// `s` without leading and trailing white space.
pub fn trim_chars(s: &[char]) -> (r: Vec<char>)
    ensures
        r@ == trim(s@),
{
    let len = s.len();
    let mut i: usize = 0;
    assert(s@.subrange(0, len as int) =~= s@);
    while i < len && is_space_char(s[i])
        invariant
            i <= len == s@.len(),
            trim_start(s@) == trim_start(s@.subrange(i as int, len as int)),
        decreases len - i,
    {
        proof {
            lemma_trim_start_step(s@, i as int);
        }
        i = i + 1;
    }
    let ghost t = s@.subrange(i as int, len as int);
    assert(trim_start(s@) == t);
    let mut j: usize = len;
    assert(t.take(t.len() as int) =~= t);
    while j > i && is_space_char(s[j - 1])
        invariant
            i <= j <= len == s@.len(),
            t == s@.subrange(i as int, len as int),
            trim_end(t) == trim_end(t.take(j - i)),
        decreases j,
    {
        proof {
            lemma_trim_end_step(t, j - i);
        }
        j = j - 1;
    }
    assert(t.take(j - i) =~= s@.subrange(i as int, j as int));
    slice_chars(s, i, j)
}

/// `s` without leading and trailing white space (`str::trim`).
pub fn trim_str(s: &str) -> (r: String)
    ensures
        r@ == trim(s@),
{
    let v = chars_of(s);
    let t = trim_chars(v.as_slice());
    string_of(t.as_slice())
}

/// The position of the first `c` in `s`.
pub fn find_char(s: &[char], c: char) -> (r: Option<usize>)
    ensures
        match r {
            Some(i) => first_index(s@, c) == Some(i as int),
            None => first_index(s@, c) is None,
        },
{
    for i in 0..s.len()
        invariant
            forall|j: int| 0 <= j < i ==> s@[j] != c,
    {
        if s[i] == c {
            proof {
                lemma_first_index_is(s@, c, i as int);
            }
            return Some(i);
        }
    }
    proof {
        lemma_first_index_none(s@, c);
    }
    None
}

/// Whether `p` occurs in `s` at position `i`.
pub fn occurs_at_exec(s: &[char], p: &[char], i: usize) -> (b: bool)
    ensures
        b == occurs_at(s@, p@, i as int),
{
    if i > s.len() || p.len() > s.len() - i {
        return false;
    }
    for k in 0..p.len()
        invariant
            i + p.len() <= s.len(),
            forall|m: int| 0 <= m < k ==> s@[i + m] == p@[m],
    {
        if s[i + k] != p[k] {
            assert(s@.subrange(i as int, i + p@.len())[k as int] != p@[k as int]);
            return false;
        }
    }
    assert(s@.subrange(i as int, i + p@.len()) =~= p@);
    true
}

/// Whether `s` begins with `p`.
pub fn starts_with_chars(s: &[char], p: &[char]) -> (b: bool)
    ensures
        b == starts_with(s@, p@),
{
    occurs_at_exec(s, p, 0)
}

/// Whether `p` occurs somewhere in `s`.
pub fn contains_chars(s: &[char], p: &[char]) -> (b: bool)
    ensures
        b == contains(s@, p@),
{
    if p.len() > s.len() {
        return false;
    }
    let last = s.len() - p.len();
    for i in 0..last
        invariant
            last + p@.len() == s@.len(),
            forall|j: int| 0 <= j < i ==> !occurs_at(s@, p@, j),
    {
        if occurs_at_exec(s, p, i) {
            return true;
        }
    }
    if occurs_at_exec(s, p, last) {
        return true;
    }
    assert forall|j: int| !occurs_at(s@, p@, j) by {
        if 0 <= j && j + p@.len() <= s@.len() {
            assert(j <= last);
        }
    }
    false
}

/// Whether the string `s` contains the string `p` (`str::contains`).
pub fn str_contains(s: &str, p: &str) -> (b: bool)
    ensures
        b == contains(s@, p@),
{
    let sv = chars_of(s);
    let pv = chars_of(p);
    contains_chars(sv.as_slice(), pv.as_slice())
}

/// Whether the string `s` begins with the string `p` (`str::starts_with`).
pub fn str_starts_with(s: &str, p: &str) -> (b: bool)
    ensures
        b == starts_with(s@, p@),
{
    let sv = chars_of(s);
    let pv = chars_of(p);
    starts_with_chars(sv.as_slice(), pv.as_slice())
}

/// Whether `a` and `b` hold the same characters.
pub fn eq_chars(a: &[char], b: &[char]) -> (r: bool)
    ensures
        r == (a@ == b@),
{
    if a.len() != b.len() {
        return false;
    }
    for i in 0..a.len()
        invariant
            a@.len() == b@.len(),
            forall|j: int| 0 <= j < i ==> a@[j] == b@[j],
    {
        if a[i] != b[i] {
            return false;
        }
    }
    assert(a@ =~= b@);
    true
}

/// Whether the strings `a` and `b` are equal.
pub fn str_eq(a: &str, b: &str) -> (r: bool)
    ensures
        r == (a@ == b@),
{
    let av = chars_of(a);
    let bv = chars_of(b);
    eq_chars(av.as_slice(), bv.as_slice())
}

/// `s` with every occurrence of `p` replaced by `r`.
pub fn replace_chars(s: &[char], p: &[char], r: &[char]) -> (out: Vec<char>)
    requires
        p@.len() > 0,
    ensures
        out@ == replace_all(s@, p@, r@),
{
    let mut out: Vec<char> = Vec::new();
    let mut i: usize = 0;
    let len = s.len();
    assert(s@.skip(0) =~= s@);
    while i < len
        invariant
            i <= len == s@.len(),
            p@.len() > 0,
            out@ + replace_all(s@.skip(i as int), p@, r@) == replace_all(s@, p@, r@),
        decreases len - i,
    {
        let ghost rest = s@.skip(i as int);
        if p.len() <= len - i && occurs_at_exec(s, p, i) {
            assert(rest.take(p@.len() as int) =~= s@.subrange(i as int, i + p@.len()));
            assert(rest.skip(p@.len() as int) =~= s@.skip(i + p@.len() as int));
            push_all(&mut out, r);
            i = i + p.len();
            assert(out@ + replace_all(s@.skip(i as int), p@, r@) =~= replace_all(s@, p@, r@));
        } else {
            proof {
                if rest.len() >= p@.len() {
                    assert(rest.take(p@.len() as int) =~= s@.subrange(i as int, i + p@.len()));
                    assert(rest.take(p@.len() as int) != p@);
                    assert(rest.drop_first() =~= s@.skip(i + 1 as int));
                } else {
                    lemma_replace_short(rest, p@, r@);
                    lemma_replace_short(s@.skip(i + 1 as int), p@, r@);
                    assert(rest =~= seq![s@[i as int]] + s@.skip(i + 1 as int));
                }
            }
            out.push(s[i]);
            i = i + 1;
            assert(out@ + replace_all(s@.skip(i as int), p@, r@) =~= replace_all(s@, p@, r@));
        }
    }
    assert(s@.skip(len as int) =~= Seq::<char>::empty());
    assert(out@ + Seq::<char>::empty() =~= out@);
    out
}

/// The string `s` with every occurrence of `p` replaced by `r` (`str::replace`).
pub fn str_replace(s: &str, p: &str, r: &str) -> (out: String)
    requires
        p@.len() > 0,
    ensures
        out@ == replace_all(s@, p@, r@),
{
    let sv = chars_of(s);
    let pv = chars_of(p);
    let rv = chars_of(r);
    let o = replace_chars(sv.as_slice(), pv.as_slice(), rv.as_slice());
    string_of(o.as_slice())
}

/// The words of `s` (`str::split_whitespace`).
pub fn words_of(s: &[char]) -> (r: Vec<String>)
    ensures
        r.deep_view() == words(s@),
{
    let mut out: Vec<String> = Vec::new();
    let mut cur: Vec<char> = Vec::new();
    let len = s.len();
    assert(s@.skip(0) =~= s@);
    for i in 0..len
        invariant
            len == s@.len(),
            out.deep_view() + words_from(s@.skip(i as int), cur@) == words(s@),
    {
        let ghost rest = s@.skip(i as int);
        assert(rest[0] == s@[i as int]);
        assert(rest.drop_first() =~= s@.skip(i + 1 as int));
        if is_space_char(s[i]) {
            let ghost before = out.deep_view();
            if cur.len() > 0 {
                let w = string_of(cur.as_slice());
                out.push(w);
                assert(out.deep_view() =~= before.push(cur@));
                assert(before + seq![cur@] =~= before.push(cur@));
            }
            cur = Vec::new();
        } else {
            cur.push(s[i]);
        }
    }
    assert(s@.skip(len as int) =~= Seq::<char>::empty());
    let ghost before = out.deep_view();
    if cur.len() > 0 {
        let w = string_of(cur.as_slice());
        out.push(w);
        assert(out.deep_view() =~= before.push(cur@));
    }
    assert(out.deep_view() =~= words(s@));
    out
}

/// Whether `c` occurs in `s`.
pub fn has_char_exec(s: &[char], c: char) -> (b: bool)
    ensures
        b == has_char(s@, c),
{
    for i in 0..s.len()
        invariant
            forall|j: int| 0 <= j < i ==> s@[j] != c,
    {
        if s[i] == c {
            return true;
        }
    }
    false
}

/// The last piece of `s` split at `p` (`s.split(p).last()`).
pub fn last_piece_chars(s: &[char], p: &[char]) -> (r: Vec<char>)
    requires
        p@.len() > 0,
    ensures
        r@ == last_piece(s@, p@),
{
    let len = s.len();
    let plen = p.len();
    let mut i: usize = 0;
    let mut last: Option<usize> = None;
    assert(s@.skip(0) =~= s@);
    while plen <= len - i
        invariant
            i <= len == s@.len(),
            plen == p@.len() > 0,
            match last {
                Some(c) => c <= len,
                None => true,
            },
            after_last_cut(s@, p@) == match after_last_cut(s@.skip(i as int), p@) {
                Some(t) => Some(t),
                None => match last {
                    Some(c) => Some(s@.skip(c as int)),
                    None => None,
                },
            },
        decreases len - i,
    {
        let ghost rest = s@.skip(i as int);
        if occurs_at_exec(s, p, i) {
            assert(rest.take(plen as int) =~= s@.subrange(i as int, i + plen));
            assert(rest.skip(plen as int) =~= s@.skip(i + plen));
            i = i + plen;
            last = Some(i);
        } else {
            assert(rest.take(plen as int) =~= s@.subrange(i as int, i + plen));
            assert(rest.drop_first() =~= s@.skip(i + 1 as int));
            i = i + 1;
        }
    }
    assert(after_last_cut(s@.skip(i as int), p@) is None);
    match last {
        Some(c) => slice_chars(s, c, len),
        None => slice_chars(s, 0, len),
    }
}

/// `{name}`.
pub fn braced_name(name: &str) -> (r: String)
    ensures
        r@ == braced(name@),
{
    let mut s = String::new();
    push_char(&mut s, '{');
    s.append(name);
    push_char(&mut s, '}');
    assert(s@ =~= braced(name@));
    s
}

} // verus!
