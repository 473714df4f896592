//! Character-level text operations on which the rest of the library is built:
//! trimming, prefix and substring tests, decimal integers, line splitting.
//!
//! Text is handled as `Vec<char>` inside the library and converted to and from
//! `String` at its edges; every operation here is stated over `Seq<char>`.
use vstd::prelude::*;

verus! {

// ---------------------------------------------------------------------------
// Conversions
// ---------------------------------------------------------------------------

/// The characters of `s`, in order.
pub fn chars_of(s: &str) -> (out: Vec<char>)
    ensures
        out@ == s@,
{
    let mut out: Vec<char> = Vec::new();
    for c in it: s.chars()
        invariant
            out@ == it.seq().take(it.index() as int),
            it.seq() == s@,
    {
        out.push(c);
    }
    out
}

/// Builds a `String` from its characters (std's `FromIterator<&char>` for
/// `String`): the string holds exactly the given characters, in order.
#[verifier::external_body]
pub(crate) fn string_from_chars(v: &Vec<char>) -> (s: String)
    ensures
        s@ == v@,
{
    v.iter().collect::<String>()
}

/// Appends `c` to `s` (std's `String::push`).
#[verifier::external_body]
pub(crate) fn string_push(s: &mut String, c: char)
    ensures
        final(s)@ == old(s)@.push(c),
{
    s.push(c)
}

/// Removes the last character of `s` and returns it (std's `String::pop`);
/// `None` and `s` unchanged when `s` is empty.
#[verifier::external_body]
pub(crate) fn string_pop(s: &mut String) -> (r: Option<char>)
    ensures
        old(s)@.len() == 0 ==> r is None && final(s)@ == old(s)@,
        old(s)@.len() > 0 ==> r == Some(old(s)@.last()) && final(s)@ == old(s)@.drop_last(),
{
    s.pop()
}

/// A copy of `v[from..to]`.
pub fn sub_chars(v: &Vec<char>, from: usize, to: usize) -> (out: Vec<char>)
    requires
        from <= to <= v.len(),
    ensures
        out@ == v@.subrange(from as int, to as int),
{
    let mut out: Vec<char> = Vec::new();
    let mut i = from;
    while i < to
        invariant
            from <= i <= to <= v.len(),
            out@ == v@.subrange(from as int, i as int),
        decreases to - i,
    {
        out.push(v[i]);
        i += 1;
        assert(out@ =~= v@.subrange(from as int, i as int));
    }
    out
}

/// Whether two character sequences are equal.
pub fn chars_eq(a: &Vec<char>, b: &Vec<char>) -> (r: bool)
    ensures
        r == (a@ == b@),
{
    if a.len() != b.len() {
        return false;
    }
    let mut i: usize = 0;
    while i < a.len()
        invariant
            a.len() == b.len(),
            i <= a.len(),
            forall|k: int| 0 <= k < i ==> a@[k] == b@[k],
        decreases a.len() - i,
    {
        if a[i] != b[i] {
            return false;
        }
        i += 1;
    }
    assert(a@ =~= b@);
    true
}

// ---------------------------------------------------------------------------
// Whitespace, control characters, trimming
// ---------------------------------------------------------------------------

/// The Unicode `White_Space` property, which is what `char::is_whitespace`
/// tests: U+0009..U+000D, U+0020, U+0085, U+00A0, U+1680, U+2000..U+200A,
/// U+2028, U+2029, U+202F, U+205F and U+3000.
pub open spec fn is_ws(c: char) -> bool {
    let u = c as u32;
    ||| 0x9 <= u <= 0xd
    ||| u == 0x20
    ||| u == 0x85
    ||| u == 0xa0
    ||| u == 0x1680
    ||| 0x2000 <= u <= 0x200a
    ||| u == 0x2028
    ||| u == 0x2029
    ||| u == 0x202f
    ||| u == 0x205f
    ||| u == 0x3000
}

/// Whether `c` is whitespace (`char::is_whitespace`).
pub fn is_whitespace(c: char) -> (r: bool)
    ensures
        r == is_ws(c),
{
    let u = c as u32;
    (0x9 <= u && u <= 0xd) || u == 0x20 || u == 0x85 || u == 0xa0 || u == 0x1680 || (0x2000 <= u
        && u <= 0x200a) || u == 0x2028 || u == 0x2029 || u == 0x202f || u == 0x205f || u == 0x3000
}

/// The general category `Cc` (control codes), which is what `char::is_control`
/// tests: U+0000..U+001F and U+007F..U+009F.
pub open spec fn is_control_char(c: char) -> bool {
    let u = c as u32;
    u <= 0x1f || (0x7f <= u <= 0x9f)
}

/// Whether `c` is a control character (`char::is_control`).
pub fn is_control(c: char) -> (r: bool)
    ensures
        r == is_control_char(c),
{
    let u = c as u32;
    u <= 0x1f || (0x7f <= u && u <= 0x9f)
}

/// `s` without its leading whitespace.
pub open spec fn trim_start(s: Seq<char>) -> Seq<char>
    decreases s.len(),
{
    if s.len() > 0 && is_ws(s[0]) {
        trim_start(s.drop_first())
    } else {
        s
    }
}

/// `s` without its trailing whitespace.
pub open spec fn trim_end(s: Seq<char>) -> Seq<char>
    decreases s.len(),
{
    if s.len() > 0 && is_ws(s.last()) {
        trim_end(s.drop_last())
    } else {
        s
    }
}

/// `s` without leading and trailing whitespace (`str::trim`).
pub open spec fn trim(s: Seq<char>) -> Seq<char> {
    trim_end(trim_start(s))
}

/// `trim` of `v`.
pub fn trim_chars(v: &Vec<char>) -> (out: Vec<char>)
    ensures
        out@ == trim(v@),
{
    let n = v.len();
    let mut i: usize = 0;
    assert(v@.subrange(0, n as int) =~= v@);
    while i < n && is_whitespace(v[i])
        invariant
            n == v.len(),
            i <= n,
            trim_start(v@) == trim_start(v@.subrange(i as int, n as int)),
        decreases n - i,
    {
        assert(v@.subrange(i as int, n as int).drop_first() =~= v@.subrange(i + 1, n as int));
        i += 1;
    }
    let ghost t = v@.subrange(i as int, n as int);
    assert(trim_start(t) == t);
    let mut j: usize = n;
    while j > i && is_whitespace(v[j - 1])
        invariant
            n == v.len(),
            i <= j <= n,
            t == v@.subrange(i as int, n as int),
            trim_end(t) == trim_end(v@.subrange(i as int, j as int)),
        decreases j,
    {
        assert(v@.subrange(i as int, j as int).drop_last() =~= v@.subrange(i as int, j - 1));
        j -= 1;
    }
    sub_chars(v, i, j)
}

/// `s` trimmed (`str::trim`), as a new `String`.
pub fn trim_str(s: &str) -> (out: String)
    ensures
        out@ == trim(s@),
{
    let v = chars_of(s);
    let t = trim_chars(&v);
    string_from_chars(&t)
}

// ---------------------------------------------------------------------------
// Prefixes, suffixes, substrings
// ---------------------------------------------------------------------------

/// `p` is a prefix of `s`.
pub open spec fn starts_with(s: Seq<char>, p: Seq<char>) -> bool {
    p.len() <= s.len() && s.subrange(0, p.len() as int) == p
}

/// `p` is a suffix of `s`.
pub open spec fn ends_with(s: Seq<char>, p: Seq<char>) -> bool {
    p.len() <= s.len() && s.subrange(s.len() - p.len(), s.len() as int) == p
}

/// `n` occurs in `h` starting at position `i`.
pub open spec fn occurs_at(h: Seq<char>, n: Seq<char>, i: int) -> bool {
    0 <= i && i + n.len() <= h.len() && h.subrange(i, i + n.len()) == n
}

/// `n` occurs somewhere in `h` (`str::contains`; the empty needle occurs in
/// every haystack).
pub open spec fn contains_seq(h: Seq<char>, n: Seq<char>) -> bool {
    exists|i: int| occurs_at(h, n, i)
}

/// Whether `n` occurs in `h` at position `i`.
pub fn occurs_at_exec(h: &Vec<char>, n: &Vec<char>, i: usize) -> (r: bool)
    ensures
        r == occurs_at(h@, n@, i as int),
{
    if i > h.len() || n.len() > h.len() - i {
        return false;
    }
    let mut k: usize = 0;
    while k < n.len()
        invariant
            i + n.len() <= h.len(),
            k <= n.len(),
            forall|m: int| 0 <= m < k ==> h@[i + m] == n@[m],
        decreases n.len() - k,
    {
        if h[i + k] != n[k] {
            assert(h@.subrange(i as int, i + n.len())[k as int] != n@[k as int]);
            return false;
        }
        k += 1;
    }
    assert(h@.subrange(i as int, i + n.len()) =~= n@);
    true
}

/// Whether `v` starts with `p`.
pub fn starts_with_chars(v: &Vec<char>, p: &Vec<char>) -> (r: bool)
    ensures
        r == starts_with(v@, p@),
{
    occurs_at_exec(v, p, 0)
}

/// Whether `v` ends with `p`.
pub fn ends_with_chars(v: &Vec<char>, p: &Vec<char>) -> (r: bool)
    ensures
        r == ends_with(v@, p@),
{
    if p.len() > v.len() {
        return false;
    }
    occurs_at_exec(v, p, v.len() - p.len())
}

/// Whether `n` occurs in `h`.
pub fn contains_chars(h: &Vec<char>, n: &Vec<char>) -> (r: bool)
    ensures
        r == contains_seq(h@, n@),
{
    if n.len() > h.len() {
        assert forall|i: int| !occurs_at(h@, n@, i) by {}
        return false;
    }
    if n.len() == 0 {
        assert(h@.subrange(0, 0) =~= n@);
        assert(occurs_at(h@, n@, 0));
        return true;
    }
    let end = h.len() - n.len() + 1;
    let mut i: usize = 0;
    while i < end
        invariant
            end == h.len() - n.len() + 1,
            forall|m: int| 0 <= m < i ==> !occurs_at(h@, n@, m),
        decreases end - i,
    {
        if occurs_at_exec(h, n, i) {
            return true;
        }
        i += 1;
    }
    false
}

/// `s` with every leading copy of `p` removed (`str::trim_start_matches`
/// with a non-empty string pattern).
pub open spec fn strip_all_prefix(s: Seq<char>, p: Seq<char>) -> Seq<char>
    decreases s.len(),
{
    if p.len() > 0 && starts_with(s, p) {
        strip_all_prefix(s.subrange(p.len() as int, s.len() as int), p)
    } else {
        s
    }
}

/// `s` with every trailing copy of `p` removed (`str::trim_end_matches`
/// with a non-empty string pattern).
pub open spec fn strip_all_suffix(s: Seq<char>, p: Seq<char>) -> Seq<char>
    decreases s.len(),
{
    if p.len() > 0 && ends_with(s, p) {
        strip_all_suffix(s.subrange(0, s.len() - p.len()), p)
    } else {
        s
    }
}

/// `strip_all_prefix` of `v`.
pub fn strip_all_prefix_chars(v: &Vec<char>, p: &Vec<char>) -> (out: Vec<char>)
    ensures
        out@ == strip_all_prefix(v@, p@),
{
    let n = v.len();
    if p.len() == 0 {
        return sub_chars(v, 0, n);
    }
    let mut i: usize = 0;
    assert(v@.subrange(0, n as int) =~= v@);
    while p.len() <= n - i && occurs_at_exec(v, p, i)
        invariant
            n == v.len(),
            p.len() > 0,
            i <= n,
            strip_all_prefix(v@, p@) == strip_all_prefix(v@.subrange(i as int, n as int), p@),
        decreases n - i,
    {
        let ghost t = v@.subrange(i as int, n as int);
        assert(t.subrange(0, p.len() as int) =~= v@.subrange(i as int, i + p.len()));
        assert(t.subrange(p.len() as int, t.len() as int) =~= v@.subrange(i + p.len(), n as int));
        i += p.len();
    }
    let ghost t = v@.subrange(i as int, n as int);
    assert(starts_with(t, p@) ==> t.subrange(0, p.len() as int) =~= v@.subrange(
        i as int,
        i + p.len(),
    ));
    sub_chars(v, i, n)
}

/// `strip_all_suffix` of `v`.
pub fn strip_all_suffix_chars(v: &Vec<char>, p: &Vec<char>) -> (out: Vec<char>)
    ensures
        out@ == strip_all_suffix(v@, p@),
{
    let n = v.len();
    if p.len() == 0 {
        return sub_chars(v, 0, n);
    }
    let mut j: usize = n;
    assert(v@.subrange(0, n as int) =~= v@);
    while j >= p.len() && occurs_at_exec(v, p, j - p.len())
        invariant
            n == v.len(),
            p.len() > 0,
            j <= n,
            strip_all_suffix(v@, p@) == strip_all_suffix(v@.subrange(0, j as int), p@),
        decreases j,
    {
        let ghost t = v@.subrange(0, j as int);
        assert(t.subrange(t.len() - p.len(), t.len() as int) =~= v@.subrange(
            j - p.len(),
            j as int,
        ));
        assert(t.subrange(0, t.len() - p.len()) =~= v@.subrange(0, j - p.len()));
        j -= p.len();
    }
    let ghost t = v@.subrange(0, j as int);
    assert(ends_with(t, p@) ==> t.subrange(t.len() - p.len(), t.len() as int) =~= v@.subrange(
        j - p.len(),
        j as int,
    ));
    sub_chars(v, 0, j)
}

// ---------------------------------------------------------------------------
// Splitting at a character
// ---------------------------------------------------------------------------

/// `c` occurs in `s`.
pub open spec fn has_char(s: Seq<char>, c: char) -> bool {
    exists|i: int| 0 <= i < s.len() && s[i] == c
}

/// `i` is the position of the first `c` in `s`.
pub open spec fn is_first_index(s: Seq<char>, c: char, i: int) -> bool {
    0 <= i < s.len() && s[i] == c && forall|j: int| 0 <= j < i ==> s[j] != c
}

/// The position of the first `c` in `s` (meaningful when `has_char(s, c)`).
pub open spec fn first_index(s: Seq<char>, c: char) -> int {
    choose|i: int| is_first_index(s, c, i)
}

/// The text of `s` before its first `c`, or all of `s` when there is none
/// (the first item of `str::split(c)`).
pub open spec fn before_char(s: Seq<char>, c: char) -> Seq<char> {
    if has_char(s, c) {
        s.take(first_index(s, c))
    } else {
        s
    }
}

/// The text of `s` after its first `c`, if there is one (the second item of
/// `str::splitn(2, c)`).
pub open spec fn after_char(s: Seq<char>, c: char) -> Option<Seq<char>> {
    if has_char(s, c) {
        Some(s.skip(first_index(s, c) + 1))
    } else {
        None
    }
}

/// The first position is unique.
pub proof fn lemma_first_index_unique(s: Seq<char>, c: char, i: int)
    requires
        is_first_index(s, c, i),
    ensures
        has_char(s, c),
        first_index(s, c) == i,
{
    let j = first_index(s, c);
    assert(is_first_index(s, c, j));
    if j < i {
        assert(s[j] != c);
    } else if i < j {
        assert(s[i] != c);
    }
}

/// The position of the first `c` in `v`, if any.
pub fn find_char(v: &Vec<char>, c: char) -> (r: Option<usize>)
    ensures
        match r {
            Some(i) => is_first_index(v@, c, i as int) && has_char(v@, c) && first_index(v@, c)
                == i,
            None => !has_char(v@, c),
        },
{
    let mut i: usize = 0;
    while i < v.len()
        invariant
            i <= v.len(),
            forall|j: int| 0 <= j < i ==> v@[j] != c,
        decreases v.len() - i,
    {
        if v[i] == c {
            proof {
                lemma_first_index_unique(v@, c, i as int);
            }
            return Some(i);
        }
        i += 1;
    }
    None
}

/// `before_char` of `v`.
pub fn before_char_chars(v: &Vec<char>, c: char) -> (out: Vec<char>)
    ensures
        out@ == before_char(v@, c),
{
    match find_char(v, c) {
        Some(i) => sub_chars(v, 0, i),
        None => {
            assert(v@.subrange(0, v.len() as int) =~= v@);
            sub_chars(v, 0, v.len())
        },
    }
}

/// `after_char` of `v`.
pub fn after_char_chars(v: &Vec<char>, c: char) -> (out: Option<Vec<char>>)
    ensures
        match out {
            Some(w) => after_char(v@, c) == Some(w@),
            None => after_char(v@, c) is None,
        },
{
    match find_char(v, c) {
        Some(i) => {
            assert(i < v.len());
            let w = sub_chars(v, i + 1, v.len());
            assert(w@ =~= v@.skip(i + 1));
            Some(w)
        },
        None => None,
    }
}

// ---------------------------------------------------------------------------
// Lower case
// ---------------------------------------------------------------------------

/// What `str::to_lowercase` gives for a string with the characters `s`
/// (Unicode lower-casing, where one character may become several).
pub uninterp spec fn lowercase_of(s: Seq<char>) -> Seq<char>;

/// `s` in lower case (std's `str::to_lowercase`, which maps each character
/// of `s` to its lower case, so that empty text stays empty).  What each
/// character becomes is left to std, through the name `lowercase_of`.
#[verifier::external_body]
pub(crate) fn to_lowercase(s: &str) -> (out: String)
    ensures
        out@ == lowercase_of(s@),
        s@.len() == 0 ==> out@.len() == 0,
{
    s.to_lowercase()
}

/// `v` in lower case, as characters.
pub fn lowercase_chars(v: &Vec<char>) -> (out: Vec<char>)
    ensures
        out@ == lowercase_of(v@),
        v@.len() == 0 ==> out@.len() == 0,
{
    let s = string_from_chars(v);
    let l = to_lowercase(s.as_str());
    chars_of(l.as_str())
}

// ---------------------------------------------------------------------------
// Lines and joining
// ---------------------------------------------------------------------------

/// `s` without one trailing carriage return.
pub open spec fn strip_cr(s: Seq<char>) -> Seq<char> {
    if s.len() > 0 && s.last() == '\r' {
        s.drop_last()
    } else {
        s
    }
}

/// Reading `s` from the left: the lines completed so far (each ended by a
/// newline, which is dropped together with one carriage return just before
/// it) and the text of the line not yet ended.
pub open spec fn lines_state(s: Seq<char>) -> (Seq<Seq<char>>, Seq<char>)
    decreases s.len(),
{
    if s.len() == 0 {
        (seq![], seq![])
    } else {
        let (done, cur) = lines_state(s.drop_last());
        if s.last() == '\n' {
            (done.push(strip_cr(cur)), seq![])
        } else {
            (done, cur.push(s.last()))
        }
    }
}

/// The lines of `s` (`str::lines`): every newline ends a line, and text after
/// the last newline is a last line when it is not empty.
pub open spec fn lines_of(s: Seq<char>) -> Seq<Seq<char>> {
    let (done, cur) = lines_state(s);
    if cur.len() > 0 {
        done.push(cur)
    } else {
        done
    }
}

/// The lines of `s` (`str::lines`), each as a `String`.
pub fn split_lines(s: &str) -> (out: Vec<String>)
    ensures
        out@.len() == lines_of(s@).len(),
        forall|i: int| 0 <= i < out@.len() ==> #[trigger] out@[i]@ == lines_of(s@)[i],
{
    let v = chars_of(s);
    let mut done: Vec<String> = Vec::new();
    let mut cur: Vec<char> = Vec::new();
    let mut i: usize = 0;
    while i < v.len()
        invariant
            v@ == s@,
            i <= v.len(),
            done@.len() == lines_state(v@.take(i as int)).0.len(),
            forall|k: int|
                0 <= k < done@.len() ==> #[trigger] done@[k]@ == lines_state(v@.take(i as int)).0[k],
            cur@ == lines_state(v@.take(i as int)).1,
        decreases v.len() - i,
    {
        let ghost before = v@.take(i as int);
        assert(v@.take(i + 1).drop_last() =~= before);
        let c = v[i];
        if c == '\n' {
            let mut line = cur;
            if line.len() > 0 && line[line.len() - 1] == '\r' {
                line.pop();
            }
            done.push(string_from_chars(&line));
            cur = Vec::new();
        } else {
            cur.push(c);
        }
        i += 1;
    }
    assert(v@.take(v.len() as int) =~= v@);
    if cur.len() > 0 {
        done.push(string_from_chars(&cur));
    }
    done
}

/// The parts joined with `sep` between consecutive parts (`[T]::join`).
pub open spec fn join_seq(parts: Seq<Seq<char>>, sep: Seq<char>) -> Seq<char>
    decreases parts.len(),
{
    if parts.len() == 0 {
        seq![]
    } else if parts.len() == 1 {
        parts[0]
    } else {
        join_seq(parts.drop_last(), sep) + sep + parts.last()
    }
}

/// The views of a list of strings.
pub open spec fn strings_view(v: Seq<String>) -> Seq<Seq<char>> {
    v.map_values(|s: String| s@)
}

/// The strings joined with `sep` (`[String]::join`).
pub fn join_strings(parts: &Vec<String>, sep: &str) -> (out: String)
    ensures
        out@ == join_seq(strings_view(parts@), sep@),
{
    let ghost views = strings_view(parts@);
    let mut acc: Vec<char> = Vec::new();
    let sepc = chars_of(sep);
    let mut i: usize = 0;
    while i < parts.len()
        invariant
            views == strings_view(parts@),
            sepc@ == sep@,
            i <= parts.len(),
            acc@ == join_seq(views.take(i as int), sep@),
        decreases parts.len() - i,
    {
        let p = chars_of(parts[i].as_str());
        assert(views.take(i + 1).drop_last() =~= views.take(i as int));
        if i > 0 {
            append_chars(&mut acc, &sepc);
        } else {
            assert(views.take(0) =~= Seq::<Seq<char>>::empty());
        }
        append_chars(&mut acc, &p);
        i += 1;
        assert(acc@ =~= join_seq(views.take(i as int), sep@));
    }
    assert(views.take(parts.len() as int) =~= views);
    string_from_chars(&acc)
}

/// Appends the characters of `b` to `a`.
pub fn append_chars(a: &mut Vec<char>, b: &Vec<char>)
    ensures
        final(a)@ == old(a)@ + b@,
{
    let mut i: usize = 0;
    while i < b.len()
        invariant
            i <= b.len(),
            a@ == old(a)@ + b@.take(i as int),
        decreases b.len() - i,
    {
        a.push(b[i]);
        i += 1;
        assert(a@ =~= old(a)@ + b@.take(i as int));
    }
    assert(b@.take(b.len() as int) =~= b@);
}

/// The concatenation of two strings as a new `String`.
pub fn concat_str(a: &str, b: &str) -> (out: String)
    ensures
        out@ == a@ + b@,
{
    let mut v = chars_of(a);
    let w = chars_of(b);
    append_chars(&mut v, &w);
    string_from_chars(&v)
}

} // verus!
