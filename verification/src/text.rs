//! Character-level string operations with specifications over `Seq<char>`.
use vstd::prelude::*;

verus! {

/// The Unicode `White_Space` property, which is what `char::is_whitespace` tests.
pub open spec fn is_ws(c: char) -> bool {
    ||| c == '\t'
    ||| c == '\n'
    ||| c == '\x0B'
    ||| c == '\x0C'
    ||| c == '\r'
    ||| c == ' '
    ||| c == '\u{85}'
    ||| c == '\u{A0}'
    ||| c == '\u{1680}'
    ||| ('\u{2000}' <= c && c <= '\u{200A}')
    ||| c == '\u{2028}'
    ||| c == '\u{2029}'
    ||| c == '\u{202F}'
    ||| c == '\u{205F}'
    ||| c == '\u{3000}'
}

pub fn char_is_ws(c: char) -> (r: bool)
    ensures
        r == is_ws(c),
{
    c == '\t' || c == '\n' || c == '\x0B' || c == '\x0C' || c == '\r' || c == ' ' || c
        == '\u{85}' || c == '\u{A0}' || c == '\u{1680}' || ('\u{2000}' <= c && c <= '\u{200A}')
        || c == '\u{2028}' || c == '\u{2029}' || c == '\u{202F}' || c == '\u{205F}' || c
        == '\u{3000}'
}

/// `s` with leading whitespace removed.
pub open spec fn trim_start(s: Seq<char>) -> Seq<char>
    decreases s.len(),
{
    if s.len() > 0 && is_ws(s[0]) {
        trim_start(s.drop_first())
    } else {
        s
    }
}

/// `s` with trailing whitespace removed.
pub open spec fn trim_end(s: Seq<char>) -> Seq<char>
    decreases s.len(),
{
    if s.len() > 0 && is_ws(s.last()) {
        trim_end(s.drop_last())
    } else {
        s
    }
}

/// What `str::trim` gives back.
pub open spec fn trim(s: Seq<char>) -> Seq<char> {
    trim_end(trim_start(s))
}

/// `p` occurs in `s` at position `i`.
pub open spec fn has_at(s: Seq<char>, p: Seq<char>, i: int) -> bool {
    0 <= i && i + p.len() <= s.len() && s.subrange(i, i + p.len()) == p
}

/// `p` occurs somewhere in `s`.
pub open spec fn contains(s: Seq<char>, p: Seq<char>) -> bool {
    exists|i: int| #[trigger] has_at(s, p, i)
}

pub open spec fn starts_with(s: Seq<char>, p: Seq<char>) -> bool {
    has_at(s, p, 0)
}

pub open spec fn ends_with(s: Seq<char>, p: Seq<char>) -> bool {
    p.len() <= s.len() && has_at(s, p, s.len() - p.len())
}

/// What `str::replace(from, to)` gives back for a non-empty `from`: every
/// occurrence, taken from the left without overlap, is replaced.
pub open spec fn replace(s: Seq<char>, from: Seq<char>, to: Seq<char>) -> Seq<char>
    decreases s.len(),
{
    if from.len() == 0 || s.len() == 0 {
        s
    } else if starts_with(s, from) {
        to + replace(s.skip(from.len() as int), from, to)
    } else {
        seq![s[0]] + replace(s.drop_first(), from, to)
    }
}

/// What `str::split(c)` yields for a single character `c`.
pub open spec fn split(s: Seq<char>, c: char) -> Seq<Seq<char>>
    decreases s.len(),
{
    if s.len() == 0 {
        seq![Seq::<char>::empty()]
    } else {
        let rest = split(s.drop_first(), c);
        if s[0] == c {
            seq![Seq::<char>::empty()] + rest
        } else {
            rest.update(0, seq![s[0]] + rest[0])
        }
    }
}

/// ASCII lowercase of one character, as `char::to_ascii_lowercase`.
pub open spec fn ascii_lower_char(c: char) -> char {
    if 'A' <= c && c <= 'Z' {
        ((c as u32) + 32) as char
    } else {
        c
    }
}

/// As `str::to_ascii_lowercase`.
pub open spec fn ascii_lower(s: Seq<char>) -> Seq<char> {
    s.map_values(|c: char| ascii_lower_char(c))
}

pub proof fn lemma_split_nonempty(s: Seq<char>, c: char)
    ensures
        split(s, c).len() >= 1,
    decreases s.len(),
{
    if s.len() > 0 {
        lemma_split_nonempty(s.drop_first(), c);
    }
}

/// The characters of `s`.
pub fn chars_of(s: &str) -> (v: Vec<char>)
    ensures
        v@ == s@,
{
    let n = s.unicode_len();
    let mut v: Vec<char> = Vec::new();
    let mut i: usize = 0;
    while i < n
        invariant
            n == s@.len(),
            i <= n,
            v@ == s@.take(i as int),
        decreases n - i,
    {
        v.push(s.get_char(i));
        i = i + 1;
        assert(v@ =~= s@.take(i as int));
    }
    assert(s@.take(n as int) =~= s@);
    v
}

/// `String::push`.
///
/// Trusted: as documented, the character is appended at the end of the
/// string.
#[verifier::external_body]
pub fn push_char(s: &mut String, c: char)
    ensures
        final(s)@ == old(s)@.push(c),
{
    s.push(c);
}

/// The string made of the characters of `v`, in order.
pub fn string_of(v: &[char]) -> (s: String)
    ensures
        s@ == v@,
{
    let mut s = String::new();
    let mut i: usize = 0;
    while i < v.len()
        invariant
            i <= v@.len(),
            s@ == v@.take(i as int),
        decreases v@.len() - i,
    {
        push_char(&mut s, v[i]);
        i = i + 1;
        assert(s@ =~= v@.take(i as int));
    }
    assert(v@.take(v@.len() as int) =~= v@);
    s
}

pub fn str_eq(a: &str, b: &str) -> (r: bool)
    ensures
        r == (a@ == b@),
{
    let va = chars_of(a);
    let vb = chars_of(b);
    seq_eq(&va, &vb)
}

pub fn seq_eq(a: &[char], b: &[char]) -> (r: bool)
    ensures
        r == (a@ == b@),
{
    if a.len() != b.len() {
        return false;
    }
    let mut i: usize = 0;
    while i < a.len()
        invariant
            a@.len() == b@.len(),
            i <= a@.len(),
            forall|j: int| 0 <= j < i ==> a@[j] == b@[j],
        decreases a@.len() - i,
    {
        if a[i] != b[i] {
            return false;
        }
        i = i + 1;
    }
    assert(a@ =~= b@);
    true
}

/// Whether `p` occurs in `s` at position `i`.
pub fn matches_at(s: &[char], p: &[char], i: usize) -> (r: bool)
    ensures
        r == has_at(s@, p@, i as int),
{
    if i > s.len() || p.len() > s.len() - i {
        return false;
    }
    let mut j: usize = 0;
    while j < p.len()
        invariant
            i + p@.len() <= s@.len(),
            j <= p@.len(),
            forall|k: int| 0 <= k < j ==> s@[i + k] == p@[k],
        decreases p@.len() - j,
    {
        assert(i + j < s.len());
        if s[i + j] != p[j] {
            assert(s@.subrange(i as int, i + p@.len())[j as int] != p@[j as int]);
            return false;
        }
        j = j + 1;
    }
    assert(s@.subrange(i as int, i + p@.len()) =~= p@);
    true
}

pub fn starts_with_chars(s: &[char], p: &[char]) -> (r: bool)
    ensures
        r == starts_with(s@, p@),
{
    matches_at(s, p, 0)
}

pub fn ends_with_chars(s: &[char], p: &[char]) -> (r: bool)
    ensures
        r == ends_with(s@, p@),
{
    if p.len() > s.len() {
        false
    } else {
        matches_at(s, p, s.len() - p.len())
    }
}

/// First position at which `p` occurs in `s`, if any.
pub fn find(s: &[char], p: &[char]) -> (r: Option<usize>)
    ensures
        match r {
            Some(i) => has_at(s@, p@, i as int) && forall|k: int| 0 <= k < i ==> !has_at(
                s@,
                p@,
                k,
            ),
            None => !contains(s@, p@),
        },
{
    if p.len() > s.len() {
        return None;
    }
    let last = s.len() - p.len();
    let mut i: usize = 0;
    loop
        invariant
            last == s@.len() - p@.len(),
            i <= last,
            forall|k: int| 0 <= k < i ==> !has_at(s@, p@, k),
        decreases last - i,
    {
        if matches_at(s, p, i) {
            return Some(i);
        }
        if i == last {
            return None;
        }
        i = i + 1;
    }
}

pub fn contains_chars(s: &[char], p: &[char]) -> (r: bool)
    ensures
        r == contains(s@, p@),
{
    match find(s, p) {
        Some(_) => true,
        None => false,
    }
}

pub fn contains_str(s: &str, p: &str) -> (r: bool)
    ensures
        r == contains(s@, p@),
{
    let vs = chars_of(s);
    let vp = chars_of(p);
    contains_chars(&vs, &vp)
}

pub fn starts_with_str(s: &str, p: &str) -> (r: bool)
    ensures
        r == starts_with(s@, p@),
{
    let vs = chars_of(s);
    let vp = chars_of(p);
    starts_with_chars(&vs, &vp)
}

pub fn ends_with_str(s: &str, p: &str) -> (r: bool)
    ensures
        r == ends_with(s@, p@),
{
    let vs = chars_of(s);
    let vp = chars_of(p);
    ends_with_chars(&vs, &vp)
}

proof fn lemma_trim_start_skip(s: Seq<char>, i: int)
    requires
        0 <= i < s.len(),
        is_ws(s[i]),
    ensures
        trim_start(s.skip(i)) == trim_start(s.skip(i + 1)),
{
    assert(s.skip(i).drop_first() =~= s.skip(i + 1));
}

proof fn lemma_trim_end_take(s: Seq<char>, j: int)
    requires
        0 < j <= s.len(),
        is_ws(s[j - 1]),
    ensures
        trim_end(s.take(j)) == trim_end(s.take(j - 1)),
{
    assert(s.take(j).drop_last() =~= s.take(j - 1));
}

/// Characters of `s` without leading and trailing whitespace.
pub fn trim_chars(s: &[char]) -> (r: Vec<char>)
    ensures
        r@ == trim(s@),
{
    let n = s.len();
    let mut a: usize = 0;
    assert(s@.skip(0) =~= s@);
    while a < n && char_is_ws(s[a])
        invariant
            a <= n == s@.len(),
            trim_start(s@) == trim_start(s@.skip(a as int)),
        decreases n - a,
    {
        proof {
            lemma_trim_start_skip(s@, a as int);
        }
        a = a + 1;
    }
    let ghost t = s@.skip(a as int);
    assert(trim_start(t) == t);
    let mut b: usize = n;
    assert(t.take(t.len() as int) =~= t);
    while b > a && char_is_ws(s[b - 1])
        invariant
            a <= b <= n == s@.len(),
            t == s@.skip(a as int),
            trim_end(t) == trim_end(t.take(b - a)),
        decreases b,
    {
        proof {
            lemma_trim_end_take(t, (b - a) as int);
        }
        b = b - 1;
    }
    assert(trim_end(t.take(b - a)) == t.take(b - a)) by {
        if b - a > 0 {
            assert(t.take(b - a).last() == s@[b - 1]);
        }
    }
    let mut r: Vec<char> = Vec::new();
    let mut k: usize = a;
    while k < b
        invariant
            a <= k <= b <= n == s@.len(),
            r@ == s@.subrange(a as int, k as int),
        decreases b - k,
    {
        r.push(s[k]);
        k = k + 1;
        assert(r@ =~= s@.subrange(a as int, k as int));
    }
    assert(r@ =~= t.take(b - a));
    r
}

/// As `str::trim`.
pub fn trim_str(s: &str) -> (r: String)
    ensures
        r@ == trim(s@),
{
    let v = chars_of(s);
    let t = trim_chars(&v);
    string_of(&t)
}

proof fn lemma_replace_step(s: Seq<char>, from: Seq<char>, to: Seq<char>, i: int)
    requires
        from.len() > 0,
        0 <= i < s.len(),
    ensures
        has_at(s, from, i) ==> replace(s.skip(i), from, to) == to + replace(
            s.skip(i + from.len()),
            from,
            to,
        ),
        !has_at(s, from, i) ==> replace(s.skip(i), from, to) == seq![s[i]] + replace(
            s.skip(i + 1),
            from,
            to,
        ),
{
    let t = s.skip(i);
    if i + from.len() <= s.len() {
        assert(t.subrange(0, from.len() as int) =~= s.subrange(i, i + from.len()));
        assert(t.skip(from.len() as int) =~= s.skip(i + from.len()));
    } else {
        assert(!has_at(s, from, i));
        assert(!starts_with(t, from));
    }
    assert(t.drop_first() =~= s.skip(i + 1));
}

/// As `str::replace` for a non-empty pattern.
pub fn replace_chars(s: &[char], from: &[char], to: &[char]) -> (r: Vec<char>)
    requires
        from@.len() > 0,
    ensures
        r@ == replace(s@, from@, to@),
{
    let mut r: Vec<char> = Vec::new();
    let mut i: usize = 0;
    assert(s@.skip(0) =~= s@);
    while i < s.len()
        invariant
            from@.len() > 0,
            i <= s@.len(),
            r@ + replace(s@.skip(i as int), from@, to@) == replace(s@, from@, to@),
        decreases s@.len() - i,
    {
        proof {
            lemma_replace_step(s@, from@, to@, i as int);
        }
        if matches_at(s, from, i) {
            let ghost old_r = r@;
            let mut k: usize = 0;
            while k < to.len()
                invariant
                    k <= to@.len(),
                    r@ == old_r + to@.take(k as int),
                decreases to@.len() - k,
            {
                r.push(to[k]);
                k = k + 1;
                assert(r@ =~= old_r + to@.take(k as int));
            }
            assert(to@.take(to@.len() as int) =~= to@);
            assert(r@ + replace(s@.skip(i + from@.len()), from@, to@) =~= old_r + (to@ + replace(
                s@.skip(i + from@.len()),
                from@,
                to@,
            )));
            i = i + from.len();
        } else {
            let ghost old_r = r@;
            r.push(s[i]);
            assert(r@ + replace(s@.skip(i + 1), from@, to@) =~= old_r + (seq![s@[i as int]]
                + replace(s@.skip(i + 1), from@, to@)));
            i = i + 1;
        }
    }
    assert(s@.skip(i as int) =~= Seq::<char>::empty());
    assert(r@ + Seq::<char>::empty() =~= r@);
    r
}

/// As `str::replace` for a non-empty pattern.
pub fn replace_str(s: &str, from: &str, to: &str) -> (r: String)
    requires
        from@.len() > 0,
    ensures
        r@ == replace(s@, from@, to@),
{
    let vs = chars_of(s);
    let vf = chars_of(from);
    let vt = chars_of(to);
    let r = replace_chars(&vs, &vf, &vt);
    string_of(&r)
}

/// Puts `cur` in front of the first piece of `rest`.
pub open spec fn join_first(cur: Seq<char>, rest: Seq<Seq<char>>) -> Seq<Seq<char>> {
    rest.update(0, cur + rest[0])
}

proof fn lemma_split_step(s: Seq<char>, c: char, i: int, cur: Seq<char>)
    requires
        0 <= i < s.len(),
    ensures
        s[i] == c ==> join_first(cur, split(s.skip(i), c)) == seq![cur] + split(s.skip(i + 1), c),
        s[i] != c ==> join_first(cur, split(s.skip(i), c)) == join_first(
            cur.push(s[i]),
            split(s.skip(i + 1), c),
        ),
{
    let t = s.skip(i);
    assert(t.drop_first() =~= s.skip(i + 1));
    lemma_split_nonempty(s.skip(i + 1), c);
    if s[i] == c {
        assert(join_first(cur, split(t, c)) =~= seq![cur] + split(s.skip(i + 1), c));
    } else {
        let rest = split(s.skip(i + 1), c);
        assert(cur + (seq![s[i]] + rest[0]) =~= cur.push(s[i]) + rest[0]);
        assert(join_first(cur, split(t, c)) =~= join_first(cur.push(s[i]), rest));
    }
}

/// The pieces of `s` between occurrences of `c`, as `str::split(c)`.
pub fn split_chars(s: &[char], c: char) -> (r: Vec<Vec<char>>)
    ensures
        r@.len() == split(s@, c).len(),
        forall|k: int| 0 <= k < r@.len() ==> #[trigger] r@[k]@ == split(s@, c)[k],
{
    let mut done: Vec<Vec<char>> = Vec::new();
    let mut cur: Vec<char> = Vec::new();
    let mut i: usize = 0;
    let ghost whole = split(s@, c);
    proof {
        lemma_split_nonempty(s@, c);
        assert(s@.skip(0) =~= s@);
        assert(join_first(Seq::<char>::empty(), whole) =~= whole);
    }
    while i < s.len()
        invariant
            i <= s@.len(),
            whole == split(s@, c),
            whole == done@.map_values(|v: Vec<char>| v@) + join_first(
                cur@,
                split(s@.skip(i as int), c),
            ),
        decreases s@.len() - i,
    {
        proof {
            lemma_split_step(s@, c, i as int, cur@);
        }
        if s[i] == c {
            let ghost old_done = done@;
            let ghost old_cur = cur@;
            done.push(cur);
            cur = Vec::new();
            proof {
                lemma_split_nonempty(s@.skip(i + 1), c);
                assert(done@.map_values(|v: Vec<char>| v@) =~= old_done.map_values(
                    |v: Vec<char>| v@,
                ).push(old_cur));
                assert(join_first(Seq::<char>::empty(), split(s@.skip(i + 1), c)) =~= split(
                    s@.skip(i + 1),
                    c,
                ));
                assert(whole =~= done@.map_values(|v: Vec<char>| v@) + join_first(
                    cur@,
                    split(s@.skip(i + 1), c),
                ));
            }
        } else {
            cur.push(s[i]);
        }
        i = i + 1;
    }
    proof {
        assert(s@.skip(i as int) =~= Seq::<char>::empty());
        assert(join_first(cur@, split(Seq::<char>::empty(), c)) =~= seq![cur@]);
    }
    let ghost old_done = done@;
    done.push(cur);
    proof {
        assert(done@.map_values(|v: Vec<char>| v@) =~= whole);
        assert forall|k: int| 0 <= k < done@.len() implies #[trigger] done@[k]@ == whole[k] by {
            assert(done@.map_values(|v: Vec<char>| v@)[k] == done@[k]@);
        }
    }
    done
}

pub fn ascii_lower_chars(s: &[char]) -> (r: Vec<char>)
    ensures
        r@ == ascii_lower(s@),
{
    let mut r: Vec<char> = Vec::new();
    let mut i: usize = 0;
    while i < s.len()
        invariant
            i <= s@.len(),
            r@ == ascii_lower(s@.take(i as int)),
        decreases s@.len() - i,
    {
        let c = s[i];
        let l = if 'A' <= c && c <= 'Z' {
            let code: u8 = (c as u8) + 32;
            code as char
        } else {
            c
        };
        r.push(l);
        i = i + 1;
        assert(r@ =~= ascii_lower(s@.take(i as int)));
    }
    assert(s@.take(s@.len() as int) =~= s@);
    r
}

/// The pieces of `s` between the occurrences of `c`, as strings.
pub fn split_string(s: &str, c: char) -> (r: Vec<String>)
    ensures
        r@.len() == split(s@, c).len(),
        forall|k: int| 0 <= k < r@.len() ==> #[trigger] r@[k]@ == split(s@, c)[k],
{
    let v = chars_of(s);
    let parts = split_chars(&v, c);
    let mut out: Vec<String> = Vec::new();
    let mut k: usize = 0;
    while k < parts.len()
        invariant
            k <= parts@.len(),
            parts@.len() == split(s@, c).len(),
            forall|j: int| 0 <= j < parts@.len() ==> #[trigger] parts@[j]@ == split(s@, c)[j],
            out@.len() == k,
            forall|j: int| 0 <= j < k ==> #[trigger] out@[j]@ == split(s@, c)[j],
        decreases parts@.len() - k,
    {
        out.push(string_of(parts[k].as_slice()));
        k = k + 1;
    }
    out
}

/// What `str::to_lowercase` gives back; its Unicode case mapping is not
/// restated here.
pub uninterp spec fn lowercase(s: Seq<char>) -> Seq<char>;

/// Calls `str::to_lowercase`.
///
/// Trusted: the result is taken to be a function of the characters of `s`
/// alone (`lowercase`); nothing more of the Unicode mapping is claimed.
#[verifier::external_body]
pub fn to_lowercase(s: &str) -> (r: String)
    ensures
        r@ == lowercase(s@),
{
    s.to_lowercase()
}

/// The items of `s` in the order they first occur, each once.
pub open spec fn first_occurrences<A>(s: Seq<A>) -> Seq<A>
    decreases s.len(),
{
    if s.len() == 0 {
        Seq::empty()
    } else {
        let d = first_occurrences(s.drop_last());
        if d.contains(s.last()) {
            d
        } else {
            d.push(s.last())
        }
    }
}

/// Keeping each item at its first occurrence keeps every item and none
/// twice.
pub proof fn lemma_first_occurrences<A>(s: Seq<A>)
    ensures
        first_occurrences(s).no_duplicates(),
        forall|x: A| #[trigger] first_occurrences(s).contains(x) <==> s.contains(x),
    decreases s.len(),
{
    if s.len() > 0 {
        let t = s.drop_last();
        lemma_first_occurrences(t);
        let d = first_occurrences(t);
        assert forall|x: A| #[trigger] first_occurrences(s).contains(x) <==> s.contains(x) by {
            if s.contains(x) {
                let k = choose|k: int| 0 <= k < s.len() && s[k] == x;
                if k < s.len() - 1 {
                    assert(t[k] == x);
                }
            }
            if t.contains(x) {
                let k = choose|k: int| 0 <= k < t.len() && t[k] == x;
                assert(s[k] == x);
            }
            if !d.contains(s.last()) {
                if d.push(s.last()).contains(x) {
                    let k = choose|k: int| 0 <= k < d.push(s.last()).len() && d.push(s.last())[k] == x;
                    if k < d.len() {
                        assert(d[k] == x);
                    }
                }
                if d.contains(x) {
                    let k = choose|k: int| 0 <= k < d.len() && d[k] == x;
                    assert(d.push(s.last())[k] == x);
                }
                assert(d.push(s.last())[d.len() as int] == s.last());
            }
        }
    }
}

/// The strings of `v` in the order they first occur, each once.
pub fn dedup_strings(v: &Vec<String>) -> (r: Vec<String>)
    ensures
        r@.map_values(|s: String| s@) == first_occurrences(v@.map_values(|s: String| s@)),
        r@.map_values(|s: String| s@).no_duplicates(),
{
    let ghost vv = v@.map_values(|s: String| s@);
    let mut out: Vec<String> = Vec::new();
    let mut i: usize = 0;
    assert(out@.map_values(|s: String| s@) =~= first_occurrences(vv.take(0)));
    while i < v.len()
        invariant
            i <= v@.len(),
            vv == v@.map_values(|s: String| s@),
            out@.map_values(|s: String| s@) == first_occurrences(vv.take(i as int)),
        decreases v@.len() - i,
    {
        assert(vv.take(i + 1).drop_last() =~= vv.take(i as int));
        assert(vv.take(i + 1).last() == v@[i as int]@);
        let ghost ov = out@.map_values(|s: String| s@);
        let mut found = false;
        let mut j: usize = 0;
        while j < out.len()
            invariant
                j <= out@.len(),
                ov == out@.map_values(|s: String| s@),
                i < v@.len(),
                found == exists|k: int| 0 <= k < j && ov[k] == v@[i as int]@,
            decreases out@.len() - j,
        {
            if str_eq(out[j].as_str(), v[i].as_str()) {
                assert(ov[j as int] == v@[i as int]@);
                found = true;
            }
            j = j + 1;
        }
        proof {
            if ov.contains(v@[i as int]@) {
                let k = choose|k: int| 0 <= k < ov.len() && ov[k] == v@[i as int]@;
                assert(0 <= k < j as int && ov[k] == v@[i as int]@);
            }
        }
        if !found {
            out.push(v[i].clone());
            assert(out@.map_values(|s: String| s@) =~= ov.push(v@[i as int]@));
        }
        i = i + 1;
    }
    assert(vv.take(v@.len() as int) =~= vv);
    proof {
        lemma_first_occurrences(vv);
    }
    out
}

} // verus!
