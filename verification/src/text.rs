//! Character-level text handling shared by the protocols: whitespace,
//! trimming, splitting into words, decimal numbers, and substring search.
use vstd::prelude::*;
use vstd::std_specs::iter::IteratorSpec;
use vstd::string::StringExecFns;

verus! {

/// Unicode `White_Space`, the set of characters that `char::is_whitespace` accepts.
pub open spec fn is_ws(c: char) -> bool {
    let u = c as u32;
    ||| 0x09 <= u <= 0x0d
    ||| u == 0x20
    ||| u == 0x85
    ||| u == 0xa0
    ||| u == 0x1680
    ||| 0x2000 <= u <= 0x200a
    ||| u == 0x2028
    ||| u == 0x2029
    ||| u == 0x202f
    ||| u == 0x205f
    ||| u == 0x3000
}

/// Whether `c` is a whitespace character (Unicode `White_Space`).
pub fn is_whitespace_char(c: char) -> (r: bool)
    ensures
        r == is_ws(c),
{
    let u = c as u32;
    (0x09 <= u && u <= 0x0d) || u == 0x20 || u == 0x85 || u == 0xa0 || u == 0x1680 || (0x2000
        <= u && u <= 0x200a) || u == 0x2028 || u == 0x2029 || u == 0x202f || u == 0x205f || u
        == 0x3000
}

/// `s` with leading whitespace removed.
pub open spec fn trim_start(s: Seq<char>) -> Seq<char>
    decreases s.len(),
{
    if s.len() > 0 && is_ws(s[0]) {
        trim_start(s.drop_first())
    } else {
        s
    }
}

/// `s` with trailing whitespace removed.
pub open spec fn trim_end(s: Seq<char>) -> Seq<char>
    decreases s.len(),
{
    if s.len() > 0 && is_ws(s.last()) {
        trim_end(s.drop_last())
    } else {
        s
    }
}

/// `s` with whitespace removed at both ends (what `str::trim` gives).
pub open spec fn trim(s: Seq<char>) -> Seq<char> {
    trim_end(trim_start(s))
}

/// The word that is being collected, closed off as a list of zero or one words.
pub open spec fn close_word(cur: Seq<char>) -> Seq<Seq<char>> {
    if cur.len() > 0 {
        seq![cur]
    } else {
        Seq::empty()
    }
}

/// Words of `s`, given that `cur` holds the characters of a word begun before `s`.
pub open spec fn words_from(s: Seq<char>, cur: Seq<char>) -> Seq<Seq<char>>
    decreases s.len(),
{
    if s.len() == 0 {
        close_word(cur)
    } else if is_ws(s[0]) {
        close_word(cur) + words_from(s.drop_first(), Seq::empty())
    } else {
        words_from(s.drop_first(), cur.push(s[0]))
    }
}

/// The maximal runs of non-whitespace characters of `s`, in order
/// (what `str::split_whitespace` yields).
pub open spec fn words(s: Seq<char>) -> Seq<Seq<char>> {
    words_from(s, Seq::empty())
}

/// Whether `pat` occurs in `s` starting at position `i`.
pub open spec fn occurs_at(s: Seq<char>, pat: Seq<char>, i: int) -> bool {
    0 <= i && i + pat.len() <= s.len() && s.subrange(i, i + pat.len()) == pat
}

/// Whether `pat` occurs anywhere in `s` (what `str::contains` tests).
pub open spec fn contains(s: Seq<char>, pat: Seq<char>) -> bool {
    exists|i: int| occurs_at(s, pat, i)
}

/// Whether `s` begins with `pat`.
pub open spec fn starts_with(s: Seq<char>, pat: Seq<char>) -> bool {
    occurs_at(s, pat, 0)
}

/// The character of the decimal digit `d`.
pub open spec fn digit_char(d: nat) -> char {
    (48 + d) as char
}

/// Whether `c` is an ASCII decimal digit.
pub open spec fn is_digit(c: char) -> bool {
    48 <= c as u32 <= 57
}

/// The value of the ASCII decimal digit `c`.
pub open spec fn digit_value(c: char) -> nat {
    (c as u32 - 48) as nat
}

/// The decimal representation of `n` without leading zeros
/// (what `Display` gives for an unsigned integer).
pub open spec fn dec(n: nat) -> Seq<char>
    decreases n,
{
    if n < 10 {
        seq![digit_char(n)]
    } else {
        dec(n / 10).push(digit_char(n % 10))
    }
}

/// Whether every character of `s` is an ASCII decimal digit.
pub open spec fn all_digits(s: Seq<char>) -> bool {
    forall|i: int| 0 <= i < s.len() ==> is_digit(#[trigger] s[i])
}

/// The value of the digit string `s`, read in base ten.
pub open spec fn digits_value(s: Seq<char>) -> nat
    decreases s.len(),
{
    if s.len() == 0 {
        0
    } else {
        digits_value(s.drop_last()) * 10 + digit_value(s.last())
    }
}

/// `s` without one leading `+`.
pub open spec fn unsigned_digits(s: Seq<char>) -> Seq<char> {
    if s.len() > 0 && s[0] == '+' {
        s.drop_first()
    } else {
        s
    }
}

/// What parsing `s` as an unsigned integer no larger than `max` gives
/// (`u16::from_str`, `u32::from_str`): an optional `+`, then one or more
/// ASCII digits whose value does not exceed `max`.
pub open spec fn parse_unsigned(s: Seq<char>, max: nat) -> Option<nat> {
    let d = unsigned_digits(s);
    if d.len() > 0 && all_digits(d) && digits_value(d) <= max {
        Some(digits_value(d))
    } else {
        None
    }
}

/// What `i32::from_str` gives: an optional sign, then one or more ASCII
/// digits whose signed value lies in the range of `i32`.
pub open spec fn parse_i32_spec(s: Seq<char>) -> Option<int> {
    if s.len() > 0 && s[0] == '-' {
        let d = s.drop_first();
        if d.len() > 0 && all_digits(d) && digits_value(d) <= 0x8000_0000 {
            Some(-(digits_value(d) as int))
        } else {
            None
        }
    } else {
        match parse_unsigned(s, 0x7fff_ffff) {
            Some(v) => Some(v as int),
            None => None,
        }
    }
}

/// Appends one character to a `String` with `String::push`. Trusted: the
/// text grows by exactly that character at its end.
#[verifier::external_body]
pub(crate) fn push_char(s: &mut String, c: char)
    ensures
        final(s)@ == old(s)@.push(c),
{
    s.push(c);
}

/// The characters of `s`, in order.
pub fn chars_of(s: &str) -> (r: Vec<char>)
    ensures
        r@ == s@,
{
    let mut r: Vec<char> = Vec::new();
    let ghost cs = s@;
    for c in it: s.chars()
        invariant
            it.seq() == cs,
            r@ == cs.take(it.index() as int),
    {
        r.push(c);
    }
    assert(cs.take(cs.len() as int) =~= cs);
    r
}

/// A `String` holding the characters `cs[from..to]`.
pub fn string_from_chars(cs: &Vec<char>, from: usize, to: usize) -> (r: String)
    requires
        from <= to <= cs@.len(),
    ensures
        r@ == cs@.subrange(from as int, to as int),
{
    let mut r = String::new();
    let mut i = from;
    while i < to
        invariant
            from <= i <= to <= cs@.len(),
            r@ == cs@.subrange(from as int, i as int),
        decreases to - i,
    {
        push_char(&mut r, cs[i]);
        assert(cs@.subrange(from as int, i + 1) =~= cs@.subrange(from as int, i as int).push(
            cs@[i as int],
        ));
        i = i + 1;
    }
    r
}

/// Whether two texts hold the same characters.
pub fn text_eq(a: &str, b: &str) -> (r: bool)
    ensures
        r == (a@ == b@),
{
    let x = chars_of(a);
    let y = chars_of(b);
    if x.len() != y.len() {
        return false;
    }
    let mut i: usize = 0;
    while i < x.len()
        invariant
            x@ == a@,
            y@ == b@,
            x@.len() == y@.len(),
            i <= x@.len(),
            forall|j: int| 0 <= j < i ==> x@[j] == y@[j],
        decreases x@.len() - i,
    {
        if x[i] != y[i] {
            assert(a@[i as int] != b@[i as int]);
            return false;
        }
        i = i + 1;
    }
    assert(x@ =~= y@);
    true
}

proof fn lemma_trim_start_step(s: Seq<char>, a: int)
    requires
        0 <= a < s.len(),
        is_ws(s[a]),
    ensures
        trim_start(s.subrange(a, s.len() as int)) == trim_start(s.subrange(a + 1, s.len() as int)),
{
    assert(s.subrange(a, s.len() as int).drop_first() =~= s.subrange(a + 1, s.len() as int));
}

proof fn lemma_trim_end_step(s: Seq<char>, b: int)
    requires
        0 < b <= s.len(),
        is_ws(s[b - 1]),
    ensures
        trim_end(s.subrange(0, b)) == trim_end(s.subrange(0, b - 1)),
{
    assert(s.subrange(0, b).drop_last() =~= s.subrange(0, b - 1));
}

/// `s` with whitespace removed at both ends (`str::trim`).
pub fn trim_text(s: &str) -> (r: String)
    ensures
        r@ == trim(s@),
{
    let cs = chars_of(s);
    let n = cs.len();
    let mut a: usize = 0;
    assert(cs@.subrange(0, n as int) =~= cs@);
    while a < n && is_whitespace_char(cs[a])
        invariant
            n == cs@.len(),
            a <= n,
            trim_start(cs@) == trim_start(cs@.subrange(a as int, n as int)),
        decreases n - a,
    {
        proof {
            lemma_trim_start_step(cs@, a as int);
        }
        a = a + 1;
    }
    assert(cs@.subrange(0, n as int) =~= cs@);
    let ghost mid = cs@.subrange(a as int, n as int);
    assert(trim_start(mid) == mid);
    let mut b: usize = n;
    while b > a && is_whitespace_char(cs[b - 1])
        invariant
            n == cs@.len(),
            a <= b <= n,
            mid == cs@.subrange(a as int, n as int),
            trim_end(mid) == trim_end(cs@.subrange(a as int, b as int)),
        decreases b - a,
    {
        proof {
            let t = cs@.subrange(a as int, b as int);
            lemma_trim_end_step(t, (b - a) as int);
            assert(t.subrange(0, (b - a) as int) =~= t);
            assert(t.subrange(0, (b - a - 1) as int) =~= cs@.subrange(a as int, b - 1));
        }
        b = b - 1;
    }
    let r = string_from_chars(&cs, a, b);
    assert(trim_end(cs@.subrange(a as int, b as int)) == cs@.subrange(a as int, b as int));
    r
}

proof fn lemma_words_step(s: Seq<char>, i: int, cur: Seq<char>)
    requires
        0 <= i < s.len(),
    ensures
        words_from(s.subrange(i, s.len() as int), cur) == if is_ws(s[i]) {
            close_word(cur) + words_from(s.subrange(i + 1, s.len() as int), Seq::empty())
        } else {
            words_from(s.subrange(i + 1, s.len() as int), cur.push(s[i]))
        },
{
    assert(s.subrange(i, s.len() as int).drop_first() =~= s.subrange(i + 1, s.len() as int));
}

/// The whitespace-separated words of `s` (`str::split_whitespace`).
pub fn split_words(s: &str) -> (r: Vec<String>)
    ensures
        r@.len() == words(s@).len(),
        forall|i: int| 0 <= i < r@.len() ==> #[trigger] r@[i]@ == words(s@)[i],
{
    let cs = chars_of(s);
    let n = cs.len();
    let mut out: Vec<String> = Vec::new();
    let mut start: usize = 0;
    let mut i: usize = 0;
    let ghost mut done: Seq<Seq<char>> = Seq::empty();
    assert(cs@.subrange(0, n as int) =~= cs@);
    assert(cs@.subrange(0, 0) =~= Seq::<char>::empty());
    assert(done + words_from(cs@, Seq::empty()) =~= words_from(cs@, Seq::empty()));
    while i < n
        invariant
            n == cs@.len(),
            start <= i <= n,
            out@.len() == done.len(),
            forall|j: int| 0 <= j < out@.len() ==> #[trigger] out@[j]@ == done[j],
            words(cs@) == done + words_from(
                cs@.subrange(i as int, n as int),
                cs@.subrange(start as int, i as int),
            ),
            forall|j: int| start <= j < i ==> !is_ws(#[trigger] cs@[j]),
        decreases n - i,
    {
        let ghost cur = cs@.subrange(start as int, i as int);
        proof {
            lemma_words_step(cs@, i as int, cur);
        }
        if is_whitespace_char(cs[i]) {
            let ghost old_done = done;
            if start < i {
                let w = string_from_chars(&cs, start, i);
                out.push(w);
                proof {
                    done = done.push(cur);
                }
            }
            proof {
                assert(done =~= old_done + close_word(cur)) by {
                    if cur.len() > 0 {
                        assert(close_word(cur) =~= seq![cur]);
                    } else {
                        assert(close_word(cur) =~= Seq::<Seq<char>>::empty());
                    }
                }
                assert(done + words_from(cs@.subrange(i + 1, n as int), Seq::empty()) =~= old_done
                    + (close_word(cur) + words_from(cs@.subrange(i + 1, n as int), Seq::empty())));
                assert(cs@.subrange(i + 1, i + 1) =~= Seq::<char>::empty());
            }
            i = i + 1;
            start = i;
        } else {
            proof {
                assert(cs@.subrange(start as int, i + 1) =~= cur.push(cs@[i as int]));
            }
            i = i + 1;
        }
    }
    let ghost cur = cs@.subrange(start as int, n as int);
    assert(cs@.subrange(n as int, n as int) =~= Seq::<char>::empty());
    if start < n {
        let w = string_from_chars(&cs, start, n);
        out.push(w);
        proof {
            done = done.push(cur);
        }
    }
    assert(words(cs@) =~= done);
    out
}

/// Whether `pat` occurs in `s` (`str::contains`).
pub fn contains_text(s: &str, pat: &str) -> (r: bool)
    ensures
        r == contains(s@, pat@),
{
    let x = chars_of(s);
    let p = chars_of(pat);
    if p.len() > x.len() {
        return false;
    }
    let last = x.len() - p.len();
    let mut i: usize = 0;
    while i < last
        invariant
            x@ == s@,
            p@ == pat@,
            last == x@.len() - p@.len(),
            i <= last,
            forall|k: int| 0 <= k < i ==> !occurs_at(x@, p@, k),
        decreases last - i,
    {
        if matches_at(&x, &p, i) {
            return true;
        }
        i = i + 1;
    }
    if matches_at(&x, &p, last) {
        return true;
    }
    assert forall|k: int| !occurs_at(x@, p@, k) by {
        if 0 <= k && k + p@.len() <= x@.len() {
            assert(k <= last);
        }
    }
    false
}

/// Whether `p` occurs in `x` at position `i`.
pub fn matches_at(x: &Vec<char>, p: &Vec<char>, i: usize) -> (r: bool)
    ensures
        r == occurs_at(x@, p@, i as int),
{
    if i > x.len() || p.len() > x.len() - i {
        return false;
    }
    let n = x.len();
    let mut j: usize = 0;
    while j < p.len()
        invariant
            n == x@.len(),
            i + p@.len() <= x@.len(),
            j <= p@.len(),
            forall|k: int| 0 <= k < j ==> x@[i + k] == p@[k],
        decreases p@.len() - j,
    {
        assert(i + j < n);
        if x[i + j] != p[j] {
            assert(x@.subrange(i as int, i + p@.len())[j as int] != p@[j as int]);
            return false;
        }
        j = j + 1;
    }
    assert(x@.subrange(i as int, i + p@.len()) =~= p@);
    true
}

/// Whether `i` is the position of the first `c` in `s`.
pub open spec fn is_first_index(s: Seq<char>, c: char, i: int) -> bool {
    &&& 0 <= i < s.len()
    &&& s[i] == c
    &&& forall|j: int| 0 <= j < i ==> s[j] != c
}

/// The parts of `s` before and after its first `c`, if it holds one
/// (what `str::split_once` gives for a character).
pub open spec fn split_once(s: Seq<char>, c: char) -> Option<(Seq<char>, Seq<char>)> {
    if exists|i: int| is_first_index(s, c, i) {
        let i = choose|i: int| is_first_index(s, c, i);
        Some((s.take(i), s.skip(i + 1)))
    } else {
        None
    }
}

/// Splits `s` at its first `c` (`str::split_once`).
pub fn split_once_char(s: &str, c: char) -> (r: Option<(String, String)>)
    ensures
        match split_once(s@, c) {
            Some((a, b)) => r matches Some((x, y)) && x@ == a && y@ == b,
            None => r is None,
        },
{
    let cs = chars_of(s);
    let n = cs.len();
    let mut i: usize = 0;
    while i < n
        invariant
            n == cs@.len(),
            cs@ == s@,
            i <= n,
            forall|j: int| 0 <= j < i ==> cs@[j] != c,
        decreases n - i,
    {
        if cs[i] == c {
            assert(is_first_index(s@, c, i as int));
            let ghost k = choose|k: int| is_first_index(s@, c, k);
            assert(k == i as int) by {
                if k < i {
                    assert(s@[k] != c);
                } else if k > i {
                    assert(s@[i as int] != c);
                }
            }
            let a = string_from_chars(&cs, 0, i);
            let b = string_from_chars(&cs, i + 1, n);
            assert(cs@.subrange(0, i as int) =~= s@.take(i as int));
            assert(cs@.subrange(i + 1, n as int) =~= s@.skip(i + 1));
            return Some((a, b));
        }
        i = i + 1;
    }
    assert(!exists|k: int| is_first_index(s@, c, k));
    None
}

/// The UTF-8 encoding of a concatenation is the concatenation of the encodings.
pub proof fn lemma_encode_utf8_concat(a: Seq<char>, b: Seq<char>)
    ensures
        vstd::utf8::encode_utf8(a + b) == vstd::utf8::encode_utf8(a) + vstd::utf8::encode_utf8(b),
    decreases a.len(),
{
    if a.len() == 0 {
        assert(a + b =~= b);
        assert(vstd::utf8::encode_utf8(a) =~= Seq::<u8>::empty());
        assert(vstd::utf8::encode_utf8(a) + vstd::utf8::encode_utf8(b) =~= vstd::utf8::encode_utf8(b));
    } else {
        assert((a + b).drop_first() =~= a.drop_first() + b);
        lemma_encode_utf8_concat(a.drop_first(), b);
        assert((a + b)[0] == a[0]);
        assert(vstd::utf8::encode_utf8(a + b) =~= vstd::utf8::encode_utf8(a) + vstd::utf8::encode_utf8(b));
    }
}

proof fn lemma_trim_start_skip(s: Seq<char>) -> (k: int)
    ensures
        0 <= k <= s.len(),
        trim_start(s) == s.skip(k),
    decreases s.len(),
{
    if s.len() > 0 && is_ws(s[0]) {
        let k = lemma_trim_start_skip(s.drop_first());
        assert(s.drop_first().skip(k) =~= s.skip(k + 1));
        k + 1
    } else {
        assert(s.skip(0) =~= s);
        0
    }
}

proof fn lemma_trim_end_take(s: Seq<char>) -> (k: int)
    ensures
        0 <= k <= s.len(),
        trim_end(s) == s.take(k),
    decreases s.len(),
{
    if s.len() > 0 && is_ws(s.last()) {
        let k = lemma_trim_end_take(s.drop_last());
        assert(s.drop_last().take(k) =~= s.take(k));
        k
    } else {
        assert(s.take(s.len() as int) =~= s);
        s.len() as int
    }
}

/// Trimming keeps a contiguous part of the text.
pub proof fn lemma_trim_is_subrange(s: Seq<char>) -> (ab: (int, int))
    ensures
        0 <= ab.0 <= ab.1 <= s.len(),
        trim(s) == s.subrange(ab.0, ab.1),
{
    let a = lemma_trim_start_skip(s);
    let k = lemma_trim_end_take(s.skip(a));
    assert(s.skip(a).take(k) =~= s.subrange(a, a + k));
    (a, a + k)
}

/// Trimming does not lengthen the UTF-8 encoding of a text.
pub proof fn lemma_utf8_len_trim(s: Seq<char>)
    ensures
        vstd::utf8::encode_utf8(trim(s)).len() <= vstd::utf8::encode_utf8(s).len(),
{
    let (a, b) = lemma_trim_is_subrange(s);
    let x = s.take(a);
    let y = s.subrange(a, b);
    let z = s.skip(b);
    assert(s =~= x + y + z);
    lemma_encode_utf8_concat(x + y, z);
    lemma_encode_utf8_concat(x, y);
}

/// Whether `k` is the first position at or after `from` where `pat` occurs in `s`.
pub open spec fn is_first_occurrence(s: Seq<char>, pat: Seq<char>, from: int, k: int) -> bool {
    &&& from <= k
    &&& occurs_at(s, pat, k)
    &&& forall|j: int| from <= j < k ==> !occurs_at(s, pat, j)
}

/// The first position at or after `from` where `pat` occurs in `s`, if any.
pub open spec fn find_from(s: Seq<char>, pat: Seq<char>, from: int) -> Option<int> {
    if exists|k: int| is_first_occurrence(s, pat, from, k) {
        Some(choose|k: int| is_first_occurrence(s, pat, from, k))
    } else {
        None
    }
}

/// The first position at or after `from` where `p` occurs in `x`.
pub fn find_chars_from(x: &Vec<char>, p: &Vec<char>, from: usize) -> (r: Option<usize>)
    ensures
        r matches Some(i) ==> find_from(x@, p@, from as int) == Some(i as int),
        r is None ==> find_from(x@, p@, from as int) is None,
{
    let n = x.len();
    let mut i = from;
    while i < n
        invariant
            n == x@.len(),
            from <= i,
            forall|j: int| from <= j < i ==> !occurs_at(x@, p@, j),
        decreases n - i,
    {
        if matches_at(x, p, i) {
            assert(is_first_occurrence(x@, p@, from as int, i as int));
            let ghost k = choose|k: int| is_first_occurrence(x@, p@, from as int, k);
            assert(k == i as int) by {
                if k < i {
                    assert(!occurs_at(x@, p@, k));
                } else if k > i {
                    assert(!occurs_at(x@, p@, i as int));
                }
            }
            return Some(i);
        }
        i = i + 1;
    }
    if i == n && matches_at(x, p, i) {
        assert(is_first_occurrence(x@, p@, from as int, i as int));
        let ghost k = choose|k: int| is_first_occurrence(x@, p@, from as int, k);
        assert(k == i as int) by {
            if k < i {
                assert(!occurs_at(x@, p@, k));
            } else if k > i {
                assert(!occurs_at(x@, p@, i as int));
            }
        }
        return Some(i);
    }
    assert forall|k: int| !is_first_occurrence(x@, p@, from as int, k) by {
        if from <= k && occurs_at(x@, p@, k) {
            assert(k <= n);
            if k > i {
                assert(false);
            }
        }
    }
    None
}

/// The second part of `s` when it is split at every `pat` (the text between
/// the first and the second occurrence, or to the end), if `pat` occurs.
pub open spec fn second_part(s: Seq<char>, pat: Seq<char>) -> Option<Seq<char>> {
    match find_from(s, pat, 0) {
        None => None,
        Some(i) => Some(
            match find_from(s, pat, i + pat.len()) {
                Some(j) => s.subrange(i + pat.len(), j),
                None => s.subrange(i + pat.len(), s.len() as int),
            },
        ),
    }
}

/// The second part of `s` split at every `pat` (`s.split(pat).nth(1)`).
pub(crate) fn second_part_of(s: &str, pat: &str) -> (r: Option<String>)
    requires
        pat@.len() > 0,
    ensures
        match second_part(s@, pat@) {
            Some(t) => r matches Some(x) && x@ == t,
            None => r is None,
        },
{
    let x = chars_of(s);
    let p = chars_of(pat);
    match find_chars_from(&x, &p, 0) {
        None => None,
        Some(i) => {
            assert(is_first_occurrence(x@, p@, 0, i as int));
            let n = x.len();
            assert(i + p@.len() <= n);
            let start = i + p.len();
            match find_chars_from(&x, &p, start) {
                Some(j) => {
                    assert(is_first_occurrence(x@, p@, start as int, j as int));
                    Some(string_from_chars(&x, start, j))
                },
                None => Some(string_from_chars(&x, start, x.len())),
            }
        },
    }
}

/// Whether `s` begins with `pat` (`str::starts_with`).
pub fn starts_with_text(s: &str, pat: &str) -> (r: bool)
    ensures
        r == starts_with(s@, pat@),
{
    let x = chars_of(s);
    let p = chars_of(pat);
    matches_at(&x, &p, 0)
}

/// The decimal representation of `n` (`Display` of an unsigned integer).
pub fn decimal(n: u64) -> (r: String)
    ensures
        r@ == dec(n as nat),
    decreases n,
{
    if n < 10 {
        let mut s = String::new();
        push_char(&mut s, char_of_digit(n));
        assert(s@ =~= seq![digit_char(n as nat)]);
        s
    } else {
        let mut s = decimal(n / 10);
        push_char(&mut s, char_of_digit(n % 10));
        s
    }
}

/// The character of the decimal digit `d`.
pub fn char_of_digit(d: u64) -> (c: char)
    requires
        d < 10,
    ensures
        c == digit_char(d as nat),
{
    if d == 0 {
        '0'
    } else if d == 1 {
        '1'
    } else if d == 2 {
        '2'
    } else if d == 3 {
        '3'
    } else if d == 4 {
        '4'
    } else if d == 5 {
        '5'
    } else if d == 6 {
        '6'
    } else if d == 7 {
        '7'
    } else if d == 8 {
        '8'
    } else {
        '9'
    }
}

proof fn lemma_digits_value_take(d: Seq<char>, i: int)
    requires
        0 <= i < d.len(),
    ensures
        digits_value(d.take(i + 1)) == digits_value(d.take(i)) * 10 + digit_value(d[i]),
{
    assert(d.take(i + 1).drop_last() =~= d.take(i));
}

proof fn lemma_digits_value_monotone(d: Seq<char>, i: int, j: int)
    requires
        0 <= i <= j <= d.len(),
    ensures
        digits_value(d.take(i)) <= digits_value(d.take(j)),
    decreases j - i,
{
    if i < j {
        lemma_digits_value_monotone(d, i, j - 1);
        lemma_digits_value_take(d, j - 1);
    }
}

/// Reads the digits `cs[from..]` as a number no larger than `max`:
/// `None` unless there is at least one digit, all are digits and the value fits.
fn digits_to_number(cs: &Vec<char>, from: usize, max: u64) -> (r: Option<u64>)
    requires
        from <= cs@.len(),
    ensures
        ({
            let d = cs@.subrange(from as int, cs@.len() as int);
            r == if d.len() > 0 && all_digits(d) && digits_value(d) <= max {
                Some(digits_value(d) as u64)
            } else {
                None::<u64>
            }
        }),
{
    let ghost d = cs@.subrange(from as int, cs@.len() as int);
    let n = cs.len();
    if from == n {
        return None;
    }
    let mut acc: u64 = 0;
    let mut i = from;
    while i < n
        invariant
            n == cs@.len(),
            from <= i <= n,
            d == cs@.subrange(from as int, n as int),
            all_digits(d.take(i - from)),
            acc == digits_value(d.take(i - from)),
            acc <= max,
        decreases n - i,
    {
        let c = cs[i];
        let cu = c as u32;
        if cu < 48 || cu > 57 {
            assert(!is_digit(d[i - from]));
            return None;
        }
        let dv = (cu - 48) as u64;
        if dv > max {
            proof {
                lemma_digits_value_take(d, i - from);
                assert(d.take(i - from + 1)[i - from] == c);
                lemma_digits_value_monotone(d, i - from + 1, d.len() as int);
                assert(d.take(d.len() as int) =~= d);
            }
            return None;
        }
        proof {
            lemma_digits_value_take(d, i - from);
            assert(d.take(i - from + 1)[i - from] == c);
        }
        if acc > (max - dv) / 10 {
            proof {
                assert(acc * 10 + dv > max) by (nonlinear_arith)
                    requires
                        acc > (max - dv) / 10,
                        dv <= max,
                ;
                lemma_digits_value_monotone(d, i - from + 1, d.len() as int);
                assert(d.take(d.len() as int) =~= d);
            }
            return None;
        }
        proof {
            assert(acc * 10 + dv <= max) by (nonlinear_arith)
                requires
                    acc <= (max - dv) / 10,
                    dv <= max,
            ;
        }
        acc = acc * 10 + dv;
        proof {
            assert forall|k: int| 0 <= k < i - from + 1 implies is_digit(
                #[trigger] d.take(i - from + 1)[k],
            ) by {
                if k < i - from {
                    assert(d.take(i - from + 1)[k] == d.take(i - from)[k]);
                }
            }
        }
        i = i + 1;
    }
    assert(d.take(n - from) =~= d);
    Some(acc)
}

/// Parses `s` as an unsigned integer no larger than `max`
/// (`u16::from_str` with `max` 65535, `u32::from_str` with `max` 4294967295).
pub fn parse_unsigned_text(s: &str, max: u64) -> (r: Option<u64>)
    ensures
        r matches Some(v) ==> parse_unsigned(s@, max as nat) == Some(v as nat),
        r is None ==> parse_unsigned(s@, max as nat) is None,
{
    let cs = chars_of(s);
    let from: usize = if cs.len() > 0 && cs[0] == '+' {
        1
    } else {
        0
    };
    let r = digits_to_number(&cs, from, max);
    proof {
        if from == 1 {
            assert(cs@.subrange(1, cs@.len() as int) =~= cs@.drop_first());
        } else {
            assert(cs@.subrange(0, cs@.len() as int) =~= cs@);
        }
    }
    r
}

/// Parses `s` as a `u16` (`u16::from_str`).
pub fn parse_u16(s: &str) -> (r: Option<u16>)
    ensures
        r matches Some(v) ==> parse_unsigned(s@, 0xffff) == Some(v as nat),
        r is None ==> parse_unsigned(s@, 0xffff) is None,
{
    match parse_unsigned_text(s, 0xffff) {
        Some(v) => Some(v as u16),
        None => None,
    }
}

/// Parses `s` as a `u32` (`u32::from_str`).
pub fn parse_u32(s: &str) -> (r: Option<u32>)
    ensures
        r matches Some(v) ==> parse_unsigned(s@, 0xffff_ffff) == Some(v as nat),
        r is None ==> parse_unsigned(s@, 0xffff_ffff) is None,
{
    match parse_unsigned_text(s, 0xffff_ffff) {
        Some(v) => Some(v as u32),
        None => None,
    }
}

/// Parses `s` as an `i32` (`i32::from_str`).
pub fn parse_i32(s: &str) -> (r: Option<i32>)
    ensures
        r matches Some(v) ==> parse_i32_spec(s@) == Some(v as int),
        r is None ==> parse_i32_spec(s@) is None,
{
    let cs = chars_of(s);
    if cs.len() > 0 && cs[0] == '-' {
        let r = digits_to_number(&cs, 1, 0x8000_0000);
        assert(cs@.subrange(1, cs@.len() as int) =~= cs@.drop_first());
        match r {
            Some(v) => {
                if v == 0x8000_0000 {
                    Some(-2147483648i32)
                } else {
                    let w = v as i32;
                    Some(-w)
                }
            },
            None => None,
        }
    } else {
        match parse_unsigned_text(s, 0x7fff_ffff) {
            Some(v) => Some(v as i32),
            None => None,
        }
    }
}

proof fn lemma_dec_digits(n: nat)
    ensures
        dec(n).len() > 0,
        all_digits(dec(n)),
        digits_value(dec(n)) == n,
        is_digit(dec(n)[0]),
    decreases n,
{
    assert(digit_char(n % 10) as u32 == 48 + n % 10);
    if n < 10 {
        assert(digit_char(n) as u32 == 48 + n);
        assert(dec(n) =~= seq![digit_char(n)]);
        assert(dec(n).drop_last() =~= Seq::<char>::empty());
        assert(dec(n).last() == digit_char(n));
        assert(digits_value(dec(n)) == digits_value(dec(n).drop_last()) * 10 + digit_value(
            dec(n).last(),
        ));
    } else {
        lemma_dec_digits(n / 10);
        let p = dec(n / 10);
        assert(dec(n) == p.push(digit_char(n % 10)));
        assert(dec(n).drop_last() =~= p);
        assert forall|i: int| 0 <= i < dec(n).len() implies is_digit(#[trigger] dec(n)[i]) by {
            if i < p.len() {
                assert(dec(n)[i] == p[i]);
            }
        }
    }
}

/// Reading back the decimal text of a number gives the number: for every
/// `n` up to `max`, parsing `dec(n)` as an unsigned integer no larger than
/// `max` yields `n`.
pub proof fn law_decimal_round_trip(n: nat, max: nat)
    requires
        n <= max,
    ensures
        parse_unsigned(dec(n), max) == Some(n),
{
    lemma_dec_digits(n);
    assert(dec(n)[0] != '+');
}

/// Trimming twice removes nothing more than trimming once.
pub proof fn law_trim_idempotent(s: Seq<char>)
    ensures
        trim(trim(s)) == trim(s),
{
    lemma_trim_start_fixed(s);
    lemma_trim_end_keeps_start(trim_start(s));
    lemma_trim_end_fixed(trim_start(s));
}

proof fn lemma_trim_start_fixed(s: Seq<char>)
    ensures
        trim_start(s).len() == 0 || !is_ws(trim_start(s)[0]),
    decreases s.len(),
{
    if s.len() > 0 && is_ws(s[0]) {
        lemma_trim_start_fixed(s.drop_first());
    }
}

proof fn lemma_trim_end_fixed(s: Seq<char>)
    ensures
        trim_end(s).len() == 0 || !is_ws(trim_end(s).last()),
    decreases s.len(),
{
    if s.len() > 0 && is_ws(s.last()) {
        lemma_trim_end_fixed(s.drop_last());
    }
}

proof fn lemma_trim_end_keeps_start(s: Seq<char>)
    requires
        s.len() == 0 || !is_ws(s[0]),
    ensures
        trim_start(trim_end(s)) == trim_end(s),
        trim_end(s).len() == 0 || trim_end(s)[0] == s[0],
    decreases s.len(),
{
    if s.len() > 0 && is_ws(s.last()) {
        if s.len() > 1 {
            lemma_trim_end_keeps_start(s.drop_last());
        } else {
            assert(s.drop_last().len() == 0);
        }
    }
}

} // verus!
