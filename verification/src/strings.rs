//! Character-level text primitives shared by the rest of the library:
//! whitespace, word splitting, joining, searching and trimming, each
//! specified over the `Seq<char>` view of a string.
use vstd::prelude::*;

verus! {

/// The Unicode `White_Space` property, which `char::is_whitespace` tests.
pub open spec fn is_ws(c: char) -> bool {
    let u = c as u32;
    ||| 0x9 <= u <= 0xD
    ||| u == 0x20
    ||| u == 0x85
    ||| u == 0xA0
    ||| u == 0x1680
    ||| 0x2000 <= u <= 0x200A
    ||| u == 0x2028
    ||| u == 0x2029
    ||| u == 0x202F
    ||| u == 0x205F
    ||| u == 0x3000
}

/// Executable test of [`is_ws`].
pub fn is_whitespace(c: char) -> (b: bool)
    ensures
        b == is_ws(c),
{
    let u = c as u32;
    (0x9 <= u && u <= 0xD) || u == 0x20 || u == 0x85 || u == 0xA0 || u == 0x1680 || (0x2000 <= u
        && u <= 0x200A) || u == 0x2028 || u == 0x2029 || u == 0x202F || u == 0x205F || u == 0x3000
}

/// The characters of `s`, in order.
pub fn chars_of(s: &str) -> (r: Vec<char>)
    ensures
        r@ == s@,
{
    let mut r: Vec<char> = Vec::new();
    for c in it: s.chars()
        invariant
            r@ == it.seq().take(it.index() as int),
    {
        r.push(c);
    }
    r
}

/// Collects characters into a `String` (std's `FromIterator<char> for String`).
#[verifier::external_body]
pub(crate) fn string_from_chars(cs: &[char]) -> (r: String)
    ensures
        r@ == cs@,
{
    cs.iter().collect()
}

/// The state of a left-to-right scan over `s` that cuts it into
/// whitespace-separated words: the words already closed, and the
/// non-empty-or-empty word still being read.
pub open spec fn split_state(s: Seq<char>) -> (Seq<Seq<char>>, Seq<char>)
    decreases s.len(),
{
    if s.len() == 0 {
        (Seq::empty(), Seq::empty())
    } else {
        let (ws, cur) = split_state(s.drop_last());
        let c = s.last();
        if is_ws(c) {
            if cur.len() > 0 {
                (ws.push(cur), Seq::empty())
            } else {
                (ws, Seq::empty())
            }
        } else {
            (ws, cur.push(c))
        }
    }
}

/// The whitespace-separated words of `s` (what `str::split_whitespace` yields):
/// the maximal runs of non-whitespace characters, in order.
pub open spec fn words(s: Seq<char>) -> Seq<Seq<char>> {
    let (ws, cur) = split_state(s);
    if cur.len() > 0 {
        ws.push(cur)
    } else {
        ws
    }
}

/// The views of a vector of character vectors.
pub open spec fn views(v: Seq<Vec<char>>) -> Seq<Seq<char>> {
    v.map_values(|w: Vec<char>| w@)
}

/// A word: a non-empty run of characters none of which is whitespace.
pub open spec fn is_word(w: Seq<char>) -> bool {
    w.len() > 0 && forall|j: int| 0 <= j < w.len() ==> !is_ws(#[trigger] w[j])
}

/// Every word that [`split_state`] closes is a word, and the open one holds
/// no whitespace.
pub proof fn lemma_split_state_words(s: Seq<char>)
    ensures
        forall|i: int| 0 <= i < split_state(s).0.len() ==> is_word(#[trigger] split_state(s).0[i]),
        forall|j: int| 0 <= j < split_state(s).1.len() ==> !is_ws(#[trigger] split_state(s).1[j]),
    decreases s.len(),
{
    if s.len() > 0 {
        let (ws, cur) = split_state(s.drop_last());
        lemma_split_state_words(s.drop_last());
        let c = s.last();
        if is_ws(c) {
            if cur.len() > 0 {
                assert(split_state(s).0 == ws.push(cur));
                assert(is_word(cur));
                assert forall|i: int| 0 <= i < ws.push(cur).len() implies is_word(
                    #[trigger] ws.push(cur)[i],
                ) by {
                    if i < ws.len() {
                        assert(ws.push(cur)[i] == ws[i]);
                    }
                }
            }
        } else {
            assert(split_state(s).1 == cur.push(c));
            assert forall|j: int| 0 <= j < cur.push(c).len() implies !is_ws(
                #[trigger] cur.push(c)[j],
            ) by {
                if j < cur.len() {
                    assert(cur.push(c)[j] == cur[j]);
                }
            }
        }
    }
}

/// Every item of `words(s)` is a word.
pub proof fn lemma_words_are_words(s: Seq<char>)
    ensures
        forall|i: int| 0 <= i < words(s).len() ==> is_word(#[trigger] words(s)[i]),
{
    lemma_split_state_words(s);
}

/// Reading whitespace-free characters only extends the open word.
pub proof fn lemma_split_state_append(p: Seq<char>, w: Seq<char>)
    requires
        forall|j: int| 0 <= j < w.len() ==> !is_ws(#[trigger] w[j]),
    ensures
        split_state(p + w) == (split_state(p).0, split_state(p).1 + w),
    decreases w.len(),
{
    if w.len() == 0 {
        assert(p + w =~= p);
        assert(split_state(p).1 + w =~= split_state(p).1);
    } else {
        let w0 = w.drop_last();
        lemma_split_state_append(p, w0);
        assert((p + w).drop_last() =~= p + w0);
        assert((p + w).last() == w.last());
        assert(split_state(p).1 + w0 + seq![w.last()] =~= split_state(p).1 + w);
    }
}

/// Scanning `q` after a prefix whose last word is closed only adds the
/// words of `q` to those of the prefix.
proof fn lemma_split_state_concat(p: Seq<char>, q: Seq<char>)
    requires
        split_state(p).1.len() == 0,
    ensures
        split_state(p + q) == (split_state(p).0 + split_state(q).0, split_state(q).1),
    decreases q.len(),
{
    if q.len() == 0 {
        assert(p + q =~= p);
        assert(split_state(p).0 + split_state(q).0 =~= split_state(p).0);
        assert(split_state(p).1 =~= split_state(q).1);
    } else {
        let q0 = q.drop_last();
        lemma_split_state_concat(p, q0);
        assert((p + q).drop_last() =~= p + q0);
        assert((p + q).last() == q.last());
        let (ws, cur) = split_state(q0);
        if is_ws(q.last()) && cur.len() > 0 {
            assert((split_state(p).0 + ws).push(cur) =~= split_state(p).0 + ws.push(cur));
        }
    }
}

/// The words of two texts joined by a space are the words of the first
/// followed by the words of the second; so their count is the sum of the
/// two counts.
pub proof fn lemma_words_of_spaced_concat(a: Seq<char>, b: Seq<char>)
    ensures
        words(a + seq![' '] + b) == words(a) + words(b),
        words(a + seq![' '] + b).len() == words(a).len() + words(b).len(),
{
    let p = a + seq![' '];
    assert(p.drop_last() =~= a);
    assert(p.last() == ' ');
    assert(is_ws(' '));
    assert(split_state(p).0 == words(a));
    assert(split_state(p).1.len() == 0);
    lemma_split_state_concat(p, b);
    let (wb, cb) = split_state(b);
    if cb.len() > 0 {
        assert((words(a) + wb).push(cb) =~= words(a) + wb.push(cb));
    }
}

/// Splitting words joined by single spaces gives the words back.
pub proof fn lemma_words_of_join(list: Seq<Seq<char>>)
    requires
        forall|i: int| 0 <= i < list.len() ==> is_word(#[trigger] list[i]),
    ensures
        words(join(list, seq![' '])) == list,
    decreases list.len(),
{
    let sp = seq![' '];
    if list.len() == 0 {
        assert(words(join(list, sp)) =~= list);
    } else if list.len() == 1 {
        let w = list[0];
        lemma_split_state_append(Seq::empty(), w);
        assert(Seq::<char>::empty() + w =~= w);
        assert(Seq::<char>::empty() + w =~= w);
        assert(words(w) =~= seq![w]);
        assert(list =~= seq![w]);
    } else {
        let front = list.drop_last();
        let last = list.last();
        assert(is_word(list[list.len() - 1]));
        assert forall|i: int| 0 <= i < front.len() implies is_word(#[trigger] front[i]) by {
            assert(front[i] == list[i]);
        }
        lemma_words_of_join(front);
        let p = join(front, sp) + sp;
        assert(p.drop_last() =~= join(front, sp));
        assert(p.last() == ' ');
        assert(split_state(p) == (words(join(front, sp)), Seq::<char>::empty()));
        lemma_split_state_append(p, last);
        assert(join(list, sp) == p + last);
        assert(Seq::<char>::empty() + last =~= last);
        assert(words(join(list, sp)) =~= front.push(last));
        assert(front.push(last) =~= list);
    }
}

/// `needle` occurs in `hay` at position `i`.
pub open spec fn occurs_at(hay: Seq<char>, needle: Seq<char>, i: int) -> bool {
    0 <= i && i + needle.len() <= hay.len() && hay.subrange(i, i + needle.len()) == needle
}

/// `needle` occurs somewhere in `hay` (what `str::contains` tests).
pub open spec fn has_substring(hay: Seq<char>, needle: Seq<char>) -> bool {
    exists|i: int| occurs_at(hay, needle, i)
}

/// `s` begins with `prefix`.
pub open spec fn has_prefix(s: Seq<char>, prefix: Seq<char>) -> bool {
    occurs_at(s, prefix, 0)
}

/// `s` ends with `suffix`.
pub open spec fn has_suffix(s: Seq<char>, suffix: Seq<char>) -> bool {
    occurs_at(s, suffix, s.len() - suffix.len())
}

/// Whether `needle` occurs in `hay` at position `i`.
fn matches_at(hay: &Vec<char>, needle: &Vec<char>, i: usize) -> (b: bool)
    requires
        i + needle.len() <= hay.len(),
    ensures
        b == occurs_at(hay@, needle@, i as int),
{
    let mut j: usize = 0;
    while j < needle.len()
        invariant
            i + needle.len() <= hay.len(),
            j <= needle.len(),
            forall|k: int| 0 <= k < j ==> hay@[i + k] == needle@[k],
        decreases needle.len() - j,
    {
        if hay[i + j] != needle[j] {
            assert(hay@.subrange(i as int, i + needle.len())[j as int] != needle@[j as int]);
            return false;
        }
        j = j + 1;
    }
    assert(hay@.subrange(i as int, i + needle.len()) =~= needle@);
    true
}

/// Whether `needle` occurs in `hay`, both given as characters.
pub fn contains_chars(hay: &Vec<char>, needle: &Vec<char>) -> (b: bool)
    ensures
        b == has_substring(hay@, needle@),
{
    if needle.len() > hay.len() {
        return false;
    }
    if needle.len() == 0 {
        assert(hay@.subrange(0, 0) =~= needle@);
        assert(occurs_at(hay@, needle@, 0));
        return true;
    }
    let bound = hay.len() - needle.len() + 1;
    let mut i: usize = 0;
    while i < bound
        invariant
            bound == hay.len() - needle.len() + 1,
            0 < needle.len() <= hay.len(),
            i <= bound,
            forall|k: int| 0 <= k < i ==> !occurs_at(hay@, needle@, k),
        decreases bound - i,
    {
        if matches_at(hay, needle, i) {
            return true;
        }
        i = i + 1;
    }
    false
}

/// Whether `needle` occurs in `hay` (`str::contains`).
pub fn contains(hay: &str, needle: &str) -> (b: bool)
    ensures
        b == has_substring(hay@, needle@),
{
    let h = chars_of(hay);
    let n = chars_of(needle);
    contains_chars(&h, &n)
}

/// Whether `s` begins with `prefix` (`str::starts_with`).
pub fn starts_with(s: &str, prefix: &str) -> (b: bool)
    ensures
        b == has_prefix(s@, prefix@),
{
    let h = chars_of(s);
    let p = chars_of(prefix);
    if p.len() > h.len() {
        false
    } else {
        matches_at(&h, &p, 0)
    }
}

/// Whether `s` ends with `suffix` (`str::ends_with`).
pub fn ends_with(s: &str, suffix: &str) -> (b: bool)
    ensures
        b == has_suffix(s@, suffix@),
{
    let h = chars_of(s);
    let p = chars_of(suffix);
    if p.len() > h.len() {
        false
    } else {
        matches_at(&h, &p, h.len() - p.len())
    }
}

/// Whether two strings hold the same characters.
pub fn str_eq(a: &str, b: &str) -> (r: bool)
    ensures
        r == (a@ == b@),
{
    let x = chars_of(a);
    let y = chars_of(b);
    if x.len() != y.len() {
        return false;
    }
    let r = matches_at(&x, &y, 0);
    assert(x@.subrange(0, y@.len() as int) =~= x@);
    r
}

/// Whether `s` equals one of the strings of `options`.
pub fn is_one_of(s: &str, options: &Vec<&str>) -> (r: bool)
    ensures
        r == exists|i: int| 0 <= i < options@.len() && options@[i]@ == s@,
{
    let mut i: usize = 0;
    while i < options.len()
        invariant
            i <= options.len(),
            forall|k: int| 0 <= k < i ==> options@[k]@ != s@,
        decreases options.len() - i,
    {
        if str_eq(options[i], s) {
            return true;
        }
        i = i + 1;
    }
    false
}

/// `s` without its leading whitespace.
pub open spec fn trim_start(s: Seq<char>) -> Seq<char>
    decreases s.len(),
{
    if s.len() > 0 && is_ws(s[0]) {
        trim_start(s.drop_first())
    } else {
        s
    }
}

/// `s` without its trailing whitespace.
pub open spec fn trim_end(s: Seq<char>) -> Seq<char>
    decreases s.len(),
{
    if s.len() > 0 && is_ws(s.last()) {
        trim_end(s.drop_last())
    } else {
        s
    }
}

/// `s` without leading and trailing whitespace (what `str::trim` returns).
pub open spec fn trimmed(s: Seq<char>) -> Seq<char> {
    trim_end(trim_start(s))
}

proof fn lemma_trim_start_at(s: Seq<char>, i: int)
    requires
        0 <= i <= s.len(),
        forall|k: int| 0 <= k < i ==> is_ws(#[trigger] s[k]),
        i == s.len() || !is_ws(s[i]),
    ensures
        trim_start(s) == s.skip(i),
    decreases i,
{
    if i == 0 {
        assert(s.skip(0) =~= s);
    } else {
        let t = s.drop_first();
        assert forall|k: int| 0 <= k < i - 1 implies is_ws(#[trigger] t[k]) by {
            assert(t[k] == s[k + 1]);
        }
        if i < s.len() {
            assert(t[i - 1] == s[i]);
        }
        lemma_trim_start_at(t, i - 1);
        assert(t.skip(i - 1) =~= s.skip(i));
    }
}

proof fn lemma_trim_end_at(s: Seq<char>, j: int)
    requires
        0 <= j <= s.len(),
        forall|k: int| j <= k < s.len() ==> is_ws(#[trigger] s[k]),
        j == 0 || !is_ws(s[j - 1]),
    ensures
        trim_end(s) == s.take(j),
    decreases s.len() - j,
{
    if j == s.len() {
        assert(s.take(j) =~= s);
    } else {
        let t = s.drop_last();
        assert(is_ws(s[s.len() - 1]));
        assert forall|k: int| j <= k < t.len() implies is_ws(#[trigger] t[k]) by {
            assert(t[k] == s[k]);
        }
        if j > 0 {
            assert(t[j - 1] == s[j - 1]);
        }
        lemma_trim_end_at(t, j);
        assert(t.take(j) =~= s.take(j));
    }
}

/// Characters `i..j` of `cs`.
pub fn slice_chars(cs: &Vec<char>, i: usize, j: usize) -> (r: Vec<char>)
    requires
        i <= j <= cs.len(),
    ensures
        r@ == cs@.subrange(i as int, j as int),
{
    let mut r: Vec<char> = Vec::new();
    let mut k = i;
    while k < j
        invariant
            i <= k <= j <= cs.len(),
            r@ == cs@.subrange(i as int, k as int),
        decreases j - k,
    {
        r.push(cs[k]);
        k = k + 1;
        assert(r@ =~= cs@.subrange(i as int, k as int));
    }
    r
}

/// `s` without leading and trailing whitespace (`str::trim`).
pub fn trim(s: &str) -> (r: String)
    ensures
        r@ == trimmed(s@),
{
    let cs = chars_of(s);
    let mut i: usize = 0;
    while i < cs.len() && is_whitespace(cs[i])
        invariant
            i <= cs.len(),
            forall|k: int| 0 <= k < i ==> is_ws(#[trigger] cs@[k]),
        decreases cs.len() - i,
    {
        i = i + 1;
    }
    proof {
        lemma_trim_start_at(cs@, i as int);
    }
    let mut j: usize = cs.len();
    while j > i && is_whitespace(cs[j - 1])
        invariant
            i <= j <= cs.len(),
            forall|k: int| j <= k < cs.len() ==> is_ws(#[trigger] cs@[k]),
        decreases j - i,
    {
        j = j - 1;
    }
    let ghost t = cs@.skip(i as int);
    assert forall|k: int| j - i <= k < t.len() implies is_ws(#[trigger] t[k]) by {
        assert(t[k] == cs@[k + i]);
    }
    if j > i {
        assert(t[j - i - 1] == cs@[j - 1]);
    }
    proof {
        lemma_trim_end_at(t, j - i);
    }
    assert(t.take(j - i) =~= cs@.subrange(i as int, j as int));
    let piece = slice_chars(&cs, i, j);
    string_from_chars(piece.as_slice())
}

/// `s` holds nothing but whitespace.
pub open spec fn is_blank_seq(s: Seq<char>) -> bool {
    forall|k: int| 0 <= k < s.len() ==> is_ws(#[trigger] s[k])
}

/// A string is all whitespace exactly when trimming leaves nothing.
pub proof fn lemma_blank_iff_trimmed_empty(s: Seq<char>)
    ensures
        is_blank_seq(s) <==> trimmed(s).len() == 0,
    decreases s.len(),
{
    if s.len() > 0 {
        if is_ws(s[0]) {
            lemma_blank_iff_trimmed_empty(s.drop_first());
            assert(is_blank_seq(s) <==> is_blank_seq(s.drop_first())) by {
                if is_blank_seq(s.drop_first()) {
                    assert forall|k: int| 0 <= k < s.len() implies is_ws(#[trigger] s[k]) by {
                        if k > 0 {
                            assert(s[k] == s.drop_first()[k - 1]);
                        }
                    }
                }
                if is_blank_seq(s) {
                    assert forall|k: int| 0 <= k < s.drop_first().len() implies is_ws(
                        #[trigger] s.drop_first()[k],
                    ) by {
                        assert(s.drop_first()[k] == s[k + 1]);
                    }
                }
            }
        } else {
            assert(trim_start(s) == s);
            lemma_trim_end_keeps(s);
        }
    }
}

proof fn lemma_trim_end_keeps(s: Seq<char>)
    requires
        s.len() > 0,
        !is_ws(s[0]),
    ensures
        trim_end(s).len() > 0,
    decreases s.len(),
{
    if is_ws(s.last()) {
        assert(s.len() > 1);
        assert(s.drop_last()[0] == s[0]);
        lemma_trim_end_keeps(s.drop_last());
    }
}

/// Whether `s` is empty once trimmed (`s.trim().is_empty()`).
pub fn is_blank(s: &str) -> (b: bool)
    ensures
        b == (trimmed(s@).len() == 0),
{
    proof {
        lemma_blank_iff_trimmed_empty(s@);
    }
    let cs = chars_of(s);
    let mut i: usize = 0;
    while i < cs.len()
        invariant
            cs@ == s@,
            is_blank_seq(s@) <==> trimmed(s@).len() == 0,
            i <= cs.len(),
            forall|k: int| 0 <= k < i ==> is_ws(#[trigger] cs@[k]),
        decreases cs.len() - i,
    {
        if !is_whitespace(cs[i]) {
            return false;
        }
        i = i + 1;
    }
    true
}

/// The lowercase form of a string as `str::to_lowercase` computes it from
/// the Unicode case tables.
pub uninterp spec fn lowercase(s: Seq<char>) -> Seq<char>;

/// The ASCII lowercase form of one character.
pub open spec fn ascii_lower(c: char) -> char {
    if 'A' <= c && c <= 'Z' {
        ((c as u32) + 32) as char
    } else {
        c
    }
}

/// All characters are ASCII.
pub open spec fn is_ascii_chars(s: Seq<char>) -> bool {
    forall|k: int| 0 <= k < s.len() ==> (#[trigger] s[k] as u32) < 128
}

/// `str::to_lowercase`. Its result is named [`lowercase`]; on ASCII text,
/// where the Unicode mapping is the ASCII one, it maps `A`..`Z` to
/// `a`..`z` and keeps every other character. What it does outside ASCII
/// is left to the name.
#[verifier::external_body]
pub(crate) fn to_lowercase(s: &str) -> (r: String)
    ensures
        r@ == lowercase(s@),
        is_ascii_chars(s@) ==> r@ == s@.map_values(|c: char| ascii_lower(c)),
{
    s.to_lowercase()
}

/// The character of the decimal digit `d`.
pub open spec fn digit_char(d: nat) -> char {
    (48 + d) as char
}

/// The decimal representation of `n`, without sign or leading zeros.
pub open spec fn decimal(n: nat) -> Seq<char>
    decreases n,
{
    if n < 10 {
        seq![digit_char(n)]
    } else {
        decimal(n / 10).push(digit_char(n % 10))
    }
}

fn push_decimal(acc: &mut Vec<char>, n: u64)
    ensures
        final(acc)@ == old(acc)@ + decimal(n as nat),
    decreases n,
{
    if n >= 10 {
        push_decimal(acc, n / 10);
    }
    let d = (n % 10) as u8;
    let c = (48u8 + d) as char;
    assert(c == digit_char((n % 10) as nat));
    acc.push(c);
    if n >= 10 {
        assert(acc@ =~= old(acc)@ + decimal(n as nat));
    } else {
        assert(acc@ =~= old(acc)@ + decimal(n as nat));
    }
}

/// `n` written in decimal (what `u64::to_string` gives).
pub fn decimal_string(n: u64) -> (r: String)
    ensures
        r@ == decimal(n as nat),
{
    let mut acc: Vec<char> = Vec::new();
    push_decimal(&mut acc, n);
    assert(acc@ =~= decimal(n as nat));
    string_from_chars(acc.as_slice())
}

/// `a` followed by `b`.
pub fn concat2(a: &str, b: &str) -> (r: String)
    ensures
        r@ == a@ + b@,
{
    let mut r = String::from_str(a);
    r.append(b);
    r
}

/// `a`, `b` and `c`, one after the other.
pub fn concat3(a: &str, b: &str, c: &str) -> (r: String)
    ensures
        r@ == a@ + b@ + c@,
{
    let mut r = String::from_str(a);
    r.append(b);
    r.append(c);
    r
}

/// Splits `s` into its whitespace-separated words.
pub fn split_words(s: &str) -> (r: Vec<Vec<char>>)
    ensures
        views(r@) == words(s@),
{
    let mut done: Vec<Vec<char>> = Vec::new();
    let mut cur: Vec<char> = Vec::new();
    let ghost mut seen: Seq<char> = Seq::empty();
    for c in it: s.chars()
        invariant
            seen == it.seq().take(it.index() as int),
            (views(done@), cur@) == split_state(seen),
    {
        proof {
            assert(seen.push(c).drop_last() == seen);
        }
        if is_whitespace(c) {
            if cur.len() > 0 {
                let w = cur;
                cur = Vec::new();
                done.push(w);
                assert(views(done@) =~= split_state(seen).0.push(w@));
            }
        } else {
            cur.push(c);
        }
        proof {
            seen = seen.push(c);
            assert(seen =~= it.seq().take(it.index() + 1));
        }
    }
    assert(seen =~= s@);
    if cur.len() > 0 {
        let ghost before = views(done@);
        done.push(cur);
        assert(views(done@) =~= before.push(split_state(s@).1));
    }
    done
}

/// `list` joined with `sep` between consecutive items (what `[T]::join` builds).
pub open spec fn join(list: Seq<Seq<char>>, sep: Seq<char>) -> Seq<char>
    decreases list.len(),
{
    if list.len() == 0 {
        Seq::empty()
    } else if list.len() == 1 {
        list[0]
    } else {
        join(list.drop_last(), sep) + sep + list.last()
    }
}

/// Appends all of `src` to `acc`.
pub fn push_all(acc: &mut Vec<char>, src: &Vec<char>)
    ensures
        final(acc)@ == old(acc)@ + src@,
{
    let mut i: usize = 0;
    while i < src.len()
        invariant
            i <= src.len(),
            acc@ == old(acc)@ + src@.take(i as int),
        decreases src.len() - i,
    {
        acc.push(src[i]);
        i = i + 1;
        assert(acc@ =~= old(acc)@ + src@.take(i as int));
    }
    assert(src@.take(i as int) =~= src@);
}

/// Joins `ws[start..end]` with `sep` between consecutive items.
pub fn join_range(ws: &Vec<Vec<char>>, start: usize, end: usize, sep: &Vec<char>) -> (r: Vec<char>)
    requires
        start <= end <= ws.len(),
    ensures
        r@ == join(views(ws@).subrange(start as int, end as int), sep@),
{
    let mut acc: Vec<char> = Vec::new();
    let mut i = start;
    while i < end
        invariant
            start <= i <= end <= ws.len(),
            acc@ == join(views(ws@).subrange(start as int, i as int), sep@),
        decreases end - i,
    {
        let ghost prev = views(ws@).subrange(start as int, i as int);
        let ghost next = views(ws@).subrange(start as int, i + 1);
        assert(next.drop_last() =~= prev);
        assert(next.last() == ws@[i as int]@);
        if i > start {
            push_all(&mut acc, sep);
        } else {
            assert(next =~= seq![ws@[i as int]@]);
        }
        push_all(&mut acc, &ws[i]);
        i = i + 1;
    }
    acc
}

} // verus!
