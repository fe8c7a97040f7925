use vstd::prelude::*;

verus! {

broadcast use vstd::string::group_string_axioms;

/// The characters of `s`, in order.
pub fn chars_of(s: &str) -> (v: Vec<char>)
    ensures
        v@ == s@,
{
    let mut v: Vec<char> = Vec::new();
    for c in it: s.chars()
        invariant
            v@ == it.seq().take(it.index()),
            it.seq() == s@,
    {
        v.push(c);
    }
    v
}

} // verus!

verus! {

/// `x` and `y` agree on every position before `i`, and `x` has the larger
/// character at `i`.
pub open spec fn greater_at(x: Seq<char>, y: Seq<char>, i: int) -> bool {
    &&& 0 <= i < x.len()
    &&& i < y.len()
    &&& (x[i] as int) > (y[i] as int)
    &&& forall|j: int| 0 <= j < i ==> x[j] == y[j]
}

/// The order decided by [`compare_string`]: a longer string is the greater
/// one; between strings of the same length the first differing character
/// decides; equal strings are not greater than each other.
pub open spec fn string_greater(x: Seq<char>, y: Seq<char>) -> bool {
    if x.len() == y.len() {
        exists|i: int| greater_at(x, y, i)
    } else {
        x.len() > y.len()
    }
}

/// Whether `x` is greater than `y` in the order [`string_greater`].
pub fn compare_string(x: &str, y: &str) -> (r: bool)
    ensures
        r == string_greater(x@, y@),
{
    let xp = chars_of(x);
    let yp = chars_of(y);
    if xp.len() == yp.len() {
        let mut i: usize = 0;
        while i < xp.len()
            invariant
                xp@ == x@,
                yp@ == y@,
                xp.len() == yp.len(),
                i <= xp.len(),
                forall|j: int| 0 <= j < i ==> xp@[j] == yp@[j],
            decreases xp.len() - i,
        {
            let a = xp[i];
            let b = yp[i];
            if a > b {
                assert(greater_at(x@, y@, i as int));
                return true;
            } else if a < b {
                assert forall|k: int| !greater_at(x@, y@, k) by {
                    if greater_at(x@, y@, k) {
                        if k < i {
                        } else if k > i {
                            assert(x@[i as int] == y@[i as int]);
                        }
                    }
                }
                return false;
            }
            i = i + 1;
        }
        assert forall|k: int| !greater_at(x@, y@, k) by {
            if greater_at(x@, y@, k) {
                assert(xp@[k] == yp@[k]);
            }
        }
    }
    xp.len() > yp.len()
}

/// The character one past the low byte of `c`.
pub open spec fn next_low_byte(c: char) -> char {
    (((c as u32) % 256) + 1) as char
}

/// Replaces each character by the character one past its low byte.
pub fn map_add_1(v: &Vec<char>) -> (r: Vec<char>)
    requires
        forall|i: int| 0 <= i < v.len() ==> (v[i] as u32) % 256 != 255,
    ensures
        r.len() == v.len(),
        forall|i: int| 0 <= i < v.len() ==> r[i] == next_low_byte(v[i]),
{
    let mut r: Vec<char> = Vec::new();
    let mut i: usize = 0;
    while i < v.len()
        invariant
            i <= v.len(),
            r.len() == i,
            forall|k: int| 0 <= k < v.len() ==> (v[k] as u32) % 256 != 255,
            forall|k: int| 0 <= k < i ==> r[k] == next_low_byte(v[k]),
        decreases v.len() - i,
    {
        let low: u32 = (v[i] as u32) % 256;
        let byte: u8 = (low + 1) as u8;
        r.push(byte as char);
        i = i + 1;
    }
    r
}

} // verus!

verus! {

/// `p` occurs in `s` starting at position `i`.
pub open spec fn occurs_at(s: Seq<char>, p: Seq<char>, i: int) -> bool {
    0 <= i && i + p.len() <= s.len() && s.subrange(i, i + p.len()) == p
}

/// `p` occurs somewhere in `s`.
pub open spec fn contains_seq(s: Seq<char>, p: Seq<char>) -> bool {
    exists|i: int| occurs_at(s, p, i)
}

fn occurs_at_exec(s: &Vec<char>, p: &Vec<char>, i: usize) -> (r: bool)
    requires
        i + p.len() <= s.len(),
    ensures
        r == occurs_at(s@, p@, i as int),
{
    let mut k: usize = 0;
    while k < p.len()
        invariant
            i + p.len() <= s.len(),
            k <= p.len(),
            forall|j: int| 0 <= j < k ==> s@[i + j] == p@[j],
        decreases p.len() - k,
    {
        if s[i + k] != p[k] {
            assert(s@.subrange(i as int, i + p.len())[k as int] != p@[k as int]);
            return false;
        }
        k = k + 1;
    }
    assert(s@.subrange(i as int, i + p.len()) =~= p@);
    true
}

/// Whether `pattern` occurs in `text`.
pub fn contains_str(text: &str, pattern: &str) -> (r: bool)
    ensures
        r == contains_seq(text@, pattern@),
{
    let s = chars_of(text);
    let p = chars_of(pattern);
    if p.len() == 0 {
        assert(occurs_at(text@, pattern@, 0)) by {
            assert(text@.subrange(0, 0) =~= pattern@);
        }
        return true;
    }
    let mut i: usize = 0;
    while i < s.len()
        invariant
            s@ == text@,
            p@ == pattern@,
            p.len() > 0,
            i <= s.len(),
            forall|j: int| 0 <= j < i ==> !occurs_at(text@, pattern@, j),
        decreases s.len() - i,
    {
        if p.len() > s.len() - i {
            return false;
        }
        if occurs_at_exec(&s, &p, i) {
            return true;
        }
        i = i + 1;
    }
    false
}

/// Whether two strings hold the same characters.
pub fn same_text(a: &str, b: &str) -> (r: bool)
    ensures
        r == (a@ == b@),
{
    let x = chars_of(a);
    let y = chars_of(b);
    if x.len() != y.len() {
        return false;
    }
    let mut i: usize = 0;
    while i < x.len()
        invariant
            x@ == a@,
            y@ == b@,
            x.len() == y.len(),
            i <= x.len(),
            forall|j: int| 0 <= j < i ==> x@[j] == y@[j],
        decreases x.len() - i,
    {
        if x[i] != y[i] {
            return false;
        }
        i = i + 1;
    }
    assert(x@ =~= y@);
    true
}

/// Unicode white space, as `char::is_whitespace` defines it.
pub open spec fn is_space(c: char) -> bool {
    let v = c as u32;
    ||| 0x09 <= v <= 0x0d
    ||| v == 0x20
    ||| v == 0x85
    ||| v == 0xa0
    ||| v == 0x1680
    ||| 0x2000 <= v <= 0x200a
    ||| v == 0x2028
    ||| v == 0x2029
    ||| v == 0x202f
    ||| v == 0x205f
    ||| v == 0x3000
}

/// Whether `c` is Unicode white space.
pub fn is_space_char(c: char) -> (r: bool)
    ensures
        r == is_space(c),
{
    let v = c as u32;
    (0x09 <= v && v <= 0x0d) || v == 0x20 || v == 0x85 || v == 0xa0 || v == 0x1680 || (0x2000
        <= v && v <= 0x200a) || v == 0x2028 || v == 0x2029 || v == 0x202f || v == 0x205f || v
        == 0x3000
}

/// The number of characters before the first white space in `s`.
pub open spec fn word_len(s: Seq<char>) -> nat
    decreases s.len(),
{
    if s.len() == 0 || is_space(s[0]) {
        0
    } else {
        1 + word_len(s.drop_first())
    }
}

/// The maximal runs of non-space characters of `s`, in order: what
/// `str::split_whitespace` yields.
pub open spec fn words(s: Seq<char>) -> Seq<Seq<char>>
    decreases s.len(),
{
    if s.len() == 0 {
        Seq::empty()
    } else if is_space(s[0]) {
        words(s.drop_first())
    } else {
        let n = word_len(s);
        proof {
            lemma_word_len_bound(s);
        }
        seq![s.take(n as int)] + words(s.skip(n as int))
    }
}

/// A word is no longer than the text it starts, and non-empty when the text
/// starts with a non-space character.
pub proof fn lemma_word_len_bound(s: Seq<char>)
    ensures
        word_len(s) <= s.len(),
        s.len() > 0 && !is_space(s[0]) ==> word_len(s) >= 1,
    decreases s.len(),
{
    if s.len() > 0 && !is_space(s[0]) {
        lemma_word_len_bound(s.drop_first());
    }
}

proof fn lemma_word_len_step(s: Seq<char>, i: int)
    requires
        0 <= i <= s.len(),
    ensures
        i == s.len() || is_space(s[i]) ==> word_len(s.skip(i)) == 0,
        i < s.len() && !is_space(s[i]) ==> word_len(s.skip(i)) == 1 + word_len(s.skip(i + 1)),
{
    if i < s.len() {
        assert(s.skip(i)[0] == s[i]);
        assert(s.skip(i).drop_first() =~= s.skip(i + 1));
    }
}

proof fn lemma_words_skip_space(s: Seq<char>, i: int)
    requires
        0 <= i < s.len(),
        is_space(s[i]),
    ensures
        words(s.skip(i)) == words(s.skip(i + 1)),
{
    assert(s.skip(i)[0] == s[i]);
    assert(s.skip(i).drop_first() =~= s.skip(i + 1));
}

proof fn lemma_words_take_word(s: Seq<char>, start: int, end: int)
    requires
        0 <= start < end <= s.len(),
        !is_space(s[start]),
        word_len(s.skip(start)) == end - start,
    ensures
        words(s.skip(start)) == seq![s.subrange(start, end)] + words(s.skip(end)),
{
    let t = s.skip(start);
    assert(t[0] == s[start]);
    assert(t.take(end - start) =~= s.subrange(start, end));
    assert(t.skip(end - start) =~= s.skip(end));
}

/// The views of a sequence of strings.
pub open spec fn views_of(v: Seq<String>) -> Seq<Seq<char>> {
    v.map_values(|t: String| t@)
}

/// Splits `line` into its white-space separated words.
pub fn split_words(line: &str) -> (r: Vec<String>)
    ensures
        views_of(r@) == words(line@),
{
    let s = chars_of(line);
    let n = s.len();
    let mut out: Vec<String> = Vec::new();
    let mut i: usize = 0;
    proof {
        assert(line@.skip(0) =~= line@);
    }
    while i < n
        invariant
            s@ == line@,
            n == s.len(),
            i <= n,
            views_of(out@) + words(line@.skip(i as int)) == words(line@),
        decreases n - i,
    {
        if is_space_char(s[i]) {
            proof {
                lemma_words_skip_space(line@, i as int);
            }
            i = i + 1;
        } else {
            let start = i;
            proof {
                lemma_word_len_step(line@, start as int);
            }
            while i < n && !is_space_char(s[i])
                invariant
                    s@ == line@,
                    n == s.len(),
                    start < n,
                    !is_space(line@[start as int]),
                    start <= i <= n,
                    word_len(line@.skip(start as int)) == (i - start) + word_len(
                        line@.skip(i as int),
                    ),
                decreases n - i,
            {
                proof {
                    lemma_word_len_step(line@, i as int);
                }
                i = i + 1;
            }
            proof {
                lemma_word_len_step(line@, i as int);
                if start == i {
                    lemma_word_len_step(line@, start as int);
                }
                lemma_words_take_word(line@, start as int, i as int);
            }
            let w = String::from_str(line.substring_char(start, i));
            let ghost before = out@;
            out.push(w);
            proof {
                assert(views_of(out@) =~= views_of(before) + seq![line@.subrange(start as int, i as int)]);
            }
        }
    }
    proof {
        assert(line@.skip(n as int) =~= Seq::<char>::empty());
        assert(views_of(out@) + words(line@.skip(n as int)) =~= views_of(out@));
    }
    out
}

/// What `str::to_lowercase` gives for a string.
pub uninterp spec fn lowercase(s: Seq<char>) -> Seq<char>;

/// `str::to_lowercase`: the string with every character mapped to its
/// Unicode lowercase form. The contract only names the result as a function
/// of the characters of `s`; the Unicode case tables are not stated.
#[verifier::external_body]
pub(crate) fn to_lowercase(s: &str) -> (r: String)
    ensures
        r@ == lowercase(s@),
{
    s.to_lowercase()
}

} // verus!

verus! {

/// No string is greater than itself in the order of [`compare_string`].
pub proof fn law_compare_irreflexive(x: Seq<char>)
    ensures
        !string_greater(x, x),
{
}

/// Of two strings, at most one is greater than the other in the order of
/// [`compare_string`].
pub proof fn law_compare_asymmetric(x: Seq<char>, y: Seq<char>)
    ensures
        !(string_greater(x, y) && string_greater(y, x)),
{
    if x.len() == y.len() && string_greater(x, y) && string_greater(y, x) {
        let i = choose|i: int| greater_at(x, y, i);
        let j = choose|j: int| greater_at(y, x, j);
        if i < j {
            assert(y[i] == x[i]);
        } else if j < i {
            assert(x[j] == y[j]);
        }
    }
}

/// Every word of a line is non-empty and holds no white space.
pub proof fn law_words_are_clean(s: Seq<char>)
    ensures
        forall|k: int|
            0 <= k < words(s).len() ==> #[trigger] words(s)[k].len() > 0 && forall|j: int|
                0 <= j < words(s)[k].len() ==> !is_space(words(s)[k][j]),
    decreases s.len(),
{
    if s.len() == 0 {
    } else if is_space(s[0]) {
        law_words_are_clean(s.drop_first());
        assert(words(s) == words(s.drop_first()));
    } else {
        let n = word_len(s);
        lemma_word_len_bound(s);
        lemma_word_prefix_clean(s);
        law_words_are_clean(s.skip(n as int));
        let w = s.take(n as int);
        let rest = words(s.skip(n as int));
        assert(words(s) == seq![w] + rest);
        assert forall|k: int| 0 <= k < words(s).len() implies #[trigger] words(s)[k].len() > 0
            && forall|j: int| 0 <= j < words(s)[k].len() ==> !is_space(words(s)[k][j]) by {
            if k > 0 {
                assert(words(s)[k] == rest[k - 1]);
            } else {
                assert(words(s)[0] == w);
                assert forall|j: int| 0 <= j < w.len() implies !is_space(w[j]) by {
                    assert(w[j] == s[j]);
                }
            }
        }
    }
}

proof fn lemma_word_prefix_clean(s: Seq<char>)
    ensures
        forall|j: int| 0 <= j < word_len(s) ==> !is_space(#[trigger] s[j]),
    decreases s.len(),
{
    if s.len() > 0 && !is_space(s[0]) {
        lemma_word_prefix_clean(s.drop_first());
        lemma_word_len_bound(s);
        assert forall|j: int| 0 <= j < word_len(s) implies !is_space(#[trigger] s[j]) by {
            if j > 0 {
                assert(s[j] == s.drop_first()[j - 1]);
            }
        }
    }
}

} // verus!

verus! {

/// Of two different strings of the same length, one is greater than the
/// other at their first difference.
proof fn lemma_first_difference(x: Seq<char>, y: Seq<char>, i: int)
    requires
        x.len() == y.len(),
        x != y,
        0 <= i <= x.len(),
        forall|m: int| 0 <= m < i ==> x[m] == y[m],
    ensures
        (exists|k: int| greater_at(x, y, k)) || (exists|k: int| greater_at(y, x, k)),
    decreases x.len() - i,
{
    if i == x.len() {
        assert(x =~= y);
    } else if x[i] == y[i] {
        lemma_first_difference(x, y, i + 1);
    } else {
        assert(x[i] as int != y[i] as int);
        if (x[i] as int) > (y[i] as int) {
            assert(greater_at(x, y, i));
        } else {
            assert(greater_at(y, x, i));
        }
    }
}

/// Of two different strings, exactly one is greater than the other in the
/// order of [`compare_string`]: the order is total.
pub proof fn law_compare_total(x: Seq<char>, y: Seq<char>)
    requires
        x != y,
    ensures
        string_greater(x, y) != string_greater(y, x),
{
    law_compare_asymmetric(x, y);
    if x.len() == y.len() {
        lemma_first_difference(x, y, 0);
    }
}

/// The order of [`compare_string`] is transitive.
pub proof fn law_compare_transitive(x: Seq<char>, y: Seq<char>, z: Seq<char>)
    requires
        string_greater(x, y),
        string_greater(y, z),
    ensures
        string_greater(x, z),
{
    if x.len() == y.len() && y.len() == z.len() {
        let i = choose|i: int| greater_at(x, y, i);
        let j = choose|j: int| greater_at(y, z, j);
        if i < j {
            assert(y[i] == z[i]);
            assert(greater_at(x, z, i));
        } else if j < i {
            assert(x[j] == y[j]);
            assert(greater_at(x, z, j));
        } else {
            assert(greater_at(x, z, i));
        }
    }
}

} // verus!

verus! {

/// Between strings of the same length, the first position where they
/// differ decides: if they agree on every position before `i` and differ at
/// `i`, then `x` is greater exactly when its character at `i` is greater,
/// whatever follows.
pub proof fn law_first_difference_decides(x: Seq<char>, y: Seq<char>, i: int)
    requires
        x.len() == y.len(),
        0 <= i < x.len(),
        forall|j: int| 0 <= j < i ==> x[j] == y[j],
        x[i] != y[i],
    ensures
        string_greater(x, y) == ((x[i] as int) > (y[i] as int)),
        string_greater(y, x) == ((y[i] as int) > (x[i] as int)),
{
    assert(x[i] as int != y[i] as int);
    if (x[i] as int) > (y[i] as int) {
        assert(greater_at(x, y, i));
        assert forall|k: int| !greater_at(y, x, k) by {
            if greater_at(y, x, k) {
                if k < i {
                } else if k > i {
                    assert(y[i] == x[i]);
                }
            }
        }
    } else {
        assert(greater_at(y, x, i));
        assert forall|k: int| !greater_at(x, y, k) by {
            if greater_at(x, y, k) {
                if k < i {
                } else if k > i {
                    assert(x[i] == y[i]);
                }
            }
        }
    }
}

/// A longer string is greater than a shorter one, whatever they hold.
pub proof fn law_longer_is_greater(x: Seq<char>, y: Seq<char>)
    requires
        x.len() > y.len(),
    ensures
        string_greater(x, y),
        !string_greater(y, x),
{
}

} // verus!
