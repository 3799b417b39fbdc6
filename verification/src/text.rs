//! Small pieces of text that the interface builds: decimal numbers and
//! comparisons that ignore ASCII case.

use vstd::prelude::*;
use vstd::string::*;

verus! {

/// The ten decimal digits, in order.
pub open spec fn digit_char(d: nat) -> char {
    "0123456789"@[d as int]
}

/// The decimal digits of `n`, without sign or leading zeros ("0" for zero),
/// as `ToString` writes an unsigned integer.
pub open spec fn decimal(n: nat) -> Seq<char>
    decreases n,
{
    if n < 10 {
        seq![digit_char(n)]
    } else {
        decimal(n / 10).push(digit_char(n % 10))
    }
}

/// The decimal text of `n`.
pub fn decimal_text(n: u64) -> (r: String)
    ensures
        r@ == decimal(n as nat),
    decreases n,
{
    proof {
        reveal_strlit("0123456789");
    }
    let digits = "0123456789";
    let d = (n % 10) as usize;
    let one = digits.substring_char(d, d + 1);
    assert(one@ =~= seq![digit_char(d as nat)]);
    if n < 10 {
        String::from_str(one)
    } else {
        let mut r = decimal_text(n / 10);
        r.append(one);
        r
    }
}


/// The code of a character after ASCII lowercasing: 'A'..='Z' become
/// 'a'..='z', every other character keeps its code.
pub open spec fn lower_code(c: char) -> u32 {
    if 65 <= (c as u32) <= 90 {
        ((c as u32) + 32) as u32
    } else {
        c as u32
    }
}

/// A text after ASCII lowercasing, as character codes.
pub open spec fn lowered(s: Seq<char>) -> Seq<u32> {
    s.map_values(|c: char| lower_code(c))
}

/// `needle` occurs in `hay` starting at position `i`.
pub open spec fn occurs_at<T>(hay: Seq<T>, needle: Seq<T>, i: int) -> bool {
    0 <= i && i + needle.len() <= hay.len() && hay.subrange(i, i + needle.len()) == needle
}

/// `needle` occurs somewhere in `hay` (the empty text occurs everywhere).
pub open spec fn contains_seq<T>(hay: Seq<T>, needle: Seq<T>) -> bool {
    exists|i: int| #[trigger] occurs_at(hay, needle, i)
}

fn lower_code_of(c: char) -> (r: u32)
    ensures
        r == lower_code(c),
{
    let u = c as u32;
    if 65 <= u && u <= 90 {
        u + 32
    } else {
        u
    }
}

/// The characters of `s`, ASCII-lowercased, as codes.
fn lowered_codes(s: &str) -> (r: Vec<u32>)
    ensures
        r@ == lowered(s@),
{
    let n = s.unicode_len();
    let mut r: Vec<u32> = Vec::new();
    for i in 0..n
        invariant
            n == s@.len(),
            r@ == lowered(s@.subrange(0, i as int)),
    {
        let c = s.get_char(i);
        r.push(lower_code_of(c));
        assert(lowered(s@.subrange(0, i + 1)) =~= lowered(s@.subrange(0, i as int)).push(lower_code(c)));
    }
    assert(s@.subrange(0, n as int) =~= s@);
    r
}

/// Whether `needle` occurs in `hay` at `i`, for codes.
fn codes_occur_at(hay: &Vec<u32>, needle: &Vec<u32>, i: usize) -> (r: bool)
    requires
        i + needle@.len() <= hay@.len(),
    ensures
        r == occurs_at(hay@, needle@, i as int),
{
    let m = needle.len();
    let hl = hay.len();
    for j in 0..m
        invariant
            m == needle@.len(),
            hl == hay@.len(),
            i + m <= hay@.len(),
            forall|k: int| 0 <= k < j ==> hay@[i + k] == needle@[k],
    {
        if hay[i + j] != needle[j] {
            assert(hay@.subrange(i as int, i + m)[j as int] != needle@[j as int]);
            return false;
        }
    }
    assert(hay@.subrange(i as int, i + m) =~= needle@);
    true
}

/// Whether `needle` occurs in `hay` when both are ASCII-lowercased: what
/// `hay.to_ascii_lowercase().contains(&needle.to_ascii_lowercase())` gives.
pub fn contains_ignore_ascii_case(hay: &str, needle: &str) -> (r: bool)
    ensures
        r == contains_seq(lowered(hay@), lowered(needle@)),
{
    let h = lowered_codes(hay);
    let nd = lowered_codes(needle);
    if nd.len() > h.len() {
        assert forall|i: int| !occurs_at(h@, nd@, i) by {}
        return false;
    }
    let last = h.len() - nd.len();
    for i in 0..last
        invariant
            last + nd@.len() == h@.len(),
            h@ == lowered(hay@),
            nd@ == lowered(needle@),
            forall|k: int| 0 <= k < i ==> !occurs_at(h@, nd@, k),
    {
        if codes_occur_at(&h, &nd, i) {
            assert(occurs_at(h@, nd@, i as int));
            return true;
        }
    }
    if codes_occur_at(&h, &nd, last) {
        assert(occurs_at(h@, nd@, last as int));
        return true;
    }
    assert forall|k: int| !occurs_at(h@, nd@, k) by {
        if 0 <= k <= last {
        }
    }
    false
}


/// `s` with every match of `from` replaced by `to`, as `str::replace`
/// does it: matches are taken from left to right and do not overlap, and an
/// empty pattern matches before every character and at the end.
pub open spec fn replaced(s: Seq<char>, from: Seq<char>, to: Seq<char>) -> Seq<char>
    decreases s.len(),
{
    if s.len() == 0 {
        if from.len() == 0 {
            to
        } else {
            s
        }
    } else if from.len() == 0 {
        to + seq![s[0]] + replaced(s.drop_first(), from, to)
    } else if occurs_at(s, from, 0) {
        to + replaced(s.subrange(from.len() as int, s.len() as int), from, to)
    } else {
        seq![s[0]] + replaced(s.drop_first(), from, to)
    }
}

/// A text in which a non-empty pattern does not occur comes back from a
/// replacement unchanged.
pub proof fn lemma_replaced_absent(s: Seq<char>, from: Seq<char>, to: Seq<char>)
    requires
        from.len() > 0,
        !contains_seq(s, from),
    ensures
        replaced(s, from, to) == s,
    decreases s.len(),
{
    if s.len() > 0 {
        let tail = s.drop_first();
        assert(!occurs_at(s, from, 0));
        assert forall|i: int| !occurs_at(tail, from, i) by {
            if occurs_at(tail, from, i) {
                assert(s.subrange(i + 1, i + 1 + from.len()) =~= tail.subrange(i, i + from.len()));
                assert(occurs_at(s, from, i + 1));
            }
        }
        lemma_replaced_absent(tail, from, to);
        assert(seq![s[0]] + tail =~= s);
    }
}

/// Whether `from` occurs in `s` at `i`.
fn chars_occur_at(s: &str, from: &str, i: usize) -> (r: bool)
    requires
        i + from@.len() <= s@.len(),
    ensures
        r == occurs_at(s@, from@, i as int),
{
    let n = s.unicode_len();
    let m = from.unicode_len();
    for j in 0..m
        invariant
            m == from@.len(),
            n == s@.len(),
            i + m <= n,
            forall|k: int| 0 <= k < j ==> s@[i + k] == from@[k],
    {
        if s.get_char(i + j) != from.get_char(j) {
            assert(s@.subrange(i as int, i + m)[j as int] != from@[j as int]);
            return false;
        }
    }
    assert(s@.subrange(i as int, i + m) =~= from@);
    true
}

/// `s` with every match of `from` replaced by `to`, matches taken from left
/// to right without overlap.
pub fn replace_text(s: &str, from: &str, to: &str) -> (r: String)
    ensures
        r@ == replaced(s@, from@, to@),
{
    let n = s.unicode_len();
    let m = from.unicode_len();
    let mut r = String::new();
    let mut i: usize = 0;
    assert(s@.subrange(0, n as int) =~= s@);
    while i < n
        invariant
            i <= n,
            n == s@.len(),
            m == from@.len(),
            r@ + replaced(s@.subrange(i as int, n as int), from@, to@) == replaced(s@, from@, to@),
        decreases n - i,
    {
        let ghost rest = s@.subrange(i as int, n as int);
        let ghost before = r@;
        if m == 0 {
            let one = s.substring_char(i, i + 1);
            r.append(to);
            r.append(one);
            proof {
                let tail = s@.subrange(i + 1, n as int);
                assert(rest.drop_first() =~= tail);
                assert(one@ =~= seq![rest[0]]);
                assert(replaced(rest, from@, to@) == to@ + seq![rest[0]] + replaced(tail, from@, to@));
                assert(r@ + replaced(tail, from@, to@) =~= before + replaced(rest, from@, to@));
            }
            i = i + 1;
        } else if m <= n - i && chars_occur_at(s, from, i) {
            r.append(to);
            proof {
                let tail = s@.subrange(i + m, n as int);
                assert(rest.subrange(0, m as int) =~= s@.subrange(i as int, i + m));
                assert(occurs_at(rest, from@, 0));
                assert(rest.subrange(m as int, rest.len() as int) =~= tail);
                assert(replaced(rest, from@, to@) == to@ + replaced(tail, from@, to@));
                assert(r@ + replaced(tail, from@, to@) =~= before + replaced(rest, from@, to@));
            }
            i = i + m;
        } else {
            let one = s.substring_char(i, i + 1);
            r.append(one);
            proof {
                let tail = s@.subrange(i + 1, n as int);
                assert(rest.drop_first() =~= tail);
                assert(one@ =~= seq![rest[0]]);
                if i + m <= n {
                    assert(rest.subrange(0, m as int) =~= s@.subrange(i as int, i + m));
                }
                assert(!occurs_at(rest, from@, 0));
                assert(replaced(rest, from@, to@) == seq![rest[0]] + replaced(tail, from@, to@));
                assert(r@ + replaced(tail, from@, to@) =~= before + replaced(rest, from@, to@));
            }
            i = i + 1;
        }
    }
    assert(s@.subrange(n as int, n as int) =~= Seq::<char>::empty());
    if m == 0 {
        r.append(to);
    }
    proof {
        let e = Seq::<char>::empty();
        if m == 0 {
            assert(replaced(e, from@, to@) == to@);
        } else {
            assert(replaced(e, from@, to@) == e);
        }
        assert(r@ =~= replaced(s@, from@, to@));
    }
    r
}

/// The characters of `s` other than `c`, in order.
pub open spec fn without_char(s: Seq<char>, c: char) -> Seq<char>
    decreases s.len(),
{
    if s.len() == 0 {
        Seq::empty()
    } else {
        let rest = without_char(s.drop_last(), c);
        if s.last() == c {
            rest
        } else {
            rest.push(s.last())
        }
    }
}

/// `s` with every '.' removed.
pub fn remove_dots(s: &str) -> (r: String)
    ensures
        r@ == without_char(s@, '.'),
{
    let n = s.unicode_len();
    let mut r = String::new();
    for i in 0..n
        invariant
            n == s@.len(),
            r@ == without_char(s@.subrange(0, i as int), '.'),
    {
        let ghost pre = s@.subrange(0, i + 1);
        assert(pre.drop_last() =~= s@.subrange(0, i as int));
        if s.get_char(i) != '.' {
            let one = s.substring_char(i, i + 1);
            assert(one@ =~= seq![s@[i as int]]);
            r.append(one);
        }
    }
    assert(s@.subrange(0, n as int) =~= s@);
    r
}

/// Whether two texts are equal.
pub fn text_eq(a: &str, b: &str) -> (r: bool)
    ensures
        r == (a@ == b@),
{
    let n = a.unicode_len();
    if n != b.unicode_len() {
        return false;
    }
    for i in 0..n
        invariant
            n == a@.len(),
            n == b@.len(),
            forall|j: int| 0 <= j < i ==> a@[j] == b@[j],
    {
        if a.get_char(i) != b.get_char(i) {
            return false;
        }
    }
    assert(a@ =~= b@);
    true
}

} // verus!
