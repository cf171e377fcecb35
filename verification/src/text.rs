//! Character-level text operations: equality, decimal rendering of integers,
//! trimming, splitting on separator characters, and the single documented
//! whitespace cleanup pass.

use vstd::prelude::*;
use vstd::string::*;

verus! {

/// Equality of two string slices, decided character by character.
pub fn str_eq(a: &str, b: &str) -> (r: bool)
    ensures
        r == (a@ == b@),
{
    let alen = a.unicode_len();
    let blen = b.unicode_len();
    if alen != blen {
        return false;
    }
    let mut i: usize = 0;
    while i < alen
        invariant
            alen == a@.len(),
            blen == b@.len(),
            alen == blen,
            i <= alen,
            forall|j: int| 0 <= j < i ==> a@[j] == b@[j],
        decreases alen - i,
    {
        if a.get_char(i) != b.get_char(i) {
            return false;
        }
        i = i + 1;
    }
    proof {
        assert(a@ =~= b@);
    }
    true
}

/// The character for one decimal digit.
pub open spec fn digit_char(d: int) -> char {
    if d == 0 {
        '0'
    } else if d == 1 {
        '1'
    } else if d == 2 {
        '2'
    } else if d == 3 {
        '3'
    } else if d == 4 {
        '4'
    } else if d == 5 {
        '5'
    } else if d == 6 {
        '6'
    } else if d == 7 {
        '7'
    } else if d == 8 {
        '8'
    } else {
        '9'
    }
}

/// The base-10 digits of a natural number, most significant first.
pub open spec fn dec_digits(n: nat) -> Seq<char>
    decreases n,
{
    if n < 10 {
        seq![digit_char(n as int)]
    } else {
        dec_digits(n / 10) + seq![digit_char((n % 10) as int)]
    }
}

/// The canonical base-10 rendering of an integer: a minus sign for negative
/// values, then the digits of the magnitude.
pub open spec fn dec_int(i: int) -> Seq<char> {
    if i < 0 {
        seq!['-'] + dec_digits((-i) as nat)
    } else {
        dec_digits(i as nat)
    }
}

fn digit_str(d: u64) -> (r: &'static str)
    requires
        d < 10,
    ensures
        r@ == seq![digit_char(d as int)],
{
    if d == 0 {
        proof {
            reveal_strlit("0");
            assert("0"@ =~= seq![digit_char(0)]);
        }
        "0"
    } else if d == 1 {
        proof {
            reveal_strlit("1");
            assert("1"@ =~= seq![digit_char(1)]);
        }
        "1"
    } else if d == 2 {
        proof {
            reveal_strlit("2");
            assert("2"@ =~= seq![digit_char(2)]);
        }
        "2"
    } else if d == 3 {
        proof {
            reveal_strlit("3");
            assert("3"@ =~= seq![digit_char(3)]);
        }
        "3"
    } else if d == 4 {
        proof {
            reveal_strlit("4");
            assert("4"@ =~= seq![digit_char(4)]);
        }
        "4"
    } else if d == 5 {
        proof {
            reveal_strlit("5");
            assert("5"@ =~= seq![digit_char(5)]);
        }
        "5"
    } else if d == 6 {
        proof {
            reveal_strlit("6");
            assert("6"@ =~= seq![digit_char(6)]);
        }
        "6"
    } else if d == 7 {
        proof {
            reveal_strlit("7");
            assert("7"@ =~= seq![digit_char(7)]);
        }
        "7"
    } else if d == 8 {
        proof {
            reveal_strlit("8");
            assert("8"@ =~= seq![digit_char(8)]);
        }
        "8"
    } else {
        proof {
            reveal_strlit("9");
            assert("9"@ =~= seq![digit_char(9)]);
        }
        "9"
    }
}

/// Renders a natural number in base 10.
pub fn u64_to_string(n: u64) -> (r: String)
    ensures
        r@ == dec_digits(n as nat),
    decreases n,
{
    if n < 10 {
        String::from_str(digit_str(n))
    } else {
        proof {
            assert(n / 10 < n) by (nonlinear_arith)
                requires
                    n >= 10,
            ;
        }
        let mut s = u64_to_string(n / 10);
        s.append(digit_str(n % 10));
        s
    }
}

/// Renders a signed integer in base 10.
pub fn i64_to_string(i: i64) -> (r: String)
    ensures
        r@ == dec_int(i as int),
{
    if i >= 0 {
        u64_to_string(i as u64)
    } else {
        let mag: u64 = if i == i64::MIN {
            9223372036854775808u64
        } else {
            (-i) as u64
        };
        let s = String::from_str("-");
        let t = u64_to_string(mag);
        let r = s.concat(t.as_str());
        proof {
            reveal_strlit("-");
            assert(r@ =~= dec_int(i as int));
        }
        r
    }
}

/// Renders a boolean.
pub fn bool_to_str(b: bool) -> (r: &'static str)
    ensures
        b ==> r@ == "true"@,
        !b ==> r@ == "false"@,
{
    if b {
        "true"
    } else {
        "false"
    }
}

/// The whitespace characters stripped from the ends of a path.
pub open spec fn is_space_char(c: char) -> bool {
    c == ' ' || c == '\t' || c == '\n' || c == '\r'
}

/// The text with leading and trailing whitespace removed.
pub open spec fn trim_spec(s: Seq<char>) -> Seq<char>
    decreases s.len(),
{
    if s.len() > 0 && is_space_char(s[0]) {
        trim_spec(s.skip(1))
    } else if s.len() > 0 && is_space_char(s[s.len() - 1]) {
        trim_spec(s.take(s.len() - 1))
    } else {
        s
    }
}

fn is_space(c: char) -> (r: bool)
    ensures
        r == is_space_char(c),
{
    c == ' ' || c == '\t' || c == '\n' || c == '\r'
}

/// Strips leading and trailing whitespace.
pub fn trim<'a>(s: &'a str) -> (r: &'a str)
    ensures
        r@ == trim_spec(s@),
{
    let n = s.unicode_len();
    let mut lo: usize = 0;
    proof {
        assert(s@.skip(0) =~= s@);
    }
    while lo < n && is_space(s.get_char(lo))
        invariant
            n == s@.len(),
            lo <= n,
            trim_spec(s@) == trim_spec(s@.skip(lo as int)),
        decreases n - lo,
    {
        proof {
            assert(s@.skip(lo as int).skip(1) =~= s@.skip(lo as int + 1));
        }
        lo = lo + 1;
    }
    let mut hi: usize = n;
    proof {
        assert(s@.skip(lo as int) =~= s@.subrange(lo as int, n as int));
    }
    while hi > lo && is_space(s.get_char(hi - 1))
        invariant
            n == s@.len(),
            lo <= hi <= n,
            lo < n ==> !is_space_char(s@[lo as int]),
            trim_spec(s@) == trim_spec(s@.subrange(lo as int, hi as int)),
        decreases hi,
    {
        proof {
            let part = s@.subrange(lo as int, hi as int);
            assert(part.take(part.len() - 1) =~= s@.subrange(lo as int, hi as int - 1));
        }
        hi = hi - 1;
    }
    let r = s.substring_char(lo, hi);
    proof {
        let part = s@.subrange(lo as int, hi as int);
        assert(trim_spec(part) == part);
    }
    r
}

/// The segments of `s` between occurrences of the separator characters.
/// Splitting never yields fewer than one segment: the empty text splits to
/// one empty segment, and each separator occurrence starts a new segment.
pub open spec fn split_by(s: Seq<char>, seps: Seq<char>) -> Seq<Seq<char>>
    decreases s.len(),
{
    if s.len() == 0 {
        seq![Seq::<char>::empty()]
    } else if seps.contains(s[0]) {
        seq![Seq::<char>::empty()] + split_by(s.skip(1), seps)
    } else {
        let rest = split_by(s.skip(1), seps);
        seq![seq![s[0]] + rest[0]] + rest.skip(1)
    }
}

pub proof fn lemma_split_by_nonempty(s: Seq<char>, seps: Seq<char>)
    ensures
        split_by(s, seps).len() >= 1,
    decreases s.len(),
{
    if s.len() > 0 {
        lemma_split_by_nonempty(s.skip(1), seps);
    }
}

/// The views of a sequence of strings.
pub open spec fn views_of(v: Seq<String>) -> Seq<Seq<char>> {
    Seq::new(v.len(), |i: int| v[i]@)
}

fn char_in(c: char, seps: &Vec<char>) -> (r: bool)
    ensures
        r == seps@.contains(c),
{
    let mut i: usize = 0;
    while i < seps.len()
        invariant
            i <= seps@.len(),
            forall|j: int| 0 <= j < i ==> seps@[j] != c,
        decreases seps@.len() - i,
    {
        if seps[i] == c {
            return true;
        }
        i = i + 1;
    }
    false
}

/// Splits `s` into the segments between occurrences of the characters in
/// `seps`.
pub fn split_on(s: &str, seps: &Vec<char>) -> (r: Vec<String>)
    ensures
        views_of(r@) == split_by(s@, seps@),
{
    let ghost sep_chars = seps@;
    let n = s.unicode_len();
    let mut out: Vec<String> = Vec::new();
    let mut start: usize = 0;
    let mut i: usize = 0;
    proof {
        assert(s@.skip(0) =~= s@);
        lemma_split_by_nonempty(s@, sep_chars);
        let r0 = split_by(s@, sep_chars);
        assert(s@.subrange(0, 0) =~= Seq::<char>::empty());
        assert(Seq::<char>::empty() + r0[0] =~= r0[0]);
        assert(views_of(out@) + seq![r0[0]] + r0.skip(1) =~~= r0);
    }
    while i < n
        invariant
            n == s@.len(),
            start <= i <= n,
            split_by(s@, sep_chars) == views_of(out@) + seq![
                s@.subrange(start as int, i as int) + split_by(s@.skip(i as int), sep_chars)[0],
            ] + split_by(s@.skip(i as int), sep_chars).skip(1),
            sep_chars == seps@,
        decreases n - i,
    {
        let ghost rem = s@.skip(i as int);
        let ghost rem2 = s@.skip(i as int + 1);
        let ghost r_here = split_by(rem, sep_chars);
        let ghost r_next = split_by(rem2, sep_chars);
        proof {
            assert(rem.skip(1) =~= rem2);
            assert(rem[0] == s@[i as int]);
            lemma_split_by_nonempty(rem2, sep_chars);
        }
        let c = s.get_char(i);
        if char_in(c, seps) {
            let piece = s.substring_char(start, i);
            let ghost old_views = views_of(out@);
            out.push(String::from_str(piece));
            proof {
                // The remainder starts with a separator, so its split starts
                // with an empty segment.
                assert(r_here == seq![Seq::<char>::empty()] + r_next);
                assert(r_here[0] == Seq::<char>::empty());
                assert(r_here.skip(1) =~~= r_next);
                assert(s@.subrange(start as int, i as int) + Seq::<char>::empty() =~= s@.subrange(
                    start as int,
                    i as int,
                ));
                assert(views_of(out@) =~~= old_views + seq![piece@]);
                assert(s@.subrange(i as int + 1, i as int + 1) =~= Seq::<char>::empty());
                assert(Seq::<char>::empty() + r_next[0] =~= r_next[0]);
                assert(old_views + seq![piece@] + seq![r_next[0]] + r_next.skip(1) =~~= old_views
                    + seq![s@.subrange(start as int, i as int) + r_here[0]] + r_here.skip(1));
            }
            start = i + 1;
        } else {
            proof {
                // The remainder starts with an ordinary character, which
                // extends the current segment.
                assert(r_here == seq![seq![rem[0]] + r_next[0]] + r_next.skip(1));
                assert(r_here.skip(1) =~~= r_next.skip(1));
                assert(s@.subrange(start as int, i as int + 1) =~= s@.subrange(
                    start as int,
                    i as int,
                ) + seq![s@[i as int]]);
                assert(s@.subrange(start as int, i as int + 1) + r_next[0] =~= s@.subrange(
                    start as int,
                    i as int,
                ) + r_here[0]);
            }
        }
        i = i + 1;
    }
    let last = s.substring_char(start, n);
    let ghost old_views = views_of(out@);
    out.push(String::from_str(last));
    proof {
        assert(s@.skip(n as int) =~= Seq::<char>::empty());
        let ghost r_end = split_by(Seq::<char>::empty(), sep_chars);
        assert(r_end == seq![Seq::<char>::empty()]);
        assert(s@.subrange(start as int, n as int) + Seq::<char>::empty() =~= s@.subrange(
            start as int,
            n as int,
        ));
        assert(views_of(out@) =~~= old_views + seq![last@]);
        assert(views_of(out@) =~~= split_by(s@, sep_chars));
    }
    out
}

/// Concatenation of a sequence of text pieces, in order.
pub open spec fn concat_all(parts: Seq<Seq<char>>) -> Seq<char>
    decreases parts.len(),
{
    if parts.len() == 0 {
        Seq::empty()
    } else {
        parts[0] + concat_all(parts.skip(1))
    }
}

/// One left-to-right pass that replaces each non-overlapping occurrence of
/// two consecutive spaces with a single space.
pub open spec fn collapse_spec(s: Seq<char>) -> Seq<char>
    decreases s.len(),
{
    if s.len() >= 2 && s[0] == ' ' && s[1] == ' ' {
        seq![' '] + collapse_spec(s.skip(2))
    } else if s.len() >= 1 {
        seq![s[0]] + collapse_spec(s.skip(1))
    } else {
        s
    }
}

/// Law: the cleanup pass changes nothing on text without a double space —
/// so applying it to its own output a second time is the identity whenever
/// one pass removed every double space.
pub proof fn lemma_collapse_clean(s: Seq<char>)
    requires
        forall|i: int| 0 <= i < s.len() - 1 ==> !(#[trigger] s[i] == ' ' && s[i + 1] == ' '),
    ensures
        collapse_spec(s) == s,
    decreases s.len(),
{
    if s.len() >= 1 {
        lemma_collapse_clean(s.skip(1));
        assert(seq![s[0]] + s.skip(1) =~= s);
    }
}

/// Applies the documented cleanup pass: each occurrence of a double space,
/// found left to right, is reduced to a single space, once.
pub fn collapse_double_spaces(s: &str) -> (r: String)
    ensures
        r@ == collapse_spec(s@),
{
    let n = s.unicode_len();
    let mut out = String::new();
    let mut i: usize = 0;
    proof {
        assert(s@.skip(0) =~= s@);
        assert(Seq::<char>::empty() + collapse_spec(s@) =~= collapse_spec(s@));
    }
    while i < n
        invariant
            n == s@.len(),
            i <= n,
            collapse_spec(s@) == out@ + collapse_spec(s@.skip(i as int)),
        decreases n - i,
    {
        let ghost rem = s@.skip(i as int);
        proof {
            assert(rem[0] == s@[i as int]);
            if i + 1 < n {
                assert(rem[1] == s@[i as int + 1]);
            }
        }
        let c = s.get_char(i);
        if c == ' ' && i + 1 < n && s.get_char(i + 1) == ' ' {
            proof {
                reveal_strlit(" ");
                assert(" "@ =~= seq![' ']);
                assert(rem.skip(2) =~= s@.skip(i as int + 2));
            }
            out.append(" ");
            i = i + 2;
        } else {
            proof {
                assert(rem.skip(1) =~= s@.skip(i as int + 1));
                assert(s@.subrange(i as int, i as int + 1) =~= seq![s@[i as int]]);
            }
            let piece = s.substring_char(i, i + 1);
            out.append(piece);
            i = i + 1;
        }
    }
    proof {
        assert(s@.skip(n as int) =~= Seq::<char>::empty());
        assert(out@ + collapse_spec(Seq::<char>::empty()) =~= out@);
    }
    out
}

} // verus!
