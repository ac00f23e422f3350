//! Small verified helpers on text, shared by the other modules.

use vstd::prelude::*;

verus! {

/// Whether `i` is where the first `c` of `s` stands, or the length of `s`
/// where `s` holds no `c`.
pub open spec fn is_first_at(s: Seq<char>, c: char, i: int) -> bool {
    &&& 0 <= i <= s.len()
    &&& forall|j: int| 0 <= j < i ==> s[j] != c
    &&& i < s.len() ==> s[i] == c
}

/// The position of the first `c` in `s`, or the length of `s`.
pub open spec fn first_at(s: Seq<char>, c: char) -> int {
    choose|i: int| is_first_at(s, c, i)
}

/// Whether `i` is just past the last `c` of `s`, or 0 where `s` holds no `c`.
pub open spec fn is_past_last(s: Seq<char>, c: char, i: int) -> bool {
    &&& 0 <= i <= s.len()
    &&& forall|j: int| i <= j < s.len() ==> s[j] != c
    &&& i > 0 ==> s[i - 1] == c
}

/// The position just past the last `c` in `s`, or 0.
pub open spec fn past_last(s: Seq<char>, c: char) -> int {
    choose|i: int| is_past_last(s, c, i)
}

/// What stands before the first `c` of `s`: all of `s` where it holds none.
pub open spec fn before_first(s: Seq<char>, c: char) -> Seq<char> {
    s.take(first_at(s, c))
}

/// What stands after the last `c` of `s`: all of `s` where it holds none.
pub open spec fn after_last(s: Seq<char>, c: char) -> Seq<char> {
    s.skip(past_last(s, c))
}

/// The views of a list of strings.
pub open spec fn texts(v: Seq<String>) -> Seq<Seq<char>> {
    Seq::new(v.len(), |i: int| v[i]@)
}

/// Only one position is that of the first `c`.
pub proof fn lemma_first_at(s: Seq<char>, c: char, i: int)
    requires
        is_first_at(s, c, i),
    ensures
        first_at(s, c) == i,
{
    let k = first_at(s, c);
    assert(is_first_at(s, c, k));
    if k < i {
        assert(s[k] != c);
    } else if i < k {
        assert(s[i] != c);
    }
}

/// Only one position is just past the last `c`.
pub proof fn lemma_past_last(s: Seq<char>, c: char, i: int)
    requires
        is_past_last(s, c, i),
    ensures
        past_last(s, c) == i,
{
    let k = past_last(s, c);
    assert(is_past_last(s, c, k));
    if k < i {
        assert(s[i - 1] != c);
    } else if i < k {
        assert(s[k - 1] != c);
    }
}

/// Every text has a position just past its last `c`.
pub proof fn lemma_past_last_exists(s: Seq<char>, c: char)
    ensures
        is_past_last(s, c, past_last(s, c)),
{
    lemma_past_last_from(s, c, s.len() as int);
}

proof fn lemma_past_last_from(s: Seq<char>, c: char, i: int)
    requires
        0 <= i <= s.len(),
        forall|j: int| i <= j < s.len() ==> s[j] != c,
    ensures
        is_past_last(s, c, past_last(s, c)),
    decreases i,
{
    if i == 0 || s[i - 1] == c {
        assert(is_past_last(s, c, i));
    } else {
        lemma_past_last_from(s, c, i - 1);
    }
}

/// Whether a character is white space: whether it has the Unicode
/// property `White_Space`. These are the controls from tab to carriage
/// return, the space, the next-line control, the no-break space, the ogham
/// space mark, the spaces from en quad to hair space, the line and the
/// paragraph separator, the narrow no-break space, the medium mathematical
/// space and the ideographic space.
pub open spec fn white_space(c: char) -> bool {
    let n = c as u32;
    ||| 0x0009 <= n <= 0x000D
    ||| n == 0x0020
    ||| n == 0x0085
    ||| n == 0x00A0
    ||| n == 0x1680
    ||| 0x2000 <= n <= 0x200A
    ||| n == 0x2028
    ||| n == 0x2029
    ||| n == 0x202F
    ||| n == 0x205F
    ||| n == 0x3000
}

/// Calls `char::is_whitespace`, which tells whether a character has the
/// Unicode property `White_Space`.
#[verifier::external_body]
fn is_space(c: char) -> (r: bool)
    ensures
        r == white_space(c),
{
    c.is_whitespace()
}

/// Whether the range from `a` to `b` is what is left of `s` once the white
/// space at both ends is taken away.
pub open spec fn is_trim(s: Seq<char>, a: int, b: int) -> bool {
    &&& 0 <= a <= b <= s.len()
    &&& forall|j: int| 0 <= j < a ==> white_space(#[trigger] s[j])
    &&& forall|j: int| b <= j < s.len() ==> white_space(#[trigger] s[j])
    &&& a < b ==> !white_space(s[a]) && !white_space(s[b - 1])
}

/// A text without the white space at its ends.
pub open spec fn trimmed(s: Seq<char>) -> Seq<char> {
    let (a, b) = choose|a: int, b: int| is_trim(s, a, b);
    s.subrange(a, b)
}

/// Every range that trims a text holds the same characters.
pub proof fn lemma_trimmed(s: Seq<char>, a: int, b: int)
    requires
        is_trim(s, a, b),
    ensures
        trimmed(s) == s.subrange(a, b),
{
    let (x, y) = choose|x: int, y: int| is_trim(s, x, y);
    assert(is_trim(s, x, y));
    if a < b {
        if x == y {
            if a < x {
                assert(white_space(s[a]));
            } else {
                assert(white_space(s[a]));
            }
        } else {
            if x < a {
                assert(white_space(s[x]));
            }
            if a < x {
                assert(white_space(s[a]));
            }
            if y < b {
                assert(white_space(s[b - 1]));
            }
            if b < y {
                assert(white_space(s[y - 1]));
            }
        }
    } else {
        if x < y {
            if x < a {
                assert(white_space(s[x]));
            } else {
                assert(white_space(s[x]));
            }
        }
        assert(s.subrange(x, y) =~= s.subrange(a, b));
    }
}

/// Takes the white space at both ends of a text away.
pub fn trim_text(s: &str) -> (r: String)
    ensures
        r@ == trimmed(s@),
{
    let v = chars_of(s);
    let mut a: usize = 0;
    while a < v.len() && is_space(v[a])
        invariant
            a <= v.len(),
            forall|j: int| 0 <= j < a ==> white_space(#[trigger] v@[j]),
        decreases v.len() - a,
    {
        a += 1;
    }
    let mut b: usize = v.len();
    while b > a && is_space(v[b - 1])
        invariant
            a <= b <= v.len(),
            forall|j: int| b <= j < v.len() ==> white_space(#[trigger] v@[j]),
        decreases b,
    {
        b -= 1;
    }
    proof {
        lemma_trimmed(s@, a as int, b as int);
    }
    cut(s, a, b)
}

/// The character that writes a digit.
pub open spec fn digit(d: nat) -> char {
    if d == 0 {
        '0'
    } else if d == 1 {
        '1'
    } else if d == 2 {
        '2'
    } else if d == 3 {
        '3'
    } else if d == 4 {
        '4'
    } else if d == 5 {
        '5'
    } else if d == 6 {
        '6'
    } else if d == 7 {
        '7'
    } else if d == 8 {
        '8'
    } else {
        '9'
    }
}

/// A number written in decimal, without leading zeros.
pub open spec fn decimal(n: nat) -> Seq<char>
    decreases n,
{
    if n < 10 {
        seq![digit(n)]
    } else {
        decimal(n / 10).push(digit(n % 10))
    }
}

fn digit_text(d: u64) -> (r: &'static str)
    requires
        d < 10,
    ensures
        r@ == seq![digit(d as nat)],
{
    proof {
        reveal_strlit("0");
        reveal_strlit("1");
        reveal_strlit("2");
        reveal_strlit("3");
        reveal_strlit("4");
        reveal_strlit("5");
        reveal_strlit("6");
        reveal_strlit("7");
        reveal_strlit("8");
        reveal_strlit("9");
    }
    let r = if d == 0 {
        "0"
    } else if d == 1 {
        "1"
    } else if d == 2 {
        "2"
    } else if d == 3 {
        "3"
    } else if d == 4 {
        "4"
    } else if d == 5 {
        "5"
    } else if d == 6 {
        "6"
    } else if d == 7 {
        "7"
    } else if d == 8 {
        "8"
    } else {
        "9"
    };
    assert(r@ =~= seq![digit(d as nat)]);
    r
}

/// Writes a number in decimal.
pub fn decimal_of(n: u64) -> (r: String)
    ensures
        r@ == decimal(n as nat),
    decreases n,
{
    if n < 10 {
        digit_text(n).to_owned()
    } else {
        let r = decimal_of(n / 10).concat(digit_text(n % 10));
        assert(r@ =~= decimal((n / 10) as nat).push(digit((n % 10) as nat)));
        r
    }
}

/// The characters of a string slice, in order.
pub fn chars_of(s: &str) -> (r: Vec<char>)
    ensures
        r@ == s@,
{
    let mut out: Vec<char> = Vec::new();
    for c in it: s.chars()
        invariant
            out@ == it.seq().take(it.index() as int),
            it.seq() == s@,
    {
        out.push(c);
    }
    out
}

/// Whether two string slices hold the same text.
pub fn same_text(a: &str, b: &str) -> (r: bool)
    ensures
        r == (a@ == b@),
{
    a.to_owned() == b.to_owned()
}

/// Finds the first `c` among the characters.
pub fn find_first(v: &Vec<char>, c: char) -> (i: usize)
    ensures
        i == first_at(v@, c),
        is_first_at(v@, c, i as int),
{
    let mut i: usize = 0;
    while i < v.len() && v[i] != c
        invariant
            i <= v.len(),
            forall|j: int| 0 <= j < i ==> v@[j] != c,
        decreases v.len() - i,
    {
        i += 1;
    }
    proof {
        lemma_first_at(v@, c, i as int);
    }
    i
}

/// Finds the position just past the last `c` among the characters.
pub fn find_past_last(v: &Vec<char>, c: char) -> (i: usize)
    ensures
        i == past_last(v@, c),
        is_past_last(v@, c, i as int),
{
    let mut i: usize = v.len();
    while i > 0 && v[i - 1] != c
        invariant
            i <= v.len(),
            forall|j: int| i <= j < v.len() ==> v@[j] != c,
        decreases i,
    {
        i -= 1;
    }
    proof {
        lemma_past_last(v@, c, i as int);
    }
    i
}

/// The part of a string between two character positions, as a new string.
pub(crate) fn cut(s: &str, from: usize, to: usize) -> (r: String)
    requires
        from <= to <= s@.len(),
    ensures
        r@ == s@.subrange(from as int, to as int),
{
    s.substring_char(from, to).to_owned()
}

} // verus!
