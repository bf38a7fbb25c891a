//! Text helpers: the whitespace-separated last word of a string (where a key
//! hides in a list description), prefix tests, and decimal rendering.

use vstd::prelude::*;
use vstd::string::StrSliceExecFns;
use vstd::string::StringExecFns;

verus! {

/// The Unicode white-space code points, as `str::split_whitespace` sees
/// them.
pub open spec fn is_space(c: char) -> bool {
    ||| c == '\u{9}'
    ||| c == '\u{a}'
    ||| c == '\u{b}'
    ||| c == '\u{c}'
    ||| c == '\u{d}'
    ||| c == ' '
    ||| c == '\u{85}'
    ||| c == '\u{a0}'
    ||| c == '\u{1680}'
    ||| c == '\u{2000}'
    ||| c == '\u{2001}'
    ||| c == '\u{2002}'
    ||| c == '\u{2003}'
    ||| c == '\u{2004}'
    ||| c == '\u{2005}'
    ||| c == '\u{2006}'
    ||| c == '\u{2007}'
    ||| c == '\u{2008}'
    ||| c == '\u{2009}'
    ||| c == '\u{200a}'
    ||| c == '\u{2028}'
    ||| c == '\u{2029}'
    ||| c == '\u{202f}'
    ||| c == '\u{205f}'
    ||| c == '\u{3000}'
}

/// Decide `is_space` for one character.
pub fn is_space_char(c: char) -> (r: bool)
    ensures
        r == is_space(c),
{
    c == '\u{9}' || c == '\u{a}' || c == '\u{b}' || c == '\u{c}' || c == '\u{d}' || c == ' '
        || c == '\u{85}' || c == '\u{a0}' || c == '\u{1680}' || c == '\u{2000}' || c == '\u{2001}'
        || c == '\u{2002}' || c == '\u{2003}' || c == '\u{2004}' || c == '\u{2005}'
        || c == '\u{2006}' || c == '\u{2007}' || c == '\u{2008}' || c == '\u{2009}'
        || c == '\u{200a}' || c == '\u{2028}' || c == '\u{2029}' || c == '\u{202f}'
        || c == '\u{205f}' || c == '\u{3000}'
}

/// The maximal run of non-space characters at the end of `s` (empty when
/// `s` ends in a space).
pub open spec fn word_suffix(s: Seq<char>) -> Seq<char>
    decreases s.len(),
{
    if s.len() == 0 || is_space(s.last()) {
        Seq::empty()
    } else {
        word_suffix(s.drop_last()).push(s.last())
    }
}

/// The last whitespace-separated word of `s`, as
/// `s.split_whitespace().last()` yields it: `None` when `s` holds only
/// white space.
pub open spec fn last_word(s: Seq<char>) -> Option<Seq<char>>
    decreases s.len(),
{
    if s.len() == 0 {
        None
    } else if is_space(s.last()) {
        last_word(s.drop_last())
    } else {
        Some(word_suffix(s))
    }
}

/// When everything from `b` on is non-space and a space (or the string's
/// start) sits just before `b`, the word suffix is exactly `s[b..]`.
proof fn lemma_word_suffix_from(s: Seq<char>, b: int)
    requires
        0 <= b <= s.len(),
        forall|j: int| b <= j < s.len() ==> !is_space(s[j]),
        b == 0 || is_space(s[b - 1]),
    ensures
        word_suffix(s) == s.subrange(b, s.len() as int),
    decreases s.len(),
{
    if s.len() == 0 {
        assert(s.subrange(0, 0) =~= Seq::<char>::empty());
    } else if b == s.len() {
        assert(is_space(s.last()));
        assert(s.subrange(b, s.len() as int) =~= Seq::<char>::empty());
    } else {
        assert(!is_space(s.last()));
        let s0 = s.drop_last();
        assert(forall|j: int| 0 <= j < s0.len() ==> s0[j] == s[j]);
        lemma_word_suffix_from(s0, if b <= s0.len() { b } else { s0.len() as int });
        assert(word_suffix(s) =~= s.subrange(b, s.len() as int));
    }
}

/// Trailing white space does not change the last word.
proof fn lemma_last_word_trailing(s: Seq<char>, e: int)
    requires
        0 <= e <= s.len(),
        forall|j: int| e <= j < s.len() ==> is_space(s[j]),
    ensures
        last_word(s) == last_word(s.subrange(0, e)),
    decreases s.len() - e,
{
    if e == s.len() {
        assert(s.subrange(0, e) =~= s);
    } else {
        assert(is_space(s.last()));
        let s0 = s.drop_last();
        assert(forall|j: int| 0 <= j < s0.len() ==> s0[j] == s[j]);
        lemma_last_word_trailing(s0, e);
        assert(s0.subrange(0, e) =~= s.subrange(0, e));
    }
}

/// Appending a non-empty word made of non-space characters to a string that
/// ends in a space makes that word the last word.
pub proof fn lemma_last_word_append(a: Seq<char>, w: Seq<char>)
    requires
        a.len() > 0,
        is_space(a.last()),
        w.len() > 0,
        forall|j: int| 0 <= j < w.len() ==> !is_space(w[j]),
    ensures
        last_word(a + w) == Some(w),
{
    let s = a + w;
    assert(s[a.len() as int - 1] == a.last());
    assert(forall|j: int| a.len() <= j < s.len() ==> s[j] == w[j - a.len()]);
    lemma_word_suffix_from(s, a.len() as int);
    assert(s.subrange(a.len() as int, s.len() as int) =~= w);
    assert(s.last() == w.last());
    assert(!is_space(s.last()));
}

/// The last whitespace-separated word of `s`, or nothing when `s` holds
/// only white space.
pub fn last_word_of(s: &String) -> (r: Option<String>)
    ensures
        match r {
            Some(w) => last_word(s@) == Some(w@),
            None => last_word(s@) is None,
        },
{
    let n = s.as_str().unicode_len();
    let mut e: usize = n;
    while e > 0
        invariant
            e <= n,
            n == s@.len(),
            forall|j: int| e <= j < n ==> is_space(s@[j]),
        ensures
            e <= n,
            n == s@.len(),
            forall|j: int| e <= j < n ==> is_space(s@[j]),
            e > 0 ==> !is_space(s@[e - 1]),
        decreases e,
    {
        if !is_space_char(s.as_str().get_char(e - 1)) {
            break;
        }
        e -= 1;
    }
    if e == 0 {
        proof {
            lemma_last_word_trailing(s@, 0);
            assert(s@.subrange(0, 0) =~= Seq::<char>::empty());
        }
        return None;
    }
    let mut b: usize = e;
    while b > 0
        invariant
            b <= e,
            e <= n,
            n == s@.len(),
            forall|j: int| b <= j < e ==> !is_space(s@[j]),
        ensures
            b <= e,
            e <= n,
            n == s@.len(),
            forall|j: int| b <= j < e ==> !is_space(s@[j]),
            b > 0 ==> is_space(s@[b - 1]),
        decreases b,
    {
        if is_space_char(s.as_str().get_char(b - 1)) {
            break;
        }
        b -= 1;
    }
    let w = s.as_str().substring_char(b, e).to_owned();
    proof {
        let t = s@.subrange(0, e as int);
        lemma_last_word_trailing(s@, e as int);
        assert(t.last() == s@[e - 1]);
        assert(!is_space(t.last()));
        assert(forall|j: int| 0 <= j < t.len() ==> t[j] == s@[j]);
        lemma_word_suffix_from(t, b as int);
        assert(t.subrange(b as int, t.len() as int) =~= s@.subrange(b as int, e as int));
    }
    Some(w)
}

/// Whether `p` is a prefix of `s`.
pub open spec fn starts_with(s: Seq<char>, p: Seq<char>) -> bool {
    p.len() <= s.len() && s.subrange(0, p.len() as int) == p
}

/// Decide whether `s` starts with `p`.
pub fn str_starts_with(s: &str, p: &str) -> (r: bool)
    ensures
        r == starts_with(s@, p@),
{
    let sn = s.unicode_len();
    let pn = p.unicode_len();
    if pn > sn {
        return false;
    }
    let mut i: usize = 0;
    while i < pn
        invariant
            i <= pn,
            pn <= sn,
            pn == p@.len(),
            sn == s@.len(),
            forall|j: int| 0 <= j < i ==> s@[j] == p@[j],
        decreases pn - i,
    {
        if s.get_char(i) != p.get_char(i) {
            proof {
                assert(!starts_with(s@, p@)) by {
                    if starts_with(s@, p@) {
                        assert(s@.subrange(0, p@.len() as int)[i as int] == p@[i as int]);
                    }
                }
            }
            return false;
        }
        i += 1;
    }
    proof {
        assert(s@.subrange(0, p@.len() as int) =~= p@);
    }
    true
}

/// The character for one decimal digit.
pub open spec fn digit_char(d: int) -> char {
    if d == 0 {
        '0'
    } else if d == 1 {
        '1'
    } else if d == 2 {
        '2'
    } else if d == 3 {
        '3'
    } else if d == 4 {
        '4'
    } else if d == 5 {
        '5'
    } else if d == 6 {
        '6'
    } else if d == 7 {
        '7'
    } else if d == 8 {
        '8'
    } else {
        '9'
    }
}

/// The decimal rendering of a non-negative number, most significant digit
/// first and without leading zeroes.
pub open spec fn dec_str(n: int) -> Seq<char>
    decreases n,
{
    if n < 0 {
        Seq::empty()
    } else if n < 10 {
        seq![digit_char(n)]
    } else {
        dec_str(n / 10).push(digit_char(n % 10))
    }
}

fn digit_str(d: u8) -> (r: &'static str)
    requires
        d < 10,
    ensures
        r@ == seq![digit_char(d as int)],
{
    if d == 0 {
        proof {
            reveal_strlit("0");
            assert(("0")@ =~= seq![digit_char(0int)]);
        }
        "0"
    } else if d == 1 {
        proof {
            reveal_strlit("1");
            assert(("1")@ =~= seq![digit_char(1int)]);
        }
        "1"
    } else if d == 2 {
        proof {
            reveal_strlit("2");
            assert(("2")@ =~= seq![digit_char(2int)]);
        }
        "2"
    } else if d == 3 {
        proof {
            reveal_strlit("3");
            assert(("3")@ =~= seq![digit_char(3int)]);
        }
        "3"
    } else if d == 4 {
        proof {
            reveal_strlit("4");
            assert(("4")@ =~= seq![digit_char(4int)]);
        }
        "4"
    } else if d == 5 {
        proof {
            reveal_strlit("5");
            assert(("5")@ =~= seq![digit_char(5int)]);
        }
        "5"
    } else if d == 6 {
        proof {
            reveal_strlit("6");
            assert(("6")@ =~= seq![digit_char(6int)]);
        }
        "6"
    } else if d == 7 {
        proof {
            reveal_strlit("7");
            assert(("7")@ =~= seq![digit_char(7int)]);
        }
        "7"
    } else if d == 8 {
        proof {
            reveal_strlit("8");
            assert(("8")@ =~= seq![digit_char(8int)]);
        }
        "8"
    } else {
        proof {
            reveal_strlit("9");
            assert(("9")@ =~= seq![digit_char(9int)]);
        }
        "9"
    }
}

/// Render a byte in decimal.
pub fn u8_to_dec(n: u8) -> (r: String)
    ensures
        r@ == dec_str(n as int),
{
    let mut s = String::new();
    if n >= 100 {
        s.append(digit_str(n / 100));
    }
    if n >= 10 {
        s.append(digit_str((n / 10) % 10));
    }
    s.append(digit_str(n % 10));
    proof {
        let m = n as int;
        if m < 10 {
            assert(s@ =~= dec_str(m));
        } else if m < 100 {
            assert(m / 10 < 10);
            assert((m / 10) % 10 == m / 10);
            assert(dec_str(m) == dec_str(m / 10).push(digit_char(m % 10)));
            assert(s@ =~= dec_str(m));
        } else {
            assert(m / 100 < 10);
            assert((m / 10) / 10 == m / 100) by (nonlinear_arith);
            assert((m / 10) >= 10);
            assert(dec_str(m / 10) == dec_str(m / 100).push(digit_char((m / 10) % 10)));
            assert(s@ =~= dec_str(m));
        }
    }
    s
}

} // verus!
