//! Character-level string utilities shared by policy parsing and rendering.

use vstd::prelude::*;
use vstd::string::*;

verus! {

/// A character that trimming strips from either end of an entry.
pub open spec fn is_space(c: char) -> bool {
    c == ' ' || c == '\t' || c == '\n' || c == '\r'
}

/// The sequence with leading and trailing whitespace removed.
pub open spec fn trim_of(s: Seq<char>) -> Seq<char>
    decreases s.len(),
{
    if s.len() == 0 {
        s
    } else if is_space(s[0]) {
        trim_of(s.subrange(1, s.len() as int))
    } else if is_space(s[s.len() - 1]) {
        trim_of(s.subrange(0, s.len() - 1))
    } else {
        s
    }
}

/// Trimming is a projection: trimming a trimmed sequence changes nothing.
pub proof fn lemma_trim_of_fixed(s: Seq<char>)
    ensures
        trim_of(trim_of(s)) == trim_of(s),
    decreases s.len(),
{
    if s.len() == 0 {
    } else if is_space(s[0]) {
        lemma_trim_of_fixed(s.subrange(1, s.len() as int));
    } else if is_space(s[s.len() - 1]) {
        lemma_trim_of_fixed(s.subrange(0, s.len() - 1));
    }
}

/// The digit character for one decimal digit.
pub open spec fn digit_char(d: nat) -> char {
    if d == 0 {
        '0'
    } else if d == 1 {
        '1'
    } else if d == 2 {
        '2'
    } else if d == 3 {
        '3'
    } else if d == 4 {
        '4'
    } else if d == 5 {
        '5'
    } else if d == 6 {
        '6'
    } else if d == 7 {
        '7'
    } else if d == 8 {
        '8'
    } else {
        '9'
    }
}

/// The decimal rendering of a number, most significant digit first.
pub open spec fn dec_str_of(n: nat) -> Seq<char>
    decreases n,
{
    if n < 10 {
        seq![digit_char(n)]
    } else {
        dec_str_of(n / 10).push(digit_char(n % 10))
    }
}

/// Renders a number in decimal.
pub fn dec_render(n: u16) -> (r: String)
    ensures
        r@ == dec_str_of(n as nat),
    decreases n,
{
    let d = n % 10;
    let digit: &str = if d == 0 {
        "0"
    } else if d == 1 {
        "1"
    } else if d == 2 {
        "2"
    } else if d == 3 {
        "3"
    } else if d == 4 {
        "4"
    } else if d == 5 {
        "5"
    } else if d == 6 {
        "6"
    } else if d == 7 {
        "7"
    } else if d == 8 {
        "8"
    } else {
        "9"
    };
    proof {
        reveal_strlit("0");
        reveal_strlit("1");
        reveal_strlit("2");
        reveal_strlit("3");
        reveal_strlit("4");
        reveal_strlit("5");
        reveal_strlit("6");
        reveal_strlit("7");
        reveal_strlit("8");
        reveal_strlit("9");
        assert(digit@ =~= seq![digit_char((n % 10) as nat)]);
    }
    if n < 10 {
        digit.to_owned()
    } else {
        let r = dec_render(n / 10).concat(digit);
        proof {
            assert(dec_str_of((n / 10) as nat) + digit@ =~= dec_str_of(n as nat));
        }
        r
    }
}

fn is_space_char(c: char) -> (r: bool)
    ensures
        r == is_space(c),
{
    c == ' ' || c == '\t' || c == '\n' || c == '\r'
}

/// Removes leading and trailing whitespace from a string.
pub fn trim(s: &str) -> (r: String)
    ensures
        r@ == trim_of(s@),
{
    let n = s.unicode_len();
    proof {
        assert(s@.subrange(0, n as int) =~= s@);
    }
    let mut i: usize = 0;
    while i < n && is_space_char(s.get_char(i))
        invariant
            i <= n,
            n == s@.len(),
            trim_of(s@) == trim_of(s@.subrange(i as int, n as int)),
        decreases n - i,
    {
        proof {
            let cur = s@.subrange(i as int, n as int);
            assert(cur.subrange(1, cur.len() as int) =~= s@.subrange(i + 1, n as int));
        }
        i = i + 1;
    }
    if i == n {
        proof {
            assert(s@.subrange(n as int, n as int) =~= Seq::<char>::empty());
        }
        String::new()
    } else {
        let mut j: usize = n;
        while i < j - 1 && is_space_char(s.get_char(j - 1))
            invariant
                i < j <= n,
                n == s@.len(),
                !is_space(s@[i as int]),
                trim_of(s@) == trim_of(s@.subrange(i as int, j as int)),
            decreases j,
        {
            proof {
                let cur = s@.subrange(i as int, j as int);
                assert(cur.subrange(0, cur.len() - 1) =~= s@.subrange(i as int, j - 1));
            }
            j = j - 1;
        }
        let r = s.substring_char(i, j).to_owned();
        proof {
            let cur = s@.subrange(i as int, j as int);
            assert(cur[0] == s@[i as int]);
            assert(cur[cur.len() - 1] == s@[j - 1]);
        }
        r
    }
}

} // verus!
