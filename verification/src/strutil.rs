//! Small verified string helpers: decimal rendering of integers, splitting a
//! path on `/`, and building runs of spaces.

use vstd::prelude::*;
use vstd::string::*;

verus! {

/// The character for one decimal digit.
pub open spec fn dec_digit(d: int) -> char {
    if d == 0 {
        '0'
    } else if d == 1 {
        '1'
    } else if d == 2 {
        '2'
    } else if d == 3 {
        '3'
    } else if d == 4 {
        '4'
    } else if d == 5 {
        '5'
    } else if d == 6 {
        '6'
    } else if d == 7 {
        '7'
    } else if d == 8 {
        '8'
    } else {
        '9'
    }
}

/// The decimal rendering of a non-negative integer, most significant digit
/// first, with no leading zeros (except for the number zero itself).
pub open spec fn dec_str(n: int) -> Seq<char>
    decreases n,
{
    if n < 0 {
        Seq::empty()
    } else if n < 10 {
        seq![dec_digit(n)]
    } else {
        dec_str(n / 10).push(dec_digit(n % 10))
    }
}

fn digit_literal(d: u64) -> (s: &'static str)
    requires
        d < 10,
    ensures
        s@ == seq![dec_digit(d as int)],
{
    let s: &'static str = if d == 0 {
        "0"
    } else if d == 1 {
        "1"
    } else if d == 2 {
        "2"
    } else if d == 3 {
        "3"
    } else if d == 4 {
        "4"
    } else if d == 5 {
        "5"
    } else if d == 6 {
        "6"
    } else if d == 7 {
        "7"
    } else if d == 8 {
        "8"
    } else {
        "9"
    };
    proof {
        reveal_strlit("0");
        reveal_strlit("1");
        reveal_strlit("2");
        reveal_strlit("3");
        reveal_strlit("4");
        reveal_strlit("5");
        reveal_strlit("6");
        reveal_strlit("7");
        reveal_strlit("8");
        reveal_strlit("9");
        assert(s@ =~= seq![dec_digit(d as int)]);
    }
    s
}

/// Renders `n` in decimal.
pub fn u64_to_string(n: u64) -> (s: String)
    ensures
        s@ == dec_str(n as int),
    decreases n,
{
    if n < 10 {
        String::from_str(digit_literal(n))
    } else {
        let mut s = u64_to_string(n / 10);
        s.append(digit_literal(n % 10));
        proof {
            assert(s@ =~= dec_str(n as int));
        }
        s
    }
}

/// Splitting a character sequence at every `/`, in the manner of Rust's
/// `str::split('/')`: the result always has at least one component, and a
/// separator at either end or two adjacent separators yield empty components.
pub open spec fn split_slash_spec(s: Seq<char>) -> Seq<Seq<char>>
    decreases s.len(),
{
    if s.len() == 0 {
        seq![Seq::<char>::empty()]
    } else {
        let prefix = split_slash_spec(s.drop_last());
        if s.last() == '/' {
            prefix.push(Seq::<char>::empty())
        } else {
            prefix.update(prefix.len() - 1, prefix.last().push(s.last()))
        }
    }
}

pub proof fn lemma_split_slash_len(s: Seq<char>)
    ensures
        split_slash_spec(s).len() >= 1,
    decreases s.len(),
{
    if s.len() != 0 {
        lemma_split_slash_len(s.drop_last());
    }
}

/// The views of a sequence of `String`s.
pub open spec fn strings_view(v: Seq<String>) -> Seq<Seq<char>> {
    v.map_values(|p: String| p@)
}

/// Splits `s` at every `/`.
pub fn split_slash(s: &str) -> (parts: Vec<String>)
    ensures
        strings_view(parts@) == split_slash_spec(s@),
{
    let n = s.unicode_len();
    let mut parts: Vec<String> = Vec::new();
    let mut start: usize = 0;
    let mut i: usize = 0;
    proof {
        assert(s@.take(0) =~= Seq::<char>::empty());
        assert(s@.subrange(0, 0) =~= Seq::<char>::empty());
        assert(strings_view(parts@) + seq![s@.subrange(0, 0)] =~~= split_slash_spec(s@.take(0)));
    }
    while i < n
        invariant
            start <= i <= n,
            n == s@.len(),
            strings_view(parts@) + seq![s@.subrange(start as int, i as int)] == split_slash_spec(
                s@.take(i as int),
            ),
        decreases n - i,
    {
        proof {
            assert(s@.take(i + 1).drop_last() =~= s@.take(i as int));
            lemma_split_slash_len(s@.take(i as int));
        }
        let c = s.get_char(i);
        if c == '/' {
            let piece = s.substring_char(start, i).to_owned();
            parts.push(piece);
            start = i + 1;
            proof {
                assert(s@.subrange(start as int, i + 1) =~= Seq::<char>::empty());
                assert(strings_view(parts@) + seq![s@.subrange(start as int, i + 1)]
                    =~~= split_slash_spec(s@.take(i + 1)));
            }
        } else {
            proof {
                let prev = split_slash_spec(s@.take(i as int));
                assert(prev.last() == s@.subrange(start as int, i as int));
                assert(s@.subrange(start as int, i + 1) =~= s@.subrange(start as int, i as int).push(
                    s@[i as int],
                ));
                assert(strings_view(parts@) + seq![s@.subrange(start as int, i + 1)]
                    =~~= split_slash_spec(s@.take(i + 1)));
            }
        }
        i = i + 1;
    }
    let last = s.substring_char(start, n).to_owned();
    parts.push(last);
    proof {
        assert(s@.take(n as int) =~= s@);
        assert(strings_view(parts@) =~~= split_slash_spec(s@));
    }
    parts
}

/// Compares two strings character by character.
pub fn str_eq(a: &str, b: &str) -> (r: bool)
    ensures
        r == (a@ == b@),
{
    let n = a.unicode_len();
    if n != b.unicode_len() {
        return false;
    }
    let mut i: usize = 0;
    while i < n
        invariant
            i <= n,
            n == a@.len() == b@.len(),
            forall|j: int| 0 <= j < i ==> a@[j] == b@[j],
        decreases n - i,
    {
        if a.get_char(i) != b.get_char(i) {
            return false;
        }
        i = i + 1;
    }
    proof {
        assert(a@ =~= b@);
    }
    true
}

/// A run of `n` spaces.
pub open spec fn spaces_spec(n: int) -> Seq<char>
    decreases n,
{
    if n <= 0 {
        Seq::empty()
    } else {
        spaces_spec(n - 1).push(' ')
    }
}

/// Builds a string of `n` spaces.
pub fn spaces(n: usize) -> (s: String)
    ensures
        s@ == spaces_spec(n as int),
{
    let mut s = String::new();
    let mut i: usize = 0;
    proof {
        assert(s@ =~= spaces_spec(0));
    }
    while i < n
        invariant
            i <= n,
            s@ == spaces_spec(i as int),
        decreases n - i,
    {
        s.append(" ");
        proof {
            reveal_strlit(" ");
            assert(s@ =~= spaces_spec(i + 1));
        }
        i = i + 1;
    }
    s
}

} // verus!
