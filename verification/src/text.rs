//! Small text-building blocks the renderer is made of: decimal
//! rendering of line numbers, character repetition, and splitting
//! source text into lines.

use vstd::prelude::*;
use vstd::string::StrSliceExecFns;
use vstd::string::StringExecFns;

verus! {

/// Relies on String::push: appends the given character to the end of
/// the string.
pub assume_specification[ String::push ](s: &mut String, ch: char)
    ensures
        final(s)@ == old(s)@.push(ch),
;

/// The decimal digit character for `d`.
pub open spec fn digit_char(d: nat) -> char {
    if d == 0 {
        '0'
    } else if d == 1 {
        '1'
    } else if d == 2 {
        '2'
    } else if d == 3 {
        '3'
    } else if d == 4 {
        '4'
    } else if d == 5 {
        '5'
    } else if d == 6 {
        '6'
    } else if d == 7 {
        '7'
    } else if d == 8 {
        '8'
    } else {
        '9'
    }
}

/// The decimal rendering of `n`, most significant digit first, no
/// leading zeros (except for `n == 0` itself).
pub open spec fn dec_str(n: nat) -> Seq<char>
    decreases n,
{
    if n < 10 {
        seq![digit_char(n)]
    } else {
        dec_str(n / 10).push(digit_char(n % 10))
    }
}

/// `n` copies of the character `c`.
pub open spec fn repeat_char(c: char, n: nat) -> Seq<char> {
    Seq::new(n, |i: int| c)
}

fn digit_string(d: u64) -> (r: &'static str)
    requires
        d < 10,
    ensures
        r@ == seq![digit_char(d as nat)],
{
    let r: &'static str = if d == 0 {
        "0"
    } else if d == 1 {
        "1"
    } else if d == 2 {
        "2"
    } else if d == 3 {
        "3"
    } else if d == 4 {
        "4"
    } else if d == 5 {
        "5"
    } else if d == 6 {
        "6"
    } else if d == 7 {
        "7"
    } else if d == 8 {
        "8"
    } else {
        "9"
    };
    proof {
        reveal_strlit("0");
        reveal_strlit("1");
        reveal_strlit("2");
        reveal_strlit("3");
        reveal_strlit("4");
        reveal_strlit("5");
        reveal_strlit("6");
        reveal_strlit("7");
        reveal_strlit("8");
        reveal_strlit("9");
        assert(r@ =~= seq![digit_char(d as nat)]);
    }
    r
}

/// Renders `n` in decimal.
pub fn dec_string(n: u64) -> (r: String)
    ensures
        r@ == dec_str(n as nat),
    decreases n,
{
    if n < 10 {
        String::from_str(digit_string(n))
    } else {
        let mut s = dec_string(n / 10);
        s.append(digit_string(n % 10));
        proof {
            assert(s@ =~= dec_str(n as nat));
        }
        s
    }
}

/// Appends `n` copies of `c` to `s`.
pub fn push_repeat(s: &mut String, c: char, n: u64)
    ensures
        final(s)@ == old(s)@ + repeat_char(c, n as nat),
{
    let mut i: u64 = 0;
    while i < n
        invariant
            0 <= i <= n,
            s@ == old(s)@ + repeat_char(c, i as nat),
        decreases n - i,
    {
        s.push(c);
        proof {
            assert(old(s)@ + repeat_char(c, (i + 1) as nat) =~= (old(s)@ + repeat_char(
                c,
                i as nat,
            )).push(c));
        }
        i = i + 1;
    }
    proof {
        assert(old(s)@ + repeat_char(c, 0) =~= old(s)@);
    }
}

/// The lines of `s`, split at each `'\n'`; the separators are not part
/// of any line, a trailing separator yields a final empty line, and
/// empty input yields one empty line. A `'\r'` before the separator
/// stays part of its line's content.
pub open spec fn split_lines_spec(s: Seq<char>) -> Seq<Seq<char>>
    decreases s.len(),
{
    if s.len() == 0 {
        seq![Seq::<char>::empty()]
    } else if s[0] == '\n' {
        seq![Seq::<char>::empty()] + split_lines_spec(s.drop_first())
    } else {
        let rest = split_lines_spec(s.drop_first());
        seq![seq![s[0]] + rest[0]] + rest.drop_first()
    }
}

pub proof fn lemma_split_lines_nonempty(s: Seq<char>)
    ensures
        split_lines_spec(s).len() >= 1,
    decreases s.len(),
{
    if s.len() != 0 {
        lemma_split_lines_nonempty(s.drop_first());
    }
}

/// Prefixing the first of the lines `ss` with `p`.
pub open spec fn prepend_first(p: Seq<char>, ss: Seq<Seq<char>>) -> Seq<Seq<char>> {
    seq![p + ss[0]] + ss.drop_first()
}

/// Splits source text into lines at each `'\n'`, as
/// `split_lines_spec` describes.
#[verifier::loop_isolation(false)]
pub fn split_lines(source: &str) -> (r: Vec<String>)
    ensures
        r@.map_values(|l: String| l@) == split_lines_spec(source@),
{
    let n = source.unicode_len();
    let mut done: Vec<String> = Vec::new();
    let mut cur = String::new();
    proof {
        lemma_split_lines_nonempty(source@);
        assert(source@.skip(0) =~= source@);
        assert(prepend_first(cur@, split_lines_spec(source@)) =~~= split_lines_spec(source@));
        assert(done@.map_values(|l: String| l@) =~= Seq::<Seq<char>>::empty());
    }
    let mut i: usize = 0;
    while i < n
        invariant
            0 <= i <= source@.len(),
            n == source@.len(),
            split_lines_spec(source@) == done@.map_values(|l: String| l@) + prepend_first(
                cur@,
                split_lines_spec(source@.skip(i as int)),
            ),
        decreases n - i,
    {
        let ghost rem = source@.skip(i as int);
        let ghost rem2 = source@.skip(i + 1);
        proof {
            assert(rem[0] == source@[i as int]);
            assert(rem.drop_first() =~= rem2);
            lemma_split_lines_nonempty(rem2);
        }
        let c = source.get_char(i);
        if c == '\n' {
            done.push(cur);
            cur = String::new();
            proof {
                assert(split_lines_spec(rem) == seq![Seq::<char>::empty()] + split_lines_spec(
                    rem2,
                ));
                assert(done@.map_values(|l: String| l@) + prepend_first(
                    cur@,
                    split_lines_spec(rem2),
                ) =~~= done@.drop_last().map_values(|l: String| l@) + prepend_first(
                    done@.last()@,
                    split_lines_spec(rem),
                ));
            }
        } else {
            let ghost cur_old = cur@;
            cur.push(c);
            proof {
                let rest = split_lines_spec(rem2);
                assert(split_lines_spec(rem) == seq![seq![rem[0]] + rest[0]]
                    + rest.drop_first());
                assert(split_lines_spec(rem).drop_first() =~= rest.drop_first());
                assert(cur_old + (seq![rem[0]] + rest[0]) =~= cur@ + rest[0]);
                assert(prepend_first(cur_old, split_lines_spec(rem)) =~~= prepend_first(
                    cur@,
                    rest,
                ));
            }
        }
        i = i + 1;
    }
    proof {
        assert(source@.skip(n as int) =~= Seq::<char>::empty());
        assert(split_lines_spec(source@.skip(n as int)) == seq![Seq::<char>::empty()]);
        assert(prepend_first(cur@, seq![Seq::<char>::empty()]) =~~= seq![cur@]);
    }
    done.push(cur);
    proof {
        assert(done@.map_values(|l: String| l@) =~~= split_lines_spec(source@));
    }
    done
}

} // verus!
