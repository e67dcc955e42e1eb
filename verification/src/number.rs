//! Numbers as they stand in progress reports.
use vstd::prelude::*;
use vstd::string::StringExecFns;

verus! {

/// The decimal digit for `d`.
pub open spec fn digit(d: nat) -> char {
    (48 + d) as char
}

/// `n` in decimal notation.
pub open spec fn decimal(n: nat) -> Seq<char>
    decreases n,
{
    if n < 10 {
        seq![digit(n)]
    } else {
        decimal(n / 10).push(digit(n % 10))
    }
}

/// `n` in decimal notation, with an underscore before each group of three digits
/// but the first.
pub open spec fn grouped(n: nat) -> Seq<char>
    decreases n,
{
    if n < 1000 {
        decimal(n)
    } else {
        grouped(n / 1000) + seq!['_', digit(n / 100 % 10), digit(n / 10 % 10), digit(n % 10)]
    }
}

fn digit_str(d: usize) -> (r: &'static str)
    requires
        d < 10,
    ensures
        r@ == seq![digit(d as nat)],
{
    proof {
        reveal_strlit("0");
        reveal_strlit("1");
        reveal_strlit("2");
        reveal_strlit("3");
        reveal_strlit("4");
        reveal_strlit("5");
        reveal_strlit("6");
        reveal_strlit("7");
        reveal_strlit("8");
        reveal_strlit("9");
    }
    let r = match d {
        0 => "0",
        1 => "1",
        2 => "2",
        3 => "3",
        4 => "4",
        5 => "5",
        6 => "6",
        7 => "7",
        8 => "8",
        _ => "9",
    };
    assert(r@ =~= seq![digit(d as nat)]);
    r
}

/// `n` in decimal notation, with its digits in groups of three.
pub fn fmt(n: usize) -> (r: String)
    ensures
        r@ == grouped(n as nat),
    decreases n,
{
    let mut r: String;
    if n >= 1000 {
        r = fmt(n / 1000);
        proof {
            reveal_strlit("_");
        }
        r.append("_");
        r.append(digit_str(n / 100 % 10));
        r.append(digit_str(n / 10 % 10));
        r.append(digit_str(n % 10));
    } else {
        r = String::new();
        if n >= 100 {
            r.append(digit_str(n / 100));
        }
        if n >= 10 {
            r.append(digit_str(n / 10 % 10));
        }
        r.append(digit_str(n % 10));
        proof {
            reveal_with_fuel(decimal, 3);
            assert(n / 10 / 10 == n / 100);
        }
    }
    r
}

/// The underscores stand before every third digit, counted from the end, and
/// nowhere else.
pub proof fn law_groups_of_three(n: nat, j: int)
    requires
        0 <= j < grouped(n).len(),
    ensures
        grouped(n)[grouped(n).len() - 1 - j] == '_' <==> j % 4 == 3,
        grouped(n)[0] != '_',
    decreases n,
{
    if n < 1000 {
        reveal_with_fuel(decimal, 3);
    } else {
        let front = grouped(n / 1000);
        if j >= 4 {
            law_groups_of_three(n / 1000, j - 4);
        } else {
            lemma_grouped_not_empty(n / 1000);
            law_groups_of_three(n / 1000, 0);
        }
    }
}

proof fn lemma_grouped_not_empty(n: nat)
    ensures
        grouped(n).len() > 0,
{
}

/// Without the underscores, a grouped number is the number in plain decimal
/// notation.
pub proof fn law_grouping_keeps_digits(n: nat)
    ensures
        grouped(n).filter(|c: char| c != '_') == decimal(n),
    decreases n,
{
    let keep = |c: char| c != '_';
    if n < 1000 {
        lemma_decimal_has_no_underscore(n);
        lemma_filter_all(decimal(n), keep);
    } else {
        let front = grouped(n / 1000);
        let tail = seq!['_', digit(n / 100 % 10), digit(n / 10 % 10), digit(n % 10)];
        law_grouping_keeps_digits(n / 1000);
        Seq::filter_distributes_over_add(front, tail, keep);
        let digits = seq![digit(n / 100 % 10), digit(n / 10 % 10), digit(n % 10)];
        assert(tail.filter(keep) =~= digits) by {
            assert(tail =~= seq!['_'] + digits);
            Seq::filter_distributes_over_add(seq!['_'], digits, keep);
            lemma_filter_all(digits, keep);
            reveal(Seq::filter);
            assert(seq!['_'].drop_last().filter(keep) =~= Seq::<char>::empty());
            assert(seq!['_'].filter(keep) =~= Seq::<char>::empty());
        }
        assert(decimal(n) =~= decimal(n / 1000) + digits) by {
            reveal_with_fuel(decimal, 4);
            assert(n / 10 / 10 == n / 100);
            assert(n / 10 / 10 / 10 == n / 1000);
        }
    }
}

proof fn lemma_decimal_has_no_underscore(n: nat)
    ensures
        forall|i: int| 0 <= i < decimal(n).len() ==> #[trigger] decimal(n)[i] != '_',
    decreases n,
{
    if n >= 10 {
        lemma_decimal_has_no_underscore(n / 10);
        assert forall|i: int| 0 <= i < decimal(n).len() implies #[trigger] decimal(n)[i] != '_' by {
            if i < decimal(n / 10).len() {
                assert(decimal(n)[i] == decimal(n / 10)[i]);
            }
        }
    }
}

proof fn lemma_filter_all(s: Seq<char>, keep: spec_fn(char) -> bool)
    requires
        forall|i: int| 0 <= i < s.len() ==> keep(#[trigger] s[i]),
    ensures
        s.filter(keep) == s,
    decreases s.len(),
{
    reveal(Seq::filter);
    if s.len() > 0 {
        lemma_filter_all(s.drop_last(), keep);
        assert(s =~= s.drop_last().push(s.last()));
    }
}

/// The number that decimal digits stand for.
pub open spec fn value(digits: Seq<char>) -> int
    decreases digits.len(),
{
    if digits.len() == 0 {
        0
    } else {
        10 * value(digits.drop_last()) + (digits.last() as int - '0' as int)
    }
}

/// The decimal notation of a number stands for the number, has only digits, and
/// does not begin with a zero unless the number is zero.
pub proof fn law_decimal_read_back(n: nat)
    ensures
        value(decimal(n)) == n,
        decimal(n).len() > 0,
        forall|i: int|
            0 <= i < decimal(n).len() ==> '0' as int <= #[trigger] decimal(n)[i] as int
                <= '9' as int,
        decimal(n)[0] == '0' ==> n == 0 && decimal(n).len() == 1,
    decreases n,
{
    let s = decimal(n);
    if n < 10 {
        assert(s.drop_last() =~= Seq::<char>::empty());
        assert(value(s.drop_last()) == 0);
    } else {
        law_decimal_read_back(n / 10);
        assert(s.drop_last() =~= decimal(n / 10));
        assert(s.last() == digit(n % 10));
        assert(s[0] == decimal(n / 10)[0]);
        assert forall|i: int| 0 <= i < s.len() implies '0' as int <= #[trigger] s[i] as int
            <= '9' as int by {
            if i < decimal(n / 10).len() {
                assert(s[i] == decimal(n / 10)[i]);
            }
        }
    }
}

/// A grouped number stands for the number: its digits without the underscores do.
pub proof fn law_grouped_read_back(n: nat)
    ensures
        value(grouped(n).filter(|c: char| c != '_')) == n,
{
    law_grouping_keeps_digits(n);
    law_decimal_read_back(n);
}

} // verus!
