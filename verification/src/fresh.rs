//! Names for intermediate positions, none of them given twice.

use vstd::prelude::*;
use vstd::string::*;
use crate::term::{reserved_prefix, Variable};

verus! {

/// The character of a decimal digit.
pub open spec fn digit_char(d: nat) -> char {
    if d == 0 {
        '0'
    } else if d == 1 {
        '1'
    } else if d == 2 {
        '2'
    } else if d == 3 {
        '3'
    } else if d == 4 {
        '4'
    } else if d == 5 {
        '5'
    } else if d == 6 {
        '6'
    } else if d == 7 {
        '7'
    } else if d == 8 {
        '8'
    } else {
        '9'
    }
}

/// The decimal numeral of `n`, without leading zeros.
pub open spec fn decimal(n: nat) -> Seq<char>
    decreases n,
{
    if n < 10 {
        seq![digit_char(n)]
    } else {
        decimal(n / 10).push(digit_char(n % 10))
    }
}

/// The name of the variable minted at count `n`: the reserved prefix and
/// the decimal numeral of `n`.
pub open spec fn fresh_name(n: nat) -> Seq<char> {
    reserved_prefix() + decimal(n)
}

/// Two counts with the same decimal numeral are the same count.
pub proof fn lemma_decimal_injective(a: nat, b: nat)
    requires
        decimal(a) == decimal(b),
    ensures
        a == b,
    decreases a,
{
    if a < 10 && b < 10 {
        assert(decimal(a)[0] == digit_char(a));
        assert(decimal(b)[0] == digit_char(b));
        lemma_digit_char_injective(a, b);
    } else if a < 10 {
        assert(decimal(a).len() == 1);
        assert(decimal(b).len() == decimal(b / 10).len() + 1);
        lemma_decimal_nonempty(b / 10);
    } else if b < 10 {
        assert(decimal(b).len() == 1);
        assert(decimal(a).len() == decimal(a / 10).len() + 1);
        lemma_decimal_nonempty(a / 10);
    } else {
        let da = decimal(a / 10);
        let db = decimal(b / 10);
        assert(decimal(a).last() == digit_char(a % 10));
        assert(decimal(b).last() == digit_char(b % 10));
        assert(decimal(a).drop_last() =~= da);
        assert(decimal(b).drop_last() =~= db);
        lemma_decimal_injective(a / 10, b / 10);
        lemma_digit_char_injective(a % 10, b % 10);
        assert(a == 10 * (a / 10) + a % 10);
        assert(b == 10 * (b / 10) + b % 10);
    }
}

proof fn lemma_digit_char_injective(a: nat, b: nat)
    requires
        a < 10,
        b < 10,
        digit_char(a) == digit_char(b),
    ensures
        a == b,
{
}

proof fn lemma_decimal_nonempty(n: nat)
    ensures
        decimal(n).len() >= 1,
    decreases n,
{
    if n >= 10 {
        lemma_decimal_nonempty(n / 10);
    }
}

/// Fresh-variable uniqueness: two different counts give two different
/// names, so the names that one generator mints are pairwise distinct.
pub proof fn lemma_fresh_names_distinct(a: nat, b: nat)
    requires
        a != b,
    ensures
        fresh_name(a) != fresh_name(b),
{
    if fresh_name(a) == fresh_name(b) {
        let p = reserved_prefix();
        assert(fresh_name(a).subrange(p.len() as int, fresh_name(a).len() as int) =~= decimal(a));
        assert(fresh_name(b).subrange(p.len() as int, fresh_name(b).len() as int) =~= decimal(b));
        lemma_decimal_injective(a, b);
    }
}

/// Every minted name starts with the reserved prefix, so it differs from
/// every name that `Variable::new` accepts.
pub proof fn lemma_fresh_name_is_reserved(n: nat)
    ensures
        reserved_prefix().is_prefix_of(fresh_name(n)),
{
    let p = reserved_prefix();
    assert(fresh_name(n).subrange(0, p.len() as int) =~= p);
}

fn digit_str(d: u64) -> (s: &'static str)
    requires
        d < 10,
    ensures
        s@ == seq![digit_char(d as nat)],
{
    proof {
        reveal_strlit("0");
        reveal_strlit("1");
        reveal_strlit("2");
        reveal_strlit("3");
        reveal_strlit("4");
        reveal_strlit("5");
        reveal_strlit("6");
        reveal_strlit("7");
        reveal_strlit("8");
        reveal_strlit("9");
    }
    let s: &'static str = if d == 0 {
        "0"
    } else if d == 1 {
        "1"
    } else if d == 2 {
        "2"
    } else if d == 3 {
        "3"
    } else if d == 4 {
        "4"
    } else if d == 5 {
        "5"
    } else if d == 6 {
        "6"
    } else if d == 7 {
        "7"
    } else if d == 8 {
        "8"
    } else {
        "9"
    };
    assert(s@ =~= seq![digit_char(d as nat)]);
    s
}

/// Appends the decimal numeral of `n` to `text`.
fn push_decimal(text: String, n: u64) -> (r: String)
    ensures
        r@ == text@ + decimal(n as nat),
    decreases n,
{
    if n < 10 {
        let r = text.concat(digit_str(n));
        r
    } else {
        let head = push_decimal(text, n / 10);
        let r = head.concat(digit_str(n % 10));
        assert(r@ =~= text@ + decimal(n as nat));
        r
    }
}

/// A generator of variable names. Its state is the number of names it has
/// given out; the name it gives next is `fresh_name` of that number.
#[derive(Debug, PartialEq, Eq)]
pub struct FreshVariables {
    issued: u64,
}

impl FreshVariables {
    /// How many names the generator has given out.
    pub closed spec fn issued(&self) -> nat {
        self.issued as nat
    }

    /// Whether the generator can give another name.
    pub open spec fn has_next(&self) -> bool {
        self.issued() < u64::MAX
    }

    /// A generator that has given out no name yet.
    pub fn new() -> (r: FreshVariables)
        ensures
            r.issued() == 0,
    {
        FreshVariables { issued: 0 }
    }

    /// A generator that goes on after `issued` names: the first name it
    /// gives is the one at that count.
    pub fn starting_at(issued: u64) -> (r: FreshVariables)
        ensures
            r.issued() == issued,
    {
        FreshVariables { issued }
    }

    /// How many names the generator can still give.
    pub fn remaining(&self) -> (r: u64)
        ensures
            r == u64::MAX - self.issued(),
    {
        u64::MAX - self.issued
    }

    /// Gives out the next name and counts it.
    pub fn next(&mut self) -> (r: Variable)
        requires
            old(self).has_next(),
        ensures
            r@ == fresh_name(old(self).issued()),
            final(self).issued() == old(self).issued() + 1,
    {
        let name = push_decimal(String::from_str("fresh_"), self.issued);
        proof {
            lemma_fresh_name_is_reserved(self.issued as nat);
        }
        self.issued = self.issued + 1;
        Variable::reserved(name)
    }

    /// Gives out the next name, or `None` where the generator is spent.
    pub fn try_next(&mut self) -> (r: Option<Variable>)
        ensures
            r.is_some() <==> old(self).has_next(),
            r.is_some() ==> r.unwrap()@ == fresh_name(old(self).issued())
                && final(self).issued() == old(self).issued() + 1,
            r.is_none() ==> final(self).issued() == old(self).issued(),
    {
        if self.issued < u64::MAX {
            Some(self.next())
        } else {
            None
        }
    }
}

} // verus!
