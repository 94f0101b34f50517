//! Fresh names for variables, temporaries and labels, drawn from one counter.
use vstd::prelude::*;

verus! {

/// The decimal text of a natural number, most significant digit first.
pub open spec fn decimal(n: nat) -> Seq<char>
    decreases n,
{
    if n < 10 {
        seq![digit_char(n)]
    } else {
        decimal(n / 10) + seq![digit_char(n % 10)]
    }
}

pub open spec fn digit_char(d: nat) -> char {
    if d == 0 { '0' }
    else if d == 1 { '1' }
    else if d == 2 { '2' }
    else if d == 3 { '3' }
    else if d == 4 { '4' }
    else if d == 5 { '5' }
    else if d == 6 { '6' }
    else if d == 7 { '7' }
    else if d == 8 { '8' }
    else { '9' }
}

/// The decimal text of an integer, with a leading `-` when it is negative.
pub open spec fn int_text(i: int) -> Seq<char> {
    if i < 0 {
        seq!['-'] + decimal((-i) as nat)
    } else {
        decimal(i as nat)
    }
}

/// The unique name given to a declared variable or a temporary: `tmp.<ctx>.<n>`.
pub open spec fn temp_name(ctx: Seq<char>, n: nat) -> Seq<char> {
    "tmp."@ + ctx + "."@ + decimal(n)
}

/// The name of a synthesized label: `<fn>_tmp_label.<n>`.
pub open spec fn label_name(func: Seq<char>, n: nat) -> Seq<char> {
    func + "_tmp_label."@ + decimal(n)
}

fn digit_str(d: u64) -> (r: &'static str)
    requires
        d < 10,
    ensures
        r@ == seq![digit_char(d as nat)],
{
    proof {
        reveal_strlit("0");
        reveal_strlit("1");
        reveal_strlit("2");
        reveal_strlit("3");
        reveal_strlit("4");
        reveal_strlit("5");
        reveal_strlit("6");
        reveal_strlit("7");
        reveal_strlit("8");
        reveal_strlit("9");
    }
    if d == 0 { "0" }
    else if d == 1 { "1" }
    else if d == 2 { "2" }
    else if d == 3 { "3" }
    else if d == 4 { "4" }
    else if d == 5 { "5" }
    else if d == 6 { "6" }
    else if d == 7 { "7" }
    else if d == 8 { "8" }
    else { "9" }
}

/// Appends the decimal text of `n`.
pub fn push_decimal(s: &mut String, n: u64)
    ensures
        final(s)@ == old(s)@ + decimal(n as nat),
    decreases n,
{
    if n >= 10 {
        push_decimal(s, n / 10);
    }
    s.append(digit_str(n % 10));
    assert(final(s)@ =~= old(s)@ + decimal(n as nat));
}

/// Appends the decimal text of `i`, with a `-` when it is negative.
pub fn push_int(s: &mut String, i: i64)
    ensures
        final(s)@ == old(s)@ + int_text(i as int),
{
    if i < 0 {
        s.append("-");
        let m: u64 = if i == i64::MIN { 9223372036854775808u64 } else { (-i) as u64 };
        push_decimal(s, m);
        proof { reveal_strlit("-"); }
        assert(final(s)@ =~= old(s)@ + int_text(i as int));
    } else {
        push_decimal(s, i as u64);
    }
}

/// The supply of fresh names: a counter that only grows.
pub struct NameGen {
    pub next: u64,
}

impl NameGen {
    pub fn new() -> (r: NameGen)
        ensures
            r.next == 0,
    {
        NameGen { next: 0 }
    }
}

/// Mints the unique name `tmp.<name>.<n>` for a declared variable and
/// advances the counter.
pub fn make_temporary_name(name: &str, gen: &mut NameGen) -> (r: String)
    requires
        old(gen).next < u64::MAX,
    ensures
        r@ == temp_name(name@, old(gen).next as nat),
        final(gen).next == old(gen).next + 1,
{
    let mut s = String::from_str("tmp.");
    s.append(name);
    s.append(".");
    push_decimal(&mut s, gen.next);
    gen.next = gen.next + 1;
    s
}

/// Mints a temporary `tmp.<func>.<n>` for three-address code.
pub fn make_temp_identifier(func: &str, gen: &mut NameGen) -> (r: String)
    requires
        old(gen).next < u64::MAX,
    ensures
        r@ == temp_name(func@, old(gen).next as nat),
        final(gen).next == old(gen).next + 1,
{
    make_temporary_name(func, gen)
}

/// Mints a label `<func>_tmp_label.<n>` and advances the counter.
pub fn make_temp_label(func: &str, gen: &mut NameGen) -> (r: String)
    requires
        old(gen).next < u64::MAX,
    ensures
        r@ == label_name(func@, old(gen).next as nat),
        final(gen).next == old(gen).next + 1,
{
    let mut s = String::from_str(func);
    s.append("_tmp_label.");
    push_decimal(&mut s, gen.next);
    gen.next = gen.next + 1;
    s
}

} // verus!
