use vstd::prelude::*;

verus! {

/// A path with every backslash turned into a forward slash.
pub open spec fn canonical(p: Seq<char>) -> Seq<char> {
    Seq::new(p.len(), |i: int| if p[i] == '\\' { '/' } else { p[i] })
}

/// The character of a decimal digit.
pub open spec fn digit_char(d: nat) -> char {
    if d == 0 { '0' }
    else if d == 1 { '1' }
    else if d == 2 { '2' }
    else if d == 3 { '3' }
    else if d == 4 { '4' }
    else if d == 5 { '5' }
    else if d == 6 { '6' }
    else if d == 7 { '7' }
    else if d == 8 { '8' }
    else { '9' }
}

/// The decimal notation of a number, without leading zeros.
pub open spec fn decimal(n: nat) -> Seq<char>
    decreases n,
{
    if n < 10 {
        seq![digit_char(n)]
    } else {
        decimal(n / 10) + seq![digit_char(n % 10)]
    }
}

fn digit_str(d: u64) -> (r: &'static str)
    requires
        d < 10,
    ensures
        r@ == seq![digit_char(d as nat)],
{
    proof {
        reveal_strlit("0");
        reveal_strlit("1");
        reveal_strlit("2");
        reveal_strlit("3");
        reveal_strlit("4");
        reveal_strlit("5");
        reveal_strlit("6");
        reveal_strlit("7");
        reveal_strlit("8");
        reveal_strlit("9");
    }
    if d == 0 { "0" }
    else if d == 1 { "1" }
    else if d == 2 { "2" }
    else if d == 3 { "3" }
    else if d == 4 { "4" }
    else if d == 5 { "5" }
    else if d == 6 { "6" }
    else if d == 7 { "7" }
    else if d == 8 { "8" }
    else { "9" }
}

/// Writes `n` in decimal notation.
pub fn decimal_text(n: u64) -> (r: String)
    ensures
        r@ == decimal(n as nat),
    decreases n,
{
    if n < 10 {
        String::from_str(digit_str(n))
    } else {
        let mut s = decimal_text(n / 10);
        s.append(digit_str(n % 10));
        s
    }
}

/// Turns every backslash of a path into a forward slash, so that two
/// spellings of one path compare equal.
pub fn canonical_path(p: &str) -> (r: String)
    ensures
        r@ == canonical(p@),
{
    let n = p.unicode_len();
    let mut out = String::new();
    let mut i: usize = 0;
    while i < n
        invariant
            n == p@.len(),
            i <= n,
            out@ =~= canonical(p@.subrange(0, i as int)),
        decreases n - i,
    {
        let c = p.get_char(i);
        let ghost before = out@;
        if c == '\\' {
            proof {
                reveal_strlit("/");
            }
            out.append("/");
        } else {
            let one = p.substring_char(i, i + 1);
            assert(one@ =~= seq![c]);
            out.append(one);
        }
        assert(canonical(p@.subrange(0, i + 1)) =~= canonical(p@.subrange(0, i as int)) + seq![
            if c == '\\' { '/' } else { c }
        ]);
        assert(out@ =~= before + seq![if c == '\\' { '/' } else { c }]);
        i = i + 1;
    }
    assert(p@.subrange(0, n as int) =~= p@);
    out
}

} // verus!
