use vstd::prelude::*;

verus! {

/// The decimal digit for `d`, which is below ten.
pub open spec fn digit_char(d: nat) -> char {
    seq!['0', '1', '2', '3', '4', '5', '6', '7', '8', '9'][d as int]
}

/// The decimal digits of `n`, without leading zeros.
pub open spec fn digits(n: nat) -> Seq<char>
    decreases n,
{
    if n < 10 {
        seq![digit_char(n)]
    } else {
        digits(n / 10).push(digit_char(n % 10))
    }
}

/// `n` written in decimal, with a `-` before a negative number.
pub open spec fn decimal(n: int) -> Seq<char> {
    if n < 0 {
        seq!['-'] + digits((-n) as nat)
    } else {
        digits(n as nat)
    }
}

fn digit_text(d: u64) -> (r: &'static str)
    requires
        d < 10,
    ensures
        r@ == seq![digit_char(d as nat)],
{
    proof {
        reveal_strlit("0");
        reveal_strlit("1");
        reveal_strlit("2");
        reveal_strlit("3");
        reveal_strlit("4");
        reveal_strlit("5");
        reveal_strlit("6");
        reveal_strlit("7");
        reveal_strlit("8");
        reveal_strlit("9");
    }
    if d == 0 {
        assert(seq!['0'] =~= "0"@);
        "0"
    } else if d == 1 {
        assert(seq!['1'] =~= "1"@);
        "1"
    } else if d == 2 {
        assert(seq!['2'] =~= "2"@);
        "2"
    } else if d == 3 {
        assert(seq!['3'] =~= "3"@);
        "3"
    } else if d == 4 {
        assert(seq!['4'] =~= "4"@);
        "4"
    } else if d == 5 {
        assert(seq!['5'] =~= "5"@);
        "5"
    } else if d == 6 {
        assert(seq!['6'] =~= "6"@);
        "6"
    } else if d == 7 {
        assert(seq!['7'] =~= "7"@);
        "7"
    } else if d == 8 {
        assert(seq!['8'] =~= "8"@);
        "8"
    } else {
        assert(seq!['9'] =~= "9"@);
        "9"
    }
}

fn digits_text(n: u64) -> (r: String)
    ensures
        r@ == digits(n as nat),
    decreases n,
{
    if n < 10 {
        String::from_str(digit_text(n))
    } else {
        let mut s = digits_text(n / 10);
        s.append(digit_text(n % 10));
        s
    }
}

/// `n` written in decimal.
pub fn decimal_text(n: i64) -> (r: String)
    ensures
        r@ == decimal(n as int),
{
    if n < 0 {
        let m: u64 = ((-(n + 1)) as u64) + 1;
        let mut s = String::from_str("-");
        proof {
            reveal_strlit("-");
            assert("-"@ =~= seq!['-']);
        }
        s.append(digits_text(m).as_str());
        s
    } else {
        digits_text(n as u64)
    }
}

} // verus!
