use vstd::prelude::*;

verus! {

/// The character of a decimal digit `d < 10`.
pub open spec fn digit_char(d: nat) -> char {
    if d == 0 {
        '0'
    } else if d == 1 {
        '1'
    } else if d == 2 {
        '2'
    } else if d == 3 {
        '3'
    } else if d == 4 {
        '4'
    } else if d == 5 {
        '5'
    } else if d == 6 {
        '6'
    } else if d == 7 {
        '7'
    } else if d == 8 {
        '8'
    } else {
        '9'
    }
}

/// The decimal text of `n`, without leading zeros.
pub open spec fn decimal(n: nat) -> Seq<char>
    decreases n,
{
    if n < 10 {
        seq![digit_char(n)]
    } else {
        decimal(n / 10).push(digit_char(n % 10))
    }
}

/// The compact text of a duration of `secs` whole seconds and `millis` further
/// milliseconds: milliseconds under a second, seconds under a minute, and
/// minutes with seconds above that.
pub open spec fn duration_text(secs: nat, millis: nat) -> Seq<char> {
    if secs == 0 {
        decimal(millis) + seq!['m', 's']
    } else if secs < 60 {
        decimal(secs) + seq!['s']
    } else {
        decimal(secs / 60) + seq!['m', ' '] + decimal(secs % 60) + seq!['s']
    }
}

fn digit_str(d: u64) -> (r: &'static str)
    requires
        d < 10,
    ensures
        r@ == seq![digit_char(d as nat)],
{
    if d == 0 {
        proof {
            reveal_strlit("0");
        }
        "0"
    } else if d == 1 {
        proof {
            reveal_strlit("1");
        }
        "1"
    } else if d == 2 {
        proof {
            reveal_strlit("2");
        }
        "2"
    } else if d == 3 {
        proof {
            reveal_strlit("3");
        }
        "3"
    } else if d == 4 {
        proof {
            reveal_strlit("4");
        }
        "4"
    } else if d == 5 {
        proof {
            reveal_strlit("5");
        }
        "5"
    } else if d == 6 {
        proof {
            reveal_strlit("6");
        }
        "6"
    } else if d == 7 {
        proof {
            reveal_strlit("7");
        }
        "7"
    } else if d == 8 {
        proof {
            reveal_strlit("8");
        }
        "8"
    } else {
        proof {
            reveal_strlit("9");
        }
        "9"
    }
}

/// Appends the decimal text of `n` to `out`.
pub fn push_decimal(out: &mut String, n: u64)
    ensures
        final(out)@ == old(out)@ + decimal(n as nat),
    decreases n,
{
    if n >= 10 {
        push_decimal(out, n / 10);
    }
    let d = digit_str(n % 10);
    out.append(d);
    assert(final(out)@ =~= old(out)@ + decimal(n as nat));
}

/// Formats a duration of `secs` whole seconds and `millis` further milliseconds.
pub fn format_duration(secs: u64, millis: u32) -> (r: String)
    ensures
        r@ == duration_text(secs as nat, millis as nat),
{
    let mut out = String::new();
    proof {
        reveal_strlit("s");
    }
    if secs == 0 {
        push_decimal(&mut out, millis as u64);
        proof {
            reveal_strlit("ms");
        }
        out.append("ms");
    } else if secs < 60 {
        push_decimal(&mut out, secs);
        out.append("s");
    } else {
        push_decimal(&mut out, secs / 60);
        proof {
            reveal_strlit("m ");
        }
        out.append("m ");
        push_decimal(&mut out, secs % 60);
        out.append("s");
    }
    assert(out@ =~= duration_text(secs as nat, millis as nat));
    out
}

} // verus!
