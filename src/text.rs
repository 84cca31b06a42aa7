use vstd::prelude::*;
use crate::event::FULL;

verus! {

/// `n` copies of `c`.
pub open spec fn run_of(c: char, n: nat) -> Seq<char> {
    Seq::new(n, |_i: int| c)
}

/// `n` blanks.
pub open spec fn spaces(n: nat) -> Seq<char> {
    run_of(' ', n)
}

/// The character of a decimal digit.
pub open spec fn digit_char(d: nat) -> char {
    if d == 0 { '0' } else if d == 1 { '1' } else if d == 2 { '2' } else if d == 3 { '3' }
    else if d == 4 { '4' } else if d == 5 { '5' } else if d == 6 { '6' } else if d == 7 { '7' }
    else if d == 8 { '8' } else { '9' }
}

/// `n` written in decimal, without leading zeros.
pub open spec fn decimal(n: nat) -> Seq<char>
    decreases n,
{
    if n < 10 {
        seq![digit_char(n)]
    } else {
        decimal(n / 10).push(digit_char(n % 10))
    }
}

/// A percentage given in hundredths, written with two decimal digits.
pub open spec fn percent_text(p: nat) -> Seq<char> {
    decimal(p / 100) + seq!['.', digit_char((p % 100) / 10), digit_char(p % 10)]
}

/// How many cells of a bar `width` cells wide are filled at `p` hundredths
/// of a percent: the percentage mapped linearly onto the width, rounded down.
pub open spec fn fill_of(p: nat, width: nat) -> nat {
    p * width / (FULL as nat)
}

/// The cells of a bar: at completion every cell is filled; below it the
/// filled cells, one `>` marker at the fill boundary, then blanks.
pub open spec fn bar_cells(p: nat, width: nat) -> Seq<char> {
    if p >= FULL {
        run_of('=', width)
    } else {
        run_of('=', fill_of(p, width)) + seq!['>'] + spaces(
            (width - 1 - fill_of(p, width)) as nat,
        )
    }
}

/// At completion the bar is filled from end to end with no marker; at 0 %
/// it is empty with the marker in the first cell.
pub proof fn lemma_bar_ends(width: nat)
    requires
        width >= 1,
    ensures
        bar_cells(FULL as nat, width) == run_of('=', width),
        !bar_cells(FULL as nat, width).contains('>'),
        bar_cells(0, width) == seq!['>'] + spaces((width - 1) as nat),
        bar_cells(0, width)[0] == '>',
        bar_cells(0, width).len() == width,
{
    assert(fill_of(0, width) == 0);
    assert(run_of('=', 0) =~= Seq::<char>::empty());
    assert(bar_cells(0, width) =~= seq!['>'] + spaces((width - 1) as nat));
    if bar_cells(FULL as nat, width).contains('>') {
        let i = choose|i: int| 0 <= i < width && bar_cells(FULL as nat, width)[i] == '>';
        assert(run_of('=', width)[i] == '=');
    }
}

/// The line drawn for one unit: `title: [cells] 12.34 %`.
pub open spec fn bar_line(title: Seq<char>, p: nat, width: nat) -> Seq<char> {
    title + seq![':', ' ', '['] + bar_cells(p, width) + seq![']', ' '] + percent_text(p) + seq![
        ' ',
        '%',
    ]
}

/// Appends `n` copies of the single character of `unit`.
pub fn push_run(s: &mut String, unit: &str, n: usize)
    requires
        unit@.len() == 1,
    ensures
        final(s)@ == old(s)@ + run_of(unit@[0], n as nat),
{
    let ghost start = s@;
    let mut i: usize = 0;
    while i < n
        invariant
            i <= n,
            unit@.len() == 1,
            s@ == start + run_of(unit@[0], i as nat),
        decreases n - i,
    {
        s.append(unit);
        proof {
            assert(unit@ =~= seq![unit@[0]]);
            assert(run_of(unit@[0], i as nat).push(unit@[0]) =~= run_of(unit@[0], (i + 1) as nat));
        }
        i = i + 1;
    }
    assert(s@ =~= start + run_of(unit@[0], n as nat));
}

/// Appends one decimal digit.
pub fn push_digit(s: &mut String, d: u64)
    requires
        d < 10,
    ensures
        final(s)@ == old(s)@.push(digit_char(d as nat)),
{
    let t = match d {
        0 => "0",
        1 => "1",
        2 => "2",
        3 => "3",
        4 => "4",
        5 => "5",
        6 => "6",
        7 => "7",
        8 => "8",
        _ => "9",
    };
    proof {
        reveal_strlit("0");
        reveal_strlit("1");
        reveal_strlit("2");
        reveal_strlit("3");
        reveal_strlit("4");
        reveal_strlit("5");
        reveal_strlit("6");
        reveal_strlit("7");
        reveal_strlit("8");
        reveal_strlit("9");
    }
    assert(t@ =~= seq![digit_char(d as nat)]);
    s.append(t);
}

/// Appends `n` in decimal.
pub fn push_decimal(s: &mut String, n: u64)
    ensures
        final(s)@ == old(s)@ + decimal(n as nat),
    decreases n,
{
    if n >= 10 {
        push_decimal(s, n / 10);
    }
    push_digit(s, n % 10);
    assert(s@ =~= old(s)@ + decimal(n as nat));
}

/// Appends a percentage given in hundredths, with two decimal digits.
pub fn push_percent(s: &mut String, p: u64)
    ensures
        final(s)@ == old(s)@ + percent_text(p as nat),
{
    push_decimal(s, p / 100);
    proof {
        reveal_strlit(".");
    }
    s.append(".");
    push_digit(s, (p % 100) / 10);
    push_digit(s, p % 10);
    assert(s@ =~= old(s)@ + percent_text(p as nat));
}

/// Renders the line for one unit of a bar `width` cells wide.
pub fn render_bar(title: &str, p: u64, width: usize) -> (r: String)
    requires
        width >= 1,
    ensures
        r@ == bar_line(title@, p as nat, width as nat),
{
    let mut s = title.to_owned();
    proof {
        reveal_strlit(": [");
        reveal_strlit("=");
        reveal_strlit(">");
        reveal_strlit(" ");
        reveal_strlit("] ");
        reveal_strlit(" %");
    }
    s.append(": [");
    let ghost head = s@;
    if p >= FULL {
        push_run(&mut s, "=", width);
    } else {
        assert((p as u128) * (width as u128) < 10000 * 0x1_0000_0000_0000_0000) by (nonlinear_arith)
            requires
                p < 10000,
                width < 0x1_0000_0000_0000_0000,
        {
        }
        let prod: u128 = (p as u128) * (width as u128);
        let q: u128 = prod / (FULL as u128);
        assert(q < width as u128) by (nonlinear_arith)
            requires
                prod == p * width,
                q == prod / 10000,
                p < 10000,
                width >= 1,
        {
        }
        let fill = q as usize;
        push_run(&mut s, "=", fill);
        s.append(">");
        push_run(&mut s, " ", width - 1 - fill);
    }
    assert(s@ =~= head + bar_cells(p as nat, width as nat));
    s.append("] ");
    push_percent(&mut s, p);
    s.append(" %");
    assert(s@ =~= bar_line(title@, p as nat, width as nat));
    s
}

} // verus!
