use vstd::prelude::*;
use vstd::string::*;

verus! {

/// The character of a decimal digit.
pub open spec fn digit_char(d: int) -> char {
    if d == 0 {
        '0'
    } else if d == 1 {
        '1'
    } else if d == 2 {
        '2'
    } else if d == 3 {
        '3'
    } else if d == 4 {
        '4'
    } else if d == 5 {
        '5'
    } else if d == 6 {
        '6'
    } else if d == 7 {
        '7'
    } else if d == 8 {
        '8'
    } else {
        '9'
    }
}

/// The decimal digits of `n`, most significant first, without leading
/// zeros.
pub open spec fn decimal(n: nat) -> Seq<char>
    decreases n,
{
    if n < 10 {
        seq![digit_char(n as int)]
    } else {
        decimal(n / 10).push(digit_char((n % 10) as int))
    }
}

/// `count` copies of `c`; none where `count` is not positive.
pub open spec fn repeat(c: char, count: int) -> Seq<char> {
    Seq::new(
        if count > 0 {
            count as nat
        } else {
            0
        },
        |i: int| c,
    )
}

/// `s` with `fill` in front of it up to `width` characters.
pub open spec fn pad_left(s: Seq<char>, width: int, fill: char) -> Seq<char> {
    repeat(fill, width - s.len()) + s
}

/// `s` with spaces behind it up to `width` characters.
pub open spec fn pad_right(s: Seq<char>, width: int) -> Seq<char> {
    s + repeat(' ', width - s.len())
}

/// `s` between spaces up to `width` characters, the odd space behind it.
pub open spec fn center(s: Seq<char>, width: int) -> Seq<char> {
    let pad = width - s.len();
    repeat(' ', pad / 2) + s + repeat(' ', pad - pad / 2)
}

/// How many digits a number has, up to four.
pub proof fn lemma_decimal_width(n: nat)
    ensures
        n < 10 ==> decimal(n).len() == 1,
        10 <= n < 100 ==> decimal(n).len() == 2,
        100 <= n < 1000 ==> decimal(n).len() == 3,
        1000 <= n ==> decimal(n).len() >= 4,
    decreases n,
{
    if n >= 10 {
        lemma_decimal_width(n / 10);
    }
}

fn digit_str(d: u64) -> (s: &'static str)
    requires
        d < 10,
    ensures
        s@ == seq![digit_char(d as int)],
{
    proof {
        reveal_strlit("0");
        reveal_strlit("1");
        reveal_strlit("2");
        reveal_strlit("3");
        reveal_strlit("4");
        reveal_strlit("5");
        reveal_strlit("6");
        reveal_strlit("7");
        reveal_strlit("8");
        reveal_strlit("9");
    }
    let s = if d == 0 {
        "0"
    } else if d == 1 {
        "1"
    } else if d == 2 {
        "2"
    } else if d == 3 {
        "3"
    } else if d == 4 {
        "4"
    } else if d == 5 {
        "5"
    } else if d == 6 {
        "6"
    } else if d == 7 {
        "7"
    } else if d == 8 {
        "8"
    } else {
        "9"
    };
    assert(s@ =~= seq![digit_char(d as int)]);
    s
}

/// The decimal text of `n`.
pub fn decimal_text(n: u64) -> (text: String)
    ensures
        text@ == decimal(n as nat),
    decreases n,
{
    if n < 10 {
        String::from_str(digit_str(n))
    } else {
        let mut text = decimal_text(n / 10);
        text.append(digit_str(n % 10));
        assert(text@ =~= decimal(n as nat));
        text
    }
}

/// The decimal text of `n` with zeros in front of it up to four characters.
pub fn zero_padded(n: u64) -> (text: String)
    ensures
        text@ == pad_left(decimal(n as nat), 4, '0'),
{
    proof {
        reveal_strlit("000");
        reveal_strlit("00");
        reveal_strlit("0");
        reveal_strlit("");
        lemma_decimal_width(n as nat);
    }
    let mut text = String::from_str(
        if n < 10 {
            "000"
        } else if n < 100 {
            "00"
        } else if n < 1000 {
            "0"
        } else {
            ""
        },
    );
    text.append(decimal_text(n).as_str());
    assert(text@ =~= pad_left(decimal(n as nat), 4, '0'));
    text
}

/// The decimal text of `n` between spaces up to four characters.
pub fn centered(n: u64) -> (text: String)
    ensures
        text@ == center(decimal(n as nat), 4),
{
    proof {
        reveal_strlit(" ");
        reveal_strlit("  ");
        reveal_strlit("");
        lemma_decimal_width(n as nat);
    }
    let mut text = String::from_str(
        if n < 100 {
            " "
        } else {
            ""
        },
    );
    text.append(decimal_text(n).as_str());
    text.append(
        if n < 10 {
            "  "
        } else if n < 1000 {
            " "
        } else {
            ""
        },
    );
    assert(text@ =~= center(decimal(n as nat), 4));
    text
}

/// `s` with spaces behind it up to `width` characters.
pub fn padded(s: &str, width: usize) -> (text: String)
    ensures
        text@ == pad_right(s@, width as int),
{
    let len = s.unicode_len();
    let mut text = String::from_str(s);
    let mut n: usize = len;
    assert(text@ =~= s@ + repeat(' ', 0));
    while n < width
        invariant
            len == s@.len(),
            len <= n,
            n <= width || n == len,
            text@ == s@ + repeat(' ', n - len),
        decreases width - n,
    {
        proof {
            reveal_strlit(" ");
        }
        text.append(" ");
        n += 1;
        assert(text@ =~= s@ + repeat(' ', n - len));
    }
    assert(text@ =~= pad_right(s@, width as int));
    text
}

} // verus!
