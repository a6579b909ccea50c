//! Decimal notation, as it appears in object ids, subnets and messages.
use vstd::prelude::*;
use vstd::string::StringExecFns;

verus! {

/// The character that stands for one decimal digit.
pub open spec fn digit(d: int) -> char {
    (48 + d) as char
}

/// The decimal digits of a number, the most significant first and without leading zeros.
pub open spec fn digits(n: nat) -> Seq<char>
    decreases n,
{
    if n < 10 {
        seq![digit(n as int)]
    } else {
        digits(n / 10).push(digit((n % 10) as int))
    }
}

/// Decimal notation of an integer, with a minus sign in front of a negative one.
pub open spec fn decimal(n: int) -> Seq<char> {
    if n < 0 {
        seq!['-'] + digits((-n) as nat)
    } else {
        digits(n as nat)
    }
}

/// Different numbers have different digits.
pub proof fn lemma_digits_injective(a: nat, b: nat)
    requires
        digits(a) == digits(b),
    ensures
        a == b,
    decreases a,
{
    lemma_digits_nonempty(a);
    lemma_digits_nonempty(b);
    let da = digits(a);
    let db = digits(b);
    assert(da.last() == db.last());
    if a >= 10 && b >= 10 {
        assert(da.drop_last() =~= digits(a / 10));
        assert(db.drop_last() =~= digits(b / 10));
        lemma_digits_injective(a / 10, b / 10);
    } else if a >= 10 {
        lemma_digits_nonempty(a / 10);
    } else if b >= 10 {
        lemma_digits_nonempty(b / 10);
    }
}

/// A number has at least one digit, and its first character is a digit.
pub proof fn lemma_digits_nonempty(n: nat)
    ensures
        digits(n).len() >= 1,
        digits(n)[0] != '-',
    decreases n,
{
    if n >= 10 {
        lemma_digits_nonempty(n / 10);
    }
}

/// Different integers have different decimal notations.
pub proof fn lemma_decimal_injective(a: int, b: int)
    requires
        decimal(a) == decimal(b),
    ensures
        a == b,
{
    if a >= 0 {
        lemma_digits_nonempty(a as nat);
    }
    if b >= 0 {
        lemma_digits_nonempty(b as nat);
    }
    if a < 0 && b < 0 {
        assert(decimal(a).subrange(1, decimal(a).len() as int) =~= digits((-a) as nat));
        assert(decimal(b).subrange(1, decimal(b).len() as int) =~= digits((-b) as nat));
        lemma_digits_injective((-a) as nat, (-b) as nat);
    } else if a >= 0 && b >= 0 {
        lemma_digits_injective(a as nat, b as nat);
    }
}

/// The number that a row of decimal digits stands for.
pub open spec fn numeral_value(text: Seq<char>) -> int
    decreases text.len(),
{
    if text.len() == 0 {
        0
    } else {
        10 * numeral_value(text.drop_last()) + (text.last() as int - '0' as int)
    }
}

/// The digits of a number are digits, they stand for the number, and there is no leading zero
/// but in the number zero.
pub proof fn lemma_digits_read_back(n: nat)
    ensures
        digits(n).len() >= 1,
        forall|i: int| 0 <= i < digits(n).len() ==> '0' <= #[trigger] digits(n)[i] <= '9',
        numeral_value(digits(n)) == n,
        digits(n)[0] == '0' ==> n == 0 && digits(n).len() == 1,
    decreases n,
{
    let text = digits(n);
    if n >= 10 {
        lemma_digits_read_back(n / 10);
        assert(text.drop_last() =~= digits(n / 10));
    } else {
        assert(text.drop_last() =~= Seq::<char>::empty());
        assert(numeral_value(Seq::<char>::empty()) == 0);
    }
}

/// The decimal notation of an integer reads back: a minus sign stands in front of a negative one
/// and of no other, the rest are digits without a leading zero but in the number zero, and they
/// stand for the magnitude.
pub proof fn lemma_decimal_reads_back(n: int)
    ensures
        ({
            let text = decimal(n);
            let magnitude = if n < 0 {
                text.skip(1)
            } else {
                text
            };
            &&& text.len() >= 1
            &&& text[0] == '-' <==> n < 0
            &&& magnitude.len() >= 1
            &&& forall|i: int|
                0 <= i < magnitude.len() ==> '0' <= #[trigger] magnitude[i] <= '9'
            &&& magnitude[0] == '0' ==> n == 0 && magnitude.len() == 1
            &&& numeral_value(magnitude) == (if n < 0 {
                -n
            } else {
                n
            })
        }),
{
    if n < 0 {
        lemma_digits_read_back((-n) as nat);
        assert(decimal(n).skip(1) =~= digits((-n) as nat));
    } else {
        lemma_digits_read_back(n as nat);
    }
}

/// A text holds another one from some position on.
pub open spec fn holds(text: Seq<char>, part: Seq<char>) -> bool {
    exists|at: int|
        0 <= at && at + part.len() <= text.len() && #[trigger] text.subrange(
            at,
            at + part.len(),
        ) == part
}

/// A text ends with another one.
pub open spec fn ends_with(text: Seq<char>, end: Seq<char>) -> bool {
    end.len() <= text.len() && text.skip(text.len() - end.len()) == end
}

/// A text that is put together holds the part in the middle, and ends with the last part.
pub proof fn lemma_parts(start: Seq<char>, part: Seq<char>, end: Seq<char>)
    ensures
        holds(start + part + end, start),
        holds(start + part + end, part),
        holds(start + part + end, end),
        ends_with(start + part + end, end),
{
    let text = start + part + end;
    let (a, b, c) = (start.len() as int, part.len() as int, end.len() as int);
    assert(text.subrange(0, 0int + start.len()) =~= start);
    assert(text.subrange(a, a + part.len()) =~= part);
    assert(text.subrange(a + b, a + b + end.len()) =~= end);
    assert(text.skip(text.len() - end.len()) =~= end);
}

/// What a text holds is in every longer one.
pub proof fn lemma_longer_holds(text: Seq<char>, more: Seq<char>, part: Seq<char>)
    requires
        holds(text, part),
    ensures
        holds(text + more, part),
{
    let at = choose|at: int|
        0 <= at && at + part.len() <= text.len() && #[trigger] text.subrange(
            at,
            at + part.len(),
        ) == part;
    assert((text + more).subrange(at, at + part.len()) =~= text.subrange(at, at + part.len()));
}

/// The text of one decimal digit.
fn digit_text(d: u64) -> (r: &'static str)
    requires
        d < 10,
    ensures
        r@ == seq![digit(d as int)],
{
    proof {
        reveal_strlit("0");
        reveal_strlit("1");
        reveal_strlit("2");
        reveal_strlit("3");
        reveal_strlit("4");
        reveal_strlit("5");
        reveal_strlit("6");
        reveal_strlit("7");
        reveal_strlit("8");
        reveal_strlit("9");
    }
    match d {
        0 => "0",
        1 => "1",
        2 => "2",
        3 => "3",
        4 => "4",
        5 => "5",
        6 => "6",
        7 => "7",
        8 => "8",
        _ => "9",
    }
}

/// Appends an unsigned number in decimal notation.
pub fn append_unsigned(out: &mut String, n: u64)
    ensures
        final(out)@ == old(out)@ + decimal(n as int),
    decreases n,
{
    if n >= 10 {
        append_unsigned(out, n / 10);
    }
    out.append(digit_text(n % 10));
    assert(out@ =~= old(out)@ + digits(n as nat));
}

/// Appends a signed number in decimal notation.
pub fn append_signed(out: &mut String, n: i64)
    ensures
        final(out)@ == old(out)@ + decimal(n as int),
{
    if n < 0 {
        proof {
            reveal_strlit("-");
        }
        out.append("-");
        let magnitude: u64 = if n == i64::MIN {
            0x8000_0000_0000_0000u64
        } else {
            (-n) as u64
        };
        append_unsigned(out, magnitude);
        assert(out@ =~= old(out)@ + decimal(n as int));
    } else {
        append_unsigned(out, n as u64);
    }
}

} // verus!
