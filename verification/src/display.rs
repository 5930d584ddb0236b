//! Texts shown to the user: the countdown and the tray tooltips.
use vstd::prelude::*;
use vstd::string::*;
use crate::text::string_from_chars;
use crate::timer::Tooltip;
use crate::numbers::{all_digits, digit_value, digits_value, is_digit};

verus! {

/// The character of a decimal digit.
pub open spec fn digit_char(d: nat) -> char {
    if d == 0 {
        '0'
    } else if d == 1 {
        '1'
    } else if d == 2 {
        '2'
    } else if d == 3 {
        '3'
    } else if d == 4 {
        '4'
    } else if d == 5 {
        '5'
    } else if d == 6 {
        '6'
    } else if d == 7 {
        '7'
    } else if d == 8 {
        '8'
    } else {
        '9'
    }
}

/// The decimal digits of `n`, without leading zeros.
pub open spec fn decimal(n: nat) -> Seq<char>
    decreases n,
{
    if n < 10 {
        seq![digit_char(n)]
    } else {
        decimal(n / 10).push(digit_char(n % 10))
    }
}

/// `n` in decimal, padded with a leading zero to at least two digits (as
/// `{:02}` formats it).
pub open spec fn two_digits(n: nat) -> Seq<char> {
    if n < 10 {
        seq!['0', digit_char(n)]
    } else {
        decimal(n)
    }
}

/// The remaining time as minutes and seconds, `MM:SS`.
pub open spec fn countdown(secs: nat) -> Seq<char> {
    two_digits(secs / 60) + seq![':'] + two_digits(secs % 60)
}

/// The tray tooltip text for a tooltip.
pub open spec fn tooltip_chars(t: Tooltip) -> Seq<char> {
    match t {
        Tooltip::NotStarted => "转转 - 未开始"@,
        Tooltip::Countdown(secs) => "转转 - 距下次放松 "@ + countdown(secs as nat),
        Tooltip::Relaxing => "转转 - 放松中..."@,
    }
}

fn digit(d: u64) -> (c: char)
    requires
        d < 10,
    ensures
        c == digit_char(d as nat),
{
    if d == 0 {
        '0'
    } else if d == 1 {
        '1'
    } else if d == 2 {
        '2'
    } else if d == 3 {
        '3'
    } else if d == 4 {
        '4'
    } else if d == 5 {
        '5'
    } else if d == 6 {
        '6'
    } else if d == 7 {
        '7'
    } else if d == 8 {
        '8'
    } else {
        '9'
    }
}

/// Appends the decimal digits of `n`.
pub(crate) fn push_decimal(out: &mut Vec<char>, n: u64)
    ensures
        final(out)@ == old(out)@ + decimal(n as nat),
    decreases n,
{
    if n >= 10 {
        push_decimal(out, n / 10);
    }
    out.push(digit(n % 10));
    proof {
        if n >= 10 {
            assert(old(out)@ + decimal(n as nat) =~= old(out)@ + decimal((n / 10) as nat) + seq![
                digit_char((n % 10) as nat),
            ]);
        }
    }
}

/// Appends `n` with at least two digits.
fn push_two_digits(out: &mut Vec<char>, n: u64)
    ensures
        final(out)@ == old(out)@ + two_digits(n as nat),
{
    if n < 10 {
        out.push('0');
    }
    push_decimal(out, n);
    proof {
        if n < 10 {
            assert(old(out)@.push('0') + decimal(n as nat) =~= old(out)@ + two_digits(n as nat));
        }
    }
}

/// The remaining time as `MM:SS`: whole minutes and the seconds left over,
/// each with at least two digits.
pub fn countdown_text(secs: u64) -> (res: String)
    ensures
        res@ == countdown(secs as nat),
{
    let mut out: Vec<char> = Vec::new();
    push_two_digits(&mut out, secs / 60);
    out.push(':');
    push_two_digits(&mut out, secs % 60);
    proof {
        assert(out@ =~= countdown(secs as nat));
    }
    string_from_chars(&out)
}

/// The text of a tray tooltip.
pub fn tooltip_text(t: Tooltip) -> (res: String)
    ensures
        res@ == tooltip_chars(t),
{
    match t {
        Tooltip::NotStarted => String::from_str("转转 - 未开始"),
        Tooltip::Countdown(secs) => {
            let mut out = String::from_str("转转 - 距下次放松 ");
            let c = countdown_text(secs);
            out.append(c.as_str());
            out
        },
        Tooltip::Relaxing => String::from_str("转转 - 放松中..."),
    }
}

/// `f` is `n` written in decimal with at least two digits, as `{:02}`
/// writes it: digits only, reading back as `n`, and a leading zero only where
/// it pads to two digits.
pub open spec fn is_padded_field(f: Seq<char>, n: nat) -> bool {
    &&& f.len() >= 2
    &&& all_digits(f)
    &&& digits_value(f) == n
    &&& f.len() > 2 ==> f[0] != '0'
}

proof fn lemma_digit_char(d: nat)
    requires
        d < 10,
    ensures
        is_digit(digit_char(d)),
        digit_value(digit_char(d)) == d,
        d >= 1 ==> digit_char(d) != '0',
{
}

proof fn lemma_digits_push(s: Seq<char>, c: char)
    ensures
        digits_value(s.push(c)) == digits_value(s) * 10 + digit_value(c),
        all_digits(s) && is_digit(c) ==> all_digits(s.push(c)),
{
    assert(s.push(c).drop_last() =~= s);
}

/// The decimal digits of `n` are digits that read back as `n`, with no
/// leading zero, one of them exactly when `n` is below ten.
pub proof fn lemma_decimal_reads_back(n: nat)
    ensures
        all_digits(decimal(n)),
        digits_value(decimal(n)) == n,
        decimal(n).len() >= 1,
        (decimal(n).len() == 1) <==> n < 10,
        n >= 1 ==> decimal(n)[0] != '0',
    decreases n,
{
    if n < 10 {
        lemma_digit_char(n);
        assert(seq![digit_char(n)] =~= Seq::<char>::empty().push(digit_char(n)));
        lemma_digits_push(Seq::<char>::empty(), digit_char(n));
    } else {
        lemma_decimal_reads_back(n / 10);
        lemma_digit_char(n % 10);
        lemma_digits_push(decimal(n / 10), digit_char(n % 10));
    }
}

proof fn lemma_two_digits_field(n: nat)
    ensures
        is_padded_field(two_digits(n), n),
        n < 100 ==> two_digits(n).len() == 2,
{
    lemma_decimal_reads_back(n);
    if n < 10 {
        lemma_digit_char(n);
        assert(seq!['0', digit_char(n)] =~= seq!['0'].push(digit_char(n)));
        assert(seq!['0'] =~= Seq::<char>::empty().push('0'));
        lemma_digits_push(Seq::<char>::empty(), '0');
        lemma_digits_push(seq!['0'], digit_char(n));
    } else if n < 100 {
        lemma_decimal_reads_back(n / 10);
    }
}

/// The countdown for `secs` seconds is the whole minutes `secs / 60` (never
/// wrapped at an hour), a colon, and the seconds left over `secs % 60`, each
/// written in decimal padded to at least two digits with no other leading
/// zero; the seconds always take exactly two.
pub proof fn lemma_countdown_fields(secs: nat)
    ensures
        ({
            let t = countdown(secs);
            &&& t.len() >= 5
            &&& t[t.len() - 3] == ':'
            &&& is_padded_field(t.take(t.len() - 3), secs / 60)
            &&& is_padded_field(t.skip(t.len() - 2), secs % 60)
        }),
{
    lemma_two_digits_field(secs / 60);
    lemma_two_digits_field(secs % 60);
    let a = two_digits(secs / 60);
    let b = two_digits(secs % 60);
    let t = countdown(secs);
    assert(t == a + seq![':'] + b);
    assert(t.take(t.len() - 3) =~= a);
    assert(t.skip(t.len() - 2) =~= b);
}

/// The tooltip for the time left is the fixed text followed by exactly the
/// countdown the window shows for the same number of seconds: whole minutes
/// (not wrapped at an hour), a colon and the seconds.
pub proof fn lemma_countdown_tooltip(secs: u64)
    ensures
        ({
            let prefix = "转转 - 距下次放松 "@;
            let t = tooltip_chars(Tooltip::Countdown(secs));
            let c = t.skip(prefix.len() as int);
            &&& t.take(prefix.len() as int) == prefix
            &&& c == countdown(secs as nat)
            &&& c[c.len() - 3] == ':'
            &&& is_padded_field(c.take(c.len() - 3), secs as nat / 60)
            &&& is_padded_field(c.skip(c.len() - 2), secs as nat % 60)
        }),
{
    let prefix = "转转 - 距下次放松 "@;
    let t = tooltip_chars(Tooltip::Countdown(secs));
    assert(t.take(prefix.len() as int) =~= prefix);
    assert(t.skip(prefix.len() as int) =~= countdown(secs as nat));
    lemma_countdown_fields(secs as nat);
}

} // verus!
