//! String formatting for progress display.

use vstd::prelude::*;
use crate::calculator::progress_core::{
    ProgressPercentage, calculate_percentage, percentage_of,
};
use crate::text::{
    decimal, one_decimal, pad_left, push_char, append_str, write_decimal, write_padded,
    write_one_decimal, digit_char,
};

verus! {

/// Display of a percentage: one decimal, right-aligned to five characters, then `%`
/// (" 45.0%", "100.0%"); "  ---" when indeterminate.
pub open spec fn percentage_display(progress: ProgressPercentage) -> Seq<char> {
    match progress.value_tenths {
        Some(t) => pad_left(one_decimal(t as nat), 5) + seq!['%'],
        None => seq![' ', ' ', '-', '-', '-'],
    }
}

/// Format a percentage for display, e.g. " 45.0%", "100.0%", or "  ---".
pub fn format_percentage(progress: &ProgressPercentage) -> (s: String)
    ensures
        s@ == percentage_display(*progress),
{
    match progress.value_tenths {
        Some(t) => {
            let mut number = String::new();
            write_one_decimal(&mut number, t);
            let mut out = String::new();
            write_padded(&mut out, &number, 5);
            push_char(&mut out, '%');
            assert(out@ =~= percentage_display(*progress));
            out
        },
        None => {
            let mut out = String::new();
            push_char(&mut out, ' ');
            push_char(&mut out, ' ');
            push_char(&mut out, '-');
            push_char(&mut out, '-');
            push_char(&mut out, '-');
            assert(out@ =~= percentage_display(*progress));
            out
        },
    }
}

/// The whole percentage: the tenths rounded to units, halves up ("45%", "100%"),
/// or "---" for an unknown total.
pub open spec fn rounded_percentage_display(downloaded: u64, total: u64) -> Seq<char> {
    match percentage_of(downloaded, total).value_tenths {
        Some(t) => decimal(((t + 5) / 10) as nat) + seq!['%'],
        None => seq!['-', '-', '-'],
    }
}

/// Get the percentage as a rounded string, e.g. "45%", "100%", "---".
pub fn get_percentage_rounded_str(downloaded: u64, total: u64) -> (s: String)
    ensures
        s@ == rounded_percentage_display(downloaded, total),
{
    let progress = calculate_percentage(downloaded, total);
    let mut out = String::new();
    match progress.value_tenths {
        Some(t) => {
            proof {
                if total > 0 && downloaded < total {
                    crate::calculator::progress_core::lemma_rounded_tenths_bound(
                        downloaded as nat,
                        total as nat,
                    );
                }
            }
            write_decimal(&mut out, (t + 5) / 10);
            push_char(&mut out, '%');
        },
        None => {
            push_char(&mut out, '-');
            push_char(&mut out, '-');
            push_char(&mut out, '-');
        },
    }
    assert(out@ =~= rounded_percentage_display(downloaded, total));
    out
}

/// `label`, a space, and the percentage in parentheses: "Overall ( 45.2%)" or
/// "Overall (  ---)".
pub open spec fn labelled_percentage_display(label: Seq<char>, downloaded: u64, total: u64) -> Seq<char> {
    match percentage_of(downloaded, total).value_tenths {
        Some(t) => label + seq![' ', '('] + pad_left(one_decimal(t as nat), 5) + seq!['%', ')'],
        None => label + seq![' ', '(', ' ', ' ', '-', '-', '-', ')'],
    }
}

/// Get the percentage with a label in parentheses, e.g. "Overall Progress ( 45.2%)".
pub fn get_percentage_with_parens_str(label: &str, downloaded: u64, total: u64) -> (s: String)
    ensures
        s@ == labelled_percentage_display(label@, downloaded, total),
{
    let progress = calculate_percentage(downloaded, total);
    let mut out = String::new();
    append_str(&mut out, label);
    push_char(&mut out, ' ');
    push_char(&mut out, '(');
    match progress.value_tenths {
        Some(t) => {
            let mut number = String::new();
            write_one_decimal(&mut number, t);
            write_padded(&mut out, &number, 5);
            push_char(&mut out, '%');
        },
        None => {
            push_char(&mut out, ' ');
            push_char(&mut out, ' ');
            push_char(&mut out, '-');
            push_char(&mut out, '-');
            push_char(&mut out, '-');
        },
    }
    push_char(&mut out, ')');
    assert(out@ =~= labelled_percentage_display(label@, downloaded, total));
    out
}

/// "Remaining: {models} ■ Models | {files} ▫ Files".
pub open spec fn remaining_display(models_count: nat, files_count: nat) -> Seq<char> {
    seq!['R', 'e', 'm', 'a', 'i', 'n', 'i', 'n', 'g', ':', ' '] + decimal(models_count)
        + seq![' ', '■', ' ', 'M', 'o', 'd', 'e', 'l', 's', ' ', '|', ' '] + decimal(files_count)
        + seq![' ', '▫', ' ', 'F', 'i', 'l', 'e', 's']
}

/// Format the remaining models and files display.
pub fn format_remaining_models_and_files(models_count: usize, files_count: usize) -> (s: String)
    ensures
        s@ == remaining_display(models_count as nat, files_count as nat),
{
    let mut out = String::new();
    let head = "Remaining: ";
    let mid = " ■ Models | ";
    let tail = " ▫ Files";
    proof {
        reveal_strlit("Remaining: ");
        reveal_strlit(" ■ Models | ");
        reveal_strlit(" ▫ Files");
    }
    append_str(&mut out, head);
    write_decimal(&mut out, models_count as u64);
    append_str(&mut out, mid);
    write_decimal(&mut out, files_count as u64);
    append_str(&mut out, tail);
    assert(head@ =~= seq!['R', 'e', 'm', 'a', 'i', 'n', 'i', 'n', 'g', ':', ' ']);
    assert(mid@ =~= seq![' ', '■', ' ', 'M', 'o', 'd', 'e', 'l', 's', ' ', '|', ' ']);
    assert(tail@ =~= seq![' ', '▫', ' ', 'F', 'i', 'l', 'e', 's']);
    assert(out@ =~= remaining_display(models_count as nat, files_count as nat));
    out
}

} // verus!

verus! {

/// `1024` raised to the power `k`.
pub open spec fn pow1024(k: nat) -> nat
    decreases k,
{
    if k == 0 {
        1
    } else {
        1024 * pow1024((k - 1) as nat)
    }
}

/// `10` raised to the power `p`.
pub open spec fn pow10(p: nat) -> nat
    decreases p,
{
    if p == 0 {
        1
    } else {
        10 * pow10((p - 1) as nat)
    }
}

/// Index into B, KB, MB, GB, TB: the largest `k <= 4` with `1024^k <= bytes`.
pub open spec fn unit_index(bytes: nat) -> nat {
    if bytes >= pow1024(4) {
        4
    } else if bytes >= pow1024(3) {
        3
    } else if bytes >= pow1024(2) {
        2
    } else if bytes >= pow1024(1) {
        1
    } else {
        0
    }
}

/// The unit names B, KB, MB, GB, TB.
pub open spec fn unit_name(k: nat) -> Seq<char> {
    if k == 0 {
        seq!['B']
    } else if k == 1 {
        seq!['K', 'B']
    } else if k == 2 {
        seq!['M', 'B']
    } else if k == 3 {
        seq!['G', 'B']
    } else {
        seq!['T', 'B']
    }
}

/// `num / den` rounded to the nearest integer, halves to the even neighbour.
pub open spec fn round_half_even(num: nat, den: nat) -> nat
    recommends
        den > 0,
{
    let q = num / den;
    let r = num % den;
    if 2 * r > den {
        q + 1
    } else if 2 * r == den && q % 2 == 1 {
        q + 1
    } else {
        q
    }
}

/// Decimal places shown for a value `bytes / den`: none from 100 up, one from 10 up, else two.
pub open spec fn decimals_for(bytes: nat, den: nat) -> nat {
    if bytes >= 100 * den {
        0
    } else if bytes >= 10 * den {
        1
    } else {
        2
    }
}

/// `n / 10^p` rendered with exactly `p` (0, 1 or 2) decimal places.
pub open spec fn fixed_point(n: nat, p: nat) -> Seq<char> {
    if p == 0 {
        decimal(n)
    } else if p == 1 {
        one_decimal(n)
    } else {
        decimal(n / 100) + seq!['.', digit_char((n / 10) % 10), digit_char(n % 10)]
    }
}

/// Human-readable byte count: plain bytes below 1 KiB ("512 B"), otherwise the value
/// in the largest unit up to TB that does not exceed it, with 0, 1 or 2 decimals
/// for values from 100, from 10, or below 10 ("1.00 KB", "45.6 MB", "120 GB").
pub open spec fn bytes_display(bytes: nat) -> Seq<char> {
    if bytes < 1024 {
        decimal(bytes) + seq![' ', 'B']
    } else {
        let k = unit_index(bytes);
        let den = pow1024(k);
        let p = decimals_for(bytes, den);
        fixed_point(round_half_even(bytes * pow10(p), den), p) + seq![' '] + unit_name(k)
    }
}

fn write_fixed_point(out: &mut String, n: u64, p: u64)
    requires
        p <= 2,
    ensures
        final(out)@ == old(out)@ + fixed_point(n as nat, p as nat),
{
    if p == 0 {
        write_decimal(out, n);
    } else if p == 1 {
        write_one_decimal(out, n);
    } else {
        write_decimal(out, n / 100);
        push_char(out, '.');
        let c1 = crate::text::digit_to_char((n / 10) % 10);
        push_char(out, c1);
        let c2 = crate::text::digit_to_char(n % 10);
        push_char(out, c2);
        assert(final(out)@ =~= old(out)@ + fixed_point(n as nat, p as nat));
    }
}

/// Format a byte count for display with an appropriate unit.
pub fn format_bytes(bytes: u64) -> (s: String)
    ensures
        s@ == bytes_display(bytes as nat),
{
    let mut out = String::new();
    if bytes < 1024 {
        write_decimal(&mut out, bytes);
        push_char(&mut out, ' ');
        push_char(&mut out, 'B');
        assert(out@ =~= bytes_display(bytes as nat));
        return out;
    }
    proof {
        reveal_with_fuel(pow1024, 5);
        reveal_with_fuel(pow10, 3);
    }
    assert(pow1024(1) == 1024);
    assert(pow1024(2) == 1048576);
    assert(pow1024(3) == 1073741824);
    assert(pow1024(4) == 1099511627776);
    let k: u64;
    let den: u128;
    if bytes >= 1099511627776 {
        k = 4;
        den = 1099511627776;
    } else if bytes >= 1073741824 {
        k = 3;
        den = 1073741824;
    } else if bytes >= 1048576 {
        k = 2;
        den = 1048576;
    } else {
        k = 1;
        den = 1024;
    }
    assert(k == unit_index(bytes as nat));
    assert(den == pow1024(k as nat));
    let b: u128 = bytes as u128;
    let p: u64;
    let scale: u128;
    if b >= 100 * den {
        p = 0;
        scale = 1;
    } else if b >= 10 * den {
        p = 1;
        scale = 10;
    } else {
        p = 2;
        scale = 100;
    }
    assert(p == decimals_for(bytes as nat, den as nat));
    assert(scale == pow10(p as nat));
    let num: u128 = b * scale;
    let q: u128 = num / den;
    let r: u128 = num % den;
    assert(q <= num / 1024) by {
        assert(num / den <= num / 1024) by (nonlinear_arith)
            requires
                den >= 1024,
        {
            vstd::arithmetic::div_mod::lemma_div_is_ordered_by_denominator(num as int, 1024, den as int);
        }
    }
    assert(num / 1024 <= 18446744073709551615u128 * 100 / 1024) by (nonlinear_arith)
        requires
            num <= 18446744073709551615u128 * 100,
    {
        vstd::arithmetic::div_mod::lemma_div_is_ordered(num as int, 1844674407370955161500int, 1024);
    }
    let n: u128 = if 2 * r > den {
        q + 1
    } else if 2 * r == den && q % 2 == 1 {
        q + 1
    } else {
        q
    };
    assert(n == round_half_even((bytes as nat) * pow10(p as nat), den as nat));
    write_fixed_point(&mut out, n as u64, p);
    push_char(&mut out, ' ');
    if k == 1 {
        push_char(&mut out, 'K');
    } else if k == 2 {
        push_char(&mut out, 'M');
    } else if k == 3 {
        push_char(&mut out, 'G');
    } else {
        push_char(&mut out, 'T');
    }
    push_char(&mut out, 'B');
    assert(out@ =~= bytes_display(bytes as nat));
    out
}

} // verus!
