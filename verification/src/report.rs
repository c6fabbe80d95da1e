use vstd::prelude::*;

verus! {

use vstd::string::StringExecFns;

use crate::model::{Amount, ProvenanceRecord, SATS_PER_COIN};

/// The character for one decimal digit.
pub open spec fn spec_digit(d: int) -> char {
    if d == 0 {
        '0'
    } else if d == 1 {
        '1'
    } else if d == 2 {
        '2'
    } else if d == 3 {
        '3'
    } else if d == 4 {
        '4'
    } else if d == 5 {
        '5'
    } else if d == 6 {
        '6'
    } else if d == 7 {
        '7'
    } else if d == 8 {
        '8'
    } else {
        '9'
    }
}

/// The usual decimal rendering of a non-negative integer: no sign and no
/// leading zeroes, except that zero itself renders as one digit.
pub open spec fn spec_decimal(n: nat) -> Seq<char>
    decreases n,
{
    if n < 10 {
        seq![spec_digit(n as int)]
    } else {
        spec_decimal(n / 10).push(spec_digit((n % 10) as int))
    }
}

/// A non-negative integer rendered in exactly `width` decimal digits,
/// zero-padded on the left.
pub open spec fn spec_padded(n: nat, width: nat) -> Seq<char>
    decreases width,
{
    if width == 0 {
        Seq::empty()
    } else {
        spec_padded(n / 10, (width - 1) as nat).push(spec_digit((n % 10) as int))
    }
}

/// An amount rendered as whole coins, a decimal point, and exactly eight
/// fractional digits.
pub open spec fn spec_amount_text(sats: int) -> Seq<char> {
    spec_decimal((sats / (SATS_PER_COIN as int)) as nat) + seq!['.'] + spec_padded(
        (sats % (SATS_PER_COIN as int)) as nat,
        8,
    )
}

/// One line of the report: the field's text followed by a newline. An
/// absent address renders as an empty line.
pub open spec fn spec_line(s: Seq<char>) -> Seq<char> {
    s + seq!['\n']
}

/// The full report artifact: ten lines in this fixed order — transaction
/// id, funding address, funding amount, recipient address, recipient
/// amount, change address, change amount, fee, block height, block hash.
pub open spec fn spec_report_text(rec: ProvenanceRecord) -> Seq<char> {
    spec_line(rec.transaction_id@) + spec_line(rec.funding_address@) + spec_line(
        spec_amount_text(rec.funding_amount.sats as int),
    ) + spec_line(rec.recipient_address@) + spec_line(
        spec_amount_text(rec.recipient_amount.sats as int),
    ) + spec_line(rec.change_address@) + spec_line(
        spec_amount_text(rec.change_amount.sats as int),
    ) + spec_line(spec_amount_text(rec.fee.sats as int)) + spec_line(
        spec_decimal(rec.block_height as nat),
    ) + spec_line(rec.block_hash@)
}

/// The text for one decimal digit.
fn digit_str(d: u64) -> (s: &'static str)
    requires
        d < 10,
    ensures
        s@ == seq![spec_digit(d as int)],
{
    proof {
        reveal_strlit("0");
        reveal_strlit("1");
        reveal_strlit("2");
        reveal_strlit("3");
        reveal_strlit("4");
        reveal_strlit("5");
        reveal_strlit("6");
        reveal_strlit("7");
        reveal_strlit("8");
        reveal_strlit("9");
        assert("0"@ =~= seq!['0']);
        assert("1"@ =~= seq!['1']);
        assert("2"@ =~= seq!['2']);
        assert("3"@ =~= seq!['3']);
        assert("4"@ =~= seq!['4']);
        assert("5"@ =~= seq!['5']);
        assert("6"@ =~= seq!['6']);
        assert("7"@ =~= seq!['7']);
        assert("8"@ =~= seq!['8']);
        assert("9"@ =~= seq!['9']);
    }
    if d == 0 {
        "0"
    } else if d == 1 {
        "1"
    } else if d == 2 {
        "2"
    } else if d == 3 {
        "3"
    } else if d == 4 {
        "4"
    } else if d == 5 {
        "5"
    } else if d == 6 {
        "6"
    } else if d == 7 {
        "7"
    } else if d == 8 {
        "8"
    } else {
        "9"
    }
}

/// The characters for a digit vector held least-significant first, read
/// back most-significant first.
pub open spec fn spec_digits_msf(ds: Seq<u64>) -> Seq<char>
    decreases ds.len(),
{
    if ds.len() == 0 {
        Seq::empty()
    } else {
        seq![spec_digit(ds.last() as int)] + spec_digits_msf(ds.drop_last())
    }
}

proof fn lemma_digits_msf_len(ds: Seq<u64>)
    ensures
        spec_digits_msf(ds).len() == ds.len(),
    decreases ds.len(),
{
    if ds.len() > 0 {
        lemma_digits_msf_len(ds.drop_last());
    }
}

proof fn lemma_digits_msf_index(ds: Seq<u64>, i: int)
    requires
        0 <= i < ds.len(),
    ensures
        spec_digits_msf(ds)[i] == spec_digit(ds[ds.len() - 1 - i] as int),
    decreases ds.len(),
{
    lemma_digits_msf_len(ds.drop_last());
    if i > 0 {
        lemma_digits_msf_index(ds.drop_last(), i - 1);
        assert(ds.drop_last()[ds.len() - 1 - i] == ds[ds.len() - 1 - i]);
    }
}

/// Renders a digit vector held least-significant first into text, most
/// significant digit first.
fn digits_to_string(digits: &Vec<u64>) -> (s: String)
    requires
        forall|k: int| 0 <= k < digits@.len() ==> digits@[k] < 10,
    ensures
        s@ == spec_digits_msf(digits@),
{
    let mut s = String::new();
    let n = digits.len();
    let mut i: usize = 0;
    while i < n
        invariant
            n == digits@.len(),
            i <= n,
            forall|k: int| 0 <= k < digits@.len() ==> digits@[k] < 10,
            s@ == spec_digits_msf(digits@).take(i as int),
        decreases n - i,
    {
        proof {
            lemma_digits_msf_len(digits@);
            lemma_digits_msf_index(digits@, i as int);
        }
        let d = digits[n - 1 - i];
        s.append(digit_str(d));
        proof {
            assert(s@ =~= spec_digits_msf(digits@).take(i + 1));
        }
        i = i + 1;
    }
    proof {
        lemma_digits_msf_len(digits@);
        assert(spec_digits_msf(digits@).take(n as int) =~= spec_digits_msf(digits@));
    }
    s
}

/// Renders a non-negative integer in decimal.
pub fn u64_to_decimal(n: u64) -> (s: String)
    ensures
        s@ == spec_decimal(n as nat),
{
    let mut digits: Vec<u64> = Vec::new();
    let mut cur: u64 = n;
    proof {
        assert(spec_decimal(n as nat) =~= spec_decimal(cur as nat) + spec_digits_msf(digits@));
    }
    while cur >= 10
        invariant
            spec_decimal(n as nat) == spec_decimal(cur as nat) + spec_digits_msf(digits@),
            forall|k: int| 0 <= k < digits@.len() ==> digits@[k] < 10,
        decreases cur,
    {
        let ghost pre = digits@;
        let d = cur % 10;
        digits.push(d);
        proof {
            assert(digits@.drop_last() =~= pre);
            assert(spec_decimal(n as nat) =~= spec_decimal((cur / 10) as nat) + spec_digits_msf(
                digits@,
            ));
        }
        cur = cur / 10;
    }
    let ghost pre = digits@;
    digits.push(cur);
    proof {
        assert(digits@.drop_last() =~= pre);
        assert(spec_decimal(n as nat) =~= spec_digits_msf(digits@));
    }
    digits_to_string(&digits)
}

/// Renders the low `width` decimal digits of an integer, zero-padded on
/// the left to exactly `width` digits.
fn pad_decimal(n: u64, width: usize) -> (s: String)
    ensures
        s@ == spec_padded(n as nat, width as nat),
{
    let mut digits: Vec<u64> = Vec::new();
    let mut cur: u64 = n;
    proof {
        assert(spec_padded(n as nat, width as nat) =~= spec_padded(
            cur as nat,
            (width - digits@.len()) as nat,
        ) + spec_digits_msf(digits@));
    }
    while digits.len() < width
        invariant
            digits@.len() <= width,
            spec_padded(n as nat, width as nat) == spec_padded(
                cur as nat,
                (width - digits@.len()) as nat,
            ) + spec_digits_msf(digits@),
            forall|k: int| 0 <= k < digits@.len() ==> digits@[k] < 10,
        decreases width - digits@.len(),
    {
        let ghost pre = digits@;
        let d = cur % 10;
        digits.push(d);
        proof {
            assert(digits@.drop_last() =~= pre);
            assert(spec_padded(n as nat, width as nat) =~= spec_padded(
                (cur / 10) as nat,
                (width - digits@.len()) as nat,
            ) + spec_digits_msf(digits@));
        }
        cur = cur / 10;
    }
    proof {
        assert(spec_padded(n as nat, width as nat) =~= spec_digits_msf(digits@));
    }
    digits_to_string(&digits)
}

/// Renders an amount as whole coins, a decimal point, and exactly eight
/// fractional digits.
pub fn format_amount(a: Amount) -> (s: String)
    ensures
        s@ == spec_amount_text(a.sats as int),
{
    let whole = a.sats / SATS_PER_COIN;
    let frac = a.sats % SATS_PER_COIN;
    let mut s = u64_to_decimal(whole);
    s.append(".");
    let frac_text = pad_decimal(frac, 8);
    s.append(frac_text.as_str());
    proof {
        reveal_strlit(".");
        assert("."@ =~= seq!['.']);
        assert(s@ =~= spec_amount_text(a.sats as int));
    }
    s
}

/// Renders a resolved record as the report artifact: ten lines in fixed
/// order, each terminated by a newline, with amounts carrying exactly
/// eight fractional digits and the fee already a non-negative magnitude.
/// Writing the text to its destination is the caller's concern; the
/// record is rendered whole or not at all.
pub fn render_report(rec: &ProvenanceRecord) -> (s: String)
    ensures
        s@ == spec_report_text(*rec),
{
    let mut s = String::new();
    s.append(rec.transaction_id.as_str());
    s.append("\n");
    s.append(rec.funding_address.as_str());
    s.append("\n");
    let funding_text = format_amount(rec.funding_amount);
    s.append(funding_text.as_str());
    s.append("\n");
    s.append(rec.recipient_address.as_str());
    s.append("\n");
    let recipient_text = format_amount(rec.recipient_amount);
    s.append(recipient_text.as_str());
    s.append("\n");
    s.append(rec.change_address.as_str());
    s.append("\n");
    let change_text = format_amount(rec.change_amount);
    s.append(change_text.as_str());
    s.append("\n");
    let fee_text = format_amount(rec.fee);
    s.append(fee_text.as_str());
    s.append("\n");
    let height_text = u64_to_decimal(rec.block_height);
    s.append(height_text.as_str());
    s.append("\n");
    s.append(rec.block_hash.as_str());
    s.append("\n");
    proof {
        reveal_strlit("\n");
        assert("\n"@ =~= seq!['\n']);
        assert(s@ =~= spec_report_text(*rec));
    }
    s
}

} // verus!
