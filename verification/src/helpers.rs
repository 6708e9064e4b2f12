use vstd::prelude::*;
use vstd::string::StringExecFns;

verus! {

/// The decimal digit character for a value below ten.
pub open spec fn spec_decimal_digit(n: int) -> char {
    if n == 0 { '0' }
    else if n == 1 { '1' }
    else if n == 2 { '2' }
    else if n == 3 { '3' }
    else if n == 4 { '4' }
    else if n == 5 { '5' }
    else if n == 6 { '6' }
    else if n == 7 { '7' }
    else if n == 8 { '8' }
    else { '9' }
}

/// The decimal numeral of a number, most significant digit first.
pub open spec fn spec_decimal(n: int) -> Seq<char>
    decreases n,
{
    if n < 10 {
        seq![spec_decimal_digit(n)]
    } else {
        spec_decimal(n / 10).push(spec_decimal_digit(n % 10))
    }
}

/// Renders a number as its decimal numeral.
pub fn decimal_string(n: u64) -> (s: String)
    ensures
        s@ == spec_decimal(n as int),
    decreases n,
{
    let digit: &str = if n % 10 == 0 { "0" }
        else if n % 10 == 1 { "1" }
        else if n % 10 == 2 { "2" }
        else if n % 10 == 3 { "3" }
        else if n % 10 == 4 { "4" }
        else if n % 10 == 5 { "5" }
        else if n % 10 == 6 { "6" }
        else if n % 10 == 7 { "7" }
        else if n % 10 == 8 { "8" }
        else { "9" };
    proof {
        reveal_strlit("0");
        reveal_strlit("1");
        reveal_strlit("2");
        reveal_strlit("3");
        reveal_strlit("4");
        reveal_strlit("5");
        reveal_strlit("6");
        reveal_strlit("7");
        reveal_strlit("8");
        reveal_strlit("9");
        assert(digit@ =~= seq![spec_decimal_digit(n as int % 10)]);
    }
    if n < 10 {
        proof {
            assert(n as int % 10 == n as int);
        }
        digit.to_owned()
    } else {
        let prefix = decimal_string(n / 10);
        let s = prefix.concat(digit);
        proof {
            assert(s@ =~= spec_decimal(n as int));
        }
        s
    }
}

/// A threshold is acceptable for a signer set when it demands at least one
/// approval and no more approvals than there are signers.
pub open spec fn spec_valid_threshold(threshold: u8, len_signers: int) -> bool {
    threshold > 0 && threshold as int <= len_signers
}

/// A pending transaction has gathered enough approvals once its signer list
/// is at least as long as the configured threshold.
pub open spec fn spec_sufficient_signers(threshold: u8, len_signers: int) -> bool {
    threshold as int <= len_signers
}

/// The textual form of a boolean value.
pub open spec fn spec_bool_chars(b: bool) -> Seq<char> {
    if b {
        "true"@
    } else {
        "false"@
    }
}

/// Renders a boolean value as text.
pub fn bool_string(b: bool) -> (s: String)
    ensures
        s@ == spec_bool_chars(b),
{
    if b {
        "true".to_owned()
    } else {
        "false".to_owned()
    }
}

pub fn is_valid_threshold(threshold: u8, len_signers: usize) -> (r: bool)
    ensures
        r == spec_valid_threshold(threshold, len_signers as int),
{
    threshold > 0 && threshold as usize <= len_signers
}

pub fn is_sufficient_signers(threshold: u8, len_signers: usize) -> (r: bool)
    ensures
        r == spec_sufficient_signers(threshold, len_signers as int),
{
    threshold as usize <= len_signers
}

} // verus!
