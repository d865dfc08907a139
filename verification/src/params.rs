//! Scanning a command line for named parameter values: pure logic over the
//! argument list, so a driver only has to report the failures.

use vstd::prelude::*;

verus! {

/// The digit part of a parameter text: everything after an optional
/// leading plus sign.
pub open spec fn spec_digit_part(s: Seq<char>) -> Seq<char> {
    if s.len() >= 1 && s[0] == '+' {
        s.skip(1)
    } else {
        s
    }
}

/// A character sequence spells an unsigned decimal number, optionally led
/// by a plus sign.
pub open spec fn spec_is_decimal(s: Seq<char>) -> bool {
    &&& spec_digit_part(s).len() > 0
    &&& forall|i: int|
        0 <= i < spec_digit_part(s).len() ==> '0' <= #[trigger] spec_digit_part(s)[i] <= '9'
}

/// The number a digit sequence spells.
pub open spec fn spec_decimal_value(s: Seq<char>) -> int
    decreases s.len(),
{
    if s.len() == 0 {
        0
    } else {
        spec_decimal_value(s.drop_last()) * 10 + (s.last() as int - '0' as int)
    }
}

/// The numeric value of a parameter text: the spelled number, sign prefix
/// dropped.
pub open spec fn spec_parsed(s: Seq<char>) -> int {
    spec_decimal_value(spec_digit_part(s))
}

/// Finds the value that follows the last occurrence of `name` among the
/// arguments (the last argument is never an occurrence: it has no value
/// after it). Returns `None` when the parameter does not occur.
pub fn get_parameter(name: &str, args: Vec<String>) -> (r: Option<String>)
    ensures
        r is None ==> forall|j: int| 0 <= j < args@.len() - 1 ==> args@[j]@ != name@,
        r matches Some(value) ==> exists|j: int|
            {
                &&& 0 <= j < args@.len() - 1
                &&& (#[trigger] args@[j])@ == name@
                &&& value@ == args@[j + 1]@
                &&& forall|k: int| j < k < args@.len() - 1 ==> args@[k]@ != name@
            },
{
    let name_string = name.to_owned();
    let mut parameter_position: Option<usize> = None;
    if args.len() == 0 {
        return None;
    }
    let mut i: usize = 0;
    while i < args.len() - 1
        invariant
            args@.len() >= 1,
            i <= args@.len() - 1,
            name_string@ == name@,
            match parameter_position {
                Some(p) => {
                    &&& 0 <= p < i
                    &&& args@[p as int]@ == name@
                    &&& forall|k: int| p < k < i ==> args@[k]@ != name@
                },
                None => forall|k: int| 0 <= k < i ==> args@[k]@ != name@,
            },
        decreases args@.len() - 1 - i,
    {
        if args[i].eq(&name_string) {
            parameter_position = Some(i);
        }
        i = i + 1;
    }
    match parameter_position {
        Some(position) => Some(args[position + 1].clone()),
        None => None,
    }
}

/// Parses an unsigned decimal number, rejecting any text that is not all
/// digits (after an optional plus sign) or whose value does not fit 64
/// bits.
pub fn parse_u64(s: &str) -> (r: Option<u64>)
    ensures
        r is Some <==> spec_is_decimal(s@) && spec_parsed(s@) <= u64::MAX,
        r matches Some(n) ==> n == spec_parsed(s@),
{
    let len = s.unicode_len();
    let mut start: usize = 0;
    if len >= 1 && s.get_char(0) == '+' {
        start = 1;
    }
    if start >= len {
        return None;
    }
    let ghost digits = spec_digit_part(s@);
    let mut value: u64 = 0;
    let mut i: usize = start;
    while i < len
        invariant
            start <= i <= len,
            len == s@.len(),
            start == 0 || start == 1,
            start == 1 ==> s@.len() >= 1 && s@[0] == '+',
            start == 0 ==> !(s@.len() >= 1 && s@[0] == '+'),
            digits == spec_digit_part(s@),
            digits.len() == s@.len() - start,
            forall|k: int| 0 <= k < i - start ==> '0' <= #[trigger] digits[k] <= '9',
            value == spec_decimal_value(digits.take(i - start)),
        decreases len - i,
    {
        let c = s.get_char(i);
        let code = c as u32;
        if code < 48 || code > 57 {
            proof {
                assert(digits[i - start] == s@[i as int]);
                assert(digits[i - start] as u32 == code);
                assert(!('0' <= digits[i - start] <= '9'));
            }
            return None;
        }
        proof {
            assert(digits[i - start] == s@[i as int]);
            assert(digits[i - start] as u32 == code);
            assert('0' <= digits[i - start] <= '9');
        }
        let digit = (code - 48) as u64;
        if value > (u64::MAX - digit) / 10 {
            // The next digit would overflow 64 bits; so would every longer
            // prefix, because appending digits never shrinks the value.
            proof {
                assert(digits.take(i - start + 1).drop_last() =~= digits.take(i - start));
                assert(digits.take(i - start + 1).last() == digits[i - start]);
                assert(spec_decimal_value(digits.take(i - start + 1)) > u64::MAX);
                if spec_is_decimal(s@) {
                    assert(forall|k: int|
                        0 <= k < digits.len() ==> '0' <= #[trigger] digits[k] <= '9');
                    lemma_decimal_value_grows(digits, i - start + 1, digits.len() as int);
                    assert(digits.take(digits.len() as int) =~= digits);
                }
            }
            return None;
        }
        value = value * 10 + digit;
        proof {
            assert(digits.take(i - start + 1).drop_last() =~= digits.take(i - start));
            assert(digits.take(i - start + 1).last() == digits[i - start]);
        }
        i = i + 1;
    }
    proof {
        assert(digits.take(i - start) =~= digits);
    }
    Some(value)
}

/// A longer digit prefix never spells a smaller number.
proof fn lemma_decimal_value_grows(s: Seq<char>, a: int, b: int)
    requires
        0 <= a <= b <= s.len(),
        forall|i: int| 0 <= i < b ==> '0' <= #[trigger] s[i] <= '9',
    ensures
        spec_decimal_value(s.take(a)) <= spec_decimal_value(s.take(b)),
        spec_decimal_value(s.take(b)) >= 0,
    decreases b - a,
{
    if a == b {
        lemma_decimal_value_nonnegative(s.take(a));
    } else {
        lemma_decimal_value_grows(s, a, b - 1);
        assert(s.take(b).drop_last() =~= s.take(b - 1));
    }
}

proof fn lemma_decimal_value_nonnegative(s: Seq<char>)
    requires
        forall|i: int| 0 <= i < s.len() ==> '0' <= #[trigger] s[i] <= '9',
    ensures
        spec_decimal_value(s) >= 0,
    decreases s.len(),
{
    if s.len() > 0 {
        lemma_decimal_value_nonnegative(s.drop_last());
    }
}

/// Finds a named parameter as `get_parameter` does and parses its value as
/// an unsigned number: the result is present exactly when the parameter
/// occurs and the value after its last occurrence spells a number that
/// fits 64 bits, and it is then that number.
pub fn get_parameter_uint(name: &str, args: Vec<String>) -> (r: Option<u64>)
    ensures
        r is Some <==> exists|j: int|
            {
                &&& 0 <= j < args@.len() - 1
                &&& (#[trigger] args@[j])@ == name@
                &&& (forall|k: int| j < k < args@.len() - 1 ==> args@[k]@ != name@)
                &&& spec_is_decimal(args@[j + 1]@)
                &&& spec_parsed(args@[j + 1]@) <= u64::MAX
            },
        r matches Some(n) ==> exists|j: int|
            {
                &&& 0 <= j < args@.len() - 1
                &&& (#[trigger] args@[j])@ == name@
                &&& spec_is_decimal(args@[j + 1]@)
                &&& n == spec_parsed(args@[j + 1]@)
                &&& forall|k: int| j < k < args@.len() - 1 ==> args@[k]@ != name@
            },
{
    match get_parameter(name, args) {
        Some(value) => {
            let parsed = parse_u64(value.as_str());
            proof {
                let j1 = choose|j: int|
                    {
                        &&& 0 <= j < args@.len() - 1
                        &&& (#[trigger] args@[j])@ == name@
                        &&& value@ == args@[j + 1]@
                        &&& forall|k: int| j < k < args@.len() - 1 ==> args@[k]@ != name@
                    };
                if parsed is None {
                    // The value after the last occurrence does not parse,
                    // and any other witness would be that same occurrence.
                    assert(forall|j: int|
                        {
                            &&& 0 <= j < args@.len() - 1
                            &&& (#[trigger] args@[j])@ == name@
                            &&& (forall|k: int|
                                j < k < args@.len() - 1 ==> args@[k]@ != name@)
                        } ==> j == j1);
                }
            }
            parsed
        },
        None => None,
    }
}

} // verus!
