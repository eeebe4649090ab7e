//! Choosing a stored connection profile: interpreting what the user typed
//! at the chooser, and finding a named profile among the stored ones.
//! Listing the profile directory, prompting, and reading profile files are
//! the caller's affair.

use vstd::prelude::*;
use vstd::arithmetic::div_mod::lemma_fundamental_div_mod;
use vstd::string::StrSliceExecFns;
use vstd::string::StringExecFns;
use crate::chars::str_eq;

verus! {

/// A decimal digit.
pub open spec fn is_digit(c: char) -> bool {
    '0' <= c && c <= '9'
}

/// Its value.
pub open spec fn digit_val(c: char) -> int {
    c as int - 48
}

/// A non-empty run of decimal digits.
pub open spec fn all_digits(s: Seq<char>) -> bool {
    s.len() > 0 && forall|i: int| 0 <= i < s.len() ==> is_digit(s[i])
}

/// The number the digits spell.
pub open spec fn digits_val(s: Seq<char>) -> int
    decreases s.len(),
{
    if s.len() == 0 {
        0
    } else {
        digits_val(s.drop_last()) * 10 + digit_val(s.last())
    }
}

/// A digit string's value is not negative.
proof fn lemma_digits_val_nonneg(s: Seq<char>)
    requires
        forall|i: int| 0 <= i < s.len() ==> is_digit(s[i]),
    ensures
        digits_val(s) >= 0,
    decreases s.len(),
{
    if s.len() > 0 {
        lemma_digits_val_nonneg(s.drop_last());
    }
}

/// Appending digits never shrinks the value.
proof fn lemma_digits_val_grows(s: Seq<char>, k: int)
    requires
        0 <= k <= s.len(),
        forall|i: int| 0 <= i < s.len() ==> is_digit(s[i]),
    ensures
        digits_val(s.take(k)) <= digits_val(s),
    decreases s.len() - k,
{
    if k < s.len() {
        lemma_digits_val_grows(s, k + 1);
        assert(s.take(k + 1).drop_last() =~= s.take(k));
        lemma_digits_val_nonneg(s.take(k));
    } else {
        assert(s.take(k) =~= s);
    }
}

/// The number a string of digits spells, when it has one and it fits:
/// exactly what a failed parse signals, and the value of a successful one.
pub fn parse_usize(s: &str) -> (r: Option<usize>)
    ensures
        r matches Some(v) ==> all_digits(s@) && v as int == digits_val(s@),
        r is None ==> !all_digits(s@) || digits_val(s@) > usize::MAX,
{
    let n = s.unicode_len();
    if n == 0 {
        return None;
    }
    let mut v: usize = 0;
    let mut k: usize = 0;
    while k < n
        invariant
            n == s@.len(),
            0 < n,
            k <= n,
            forall|i: int| 0 <= i < k ==> is_digit(s@[i]),
            v as int == digits_val(s@.take(k as int)),
        decreases n - k,
    {
        let c = s.get_char(k);
        if !(c >= '0' && c <= '9') {
            return None;
        }
        let d = (c as u32 - 48) as usize;
        proof {
            assert(s@.take(k as int + 1).drop_last() =~= s@.take(k as int));
            assert(s@.take(k as int + 1).last() == s@[k as int]);
        }
        let overflow = v > usize::MAX / 10 || (v == usize::MAX / 10 && d > usize::MAX % 10);
        proof {
            lemma_fundamental_div_mod(usize::MAX as int, 10);
            if overflow {
                assert(v as int * 10 + d > usize::MAX) by (nonlinear_arith)
                    requires
                        v as int > usize::MAX as int / 10 || (v as int == usize::MAX as int / 10
                            && d as int > usize::MAX as int % 10),
                        usize::MAX as int == 10 * (usize::MAX as int / 10) + usize::MAX as int
                            % 10,
                        d >= 0,
                ;
            } else {
                assert(v as int * 10 + d <= usize::MAX) by (nonlinear_arith)
                    requires
                        v as int <= usize::MAX as int / 10,
                        v as int == usize::MAX as int / 10 ==> d as int <= usize::MAX as int
                            % 10,
                        usize::MAX as int == 10 * (usize::MAX as int / 10) + usize::MAX as int
                            % 10,
                        0 <= d <= 9,
                ;
            }
        }
        if overflow {
            proof {
                if all_digits(s@) {
                    lemma_digits_val_grows(s@, k as int + 1);
                }
            }
            return None;
        }
        v = v * 10 + d;
        k = k + 1;
    }
    proof {
        assert(s@.take(n as int) =~= s@);
    }
    Some(v)
}

/// The stored profile whose file is named `<profile_name>.json`: the first
/// match, if any.
pub fn find_profile(profiles: &Vec<String>, profile_name: &str) -> (r: Option<usize>)
    ensures
        r matches Some(i) ==> 0 <= i < profiles@.len() && profiles@[i as int]@ == profile_name@
            + ".json"@ && (forall|j: int|
            0 <= j < i ==> profiles@[j]@ != profile_name@ + ".json"@),
        r is None ==> forall|j: int|
            0 <= j < profiles@.len() ==> profiles@[j]@ != profile_name@ + ".json"@,
{
    let mut target = String::new();
    target.append(profile_name);
    target.append(".json");
    proof {
        assert(target@ =~= profile_name@ + ".json"@);
    }
    let mut j: usize = 0;
    while j < profiles.len()
        invariant
            j <= profiles@.len(),
            target@ == profile_name@ + ".json"@,
            forall|i: int| 0 <= i < j ==> profiles@[i]@ != profile_name@ + ".json"@,
        decreases profiles@.len() - j,
    {
        if profiles[j] == target {
            return Some(j);
        }
        j = j + 1;
    }
    None
}

/// What the user's answer at the profile chooser selects.
pub enum ProfileChoice {
    /// Create a new profile.
    CreateNew,
    /// Use the stored profile at this position.
    Existing(usize),
    /// The answer names nothing; ask again.
    Invalid,
}

/// Interprets one (already trimmed) answer at the chooser: `0` creates a
/// new profile; a number selects the profile at that position, counted
/// from one; anything else names a profile file `<answer>.json`; a number
/// out of range or an unknown name is invalid.
pub fn interpret_choice(choice: &str, profiles: &Vec<String>) -> (r: ProfileChoice)
    ensures
        choice@ == "0"@ ==> r matches ProfileChoice::CreateNew,
        choice@ != "0"@ && all_digits(choice@) && digits_val(choice@) <= usize::MAX ==> (
        if 1 <= digits_val(choice@) <= profiles@.len() {
            r matches ProfileChoice::Existing(k) && k as int == digits_val(choice@) - 1
        } else {
            r matches ProfileChoice::Invalid
        }),
        choice@ != "0"@ && (!all_digits(choice@) || digits_val(choice@) > usize::MAX) ==> (
        if exists|j: int| 0 <= j < profiles@.len() && profiles@[j]@ == choice@ + ".json"@ {
            r matches ProfileChoice::Existing(k) && 0 <= k < profiles@.len() && profiles@[
                k as int
            ]@ == choice@ + ".json"@
        } else {
            r matches ProfileChoice::Invalid
        }),
{
    if str_eq(choice, "0") {
        return ProfileChoice::CreateNew;
    }
    match parse_usize(choice) {
        Some(i) => {
            if i < 1 || i > profiles.len() {
                ProfileChoice::Invalid
            } else {
                ProfileChoice::Existing(i - 1)
            }
        },
        None => {
            match find_profile(profiles, choice) {
                Some(k) => ProfileChoice::Existing(k),
                None => ProfileChoice::Invalid,
            }
        },
    }
}

} // verus!
