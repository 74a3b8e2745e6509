//! Naming rules for ledger namespaces and dependency roles.

use vstd::prelude::*;
use vstd::string::StringSliceAdditionalSpecFns;

verus! {

/// A lower-case ASCII letter or an ASCII digit.
pub open spec fn is_lower_or_digit(b: u8) -> bool {
    (97 <= b && b <= 122) || (48 <= b && b <= 57)
}

/// Separators allowed in a namespace: `.`, `/`, `-`.
pub open spec fn is_namespace_separator(b: u8) -> bool {
    b == 46 || b == 47 || b == 45
}

/// Separators allowed in a dependency role: `.`, `_`, `-`.
pub open spec fn is_role_separator(b: u8) -> bool {
    b == 46 || b == 95 || b == 45
}

/// The namespace rule over the bytes of a namespace: a non-empty run of
/// lower-case letters and digits, split by single separators, that neither
/// starts nor ends with a separator.
pub open spec fn namespace_is_valid(s: Seq<u8>) -> bool {
    &&& s.len() > 0
    &&& !is_namespace_separator(s[0])
    &&& !is_namespace_separator(s[s.len() - 1])
    &&& forall|i: int|
        0 <= i < s.len() ==> is_lower_or_digit(#[trigger] s[i]) || is_namespace_separator(s[i])
    &&& forall|i: int|
        0 <= i < s.len() - 1 ==> !(is_namespace_separator(#[trigger] s[i])
            && is_namespace_separator(s[i + 1]))
}

/// The dependency-role rule over the bytes of a role, of the same shape as
/// [`namespace_is_valid`] with the role separators.
pub open spec fn role_is_valid(s: Seq<u8>) -> bool {
    &&& s.len() > 0
    &&& !is_role_separator(s[0])
    &&& !is_role_separator(s[s.len() - 1])
    &&& forall|i: int|
        0 <= i < s.len() ==> is_lower_or_digit(#[trigger] s[i]) || is_role_separator(s[i])
    &&& forall|i: int|
        0 <= i < s.len() - 1 ==> !(is_role_separator(#[trigger] s[i]) && is_role_separator(
            s[i + 1],
        ))
}

fn lower_or_digit(b: u8) -> (r: bool)
    ensures
        r == is_lower_or_digit(b),
{
    (97 <= b && b <= 122) || (48 <= b && b <= 57)
}

/// Whether `namespace` is a valid ledger namespace: lower-case letters and
/// digits separated by single `.`, `/` or `-`, with no separator first or
/// last.
pub fn valid_namespace(namespace: &str) -> (r: bool)
    ensures
        r == namespace_is_valid(namespace.spec_bytes()),
{
    let bytes = namespace.as_bytes();
    let n = bytes.len();
    if n == 0 {
        return false;
    }
    let first = bytes[0];
    let last = bytes[n - 1];
    if first == 46 || first == 47 || first == 45 || last == 46 || last == 47 || last == 45 {
        return false;
    }
    let mut previous_separator = false;
    let mut i: usize = 0;
    while i < n
        invariant
            n == bytes@.len(),
            n > 0,
            bytes@ == namespace.spec_bytes(),
            !is_namespace_separator(bytes@[0]),
            !is_namespace_separator(bytes@[n - 1]),
            i <= n,
            previous_separator == (i > 0 && is_namespace_separator(bytes@[i - 1])),
            forall|j: int| 0 <= j < i ==> is_lower_or_digit(#[trigger] bytes@[j]) || is_namespace_separator(bytes@[j]),
            forall|j: int| 0 <= j < i - 1 ==> !(is_namespace_separator(#[trigger] bytes@[j]) && is_namespace_separator(bytes@[j + 1])),
        decreases n - i,
    {
        let b = bytes[i];
        if lower_or_digit(b) {
            previous_separator = false;
        } else if (b == 46 || b == 47 || b == 45) && !previous_separator {
            previous_separator = true;
        } else {
            assert(!(is_lower_or_digit(bytes@[i as int]) || is_namespace_separator(bytes@[i as int])) || (i > 0 && is_namespace_separator(
                bytes@[i - 1],
            ) && is_namespace_separator(bytes@[i as int])));
            return false;
        }
        i = i + 1;
    }
    true
}

/// Whether `role` is a valid dependency role: lower-case letters and digits
/// separated by single `.`, `_` or `-`, with no separator first or last.
pub fn valid_dependency_role(role: &str) -> (r: bool)
    ensures
        r == role_is_valid(role.spec_bytes()),
{
    let bytes = role.as_bytes();
    let n = bytes.len();
    if n == 0 {
        return false;
    }
    let mut previous_separator = false;
    let mut i: usize = 0;
    while i < n
        invariant
            n == bytes@.len(),
            n > 0,
            bytes@ == role.spec_bytes(),
            i <= n,
            previous_separator == (i > 0 && is_role_separator(bytes@[i - 1])),
            forall|j: int| 0 <= j < i ==> is_lower_or_digit(#[trigger] bytes@[j]) || is_role_separator(bytes@[j]),
            forall|j: int| 0 <= j < i ==> is_role_separator(#[trigger] bytes@[j]) ==> 0 < j && j + 1 < n,
            forall|j: int| 0 <= j < i - 1 ==> !(is_role_separator(#[trigger] bytes@[j]) && is_role_separator(bytes@[j + 1])),
        decreases n - i,
    {
        let b = bytes[i];
        if lower_or_digit(b) {
            previous_separator = false;
        } else if (b == 46 || b == 95 || b == 45) && i > 0 && i + 1 < n && !previous_separator {
            previous_separator = true;
        } else {
            assert(!is_lower_or_digit(bytes@[i as int]));
            assert(!is_role_separator(bytes@[i as int]) || i == 0 || i + 1 == n || is_role_separator(bytes@[i - 1]));
            return false;
        }
        i = i + 1;
    }
    assert(!is_role_separator(bytes@[0])) by {
        if is_role_separator(bytes@[0]) {
            assert(0 < 0int);
        }
    }
    assert(!is_role_separator(bytes@[n - 1])) by {
        if is_role_separator(bytes@[n - 1]) {
            assert(n - 1 + 1 < n);
        }
    }
    true
}

} // verus!
