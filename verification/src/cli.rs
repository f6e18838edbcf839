//! The memory budget as the user writes it: a number, then `GB` or `MB`.

use vstd::prelude::*;

verus! {

/// Bytes in a megabyte.
pub const MEGABYTE: u64 = 1048576;

/// Bytes in a gigabyte.
pub const GIGABYTE: u64 = 1073741824;

/// The unit a budget is given in.
#[derive(Clone, Copy, Debug, PartialEq, Eq, Structural)]
pub enum MemoryUnit {
    Gigabytes,
    Megabytes,
}

impl MemoryUnit {
    /// Bytes in one unit.
    pub open spec fn spec_bytes(self) -> u64 {
        match self {
            MemoryUnit::Gigabytes => GIGABYTE,
            MemoryUnit::Megabytes => MEGABYTE,
        }
    }

    /// Bytes in one unit.
    #[verifier::when_used_as_spec(spec_bytes)]
    pub fn bytes(self) -> (r: u64)
        ensures
            r == self.spec_bytes(),
    {
        match self {
            MemoryUnit::Gigabytes => GIGABYTE,
            MemoryUnit::Megabytes => MEGABYTE,
        }
    }

    /// Units taken where the number cannot be read: one gigabyte, or 512
    /// megabytes.
    pub open spec fn spec_default_amount(self) -> u64 {
        match self {
            MemoryUnit::Gigabytes => 1,
            MemoryUnit::Megabytes => 512,
        }
    }

    /// Units taken where the number cannot be read.
    #[verifier::when_used_as_spec(spec_default_amount)]
    pub fn default_amount(self) -> (r: u64)
        ensures
            r == self.spec_default_amount(),
    {
        match self {
            MemoryUnit::Gigabytes => 1,
            MemoryUnit::Megabytes => 512,
        }
    }
}

/// Whether `s` ends with `suffix`.
pub open spec fn ends_with(s: Seq<char>, suffix: Seq<char>) -> bool {
    suffix.len() <= s.len() && s.subrange(s.len() - suffix.len(), s.len() as int) == suffix
}

/// `s` without its last `n` characters.
pub open spec fn without_last(s: Seq<char>, n: int) -> Seq<char> {
    s.subrange(0, s.len() - n)
}

/// The number part and the unit of a budget written in upper case: `GB`
/// for gigabytes, `MB` or nothing for megabytes.
pub open spec fn budget_parts(text: Seq<char>) -> (Seq<char>, MemoryUnit) {
    if ends_with(text, "GB"@) {
        (without_last(text, 2), MemoryUnit::Gigabytes)
    } else if ends_with(text, "MB"@) {
        (without_last(text, 2), MemoryUnit::Megabytes)
    } else {
        (text, MemoryUnit::Megabytes)
    }
}

/// Bytes of a budget of `amount` units; the unit's default amount where
/// there is no number.
pub open spec fn budget_bytes(amount: Option<u64>, unit: MemoryUnit) -> nat {
    (match amount {
        Some(n) => n,
        None => unit.default_amount(),
    }) as nat * unit.bytes() as nat
}

/// The budget taken where the user names none: a tenth of the machine's
/// memory.
pub fn default_budget(total_memory: u64) -> (r: u64)
    ensures
        r == total_memory / 10,
{
    total_memory / 10
}

/// `s` without `suffix` at its end, by `str::strip_suffix`: `None` where
/// `s` does not end with it.
#[verifier::external_body]
fn strip_suffix<'a>(s: &'a str, suffix: &str) -> (r: Option<&'a str>)
    ensures
        match r {
            Some(rest) => ends_with(s@, suffix@) && rest@ == without_last(s@, suffix@.len() as int),
            None => !ends_with(s@, suffix@),
        },
{
    s.strip_suffix(suffix)
}

/// Splits a budget written in upper case into its number part and its
/// unit.
pub fn unit_of<'a>(text: &'a str) -> (r: (&'a str, MemoryUnit))
    ensures
        r.0@ == budget_parts(text@).0,
        r.1 == budget_parts(text@).1,
{
    proof {
        reveal_strlit("GB");
        reveal_strlit("MB");
    }
    match strip_suffix(text, "GB") {
        Some(rest) => (rest, MemoryUnit::Gigabytes),
        None => match strip_suffix(text, "MB") {
            Some(rest) => (rest, MemoryUnit::Megabytes),
            None => (text, MemoryUnit::Megabytes),
        },
    }
}

/// The budget in bytes; `None` where it does not fit in 64 bits.
pub fn memory_budget(amount: Option<u64>, unit: MemoryUnit) -> (r: Option<u64>)
    ensures
        r == (if budget_bytes(amount, unit) <= u64::MAX {
            Some(budget_bytes(amount, unit) as u64)
        } else {
            None
        }),
{
    let n = match amount {
        Some(n) => n,
        None => unit.default_amount(),
    };
    n.checked_mul(unit.bytes())
}

} // verus!
