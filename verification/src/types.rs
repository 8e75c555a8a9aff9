//! Column definitions and the SQL-type constraints attached to them.
//!
//! A constraint judges the canonical textual form of a cell: numeric types
//! demand an optionally signed decimal integer within the type's domain,
//! character types bound the length, and booleans demand `true` or `false`.

use vstd::prelude::*;
use vstd::string::StrSliceExecFns;
use vstd::string::StringExecFns;

verus! {

/// A column's declared SQL type. Character types carry their declared
/// length bound in characters.
#[derive(Debug, PartialEq, Eq, Structural, Clone, Copy)]
pub enum SqlType {
    Bool,
    Char(u64),
    VarChar(u64),
    SmallInt,
    Integer,
    BigInt,
}

/// One way a cell can break its column's constraint: the value lies outside
/// the type's representable domain, the value's shape does not match the
/// type (carrying the offending text), or a string exceeds the declared
/// length bound (carrying the bound).
#[derive(Debug, PartialEq, Clone)]
pub enum ConstraintError {
    OutOfRange,
    TypeMismatch(String),
    ValueTooLong(u64),
}

/// Mathematical model of a [`ConstraintError`].
pub enum SpecConstraintError {
    OutOfRange,
    TypeMismatch(Seq<char>),
    ValueTooLong(u64),
}

impl View for ConstraintError {
    type V = SpecConstraintError;

    open spec fn view(&self) -> SpecConstraintError {
        match self {
            ConstraintError::OutOfRange => SpecConstraintError::OutOfRange,
            ConstraintError::TypeMismatch(s) => SpecConstraintError::TypeMismatch(s@),
            ConstraintError::ValueTooLong(n) => SpecConstraintError::ValueTooLong(*n),
        }
    }
}

impl DeepView for ConstraintError {
    type V = SpecConstraintError;

    open spec fn deep_view(&self) -> SpecConstraintError {
        self.view()
    }
}

impl ConstraintError {
    /// An owned copy whose model equals the original's.
    pub fn dup(&self) -> (r: ConstraintError)
        ensures
            r@ == self@,
    {
        match self {
            ConstraintError::OutOfRange => ConstraintError::OutOfRange,
            ConstraintError::TypeMismatch(s) => ConstraintError::TypeMismatch(s.clone()),
            ConstraintError::ValueTooLong(n) => ConstraintError::ValueTooLong(*n),
        }
    }
}

/// One column of a table: its name (unique within the table) and its
/// declared SQL type.
#[derive(Debug, PartialEq, Clone)]
pub struct ColumnDefinition {
    pub name: String,
    pub sql_type: SqlType,
}

/// Mathematical model of a [`ColumnDefinition`].
pub struct SpecColumn {
    pub name: Seq<char>,
    pub sql_type: SqlType,
}

impl View for ColumnDefinition {
    type V = SpecColumn;

    open spec fn view(&self) -> SpecColumn {
        SpecColumn { name: self.name@, sql_type: self.sql_type }
    }
}

impl DeepView for ColumnDefinition {
    type V = SpecColumn;

    open spec fn deep_view(&self) -> SpecColumn {
        self.view()
    }
}

impl ColumnDefinition {
    pub fn new(name: String, sql_type: SqlType) -> (r: ColumnDefinition)
        ensures
            r@ == (SpecColumn { name: name@, sql_type }),
    {
        ColumnDefinition { name, sql_type }
    }

    /// An owned copy whose model equals the original's.
    pub fn dup(&self) -> (r: ColumnDefinition)
        ensures
            r@ == self@,
    {
        ColumnDefinition { name: self.name.clone(), sql_type: self.sql_type }
    }

    /// Whether this column carries the given name (comparison is exact).
    pub fn has_name(&self, name: &String) -> (r: bool)
        ensures
            r == (self@.name == name@),
    {
        self.name == *name
    }
}

/// A decimal digit.
pub open spec fn spec_is_digit(c: char) -> bool {
    '0' <= c && c <= '9'
}

/// The numeric value of a decimal digit.
pub open spec fn spec_digit_val(c: char) -> int {
    c as u32 - 48
}

pub open spec fn spec_all_digits(s: Seq<char>) -> bool {
    forall|i: int| 0 <= i < s.len() ==> spec_is_digit(s[i])
}

/// The value of a sequence of decimal digits, most significant first.
pub open spec fn spec_digits_value(s: Seq<char>) -> int
    decreases s.len(),
{
    if s.len() == 0 {
        0
    } else {
        spec_digits_value(s.drop_last()) * 10 + spec_digit_val(s.last())
    }
}

/// Whether the text is an optionally signed decimal integer: an optional
/// leading minus sign followed by at least one digit.
pub open spec fn spec_int_shape(s: Seq<char>) -> bool {
    let body = if s.len() > 0 && s[0] == '-' {
        s.subrange(1, s.len() as int)
    } else {
        s
    };
    body.len() > 0 && spec_all_digits(body)
}

/// The signed value of an integer-shaped text.
pub open spec fn spec_int_value(s: Seq<char>) -> int
    recommends
        spec_int_shape(s),
{
    if s.len() > 0 && s[0] == '-' {
        -spec_digits_value(s.subrange(1, s.len() as int))
    } else {
        spec_digits_value(s)
    }
}

/// The verdict of a bounded-integer constraint with inclusive domain
/// `[lo, hi]` on the given text.
pub open spec fn spec_validate_int(text: Seq<char>, lo: int, hi: int) -> Option<
    SpecConstraintError,
> {
    if !spec_int_shape(text) {
        Some(SpecConstraintError::TypeMismatch(text))
    } else if lo <= spec_int_value(text) <= hi {
        None
    } else {
        Some(SpecConstraintError::OutOfRange)
    }
}

/// The verdict of a type's constraint on the canonical textual form of a
/// cell: `None` means the cell passes.
pub open spec fn spec_validate(t: SqlType, text: Seq<char>) -> Option<SpecConstraintError> {
    match t {
        SqlType::Bool => if text == seq!['t', 'r', 'u', 'e'] || text == seq![
            'f',
            'a',
            'l',
            's',
            'e',
        ] {
            None
        } else {
            Some(SpecConstraintError::TypeMismatch(text))
        },
        SqlType::Char(n) => if text.len() <= n {
            None
        } else {
            Some(SpecConstraintError::ValueTooLong(n))
        },
        SqlType::VarChar(n) => if text.len() <= n {
            None
        } else {
            Some(SpecConstraintError::ValueTooLong(n))
        },
        SqlType::SmallInt => spec_validate_int(text, -32768, 32767),
        SqlType::Integer => spec_validate_int(text, -2147483648, 2147483647),
        SqlType::BigInt => spec_validate_int(
            text,
            -9223372036854775808,
            9223372036854775807,
        ),
    }
}

/// Any magnitude at or above this exceeds every bounded integer domain the
/// engine knows, so digit accumulation can stop counting there.
const MAGNITUDE_CAP: u128 = 10_000_000_000_000_000_000;

/// Checks an optionally signed decimal integer against the inclusive domain
/// `[lo, hi]`.
fn check_bounded_int(text: &String, lo: i128, hi: i128) -> (r: Option<ConstraintError>)
    requires
        -10_000_000_000_000_000_000 < (lo as int),
        (lo as int) <= (hi as int),
        (hi as int) < 10_000_000_000_000_000_000,
    ensures
        r.deep_view() == spec_validate_int(text@, lo as int, hi as int),
{
    let s = text.as_str();
    let n = s.unicode_len();
    let neg: bool = if n > 0 { s.get_char(0) == '-' } else { false };
    let start: usize = if neg { 1 } else { 0 };
    let ghost body: Seq<char> = text@.subrange(start as int, n as int);
    assert(!neg ==> body =~= text@);
    if n == start {
        assert(!spec_int_shape(text@));
        return Some(ConstraintError::TypeMismatch(text.clone()));
    }
    let mut acc: u128 = 0;
    let mut over: bool = false;
    let mut i: usize = start;
    while i < n
        invariant
            s@ == text@,
            start <= i <= n,
            start + 1 <= n,
            start == if neg { 1int } else { 0int },
            neg ==> text@[0] == '-',
            !neg ==> text@[0] != '-',
            n == text@.len(),
            body == text@.subrange(start as int, n as int),
            spec_all_digits(text@.subrange(start as int, i as int)),
            !over ==> acc < MAGNITUDE_CAP && acc == spec_digits_value(
                text@.subrange(start as int, i as int),
            ),
            over ==> spec_digits_value(text@.subrange(start as int, i as int))
                >= MAGNITUDE_CAP,
        decreases n - i,
    {
        let c = s.get_char(i);
        if c < '0' || c > '9' {
            assert(!spec_is_digit(body[i - start as int]));
            assert(!spec_int_shape(text@));
            return Some(ConstraintError::TypeMismatch(text.clone()));
        }
        let d: u128 = (c as u32 - 48) as u128;
        proof {
            assert(text@.subrange(start as int, i + 1int) =~= text@.subrange(
                start as int,
                i as int,
            ).push(text@[i as int]));
            assert(text@.subrange(start as int, i + 1int).drop_last() =~= text@.subrange(
                start as int,
                i as int,
            ));
        }
        if !over {
            acc = acc * 10 + d;
            if acc >= MAGNITUDE_CAP {
                over = true;
            }
        } else {
            proof {
                let prev = spec_digits_value(text@.subrange(start as int, i as int));
                assert(spec_digits_value(text@.subrange(start as int, i + 1int)) == prev * 10
                    + spec_digit_val(text@[i as int]));
                assert(prev * 10 >= prev) by (nonlinear_arith)
                    requires prev >= 0;
            }
        }
        i = i + 1;
    }
    assert(text@.subrange(start as int, n as int) =~= body);
    assert(spec_int_shape(text@));
    let ghost v = spec_int_value(text@);
    proof {
        if neg {
            assert(v == -spec_digits_value(body));
        } else {
            assert(v == spec_digits_value(body));
        }
        if !over {
            assert(spec_digits_value(body) == acc);
        }
    }
    if over {
        return Some(ConstraintError::OutOfRange);
    }
    let value: i128 = if neg {
        -(acc as i128)
    } else {
        acc as i128
    };
    assert(value == v);
    if value < lo || value > hi {
        Some(ConstraintError::OutOfRange)
    } else {
        None
    }
}

impl SqlType {
    /// The constraint check the type attaches to a cell's canonical text:
    /// `Ok` when the cell passes, otherwise the one violation found.
    pub fn validate(&self, text: &String) -> (r: Result<(), ConstraintError>)
        ensures
            match r {
                Ok(u) => spec_validate(*self, text@) is None,
                Err(e) => spec_validate(*self, text@) == Some(e@),
            },
    {
        let verdict: Option<ConstraintError> = match self {
            SqlType::Bool => {
                let t = String::from_str("true");
                let f = String::from_str("false");
                proof {
                    reveal_strlit("true");
                    reveal_strlit("false");
                    assert(t@ =~= seq!['t', 'r', 'u', 'e']);
                    assert(f@ =~= seq!['f', 'a', 'l', 's', 'e']);
                }
                if *text == t || *text == f {
                    None
                } else {
                    Some(ConstraintError::TypeMismatch(text.clone()))
                }
            },
            SqlType::Char(n) => {
                let len = text.as_str().unicode_len();
                if len as u64 <= *n {
                    None
                } else {
                    Some(ConstraintError::ValueTooLong(*n))
                }
            },
            SqlType::VarChar(n) => {
                let len = text.as_str().unicode_len();
                if len as u64 <= *n {
                    None
                } else {
                    Some(ConstraintError::ValueTooLong(*n))
                }
            },
            SqlType::SmallInt => check_bounded_int(text, -32768, 32767),
            SqlType::Integer => check_bounded_int(text, -2147483648, 2147483647),
            SqlType::BigInt => check_bounded_int(
                text,
                -9223372036854775808,
                9223372036854775807,
            ),
        };
        match verdict {
            None => Ok(()),
            Some(e) => Err(e),
        }
    }
}

} // verus!
