//! Scalar values flowing through an insert statement, kept in the loosely
//! typed form the parser delivers: numbers stay textual so that arbitrary
//! precision is preserved until a column constraint interprets them.

use vstd::prelude::*;
use vstd::string::StrSliceExecFns;
use vstd::string::StringExecFns;

verus! {

/// A concrete scalar produced by resolving a value-list cell: a number in
/// its textual arbitrary-precision form, a character string, or a boolean.
#[derive(Debug, PartialEq, Clone)]
pub enum ScalarValue {
    Number(String),
    Text(String),
    Bool(bool),
}

/// Mathematical model of a [`ScalarValue`].
pub enum SpecScalar {
    Number(Seq<char>),
    Text(Seq<char>),
    Bool(bool),
}

impl View for ScalarValue {
    type V = SpecScalar;

    open spec fn view(&self) -> SpecScalar {
        match self {
            ScalarValue::Number(s) => SpecScalar::Number(s@),
            ScalarValue::Text(s) => SpecScalar::Text(s@),
            ScalarValue::Bool(b) => SpecScalar::Bool(*b),
        }
    }
}

impl DeepView for ScalarValue {
    type V = SpecScalar;

    open spec fn deep_view(&self) -> SpecScalar {
        self.view()
    }
}

/// The canonical textual form of a scalar, the form every column
/// constraint judges: numbers and strings are their own text, booleans
/// render as `true` or `false`.
pub open spec fn spec_canonical_text(v: SpecScalar) -> Seq<char> {
    match v {
        SpecScalar::Number(s) => s,
        SpecScalar::Text(s) => s,
        SpecScalar::Bool(b) => if b {
            seq!['t', 'r', 'u', 'e']
        } else {
            seq!['f', 'a', 'l', 's', 'e']
        },
    }
}

/// Textual negation of a numeric literal: a leading minus sign is removed,
/// otherwise one is prepended. The digits themselves are untouched, so no
/// precision is lost to a fixed-width numeric type.
pub open spec fn spec_negated(s: Seq<char>) -> Seq<char> {
    if s.len() > 0 && s[0] == '-' {
        s.subrange(1, s.len() as int)
    } else {
        seq!['-'] + s
    }
}

impl ScalarValue {
    /// An owned copy whose model equals the original's.
    pub fn dup(&self) -> (r: ScalarValue)
        ensures
            r@ == self@,
    {
        match self {
            ScalarValue::Number(s) => ScalarValue::Number(s.clone()),
            ScalarValue::Text(s) => ScalarValue::Text(s.clone()),
            ScalarValue::Bool(b) => ScalarValue::Bool(*b),
        }
    }

    /// The canonical textual form handed to constraint checks.
    pub fn canonical_text(&self) -> (r: String)
        ensures
            r@ == spec_canonical_text(self@),
    {
        match self {
            ScalarValue::Number(s) => s.clone(),
            ScalarValue::Text(s) => s.clone(),
            ScalarValue::Bool(b) => {
                if *b {
                    let t = String::from_str("true");
                    proof {
                        reveal_strlit("true");
                        assert(t@ =~= seq!['t', 'r', 'u', 'e']);
                    }
                    t
                } else {
                    let t = String::from_str("false");
                    proof {
                        reveal_strlit("false");
                        assert(t@ =~= seq!['f', 'a', 'l', 's', 'e']);
                    }
                    t
                }
            },
        }
    }
}

/// Textual negation of a number (see [`spec_negated`]).
pub fn negated_number_text(s: &String) -> (r: String)
    ensures
        r@ == spec_negated(s@),
{
    let n = s.as_str().unicode_len();
    if n > 0 && s.as_str().get_char(0) == '-' {
        let rest = s.as_str().substring_char(1, n);
        let r = rest.to_owned();
        r
    } else {
        let minus = String::from_str("-");
        proof {
            reveal_strlit("-");
            assert(minus@ =~= seq!['-']);
        }
        let r = minus.concat(s.as_str());
        proof {
            assert(r@ =~= seq!['-'] + s@);
        }
        r
    }
}

} // verus!
