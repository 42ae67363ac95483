//! The calculation request: an operator name and a comma-separated operand
//! list. The pool core treats request payloads as opaque; this module is
//! the collaborator that recognises them. Operator names are matched
//! ignoring ASCII letter case; operand tokens are split at commas and
//! trimmed, and their numeric reading is the caller's concern.

use vstd::prelude::*;

verus! {

use vstd::string::StringExecFns;
use crate::text::{
    eq_ignore_case, matches_ci, split_commas, split_commas_exec, trim_spaces, trimmed,
};

/// The arithmetic operators a calculation can ask for.
#[derive(Debug)]
pub enum Operator {
    Add,
    Sub,
    Mul,
    Div,
    Rem,
}

/// The operator a (trimmed) name denotes, matched ignoring ASCII letter
/// case; `None` for an unknown name.
pub open spec fn parsed_operator(s: Seq<char>) -> Option<Operator> {
    if matches_ci(s, "add"@) {
        Some(Operator::Add)
    } else if matches_ci(s, "sub"@) {
        Some(Operator::Sub)
    } else if matches_ci(s, "mul"@) {
        Some(Operator::Mul)
    } else if matches_ci(s, "div"@) {
        Some(Operator::Div)
    } else if matches_ci(s, "rem"@) {
        Some(Operator::Rem)
    } else {
        None
    }
}

/// The operand fields of a raw operand list: the text is trimmed, split at
/// commas, and each field trimmed again.
pub open spec fn operand_tokens(s: Seq<char>) -> Seq<Seq<char>> {
    split_commas(trimmed(s)).map_values(|t: Seq<char>| trimmed(t))
}

/// Why parsing a calculation failed.
#[derive(Debug)]
pub enum CalculationParseErrorKind {
    /// The operator name is none of the known ones.
    UnknownOperator,
    /// A failure reported by a caller through `new` (the generic constructor).
    Unspecified,
}

/// Error returned when a calculation request cannot be parsed.
#[derive(Debug)]
pub struct CalculationParseError {
    pub kind: CalculationParseErrorKind,
    pub msg: String,
}

impl CalculationParseError {
    pub fn new(msg: String) -> (e: CalculationParseError)
        ensures
            e.msg@ == msg@,
            e.kind is Unspecified,
    {
        CalculationParseError { kind: CalculationParseErrorKind::Unspecified, msg }
    }

    fn unknown_operator() -> (e: CalculationParseError)
        ensures
            e.kind is UnknownOperator,
    {
        CalculationParseError {
            kind: CalculationParseErrorKind::UnknownOperator,
            msg: String::from_str("unknown operator"),
        }
    }
}

/// A recognised calculation: the operator and the raw operand fields, each
/// trimmed. Reading the fields as numbers is left to the evaluator.
pub struct Calculation {
    pub operator: Operator,
    pub operands: Vec<String>,
}

impl Calculation {
    /// Parse an operator name and a comma-separated operand list. Succeeds
    /// exactly when the trimmed operator names a known operation; the
    /// operand fields pass through as trimmed text, however many there are.
    pub fn parse(operator: &str, operands: &str) -> (r: Result<
        Calculation,
        CalculationParseError,
    >)
        ensures
            r is Ok <==> parsed_operator(trimmed(operator@)) is Some,
            r matches Ok(c) ==> {
                &&& Some(c.operator) == parsed_operator(trimmed(operator@))
                &&& c.operands@.len() == operand_tokens(operands@).len()
                &&& forall|k: int|
                    0 <= k < c.operands@.len() ==> (#[trigger] c.operands@[k])@
                        == operand_tokens(operands@)[k]
            },
            r matches Err(e) ==> e.kind is UnknownOperator,
    {
        let name = trim_spaces(operator);
        let op = if eq_ignore_case(name, "add") {
            Operator::Add
        } else if eq_ignore_case(name, "sub") {
            Operator::Sub
        } else if eq_ignore_case(name, "mul") {
            Operator::Mul
        } else if eq_ignore_case(name, "div") {
            Operator::Div
        } else if eq_ignore_case(name, "rem") {
            Operator::Rem
        } else {
            return Err(CalculationParseError::unknown_operator());
        };
        let raw = split_commas_exec(trim_spaces(operands));
        let mut fields: Vec<String> = Vec::new();
        let n = raw.len();
        let mut j: usize = 0;
        while j < n
            invariant
                j <= n,
                n == raw@.len(),
                raw@.len() == split_commas(trimmed(operands@)).len(),
                forall|k: int|
                    0 <= k < n ==> (#[trigger] raw@[k])@ == split_commas(trimmed(operands@))[k],
                fields@.len() == j,
                forall|k: int|
                    0 <= k < j ==> (#[trigger] fields@[k])@ == operand_tokens(operands@)[k],
            decreases n - j,
        {
            let f = trim_spaces(raw[j].as_str()).to_owned();
            fields.push(f);
            j = j + 1;
        }
        Ok(Calculation { operator: op, operands: fields })
    }
}

} // verus!
