use vstd::prelude::*;

verus! {

/// What the calculator is asked: one expression.
#[derive(Clone, Debug, PartialEq, Eq)]
pub struct CalculatorArgs {
    pub expression: String,
}

/// The calculator. It has no state.
#[derive(Clone, Copy, Debug, PartialEq, Eq, Structural)]
pub struct CalculatorTool;

/// The name under which the calculator is called.
pub open spec fn calculator_name() -> Seq<char> {
    "calculate"@
}

impl CalculatorTool {
    /// The name under which the calculator is called.
    pub fn name(&self) -> (name: &'static str)
        ensures
            name@ == calculator_name(),
    {
        "calculate"
    }
}

} // verus!
