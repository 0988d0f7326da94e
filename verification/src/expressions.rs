//! The sample language's match expressions, as far as coverage analysis
//! needs them.

use vstd::prelude::*;

use crate::patterns::{pattern_view, Pattern, PatternV};
use crate::ty_system::{Ty, TyV};

verus! {

/// One arm of a match expression.
///
/// The body that runs on a match does not influence coverage and is not
/// modeled; neither is a guard, since guarded arms are excluded from
/// coverage altogether.
pub struct MatchArm {
    pub pattern: Pattern,
}

/// Mathematical model of a [`MatchArm`].
#[verifier::ext_equal]
pub struct MatchArmV {
    pub pattern: PatternV,
}

impl View for MatchArm {
    type V = MatchArmV;

    open spec fn view(&self) -> MatchArmV {
        MatchArmV { pattern: pattern_view(self.pattern) }
    }
}

/// A match expression: the type of the condition (coverage needs only the
/// type, not the expression itself) and the arms.
pub struct MatchExpression {
    pub condition_ty: Ty,
    pub arms: Vec<MatchArm>,
}

/// Mathematical model of a [`MatchExpression`].
#[verifier::ext_equal]
pub struct MatchExpressionV {
    pub condition_ty: TyV,
    pub arms: Seq<MatchArmV>,
}

impl View for MatchExpression {
    type V = MatchExpressionV;

    open spec fn view(&self) -> MatchExpressionV {
        MatchExpressionV {
            condition_ty: self.condition_ty@,
            arms: Seq::new(self.arms@.len(), |i: int| self.arms@[i]@),
        }
    }
}

} // verus!
