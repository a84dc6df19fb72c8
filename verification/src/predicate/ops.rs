//! The operators `&` and `|` on predicates build `And` and `Or`.
use vstd::prelude::*;

use super::combinators as C;
use super::no_panic::NoPanic;
use crate::env::EnvSpec;
use crate::Predicate;

verus! {

impl<Rhs: Predicate> std::ops::BitAnd<Rhs> for C::Cmp {
    type Output = C::And<C::Cmp, Rhs>;

    fn bitand(self, rhs: Rhs) -> C::And<C::Cmp, Rhs> {
        C::And(self, rhs)
    }
}

impl<Rhs: Predicate> vstd::std_specs::ops::BitAndSpecImpl<Rhs> for C::Cmp {
    open spec fn obeys_bitand_spec() -> bool {
        true
    }

    open spec fn bitand_req(self, rhs: Rhs) -> bool {
        true
    }

    open spec fn bitand_spec(self, rhs: Rhs) -> C::And<C::Cmp, Rhs> {
        C::And(self, rhs)
    }
}

impl<Rhs: Predicate> std::ops::BitOr<Rhs> for C::Cmp {
    type Output = C::Or<C::Cmp, Rhs>;

    fn bitor(self, rhs: Rhs) -> C::Or<C::Cmp, Rhs> {
        C::Or(self, rhs)
    }
}

impl<Rhs: Predicate> vstd::std_specs::ops::BitOrSpecImpl<Rhs> for C::Cmp {
    open spec fn obeys_bitor_spec() -> bool {
        true
    }

    open spec fn bitor_req(self, rhs: Rhs) -> bool {
        true
    }

    open spec fn bitor_spec(self, rhs: Rhs) -> C::Or<C::Cmp, Rhs> {
        C::Or(self, rhs)
    }
}

impl<F, Rhs: Predicate> std::ops::BitAnd<Rhs> for C::Quantifier<F> {
    type Output = C::And<C::Quantifier<F>, Rhs>;

    fn bitand(self, rhs: Rhs) -> C::And<C::Quantifier<F>, Rhs> {
        C::And(self, rhs)
    }
}

impl<F, Rhs: Predicate> vstd::std_specs::ops::BitAndSpecImpl<Rhs> for C::Quantifier<F> {
    open spec fn obeys_bitand_spec() -> bool {
        true
    }

    open spec fn bitand_req(self, rhs: Rhs) -> bool {
        true
    }

    open spec fn bitand_spec(self, rhs: Rhs) -> C::And<C::Quantifier<F>, Rhs> {
        C::And(self, rhs)
    }
}

impl<F, Rhs: Predicate> std::ops::BitOr<Rhs> for C::Quantifier<F> {
    type Output = C::Or<C::Quantifier<F>, Rhs>;

    fn bitor(self, rhs: Rhs) -> C::Or<C::Quantifier<F>, Rhs> {
        C::Or(self, rhs)
    }
}

impl<F, Rhs: Predicate> vstd::std_specs::ops::BitOrSpecImpl<Rhs> for C::Quantifier<F> {
    open spec fn obeys_bitor_spec() -> bool {
        true
    }

    open spec fn bitor_req(self, rhs: Rhs) -> bool {
        true
    }

    open spec fn bitor_spec(self, rhs: Rhs) -> C::Or<C::Quantifier<F>, Rhs> {
        C::Or(self, rhs)
    }
}

impl<Rhs: Predicate> std::ops::BitAnd<Rhs> for C::At {
    type Output = C::And<C::At, Rhs>;

    fn bitand(self, rhs: Rhs) -> C::And<C::At, Rhs> {
        C::And(self, rhs)
    }
}

impl<Rhs: Predicate> vstd::std_specs::ops::BitAndSpecImpl<Rhs> for C::At {
    open spec fn obeys_bitand_spec() -> bool {
        true
    }

    open spec fn bitand_req(self, rhs: Rhs) -> bool {
        true
    }

    open spec fn bitand_spec(self, rhs: Rhs) -> C::And<C::At, Rhs> {
        C::And(self, rhs)
    }
}

impl<Rhs: Predicate> std::ops::BitOr<Rhs> for C::At {
    type Output = C::Or<C::At, Rhs>;

    fn bitor(self, rhs: Rhs) -> C::Or<C::At, Rhs> {
        C::Or(self, rhs)
    }
}

impl<Rhs: Predicate> vstd::std_specs::ops::BitOrSpecImpl<Rhs> for C::At {
    open spec fn obeys_bitor_spec() -> bool {
        true
    }

    open spec fn bitor_req(self, rhs: Rhs) -> bool {
        true
    }

    open spec fn bitor_spec(self, rhs: Rhs) -> C::Or<C::At, Rhs> {
        C::Or(self, rhs)
    }
}

impl<L: Predicate, R: Predicate, Rhs: Predicate> std::ops::BitAnd<Rhs> for C::And<L, R> {
    type Output = C::And<C::And<L, R>, Rhs>;

    fn bitand(self, rhs: Rhs) -> C::And<C::And<L, R>, Rhs> {
        C::And(self, rhs)
    }
}

impl<L: Predicate, R: Predicate, Rhs: Predicate> vstd::std_specs::ops::BitAndSpecImpl<Rhs> for C::And<L, R> {
    open spec fn obeys_bitand_spec() -> bool {
        true
    }

    open spec fn bitand_req(self, rhs: Rhs) -> bool {
        true
    }

    open spec fn bitand_spec(self, rhs: Rhs) -> C::And<C::And<L, R>, Rhs> {
        C::And(self, rhs)
    }
}

impl<L: Predicate, R: Predicate, Rhs: Predicate> std::ops::BitOr<Rhs> for C::And<L, R> {
    type Output = C::Or<C::And<L, R>, Rhs>;

    fn bitor(self, rhs: Rhs) -> C::Or<C::And<L, R>, Rhs> {
        C::Or(self, rhs)
    }
}

impl<L: Predicate, R: Predicate, Rhs: Predicate> vstd::std_specs::ops::BitOrSpecImpl<Rhs> for C::And<L, R> {
    open spec fn obeys_bitor_spec() -> bool {
        true
    }

    open spec fn bitor_req(self, rhs: Rhs) -> bool {
        true
    }

    open spec fn bitor_spec(self, rhs: Rhs) -> C::Or<C::And<L, R>, Rhs> {
        C::Or(self, rhs)
    }
}

impl<L: Predicate, R: Predicate, Rhs: Predicate> std::ops::BitAnd<Rhs> for C::Or<L, R> {
    type Output = C::And<C::Or<L, R>, Rhs>;

    fn bitand(self, rhs: Rhs) -> C::And<C::Or<L, R>, Rhs> {
        C::And(self, rhs)
    }
}

impl<L: Predicate, R: Predicate, Rhs: Predicate> vstd::std_specs::ops::BitAndSpecImpl<Rhs> for C::Or<L, R> {
    open spec fn obeys_bitand_spec() -> bool {
        true
    }

    open spec fn bitand_req(self, rhs: Rhs) -> bool {
        true
    }

    open spec fn bitand_spec(self, rhs: Rhs) -> C::And<C::Or<L, R>, Rhs> {
        C::And(self, rhs)
    }
}

impl<L: Predicate, R: Predicate, Rhs: Predicate> std::ops::BitOr<Rhs> for C::Or<L, R> {
    type Output = C::Or<C::Or<L, R>, Rhs>;

    fn bitor(self, rhs: Rhs) -> C::Or<C::Or<L, R>, Rhs> {
        C::Or(self, rhs)
    }
}

impl<L: Predicate, R: Predicate, Rhs: Predicate> vstd::std_specs::ops::BitOrSpecImpl<Rhs> for C::Or<L, R> {
    open spec fn obeys_bitor_spec() -> bool {
        true
    }

    open spec fn bitor_req(self, rhs: Rhs) -> bool {
        true
    }

    open spec fn bitor_spec(self, rhs: Rhs) -> C::Or<C::Or<L, R>, Rhs> {
        C::Or(self, rhs)
    }
}

impl<P: Predicate, Rhs: Predicate> std::ops::BitAnd<Rhs> for C::Not<P> {
    type Output = C::And<C::Not<P>, Rhs>;

    fn bitand(self, rhs: Rhs) -> C::And<C::Not<P>, Rhs> {
        C::And(self, rhs)
    }
}

impl<P: Predicate, Rhs: Predicate> vstd::std_specs::ops::BitAndSpecImpl<Rhs> for C::Not<P> {
    open spec fn obeys_bitand_spec() -> bool {
        true
    }

    open spec fn bitand_req(self, rhs: Rhs) -> bool {
        true
    }

    open spec fn bitand_spec(self, rhs: Rhs) -> C::And<C::Not<P>, Rhs> {
        C::And(self, rhs)
    }
}

impl<P: Predicate, Rhs: Predicate> std::ops::BitOr<Rhs> for C::Not<P> {
    type Output = C::Or<C::Not<P>, Rhs>;

    fn bitor(self, rhs: Rhs) -> C::Or<C::Not<P>, Rhs> {
        C::Or(self, rhs)
    }
}

impl<P: Predicate, Rhs: Predicate> vstd::std_specs::ops::BitOrSpecImpl<Rhs> for C::Not<P> {
    open spec fn obeys_bitor_spec() -> bool {
        true
    }

    open spec fn bitor_req(self, rhs: Rhs) -> bool {
        true
    }

    open spec fn bitor_spec(self, rhs: Rhs) -> C::Or<C::Not<P>, Rhs> {
        C::Or(self, rhs)
    }
}

impl<Rhs: Predicate> std::ops::BitAnd<Rhs> for EnvSpec {
    type Output = C::And<EnvSpec, Rhs>;

    fn bitand(self, rhs: Rhs) -> C::And<EnvSpec, Rhs> {
        C::And(self, rhs)
    }
}

impl<Rhs: Predicate> vstd::std_specs::ops::BitAndSpecImpl<Rhs> for EnvSpec {
    open spec fn obeys_bitand_spec() -> bool {
        true
    }

    open spec fn bitand_req(self, rhs: Rhs) -> bool {
        true
    }

    open spec fn bitand_spec(self, rhs: Rhs) -> C::And<EnvSpec, Rhs> {
        C::And(self, rhs)
    }
}

impl<Rhs: Predicate> std::ops::BitOr<Rhs> for EnvSpec {
    type Output = C::Or<EnvSpec, Rhs>;

    fn bitor(self, rhs: Rhs) -> C::Or<EnvSpec, Rhs> {
        C::Or(self, rhs)
    }
}

impl<Rhs: Predicate> vstd::std_specs::ops::BitOrSpecImpl<Rhs> for EnvSpec {
    open spec fn obeys_bitor_spec() -> bool {
        true
    }

    open spec fn bitor_req(self, rhs: Rhs) -> bool {
        true
    }

    open spec fn bitor_spec(self, rhs: Rhs) -> C::Or<EnvSpec, Rhs> {
        C::Or(self, rhs)
    }
}

impl<Rhs: Predicate> std::ops::BitAnd<Rhs> for super::debug::Debug {
    type Output = C::And<super::debug::Debug, Rhs>;

    fn bitand(self, rhs: Rhs) -> C::And<super::debug::Debug, Rhs> {
        C::And(self, rhs)
    }
}

impl<Rhs: Predicate> vstd::std_specs::ops::BitAndSpecImpl<Rhs> for super::debug::Debug {
    open spec fn obeys_bitand_spec() -> bool {
        true
    }

    open spec fn bitand_req(self, rhs: Rhs) -> bool {
        true
    }

    open spec fn bitand_spec(self, rhs: Rhs) -> C::And<super::debug::Debug, Rhs> {
        C::And(self, rhs)
    }
}

impl<Rhs: Predicate> std::ops::BitOr<Rhs> for super::debug::Debug {
    type Output = C::Or<super::debug::Debug, Rhs>;

    fn bitor(self, rhs: Rhs) -> C::Or<super::debug::Debug, Rhs> {
        C::Or(self, rhs)
    }
}

impl<Rhs: Predicate> vstd::std_specs::ops::BitOrSpecImpl<Rhs> for super::debug::Debug {
    open spec fn obeys_bitor_spec() -> bool {
        true
    }

    open spec fn bitor_req(self, rhs: Rhs) -> bool {
        true
    }

    open spec fn bitor_spec(self, rhs: Rhs) -> C::Or<super::debug::Debug, Rhs> {
        C::Or(self, rhs)
    }
}

impl<Rhs: Predicate> std::ops::BitAnd<Rhs> for NoPanic {
    type Output = C::And<NoPanic, Rhs>;

    fn bitand(self, rhs: Rhs) -> C::And<NoPanic, Rhs> {
        C::And(self, rhs)
    }
}

impl<Rhs: Predicate> vstd::std_specs::ops::BitAndSpecImpl<Rhs> for NoPanic {
    open spec fn obeys_bitand_spec() -> bool {
        true
    }

    open spec fn bitand_req(self, rhs: Rhs) -> bool {
        true
    }

    open spec fn bitand_spec(self, rhs: Rhs) -> C::And<NoPanic, Rhs> {
        C::And(self, rhs)
    }
}

impl<Rhs: Predicate> std::ops::BitOr<Rhs> for NoPanic {
    type Output = C::Or<NoPanic, Rhs>;

    fn bitor(self, rhs: Rhs) -> C::Or<NoPanic, Rhs> {
        C::Or(self, rhs)
    }
}

impl<Rhs: Predicate> vstd::std_specs::ops::BitOrSpecImpl<Rhs> for NoPanic {
    open spec fn obeys_bitor_spec() -> bool {
        true
    }

    open spec fn bitor_req(self, rhs: Rhs) -> bool {
        true
    }

    open spec fn bitor_spec(self, rhs: Rhs) -> C::Or<NoPanic, Rhs> {
        C::Or(self, rhs)
    }
}

} // verus!
