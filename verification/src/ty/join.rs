//! Joining the types of a container's children into one.

use vstd::prelude::*;

use crate::ty::def::{FlowType, Ty, ty_view, tys_view};

verus! {

/// Gathers the types of the children of a container.
#[derive(Debug)]
pub struct Joiner {
    break_or_continue_or_return: bool,
    definite: FlowType,
    possibles: Vec<FlowType>,
}

/// The mathematical value of a [`Joiner`].
pub struct JoinerTy {
    /// Set once a child left the control flow; later children are ignored.
    pub poisoned: bool,
    /// What the children seen so far definitely are.
    pub definite: Ty,
    /// The children that were variables.
    pub possibles: Seq<Ty>,
}

impl View for Joiner {
    type V = JoinerTy;

    closed spec fn view(&self) -> JoinerTy {
        JoinerTy {
            poisoned: self.break_or_continue_or_return,
            definite: ty_view(&self.definite),
            possibles: tys_view(&self.possibles),
        }
    }
}

/// The joiner before any child.
pub open spec fn joiner_start() -> JoinerTy {
    JoinerTy { poisoned: false, definite: Ty::NoneType, possibles: Seq::empty() }
}

/// Whether a child leaves what was joined so far as it is.
pub open spec fn join_ignores(child: Ty) -> bool {
    child is Clause || child is Undef || child is Any || child is Infer || child is NoneType
}

/// The joiner after one more child.
pub open spec fn join_spec(j: JoinerTy, child: Ty) -> JoinerTy {
    if j.poisoned || join_ignores(child) {
        j
    } else if child is FlowNone {
        JoinerTy { poisoned: true, ..j }
    } else if child is Var {
        JoinerTy { possibles: j.possibles.push(child), ..j }
    } else if child is Content && j.definite is Content {
        j
    } else if j.definite is NoneType {
        JoinerTy { definite: child, ..j }
    } else {
        JoinerTy { definite: Ty::Undef, ..j }
    }
}

/// The joiner after the children `s`, taken in order.
pub open spec fn join_all_spec(j: JoinerTy, s: Seq<Ty>) -> JoinerTy
    decreases s.len(),
{
    if s.len() == 0 {
        j
    } else {
        join_spec(join_all_spec(j, s.drop_last()), s.last())
    }
}

/// The type of the container: what the children definitely are, or `Any`
/// once a variable was among them.
pub open spec fn finalize_spec(j: JoinerTy) -> Ty {
    if j.possibles.len() == 0 {
        j.definite
    } else {
        Ty::Any
    }
}

impl Joiner {
    /// A joiner that has seen no child.
    pub fn new() -> (r: Joiner)
        ensures
            r@ == joiner_start(),
    {
        let r = Joiner {
            break_or_continue_or_return: false,
            definite: FlowType::NoneType,
            possibles: Vec::new(),
        };
        assert(r@.possibles =~= Seq::empty());
        r
    }

    /// The type of the container.
    pub fn finalize(self) -> (r: FlowType)
        ensures
            r@ == finalize_spec(self@),
    {
        if self.possibles.len() == 0 {
            return self.definite;
        }
        FlowType::Any
    }

    /// Takes in the type of one more child.
    pub fn join(&mut self, child: FlowType)
        ensures
            final(self)@ == join_spec(old(self)@, child@),
    {
        if self.break_or_continue_or_return {
            return ;
        }
        match child {
            FlowType::Clause => {},
            FlowType::Undef => {},
            FlowType::Any => {},
            FlowType::Infer => {},
            FlowType::NoneType => {},
            FlowType::FlowNone => {
                self.break_or_continue_or_return = true;
            },
            child => {
                match &self.definite {
                    FlowType::Content => {
                        match child {
                            FlowType::Content => {},
                            FlowType::Var(v) => {
                                let ghost before = self.possibles;
                                self.possibles.push(FlowType::Var(v));
                                assert(tys_view(&self.possibles) =~= tys_view(&before).push(
                                    child@,
                                ));
                            },
                            _ => {
                                self.definite = FlowType::Undef;
                            },
                        }
                    },
                    FlowType::NoneType => {
                        match child {
                            FlowType::Var(v) => {
                                let ghost before = self.possibles;
                                self.possibles.push(FlowType::Var(v));
                                assert(tys_view(&self.possibles) =~= tys_view(&before).push(
                                    child@,
                                ));
                            },
                            child => {
                                self.definite = child;
                            },
                        }
                    },
                    _ => {
                        match child {
                            FlowType::Var(v) => {
                                let ghost before = self.possibles;
                                self.possibles.push(FlowType::Var(v));
                                assert(tys_view(&self.possibles) =~= tys_view(&before).push(
                                    child@,
                                ));
                            },
                            _ => {
                                self.definite = FlowType::Undef;
                            },
                        }
                    },
                }
            },
        }
    }
}

impl Default for Joiner {
    fn default() -> (r: Joiner)
        ensures
            r@ == joiner_start(),
    {
        Joiner::new()
    }
}

} // verus!
