use vstd::prelude::*;
use vstd::string::StringExecFns;

use super::scope::Scope;

verus! {

/// One kind of work of the setup: initializers, say. A step collects the
/// operands that are registered under one scope, so that they run as one
/// operation once registration is over.
///
/// The spec functions are the model that the contracts speak of. A step type
/// of verified code defines them. A step type of other code cannot, and
/// leaves them as they are here: nothing is known of it then but what it
/// does.
pub trait Step: Sized {
    /// What is registered with steps of this type.
    type Operand;

    /// The key under which instances of this type are told apart: `()` for a
    /// type with a single instance, `Controller` for one with an instance for
    /// each target.
    type Scope: Scope;

    /// The name of the step type in names of steps.
    open spec fn spec_name() -> Seq<char> {
        arbitrary()
    }

    /// What holds of every instance: nothing, unless the type says so.
    open spec fn wf(&self) -> bool {
        true
    }

    /// The operands collected so far, in the order in which they run.
    open spec fn operands(&self) -> Seq<Self::Operand> {
        arbitrary()
    }

    /// The operands after `operand` was appended to `operands`: behind the
    /// others, unless the type merges them in another way.
    open spec fn merged(operands: Seq<Self::Operand>, operand: Self::Operand) -> Seq<
        Self::Operand,
    > {
        operands.push(operand)
    }

    /// The name of the step type in names of steps. By convention it is the
    /// name of the type without `Step`, in lower case.
    fn name() -> (name: &'static str)
        ensures
            name@ == Self::spec_name(),
    ;

    /// The name of the step under `scope`: the name of the type, then the
    /// suffix of the scope.
    fn name_in(&self, scope: &Self::Scope) -> (name: String)
        ensures
            name@ == Self::spec_name() + scope.spec_suffix(),
    {
        String::from_str(Self::name()).concat(scope.suffix().as_str())
    }

    /// How many operands the instance holds.
    fn operand_count(&self) -> (count: usize)
        ensures
            count == self.operands().len(),
    ;

    /// An instance for `scope`, without operands.
    fn new(scope: Self::Scope) -> (step: Self)
        ensures
            step.wf(),
            step.operands() == Seq::<Self::Operand>::empty(),
    ;

    /// Takes `operand` in.
    fn append(&mut self, operand: Self::Operand)
        requires
            old(self).wf(),
        ensures
            final(self).wf(),
            final(self).operands() == Self::merged(old(self).operands(), operand),
    ;
}

/// The scope type of a step type.
pub type StepScope<S> = <S as Step>::Scope;

/// What the execution of a step is given.
pub struct StepArgs<'a, C, S: Step> {
    /// The client. It is shared, and nothing here changes it.
    pub client: &'a C,
    /// The scope the step was registered under.
    pub scope: StepScope<S>,
}

} // verus!
