//! Ready-made catalog entries.

use crate::action::{
    Action, ActionList, ActionTarget, ActionView, ChangeResourceAction, ChangeResourceView,
};
use crate::catalog::{PossibleAction, PossibleView};
use crate::scene::SceneOutput;
use vstd::prelude::*;

verus! {

/// An entry that takes 10 off the health of the target it is bound to.
pub struct ChangeResourceDummy {}

impl ChangeResourceDummy {
    /// What [`ChangeResourceDummy::build`] builds: a list of one action, bound
    /// to no target yet, offered without requirements.
    pub open spec fn entry() -> PossibleView {
        PossibleView {
            action: ActionView::List(
                seq![
                    ActionView::ChangeResource(
                        ChangeResourceView {
                            source: None,
                            target: None,
                            target_type: ActionTarget::Target,
                            action_name: "ChangeResourceDummy"@,
                            resource_identifier: "health"@,
                            amount: -10,
                            output: "Reducing Resource by 10"@,
                        },
                    ),
                ],
            ),
            requirements: Seq::empty(),
        }
    }

    /// Builds the entry.
    pub fn build() -> (entry: PossibleAction)
        ensures
            entry@ == ChangeResourceDummy::entry(),
    {
        let mut action_list = ActionList::default();
        let change = ChangeResourceAction::new(
            None,
            None,
            ActionTarget::Target,
            "ChangeResourceDummy".to_owned(),
            "health".to_owned(),
            -10,
            SceneOutput::new("Reducing Resource by 10"),
        );
        action_list.add_action(Action::ChangeResource(change));
        let entry = PossibleAction::new(Action::List(action_list), Vec::new());
        proof {
            assert(action_list@ =~= seq![ActionView::ChangeResource(change@)]);
            assert(entry@.requirements =~= Seq::empty());
        }
        entry
    }
}

} // verus!
