//! Creating the links of a plan: what to do where something is already
//! in the place of a link.

use vstd::prelude::*;
use crate::errors::{ErrorModel, InstallError};
use crate::layout::{LinkSlot, SlotModel};
use crate::text::{chars_of, find_last, last_index_of, string_of, text_eq};

verus! {

/// What has to be done for a link slot.
#[derive(Clone, Copy, Debug, PartialEq, Eq, Structural)]
pub enum LinkAction {
    /// Nothing is in the slot's place: the link is created.
    Create,
    /// The link is there and points at the slot's target: nothing is done.
    Keep,
}

/// What `resolve_link` answers for a slot, given what the entry in the
/// place of the link points at, if there is one.
pub open spec fn link_outcome(slot: SlotModel, existing: Option<Seq<char>>) -> Result<
    LinkAction,
    ErrorModel,
> {
    match existing {
        None => Ok(LinkAction::Create),
        Some(target) => if target == slot.target_path {
            Ok(LinkAction::Keep)
        } else {
            Err(
                ErrorModel::LinkConflict {
                    path: slot.link_path,
                    expected: slot.target_path,
                    actual: target,
                },
            )
        },
    }
}

/// Decides what to do for a link slot. `existing` is what the entry in
/// the place of the link points at, where there is such an entry. An
/// entry that points at the slot's target counts as success; one that
/// points elsewhere is a conflict, reported with both targets. The
/// decision is the same on every platform, whatever kind of link it uses.
pub fn resolve_link(slot: &LinkSlot, existing: Option<&str>) -> (r: Result<
    LinkAction,
    InstallError,
>)
    ensures
        match r {
            Ok(action) => link_outcome(
                slot@,
                match existing {
                    Some(t) => Some(t@),
                    None => None,
                },
            ) == Ok::<LinkAction, ErrorModel>(action),
            Err(e) => link_outcome(
                slot@,
                match existing {
                    Some(t) => Some(t@),
                    None => None,
                },
            ) == Err::<LinkAction, ErrorModel>(e@),
        },
{
    match existing {
        None => Ok(LinkAction::Create),
        Some(target) => {
            if text_eq(target, slot.target_path.as_str()) {
                Ok(LinkAction::Keep)
            } else {
                Err(
                    InstallError::LinkConflict {
                        path: slot.link_path.clone(),
                        expected: slot.target_path.clone(),
                        actual: String::from_str(target),
                    },
                )
            }
        },
    }
}

/// The directory in which a link lies: its path up to the last slash, or
/// nothing where the path has no slash.
pub open spec fn parent_of(path: Seq<char>) -> Option<Seq<char>> {
    let slash = last_index_of(path, '/');
    if slash < 0 {
        None
    } else {
        Some(path.take(slash))
    }
}

/// The directory that has to exist before the link of `slot` is created.
/// The link of a scoped dependency lies in the directory of its scope,
/// which no package's own directories include.
pub fn link_directory(slot: &LinkSlot) -> (dir: Option<String>)
    ensures
        match dir {
            Some(d) => parent_of(slot.link_path@) == Some(d@),
            None => parent_of(slot.link_path@) is None,
        },
{
    let chars = chars_of(slot.link_path.as_str());
    match find_last(&chars, '/') {
        Some(slash) => {
            let dir = string_of(&chars, 0, slash);
            assert(chars@.subrange(0, slash as int) == slot.link_path@.take(slash as int));
            Some(dir)
        },
        None => None,
    }
}

/// Creating the links of a plan a second time changes nothing: a link that
/// was created for a slot is kept when the slot is resolved again.
pub proof fn relinking_keeps_links(slot: SlotModel)
    ensures
        link_outcome(slot, None) == Ok::<LinkAction, ErrorModel>(LinkAction::Create),
        link_outcome(slot, Some(slot.target_path)) == Ok::<LinkAction, ErrorModel>(
            LinkAction::Keep,
        ),
{
}

} // verus!
