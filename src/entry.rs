//! Which declarations are where the program starts.
use crate::ast::{Item, ItemKind};
use crate::hooks::str_is;
use vstd::prelude::*;

verus! {

/// How a declaration stands as a program entry point.
#[derive(Clone, Copy, Debug, PartialEq, Eq, Structural)]
pub enum EntryPointType {
    /// Not an entry point.
    NotEntry,
    /// A function named `main` at top scope.
    MainNamed,
    /// A function with the `main` attribute, at top scope.
    MainAttr,
    /// A function with the `start` attribute, at top scope.
    Start,
    /// A function named `main`, or with the `main` or `start` attribute,
    /// below top scope: not where the program starts.
    OtherMain,
}

pub open spec fn has_attr(item: Item, a: Seq<char>) -> bool {
    exists|i: int| 0 <= i < item.attrs@.len() && (#[trigger] item.attrs@[i])@ == a
}

/// The entry-point class of `item`, declared at scope depth `depth` (zero
/// at top scope). Only a declaration at top scope can be an entry point.
pub open spec fn entry_point_spec(item: Item, depth: nat) -> EntryPointType {
    if !(item.kind is Fn) {
        EntryPointType::NotEntry
    } else if !(has_attr(item, "start"@) || has_attr(item, "main"@) || item.name@ == "main"@) {
        EntryPointType::NotEntry
    } else if depth != 0 {
        EntryPointType::OtherMain
    } else if has_attr(item, "start"@) {
        EntryPointType::Start
    } else if has_attr(item, "main"@) {
        EntryPointType::MainAttr
    } else {
        EntryPointType::MainNamed
    }
}

/// Whether a declaration of this class is where the program starts.
pub open spec fn is_entry(t: EntryPointType) -> bool {
    t is MainNamed || t is MainAttr || t is Start
}

fn item_has_attr(item: &Item, a: &str) -> (r: bool)
    ensures
        r == has_attr(*item, a@),
{
    let mut i: usize = 0;
    while i < item.attrs.len()
        invariant
            i <= item.attrs@.len(),
            forall|j: int| 0 <= j < i ==> (#[trigger] item.attrs@[j])@ != a@,
        decreases item.attrs@.len() - i,
    {
        if str_is(item.attrs[i].as_str(), a) {
            return true;
        }
        i += 1;
    }
    false
}

/// Classifies `item`, declared at scope depth `depth`, as an entry point.
pub fn entry_point_type(item: &Item, depth: usize) -> (r: EntryPointType)
    ensures
        r == entry_point_spec(*item, depth as nat),
{
    match &item.kind {
        ItemKind::Fn(_, _) => {
            let start = item_has_attr(item, "start");
            let main_attr = item_has_attr(item, "main");
            let main_named = str_is(item.name.as_str(), "main");
            if !(start || main_attr || main_named) {
                EntryPointType::NotEntry
            } else if depth != 0 {
                EntryPointType::OtherMain
            } else if start {
                EntryPointType::Start
            } else if main_attr {
                EntryPointType::MainAttr
            } else {
                EntryPointType::MainNamed
            }
        },
        _ => EntryPointType::NotEntry,
    }
}

/// Whether a declaration of class `t` is where the program starts.
pub fn is_entry_exec(t: EntryPointType) -> (r: bool)
    ensures
        r == is_entry(t),
{
    match t {
        EntryPointType::MainNamed | EntryPointType::MainAttr | EntryPointType::Start => true,
        _ => false,
    }
}

} // verus!
