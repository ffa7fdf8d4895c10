//! The hot-swappable holder of the current rule set.
//!
//! Many worker threads read the store once per packet while a configuration
//! thread occasionally installs a whole new set. A snapshot is a shared,
//! reference-counted handle: it stays valid for as long as its holder keeps
//! it, however many replacements happen meanwhile, and the retired set is
//! freed only when its last holder drops it. Readers never see a set in
//! construction: a set is built completely before `replace` installs it.

use vstd::prelude::*;
use std::sync::Arc;
use atomic_refcell::AtomicRefCell;
use crate::rules::RuleSet;

verus! {

#[verifier::external_type_specification]
#[verifier::external_body]
#[verifier::reject_recursive_types(T)]
pub struct ExAtomicRefCell<T: ?Sized>(AtomicRefCell<T>);

/// Relies on `atomic_refcell::AtomicRefCell::new`: the cell starts out
/// holding the given value.
#[verifier::external_body]
fn cell_new(s: Arc<RuleSet>) -> AtomicRefCell<Arc<RuleSet>>
    requires
        s.wf(),
{
    AtomicRefCell::new(s)
}

/// Relies on `atomic_refcell::AtomicRefCell::try_borrow`: a granted borrow
/// dereferences to the value the cell holds, and `try_borrow` never panics.
/// The cell only ever holds values installed by `cell_new` or `cell_set`,
/// which both demand a well-formed set, so the handle cloned out of the
/// guard is well-formed. Retries past the brief exclusive window of a
/// concurrent `cell_set`.
#[verifier::external_body]
fn cell_get(c: &AtomicRefCell<Arc<RuleSet>>) -> (s: Arc<RuleSet>)
    ensures
        s.wf(),
{
    loop {
        if let Ok(guard) = c.try_borrow() {
            return Arc::clone(&guard);
        }
    }
}

/// Relies on `atomic_refcell::AtomicRefCell::try_borrow_mut`: a granted
/// mutable borrow writes the cell's value, and `try_borrow_mut` never
/// panics. Retries until the concurrent readers of the moment have dropped
/// their guards; each reader holds its guard only for the duration of one
/// handle clone.
#[verifier::external_body]
fn cell_set(c: &AtomicRefCell<Arc<RuleSet>>, s: Arc<RuleSet>)
    requires
        s.wf(),
{
    loop {
        if let Ok(mut guard) = c.try_borrow_mut() {
            *guard = s;
            return;
        }
    }
}

/// The store of the current rule set. Shared by reference between the
/// configuration thread and every worker thread.
pub struct RuleStore {
    cell: AtomicRefCell<Arc<RuleSet>>,
}

impl RuleStore {
    /// A store whose current set is empty: everything is accepted until the
    /// first configuration line arrives.
    pub fn new() -> RuleStore {
        RuleStore { cell: cell_new(Arc::new(RuleSet::new())) }
    }

    /// Install a completely built set as current. Snapshots taken before
    /// this call keep their old set; snapshots taken after it see `set`.
    pub fn replace(&self, set: RuleSet)
        requires
            set.wf(),
    {
        cell_set(&self.cell, Arc::new(set));
    }

    /// Parse one configuration line and install the set it encodes as
    /// current. A line with no valid token installs the empty set.
    pub fn load_line(&self, line: &[u8]) {
        let set = crate::config::parse_line(line);
        self.replace(set);
    }

    /// The set current at call time, well-formed and immutable. The handle
    /// stays valid until dropped, across any number of replacements.
    pub fn snapshot(&self) -> (s: Arc<RuleSet>)
        ensures
            s.wf(),
    {
        cell_get(&self.cell)
    }
}

} // verus!
