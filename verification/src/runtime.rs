//! The permissions that a runtime runs under.
use vstd::prelude::*;

use crate::text::views;

verus! {

/// The permissions of one run. A capability without a list is denied; an empty
/// list grants it without a limit; any other list grants just its items.
#[derive(Clone, Debug, PartialEq, Eq)]
pub struct RuntimePermissions {
    pub allow_read: Option<Vec<String>>,
    pub allow_write: Option<Vec<String>>,
    pub allow_net: Option<Vec<String>>,
    pub allow_env: Option<Vec<String>>,
    pub allow_run: Option<Vec<String>>,
    pub allow_ffi: Option<Vec<String>>,
    pub allow_sys: Option<Vec<String>>,
    pub allow_import: Option<Vec<String>>,
}

/// The model of [`RuntimePermissions`].
pub struct RuntimePermissionsView {
    pub allow_read: Option<Seq<Seq<char>>>,
    pub allow_write: Option<Seq<Seq<char>>>,
    pub allow_net: Option<Seq<Seq<char>>>,
    pub allow_env: Option<Seq<Seq<char>>>,
    pub allow_run: Option<Seq<Seq<char>>>,
    pub allow_ffi: Option<Seq<Seq<char>>>,
    pub allow_sys: Option<Seq<Seq<char>>>,
    pub allow_import: Option<Seq<Seq<char>>>,
}

/// The model of an optional list.
pub open spec fn opt_views(list: Option<Vec<String>>) -> Option<Seq<Seq<char>>> {
    match list {
        Some(items) => Some(views(items@)),
        None => None,
    }
}

/// Does a capability's list grant the item?
pub open spec fn grants(list: Option<Seq<Seq<char>>>, item: Seq<char>) -> bool {
    match list {
        Some(items) => items.len() == 0 || items.contains(item),
        None => false,
    }
}

impl View for RuntimePermissions {
    type V = RuntimePermissionsView;

    open spec fn view(&self) -> RuntimePermissionsView {
        RuntimePermissionsView {
            allow_read: opt_views(self.allow_read),
            allow_write: opt_views(self.allow_write),
            allow_net: opt_views(self.allow_net),
            allow_env: opt_views(self.allow_env),
            allow_run: opt_views(self.allow_run),
            allow_ffi: opt_views(self.allow_ffi),
            allow_sys: opt_views(self.allow_sys),
            allow_import: opt_views(self.allow_import),
        }
    }
}

impl Default for RuntimePermissions {
    /// Nothing is granted.
    fn default() -> (r: RuntimePermissions)
        ensures
            r@ == (RuntimePermissionsView {
                allow_read: None,
                allow_write: None,
                allow_net: None,
                allow_env: None,
                allow_run: None,
                allow_ffi: None,
                allow_sys: None,
                allow_import: None,
            }),
    {
        RuntimePermissions {
            allow_read: None,
            allow_write: None,
            allow_net: None,
            allow_env: None,
            allow_run: None,
            allow_ffi: None,
            allow_sys: None,
            allow_import: None,
        }
    }
}

/// The model of a run's permissions has the list of each capability in its place.
pub proof fn law_models_of_runtime_permissions(p: RuntimePermissions, items: Vec<String>)
    ensures
        p@.allow_read == opt_views(p.allow_read),
        p@.allow_write == opt_views(p.allow_write),
        p@.allow_net == opt_views(p.allow_net),
        p@.allow_env == opt_views(p.allow_env),
        p@.allow_run == opt_views(p.allow_run),
        p@.allow_ffi == opt_views(p.allow_ffi),
        p@.allow_sys == opt_views(p.allow_sys),
        p@.allow_import == opt_views(p.allow_import),
        opt_views(Some(items)) == Some(views(items@)),
        opt_views(None) is None,
{
}

} // verus!
