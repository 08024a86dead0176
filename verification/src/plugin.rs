//! Plugin identities and descriptions.

use vstd::prelude::*;

verus! {

/// The identity of a loaded plugin. The host itself has the identity 0;
/// the plugins it loaded are numbered from 1 in load order.
#[derive(Clone, Copy, PartialEq, Eq, Hash, Debug, Structural)]
pub struct PluginId(pub(crate) u32);

impl View for PluginId {
    type V = u32;

    /// The number behind the identity.
    closed spec fn view(&self) -> u32 {
        self.0
    }
}

impl PluginId {
    /// The identity under which the host itself acts.
    pub fn pluggie_id() -> (id: PluginId)
        ensures
            id@ == 0,
    {
        PluginId(0)
    }

    /// The identity with the number `value`.
    pub fn new(value: u32) -> (id: PluginId)
        ensures
            id@ == value,
    {
        PluginId(value)
    }

    /// The identity of the plugin at `index` in load order.
    pub(crate) fn of_index(index: usize) -> (id: PluginId)
        requires
            index < u32::MAX,
        ensures
            id@ == index + 1,
    {
        PluginId((index + 1) as u32)
    }

    /// The number behind this identity.
    pub fn value(&self) -> (v: u32)
        ensures
            v == self@,
    {
        self.0
    }

    /// Two identities are equal exactly when their numbers are.
    pub proof fn lemma_view_injective(a: PluginId, b: PluginId)
        ensures
            (a == b) <==> (a@ == b@),
    {
    }
}

/// What a plugin tells the host about itself.
#[derive(Clone, Debug)]
pub struct PluginInfo {
    pub name: String,
    pub version: String,
    pub author: String,
    pub pluggie_version: u32,
}

impl PluginInfo {
    /// Whether the plugin was built against this version of the plugin
    /// interface; the host refuses to load one that was not.
    pub fn is_compatible(&self) -> (compatible: bool)
        ensures
            compatible == (self.pluggie_version == crate::VERSION),
    {
        self.pluggie_version == crate::VERSION
    }
}

} // verus!
