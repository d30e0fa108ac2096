use vstd::prelude::*;

verus! {

/// The state of the settings window: which minor category is open.
pub struct SettingsWindow {
    selected_minor: &'static str,
}

impl SettingsWindow {
    pub closed spec fn spec_selected_minor(&self) -> Seq<char> {
        self.selected_minor@
    }

    /// A window that opens on the account page.
    pub fn new() -> (r: SettingsWindow)
        ensures
            r.spec_selected_minor() == "account"@,
    {
        SettingsWindow { selected_minor: "account" }
    }

    pub fn selected_minor(&self) -> (r: &'static str)
        ensures
            r@ == self.spec_selected_minor(),
    {
        self.selected_minor
    }

    /// Opens the minor category with key `key`.
    pub fn select(&mut self, key: &'static str)
        ensures
            final(self).spec_selected_minor() == key@,
    {
        self.selected_minor = key;
    }
}

} // verus!
