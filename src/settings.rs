use vstd::prelude::*;

verus! {

/// The user's preferences. Sizes are held in tenths: `font_size_tenths == 140`
/// is a 14 px font, `ui_scale_tenths == 10` is a scale of one.
pub struct Settings {
    pub user_name: String,
    pub theme_mode: String,
    pub font_size_tenths: u32,
    pub ui_scale_tenths: u32,
    pub enable_animations: bool,
    pub auto_save_interval: u64,
    pub sync_on_startup: bool,
    pub show_debug_info: bool,
    pub experimental_layout: bool,
}

impl Settings {
    /// The values a fresh installation starts with.
    pub open spec fn is_default(&self) -> bool {
        &&& self.user_name@ == "User"@
        &&& self.theme_mode@ == "Dark"@
        &&& self.font_size_tenths == 140
        &&& self.ui_scale_tenths == 10
        &&& self.enable_animations
        &&& self.auto_save_interval == 60
        &&& self.sync_on_startup
        &&& !self.show_debug_info
        &&& !self.experimental_layout
    }

    /// A copy of these settings, for a reader that must not hold on to the shared value.
    pub fn get(&self) -> (r: Settings)
        ensures
            r == *self,
    {
        Settings {
            user_name: self.user_name.clone(),
            theme_mode: self.theme_mode.clone(),
            font_size_tenths: self.font_size_tenths,
            ui_scale_tenths: self.ui_scale_tenths,
            enable_animations: self.enable_animations,
            auto_save_interval: self.auto_save_interval,
            sync_on_startup: self.sync_on_startup,
            show_debug_info: self.show_debug_info,
            experimental_layout: self.experimental_layout,
        }
    }

    /// Replaces these settings with what `f` makes of them.
    pub fn modify<F: FnOnce(Settings) -> Settings>(&mut self, f: F)
        requires
            f.requires((*old(self),)),
        ensures
            f.ensures((*old(self),), *final(self)),
    {
        let current = self.get();
        *self = f(current);
    }
}

impl Default for Settings {
    fn default() -> (r: Settings)
        ensures
            r.is_default(),
    {
        let r = Settings {
            user_name: String::from_str("User"),
            theme_mode: String::from_str("Dark"),
            font_size_tenths: 140,
            ui_scale_tenths: 10,
            enable_animations: true,
            auto_save_interval: 60,
            sync_on_startup: true,
            show_debug_info: false,
            experimental_layout: false,
        };
        proof {
            reveal_strlit("User");
            reveal_strlit("Dark");
        }
        r
    }
}

} // verus!
