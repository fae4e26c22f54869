//! The configuration snapshot: branding, greeter options, feature flags,
//! the theme entry pages, and the keyboard layout allow-list.
//!
//! The values are read once at start-up and then only consulted; the one
//! adjustment is `configure`, which applies the command-line overrides and
//! fills in the default themes directory.

use vstd::prelude::*;
use vstd::string::StringExecFns;

verus! {

/// Branding image locations.
pub struct Branding {
    pub background_images_dir: String,
    pub logo_image: String,
    pub user_image: String,
}

/// General greeter options.
pub struct Greeter {
    pub debug_mode: bool,
    pub detect_theme_errors: bool,
    pub screensaver_timeout: u32,
    pub secure_mode: bool,
    pub theme: String,
    pub icon_theme: String,
    pub time_language: String,
}

/// The backlight feature's settings.
pub struct Backlight {
    pub enabled: bool,
    pub steps: u32,
    pub value: i32,
}

/// Optional hardware-related features.
pub struct Features {
    pub battery: bool,
    pub backlight: Backlight,
}

/// The entry pages of a theme: the primary page, and the page for the
/// other displays.
pub struct Theme {
    pub primary_html: String,
    pub secondary_html: Option<String>,
}

/// The whole configuration snapshot.
pub struct Settings {
    pub branding: Branding,
    pub greeter: Greeter,
    pub features: Features,
    pub theme: Option<Theme>,
    pub themes_dir: Option<String>,
    pub layouts: Vec<String>,
}

/// The directory the installed themes live in.
pub fn default_themes_dir() -> (r: &'static str)
    ensures
        r@ == "/usr/share/web-greeter/themes/"@,
{
    "/usr/share/web-greeter/themes/"
}

impl Default for Backlight {
    /// The backlight feature, switched off.
    fn default() -> (r: Backlight)
        ensures
            r.enabled == false,
            r.steps == 0,
            r.value == 10,
    {
        Backlight { enabled: false, steps: 0, value: 10 }
    }
}

impl Default for Theme {
    /// The conventional entry page, with no separate secondary page.
    fn default() -> (r: Theme)
        ensures
            r.primary_html@ == "index.html"@,
            r.secondary_html is None,
    {
        Theme { primary_html: String::from_str("index.html"), secondary_html: None }
    }
}

impl Default for Settings {
    /// The built-in configuration, used where no file overrides it.
    fn default() -> (r: Settings)
        ensures
            r.branding.background_images_dir@ == Seq::<char>::empty(),
            r.branding.logo_image@ == Seq::<char>::empty(),
            r.branding.user_image@ == Seq::<char>::empty(),
            r.greeter.debug_mode == false,
            r.greeter.detect_theme_errors == true,
            r.greeter.screensaver_timeout == 300,
            r.greeter.secure_mode == true,
            r.greeter.theme@ == "gruvbox"@,
            r.greeter.icon_theme@ == Seq::<char>::empty(),
            r.greeter.time_language@ == Seq::<char>::empty(),
            r.features.battery == false,
            r.features.backlight.enabled == false,
            r.features.backlight.steps == 0,
            r.features.backlight.value == 10,
            r.theme is None,
            r.themes_dir is None,
            r.layouts@ == Seq::<String>::empty(),
    {
        Settings {
            branding: Branding {
                background_images_dir: String::new(),
                logo_image: String::new(),
                user_image: String::new(),
            },
            greeter: Greeter {
                debug_mode: false,
                detect_theme_errors: true,
                screensaver_timeout: 300,
                secure_mode: true,
                theme: String::from_str("gruvbox"),
                icon_theme: String::new(),
                time_language: String::new(),
            },
            features: Features { battery: false, backlight: Backlight::default() },
            theme: None,
            themes_dir: None,
            layouts: Vec::new(),
        }
    }
}

impl Settings {
    /// The built-in configuration with the command-line overrides applied.
    pub fn new(debug: bool, theme: Option<&str>) -> (r: Settings)
        ensures
            r.greeter.debug_mode == debug,
            (match theme {
                Some(t) => r.greeter.theme@ == t@,
                None => r.greeter.theme@ == "gruvbox"@,
            }),
            r.themes_dir matches Some(d) && d@ == "/usr/share/web-greeter/themes/"@,
            r.greeter.detect_theme_errors == true,
            r.greeter.screensaver_timeout == 300,
            r.greeter.secure_mode == true,
    {
        let mut s = Settings::default();
        s.configure(debug, theme);
        s
    }

    /// Applies the command-line overrides: debug mode is turned on but
    /// never off, a given theme replaces the configured one, and a missing
    /// themes directory falls back to the installed default.
    pub fn configure(&mut self, debug: bool, theme: Option<&str>)
        ensures
            final(self).greeter.debug_mode == (old(self).greeter.debug_mode || debug),
            (match theme {
                Some(t) => final(self).greeter.theme@ == t@,
                None => final(self).greeter.theme@ == old(self).greeter.theme@,
            }),
            (match old(self).themes_dir {
                Some(_) => final(self).themes_dir == old(self).themes_dir,
                None => final(self).themes_dir matches Some(d) && d@
                    == "/usr/share/web-greeter/themes/"@,
            }),
            final(self).branding == old(self).branding,
            final(self).greeter.detect_theme_errors == old(self).greeter.detect_theme_errors,
            final(self).greeter.screensaver_timeout == old(self).greeter.screensaver_timeout,
            final(self).greeter.secure_mode == old(self).greeter.secure_mode,
            final(self).greeter.icon_theme == old(self).greeter.icon_theme,
            final(self).greeter.time_language == old(self).greeter.time_language,
            final(self).features == old(self).features,
            final(self).theme == old(self).theme,
            final(self).layouts == old(self).layouts,
    {
        if debug {
            self.set_debug_mode(true);
        }
        match theme {
            Some(t) => self.set_theme(t),
            None => (),
        }
        if self.themes_dir.is_none() {
            self.set_themes_dir(default_themes_dir());
        }
    }

    pub fn debug_mode(&self) -> (r: bool)
        ensures
            r == self.greeter.debug_mode,
    {
        self.greeter.debug_mode
    }

    pub fn detect_theme_errors(&self) -> (r: bool)
        ensures
            r == self.greeter.detect_theme_errors,
    {
        self.greeter.detect_theme_errors
    }

    pub fn screensaver_timeout(&self) -> (r: u32)
        ensures
            r == self.greeter.screensaver_timeout,
    {
        self.greeter.screensaver_timeout
    }

    pub fn secure_mode(&self) -> (r: bool)
        ensures
            r == self.greeter.secure_mode,
    {
        self.greeter.secure_mode
    }

    pub fn theme(&self) -> (r: &str)
        ensures
            r@ == self.greeter.theme@,
    {
        self.greeter.theme.as_str()
    }

    pub fn icon_theme(&self) -> (r: &str)
        ensures
            r@ == self.greeter.icon_theme@,
    {
        self.greeter.icon_theme.as_str()
    }

    pub fn time_language(&self) -> (r: &str)
        ensures
            r@ == self.greeter.time_language@,
    {
        self.greeter.time_language.as_str()
    }

    pub fn branding_background_images_dir(&self) -> (r: &str)
        ensures
            r@ == self.branding.background_images_dir@,
    {
        self.branding.background_images_dir.as_str()
    }

    pub fn branding_logo_image(&self) -> (r: &str)
        ensures
            r@ == self.branding.logo_image@,
    {
        self.branding.logo_image.as_str()
    }

    pub fn branding_user_image(&self) -> (r: &str)
        ensures
            r@ == self.branding.user_image@,
    {
        self.branding.user_image.as_str()
    }

    pub fn battery(&self) -> (r: bool)
        ensures
            r == self.features.battery,
    {
        self.features.battery
    }

    pub fn backlight_enabled(&self) -> (r: bool)
        ensures
            r == self.features.backlight.enabled,
    {
        self.features.backlight.enabled
    }

    pub fn backlight_value(&self) -> (r: i32)
        ensures
            r == self.features.backlight.value,
    {
        self.features.backlight.value
    }

    pub fn backlight_steps(&self) -> (r: u32)
        ensures
            r == self.features.backlight.steps,
    {
        self.features.backlight.steps
    }

    pub fn config_layouts(&self) -> (r: &Vec<String>)
        ensures
            r == &self.layouts,
    {
        &self.layouts
    }

    /// The primary entry page: what the theme declares, or the
    /// conventional `index.html`.
    pub fn primary_html(&self) -> (r: String)
        ensures
            (match self.theme {
                Some(t) => r@ == t.primary_html@,
                None => r@ == "index.html"@,
            }),
    {
        match &self.theme {
            Some(t) => t.primary_html.clone(),
            None => String::from_str("index.html"),
        }
    }

    /// The entry page for the other displays: what the theme declares,
    /// or the primary page again.
    pub fn secondary_html(&self) -> (r: Option<String>)
        ensures
            (match self.theme {
                Some(t) => r == t.secondary_html,
                None => r matches Some(h) && h@ == "index.html"@,
            }),
    {
        match &self.theme {
            Some(t) => match &t.secondary_html {
                Some(h) => Some(h.clone()),
                None => None,
            },
            None => Some(self.primary_html()),
        }
    }

    pub fn themes_dir(&self) -> (r: Option<&str>)
        ensures
            (match self.themes_dir {
                Some(d) => r matches Some(s) && s@ == d@,
                None => r is None,
            }),
    {
        match &self.themes_dir {
            Some(d) => Some(d.as_str()),
            None => None,
        }
    }

    pub fn set_themes_dir(&mut self, themes_dir: &str)
        ensures
            final(self).themes_dir matches Some(d) && d@ == themes_dir@,
            final(self).branding == old(self).branding,
            final(self).greeter == old(self).greeter,
            final(self).features == old(self).features,
            final(self).theme == old(self).theme,
            final(self).layouts == old(self).layouts,
    {
        self.themes_dir = Some(themes_dir.to_owned());
    }

    /// Turns debug mode on; never turns it off.
    pub fn set_debug_mode(&mut self, debug_mode: bool)
        ensures
            final(self).greeter.debug_mode == (old(self).greeter.debug_mode || debug_mode),
            final(self).greeter.detect_theme_errors == old(self).greeter.detect_theme_errors,
            final(self).greeter.screensaver_timeout == old(self).greeter.screensaver_timeout,
            final(self).greeter.secure_mode == old(self).greeter.secure_mode,
            final(self).greeter.theme == old(self).greeter.theme,
            final(self).greeter.icon_theme == old(self).greeter.icon_theme,
            final(self).greeter.time_language == old(self).greeter.time_language,
            final(self).branding == old(self).branding,
            final(self).features == old(self).features,
            final(self).theme == old(self).theme,
            final(self).themes_dir == old(self).themes_dir,
            final(self).layouts == old(self).layouts,
    {
        self.greeter.debug_mode = self.greeter.debug_mode || debug_mode;
    }

    pub fn set_theme(&mut self, theme: &str)
        ensures
            final(self).greeter.theme@ == theme@,
            final(self).greeter.debug_mode == old(self).greeter.debug_mode,
            final(self).greeter.detect_theme_errors == old(self).greeter.detect_theme_errors,
            final(self).greeter.screensaver_timeout == old(self).greeter.screensaver_timeout,
            final(self).greeter.secure_mode == old(self).greeter.secure_mode,
            final(self).greeter.icon_theme == old(self).greeter.icon_theme,
            final(self).greeter.time_language == old(self).greeter.time_language,
            final(self).branding == old(self).branding,
            final(self).features == old(self).features,
            final(self).theme == old(self).theme,
            final(self).themes_dir == old(self).themes_dir,
            final(self).layouts == old(self).layouts,
    {
        self.greeter.theme = theme.to_owned();
    }

    pub fn set_theme_html(&mut self, primary_html: String, secondary_html: Option<String>)
        ensures
            final(self).theme matches Some(t) && t.primary_html == primary_html
                && t.secondary_html == secondary_html,
            final(self).branding == old(self).branding,
            final(self).greeter == old(self).greeter,
            final(self).features == old(self).features,
            final(self).themes_dir == old(self).themes_dir,
            final(self).layouts == old(self).layouts,
    {
        self.theme = Some(Theme { primary_html, secondary_html });
    }
}

} // verus!
