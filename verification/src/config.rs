//! The configuration snapshot handler: the method table of the
//! `greeter_config` namespace.
//!
//! Every method is a no-argument query over the settings and, for the
//! layout list, over the daemon's keyboard layouts: the configured layout
//! names select which of the daemon's layouts the theme may offer.

use vstd::prelude::*;
use crate::envelope::HandlerResult;
use crate::json::{Json, JsonV, jviews, mviews, lemma_mviews_index, lemma_mviews_len};
use crate::lightdm::{Layout, layout_json, layout_name_view};
use crate::settings::Settings;
use crate::text::{is_lit, text, text_eq};

verus! {

/// The JSON shape of the branding section.
pub open spec fn branding_json(s: Settings) -> JsonV {
    JsonV::Obj(
        seq![
            ("background_images_dir"@, JsonV::Str(s.branding.background_images_dir@)),
            ("logo_image"@, JsonV::Str(s.branding.logo_image@)),
            ("user_image"@, JsonV::Str(s.branding.user_image@)),
        ],
    )
}

/// The JSON shape of the greeter section.
pub open spec fn greeter_json(s: Settings) -> JsonV {
    JsonV::Obj(
        seq![
            ("debug_mode"@, JsonV::Bool(s.greeter.debug_mode)),
            ("detect_theme_errors"@, JsonV::Bool(s.greeter.detect_theme_errors)),
            ("screensaver_timeout"@, JsonV::Num(s.greeter.screensaver_timeout as i64)),
            ("secure_mode"@, JsonV::Bool(s.greeter.secure_mode)),
            ("theme"@, JsonV::Str(s.greeter.theme@)),
            ("icon_theme"@, JsonV::Str(s.greeter.icon_theme@)),
            ("time_language"@, JsonV::Str(s.greeter.time_language@)),
        ],
    )
}

/// The JSON shape of the features section.
pub open spec fn features_json(s: Settings) -> JsonV {
    JsonV::Obj(
        seq![
            ("battery"@, JsonV::Bool(s.features.battery)),
            (
                "backlight"@,
                JsonV::Obj(
                    seq![
                        ("enabled"@, JsonV::Bool(s.features.backlight.enabled)),
                        ("value"@, JsonV::Num(s.features.backlight.value as i64)),
                        ("steps"@, JsonV::Num(s.features.backlight.steps as i64)),
                    ],
                ),
            ),
        ],
    )
}

/// A configured layout name, with each space written as a tab, the form
/// the daemon uses.
pub open spec fn tabbed(s: Seq<char>) -> Seq<char> {
    Seq::new(s.len(), |i: int| if s[i] == ' ' { '\t' } else { s[i] })
}

/// Whether a daemon layout is selected by the configured names: it has a
/// name, and some configured name, tabbed, spells it.
pub open spec fn layout_selected(l: Layout, names: Seq<String>) -> bool {
    match layout_name_view(l) {
        Some(n) => exists|i: int| 0 <= i < names.len() && tabbed(names[i]@) == n,
        None => false,
    }
}

/// The JSON shapes of the selected layouts, in the daemon's order.
pub open spec fn selected_layouts_json(ls: Seq<Layout>, names: Seq<String>) -> Seq<JsonV>
    decreases ls.len(),
{
    if ls.len() == 0 {
        Seq::empty()
    } else if layout_selected(ls[0], names) {
        seq![layout_json(ls[0])] + selected_layouts_json(ls.skip(1), names)
    } else {
        selected_layouts_json(ls.skip(1), names)
    }
}

/// Selection distributes over appending one layout.
proof fn lemma_selected_push(ls: Seq<Layout>, names: Seq<String>, l: Layout)
    ensures
        selected_layouts_json(ls.push(l), names) == if layout_selected(l, names) {
            selected_layouts_json(ls, names).push(layout_json(l))
        } else {
            selected_layouts_json(ls, names)
        },
    decreases ls.len(),
{
    if ls.len() == 0 {
        assert(ls.push(l)[0] == l);
        assert(ls.push(l).skip(1) =~= Seq::<Layout>::empty());
        assert(selected_layouts_json(ls.push(l).skip(1), names) == Seq::<JsonV>::empty());
        assert(selected_layouts_json(ls, names) == Seq::<JsonV>::empty());
        if layout_selected(l, names) {
            assert(selected_layouts_json(ls.push(l), names) == seq![layout_json(l)]
                + Seq::<JsonV>::empty());
            assert(seq![layout_json(l)] + Seq::<JsonV>::empty() =~= Seq::<JsonV>::empty().push(
                layout_json(l),
            ));
        } else {
            assert(selected_layouts_json(ls.push(l), names) == Seq::<JsonV>::empty());
        }
    } else {
        assert(ls.push(l)[0] == ls[0]);
        assert(ls.push(l).skip(1) =~= ls.skip(1).push(l));
        lemma_selected_push(ls.skip(1), names, l);
        if layout_selected(ls[0], names) {
            assert(selected_layouts_json(ls.push(l), names) == seq![layout_json(ls[0])]
                + selected_layouts_json(ls.skip(1).push(l), names));
            assert(selected_layouts_json(ls, names) == seq![layout_json(ls[0])]
                + selected_layouts_json(ls.skip(1), names));
            if layout_selected(l, names) {
                assert(seq![layout_json(ls[0])] + selected_layouts_json(ls.skip(1), names).push(
                    layout_json(l),
                ) =~= (seq![layout_json(ls[0])] + selected_layouts_json(ls.skip(1), names)).push(
                    layout_json(l),
                ));
            }
        } else {
            assert(selected_layouts_json(ls.push(l), names) == selected_layouts_json(
                ls.skip(1).push(l),
                names,
            ));
            assert(selected_layouts_json(ls, names) == selected_layouts_json(ls.skip(1), names));
        }
    }
}

/// What the configuration handler answers, per method.
pub open spec fn config_result(s: Settings, layouts: Seq<Layout>, method: Seq<char>) -> (
    crate::lightdm::ResultV
) {
    if method == "branding"@ {
        crate::lightdm::ResultV::Value(branding_json(s))
    } else if method == "greeter"@ {
        crate::lightdm::ResultV::Value(greeter_json(s))
    } else if method == "features"@ {
        crate::lightdm::ResultV::Value(features_json(s))
    } else if method == "layouts"@ {
        crate::lightdm::ResultV::Value(JsonV::Arr(selected_layouts_json(layouts, s.layouts@)))
    } else {
        crate::lightdm::ResultV::Undefined
    }
}

/// The configuration handler: the settings snapshot and the daemon's
/// layouts.
pub struct GreeterConfig {
    pub settings: Settings,
    pub layouts: Vec<Layout>,
}

/// A configured name, tabbed, as a character vector.
fn tabbed_text(s: &String) -> (r: Vec<char>)
    ensures
        r@ == tabbed(s@),
{
    let chars = text(s.as_str());
    let mut out: Vec<char> = Vec::new();
    let mut i: usize = 0;
    while i < chars.len()
        invariant
            i <= chars@.len(),
            chars@ == s@,
            out@.len() == i,
            forall|k: int| 0 <= k < i ==> out@[k] == tabbed(s@)[k],
        decreases chars@.len() - i,
    {
        let c = chars[i];
        if c == ' ' {
            out.push('\t');
        } else {
            out.push(c);
        }
        i += 1;
    }
    proof {
        assert(out@ =~= tabbed(s@));
    }
    out
}

/// Whether a daemon layout is selected by the configured names.
fn layout_selected_check(l: &Layout, names: &Vec<String>) -> (r: bool)
    ensures
        r == layout_selected(*l, names@),
{
    let n: &Vec<char> = match &l.name {
        Some(n) => n,
        None => {
            return false;
        },
    };
    let mut i: usize = 0;
    while i < names.len()
        invariant
            i <= names@.len(),
            layout_name_view(*l) == Some(n@),
            forall|k: int| 0 <= k < i ==> tabbed(names@[k]@) != n@,
        decreases names@.len() - i,
    {
        let t = tabbed_text(&names[i]);
        if text_eq(&t, n) {
            return true;
        }
        i += 1;
    }
    false
}

impl GreeterConfig {
    /// A handler over the given snapshot.
    pub fn new(settings: Settings, layouts: Vec<Layout>) -> (r: GreeterConfig)
        ensures
            r.settings == settings,
            r.layouts == layouts,
    {
        GreeterConfig { settings, layouts }
    }

    /// Answers one call: every method is a read-only query, so the
    /// handler never changes and equal calls answer equally.
    #[verifier::rlimit(50)]
    pub fn handle(&self, method: &Vec<char>) -> (r: HandlerResult)
        ensures
            crate::lightdm::hr_view(r) == config_result(self.settings, self.layouts@, method@),
    {
        if is_lit(method, "branding") {
            let mut ms: Vec<(Vec<char>, Json)> = Vec::new();
            ms.push(
                (
                    text("background_images_dir"),
                    Json::Str(text(self.settings.branding.background_images_dir.as_str())),
                ),
            );
            ms.push((text("logo_image"), Json::Str(text(self.settings.branding.logo_image.as_str()))));
            ms.push((text("user_image"), Json::Str(text(self.settings.branding.user_image.as_str()))));
            let r = Json::Obj(ms);
            proof {
                lemma_mviews_len(ms@);
                lemma_mviews_index(ms@, 0);
                lemma_mviews_index(ms@, 1);
                lemma_mviews_index(ms@, 2);
                assert(mviews(ms@) =~= branding_json(self.settings)->Obj_0);
                assert(r@ =~= branding_json(self.settings));
            }
            HandlerResult::Value(r)
        } else if is_lit(method, "greeter") {
            let mut ms: Vec<(Vec<char>, Json)> = Vec::new();
            ms.push((text("debug_mode"), Json::Bool(self.settings.greeter.debug_mode)));
            ms.push(
                (text("detect_theme_errors"), Json::Bool(self.settings.greeter.detect_theme_errors)),
            );
            ms.push(
                (
                    text("screensaver_timeout"),
                    Json::Num(self.settings.greeter.screensaver_timeout as i64),
                ),
            );
            ms.push((text("secure_mode"), Json::Bool(self.settings.greeter.secure_mode)));
            ms.push((text("theme"), Json::Str(text(self.settings.greeter.theme.as_str()))));
            ms.push((text("icon_theme"), Json::Str(text(self.settings.greeter.icon_theme.as_str()))));
            ms.push(
                (text("time_language"), Json::Str(text(self.settings.greeter.time_language.as_str()))),
            );
            let r = Json::Obj(ms);
            proof {
                lemma_mviews_len(ms@);
                lemma_mviews_index(ms@, 0);
                lemma_mviews_index(ms@, 1);
                lemma_mviews_index(ms@, 2);
                lemma_mviews_index(ms@, 3);
                lemma_mviews_index(ms@, 4);
                lemma_mviews_index(ms@, 5);
                lemma_mviews_index(ms@, 6);
                assert(mviews(ms@) =~= greeter_json(self.settings)->Obj_0);
                assert(r@ =~= greeter_json(self.settings));
            }
            HandlerResult::Value(r)
        } else if is_lit(method, "features") {
            let mut bl: Vec<(Vec<char>, Json)> = Vec::new();
            bl.push((text("enabled"), Json::Bool(self.settings.features.backlight.enabled)));
            bl.push((text("value"), Json::Num(self.settings.features.backlight.value as i64)));
            bl.push((text("steps"), Json::Num(self.settings.features.backlight.steps as i64)));
            let backlight = Json::Obj(bl);
            proof {
                lemma_mviews_len(bl@);
                lemma_mviews_index(bl@, 0);
                lemma_mviews_index(bl@, 1);
                lemma_mviews_index(bl@, 2);
            }
            let mut ms: Vec<(Vec<char>, Json)> = Vec::new();
            ms.push((text("battery"), Json::Bool(self.settings.features.battery)));
            ms.push((text("backlight"), backlight));
            let r = Json::Obj(ms);
            proof {
                lemma_mviews_len(ms@);
                lemma_mviews_index(ms@, 0);
                lemma_mviews_index(ms@, 1);
                assert(mviews(bl@) =~= features_json(self.settings)->Obj_0[1].1->Obj_0);
                assert(mviews(ms@) =~= features_json(self.settings)->Obj_0);
                assert(r@ =~= features_json(self.settings));
            }
            HandlerResult::Value(r)
        } else if is_lit(method, "layouts") {
            let mut items: Vec<Json> = Vec::new();
            let mut i: usize = 0;
            proof {
                assert(self.layouts@.subrange(0, 0) =~= Seq::<Layout>::empty());
            }
            while i < self.layouts.len()
                invariant
                    i <= self.layouts@.len(),
                    jviews(items@) == selected_layouts_json(
                        self.layouts@.subrange(0, i as int),
                        self.settings.layouts@,
                    ),
                decreases self.layouts@.len() - i,
            {
                let ghost prefix = self.layouts@.subrange(0, i as int);
                if layout_selected_check(&self.layouts[i], &self.settings.layouts) {
                    let lj = crate::lightdm::layout_to_json(&self.layouts[i]);
                    let ghost itemsv = items@;
                    items.push(lj);
                    proof {
                        crate::json::lemma_jviews_push(itemsv, lj);
                    }
                }
                proof {
                    lemma_selected_push(prefix, self.settings.layouts@, self.layouts@[i as int]);
                    assert(self.layouts@.subrange(0, i + 1 as int) =~= prefix.push(
                        self.layouts@[i as int],
                    ));
                }
                i += 1;
            }
            proof {
                assert(self.layouts@.subrange(0, self.layouts@.len() as int) =~= self.layouts@);
            }
            let r = Json::Arr(items);
            HandlerResult::Value(r)
        } else {
            HandlerResult::Undefined
        }
    }
}

} // verus!
