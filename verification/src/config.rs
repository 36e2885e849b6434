//! Configuration data: icon table, alias tables, general string settings and
//! boolean options, plus the application of command-line overrides.
//!
//! A configuration is supplied fully populated before the sync loop starts
//! (loaded from a file or built from defaults by the caller) and is treated
//! as read-only during steady state; the setters exist for the caller's
//! start-up overrides and for tests.

use vstd::prelude::*;
use vstd::string::StringExecFns;
use crate::strmap::{bool_entries, get_bool, get_str, lookup, set_bool, set_str, str_entries};
use crate::strutil::str_eq;

verus! {

/// Alias tables: one ordered pattern-to-label table per matchable window
/// property. Order is the configured order; the first matching pattern wins.
#[derive(Debug)]
pub struct Aliases {
    pub class: Vec<(String, String)>,
    pub instance: Vec<(String, String)>,
    pub name: Vec<(String, String)>,
    pub app_id: Vec<(String, String)>,
}

impl Aliases {
    /// Creates empty alias tables.
    pub fn new() -> (a: Self)
        ensures
            a.class@ == Seq::<(String, String)>::empty(),
            a.instance@ == Seq::<(String, String)>::empty(),
            a.name@ == Seq::<(String, String)>::empty(),
            a.app_id@ == Seq::<(String, String)>::empty(),
    {
        Aliases {
            class: Vec::new(),
            instance: Vec::new(),
            name: Vec::new(),
            app_id: Vec::new(),
        }
    }

    /// The table selected by a category name, as a sequence of pair views;
    /// an unknown category selects nothing.
    pub open spec fn spec_category(&self, category: Seq<char>) -> Seq<(Seq<char>, Seq<char>)> {
        if category == "app_id"@ {
            str_entries(self.app_id@)
        } else if category == "class"@ {
            str_entries(self.class@)
        } else if category == "instance"@ {
            str_entries(self.instance@)
        } else if category == "name"@ {
            str_entries(self.name@)
        } else {
            Seq::empty()
        }
    }

    /// Looks a replacement label up by category and pattern key.
    pub fn get_alias(&self, category: &str, key: &str) -> (r: Option<&String>)
        ensures
            match r {
                Some(v) => lookup(self.spec_category(category@), key@) == Some(v@),
                None => lookup(self.spec_category(category@), key@) is None,
            },
    {
        let table = if str_eq(category, "app_id") {
            Some(&self.app_id)
        } else if str_eq(category, "class") {
            Some(&self.class)
        } else if str_eq(category, "instance") {
            Some(&self.instance)
        } else if str_eq(category, "name") {
            Some(&self.name)
        } else {
            None
        };
        match table {
            Some(t) => get_str(t, key),
            None => None,
        }
    }
}

impl Default for Aliases {
    /// Empty alias tables.
    fn default() -> (a: Self)
        ensures
            a.class@ == Seq::<(String, String)>::empty(),
            a.instance@ == Seq::<(String, String)>::empty(),
            a.name@ == Seq::<(String, String)>::empty(),
            a.app_id@ == Seq::<(String, String)>::empty(),
    {
        Aliases::new()
    }
}

/// The whole configuration: icon table, alias tables, general string
/// settings and boolean options.
#[derive(Debug)]
pub struct Config {
    pub icons: Vec<(String, String)>,
    pub aliases: Aliases,
    pub general: Vec<(String, String)>,
    pub options: Vec<(String, bool)>,
}

impl Config {
    /// Assembles a configuration from its four populated parts.
    pub fn new(
        icons: Vec<(String, String)>,
        aliases: Aliases,
        general: Vec<(String, String)>,
        options: Vec<(String, bool)>,
    ) -> (c: Self)
        ensures
            c.icons == icons,
            c.aliases == aliases,
            c.general == general,
            c.options == options,
    {
        Config { icons, aliases, general, options }
    }

    /// The general setting bound to `key`, if any.
    pub open spec fn spec_general(&self, key: Seq<char>) -> Option<Seq<char>> {
        lookup(str_entries(self.general@), key)
    }

    /// The boolean option bound to `key`, if any.
    pub open spec fn spec_option(&self, key: Seq<char>) -> Option<bool> {
        lookup(bool_entries(self.options@), key)
    }

    /// The icon bound to a title, if any.
    pub open spec fn spec_icon(&self, key: Seq<char>) -> Option<Seq<char>> {
        lookup(str_entries(self.icons@), key)
    }

    /// Gets a general configuration value.
    pub fn get_general(&self, key: &str) -> (r: Option<String>)
        ensures
            match r {
                Some(v) => self.spec_general(key@) == Some(v@),
                None => self.spec_general(key@) is None,
            },
    {
        match get_str(&self.general, key) {
            Some(v) => Some(v.clone()),
            None => None,
        }
    }

    /// Gets an option value.
    pub fn get_option(&self, key: &str) -> (r: Option<bool>)
        ensures
            r == self.spec_option(key@),
    {
        get_bool(&self.options, key)
    }

    /// Gets an icon by key.
    pub fn get_icon(&self, key: &str) -> (r: Option<String>)
        ensures
            match r {
                Some(v) => self.spec_icon(key@) == Some(v@),
                None => self.spec_icon(key@) is None,
            },
    {
        match get_str(&self.icons, key) {
            Some(v) => Some(v.clone()),
            None => None,
        }
    }

    /// Sets a general configuration value.
    pub fn set_general(&mut self, key: String, value: String)
        ensures
            forall|k: Seq<char>| #[trigger] final(self).spec_general(k)
                == (if k == key@ { Some(value@) } else { old(self).spec_general(k) }),
            final(self).icons == old(self).icons,
            final(self).aliases == old(self).aliases,
            final(self).options == old(self).options,
    {
        set_str(&mut self.general, key, value);
    }

    /// Sets an option value.
    pub fn set_option(&mut self, key: String, value: bool)
        ensures
            forall|k: Seq<char>| #[trigger] final(self).spec_option(k)
                == (if k == key@ { Some(value) } else { old(self).spec_option(k) }),
            final(self).icons == old(self).icons,
            final(self).aliases == old(self).aliases,
            final(self).general == old(self).general,
    {
        set_bool(&mut self.options, key, value);
    }
}

/// A window property usable for workspace naming.
#[derive(Clone, Copy, PartialEq, Eq, Structural, Debug)]
pub enum Properties {
    Class,
    Instance,
    Name,
    AppId,
}

impl Properties {
    /// The configuration key the property is known under.
    pub open spec fn spec_str(&self) -> Seq<char> {
        match self {
            Properties::Class => "class"@,
            Properties::Instance => "instance"@,
            Properties::Name => "name"@,
            Properties::AppId => "app_id"@,
        }
    }

    /// Renders the property as its configuration key.
    pub fn as_str(&self) -> (r: &'static str)
        ensures
            r@ == self.spec_str(),
    {
        match self {
            Properties::Class => "class",
            Properties::Instance => "instance",
            Properties::Name => "name",
            Properties::AppId => "app_id",
        }
    }
}

/// Command-line overrides, already parsed into plain values by the caller.
/// They take precedence over what the configuration file set.
#[derive(Debug)]
pub struct Args {
    pub verbose: bool,
    pub focus_fix: bool,
    pub icons: Option<String>,
    pub config: Option<String>,
    pub no_icon_names: bool,
    pub no_names: bool,
    pub remove_duplicates: bool,
    pub display_property: Option<Properties>,
    pub split_at: Option<String>,
}

/// What each boolean option reads as after the overrides: a raised flag
/// binds its option to true; everything else keeps its configured value.
pub open spec fn spec_applied_option(c: Config, a: Args, k: Seq<char>) -> Option<bool> {
    if k == "focus_fix"@ && a.focus_fix {
        Some(true)
    } else if k == "remove_duplicates"@ && a.remove_duplicates {
        Some(true)
    } else if k == "no_names"@ && a.no_names {
        Some(true)
    } else if k == "no_icon_names"@ && a.no_icon_names {
        Some(true)
    } else {
        c.spec_option(k)
    }
}

/// What each general setting reads as after the overrides.
pub open spec fn spec_applied_general(c: Config, a: Args, k: Seq<char>) -> Option<Seq<char>> {
    if k == "display_property"@ && a.display_property is Some {
        Some(a.display_property->0.spec_str())
    } else if k == "split_at"@ && a.split_at is Some {
        Some(a.split_at->0@)
    } else {
        c.spec_general(k)
    }
}

/// Applies command-line overrides to the configuration: raised boolean
/// flags bind their options to true, and a given split character or
/// display property replaces the configured one.
pub fn apply_args_to_config(config: &mut Config, args: &Args)
    ensures
        forall|k: Seq<char>| #[trigger] final(config).spec_option(k)
            == spec_applied_option(*old(config), *args, k),
        forall|k: Seq<char>| #[trigger] final(config).spec_general(k)
            == spec_applied_general(*old(config), *args, k),
        final(config).icons == old(config).icons,
        final(config).aliases == old(config).aliases,
{
    let ghost c0 = *config;
    if args.no_icon_names {
        config.set_option(String::from_str("no_icon_names"), true);
    }
    let ghost c1 = *config;
    proof {
        assert forall|k: Seq<char>| #[trigger] c1.spec_option(k)
            == (if k == "no_icon_names"@ && args.no_icon_names {
                Some(true)
            } else {
                c0.spec_option(k)
            }) by {}
        assert(c1.general == c0.general);
    }
    if args.no_names {
        config.set_option(String::from_str("no_names"), true);
    }
    let ghost c2 = *config;
    proof {
        assert forall|k: Seq<char>| #[trigger] c2.spec_option(k)
            == (if k == "no_names"@ && args.no_names {
                Some(true)
            } else {
                c1.spec_option(k)
            }) by {}
        assert(c2.general == c0.general);
    }
    if args.remove_duplicates {
        config.set_option(String::from_str("remove_duplicates"), true);
    }
    let ghost c3 = *config;
    proof {
        assert forall|k: Seq<char>| #[trigger] c3.spec_option(k)
            == (if k == "remove_duplicates"@ && args.remove_duplicates {
                Some(true)
            } else {
                c2.spec_option(k)
            }) by {}
        assert(c3.general == c0.general);
    }
    if args.focus_fix {
        config.set_option(String::from_str("focus_fix"), true);
    }
    let ghost c4 = *config;
    proof {
        assert forall|k: Seq<char>| #[trigger] c4.spec_option(k)
            == (if k == "focus_fix"@ && args.focus_fix {
                Some(true)
            } else {
                c3.spec_option(k)
            }) by {}
        assert(c4.general == c0.general);
    }
    if let Some(split_char) = &args.split_at {
        config.set_general(String::from_str("split_at"), split_char.clone());
    }
    let ghost c5 = *config;
    proof {
        assert forall|k: Seq<char>| #[trigger] c5.spec_general(k)
            == (if k == "split_at"@ && args.split_at is Some {
                Some(args.split_at->0@)
            } else {
                c0.spec_general(k)
            }) by {}
        assert(c5.options == c4.options);
    }
    if let Some(display_property) = &args.display_property {
        config.set_general(
            String::from_str("display_property"),
            display_property.as_str().to_owned(),
        );
    }
    proof {
        let c6 = *config;
        assert forall|k: Seq<char>| #[trigger] c6.spec_general(k)
            == spec_applied_general(c0, *args, k) by {
            assert(c6.spec_general(k) == (if k == "display_property"@
                && args.display_property is Some {
                Some(args.display_property->0.spec_str())
            } else {
                c5.spec_general(k)
            }));
        }
        assert(c6.options == c4.options);
        assert forall|k: Seq<char>| #[trigger] c6.spec_option(k)
            == spec_applied_option(c0, *args, k) by {
            assert(c6.spec_option(k) == c4.spec_option(k));
        }
    }
}

impl Default for Config {
    /// An empty configuration: no icons, no aliases, no settings, no options.
    fn default() -> (c: Self)
        ensures
            c.icons@ == Seq::<(String, String)>::empty(),
            c.general@ == Seq::<(String, String)>::empty(),
            c.options@ == Seq::<(String, bool)>::empty(),
            c.aliases.class@ == Seq::<(String, String)>::empty(),
            c.aliases.instance@ == Seq::<(String, String)>::empty(),
            c.aliases.name@ == Seq::<(String, String)>::empty(),
            c.aliases.app_id@ == Seq::<(String, String)>::empty(),
    {
        Config {
            icons: Vec::new(),
            aliases: Aliases::new(),
            general: Vec::new(),
            options: Vec::new(),
        }
    }
}

} // verus!
