//! Core logic of a workspace renamer for i3 and Sway: it derives a display
//! title for every window from configured aliases and icons, composes
//! workspace names from those titles, and decides which rename commands a
//! sync pass must issue.

pub mod config;
pub mod icons;
pub mod namer;
pub mod patterns;
pub mod strmap;
pub mod sync;
pub mod strutil;
pub mod tree;

pub use config::Config;
pub use icons::get_icons;
pub use namer::{apply_options, format_workspace_name, get_split_char};
pub use tree::get_workspaces;

use vstd::prelude::*;
use vstd::string::StringExecFns;
use crate::patterns::{pattern_pairs, regex_match, Compiled, CompiledPattern};
use crate::strutil::{clone_opt_string, str_eq, view_opt, view_opt_ref};
use crate::tree::{node_view, spec_window_nodes, spec_window_nodes_list, Node, NodeView};

verus! {

/// The first replacement among `pairs` whose pattern matches `val`.
pub open spec fn spec_find_alias_in(
    pairs: Seq<(Seq<char>, Seq<char>)>,
    val: Seq<char>,
) -> Option<Seq<char>>
    decreases pairs.len(),
{
    if pairs.len() == 0 {
        None
    } else if regex_match(pairs[0].0, val) {
        Some(pairs[0].1)
    } else {
        spec_find_alias_in(pairs.drop_first(), val)
    }
}

/// Alias search on an optional value: an absent value matches nothing.
pub open spec fn spec_find_alias(
    value: Option<Seq<char>>,
    pairs: Seq<(Seq<char>, Seq<char>)>,
) -> Option<Seq<char>> {
    match value {
        Some(v) => spec_find_alias_in(pairs, v),
        None => None,
    }
}

/// Skipping a prefix of non-matching patterns does not change the search.
proof fn lemma_find_alias_skip(pairs: Seq<(Seq<char>, Seq<char>)>, val: Seq<char>, i: int)
    requires
        0 <= i <= pairs.len(),
        forall|j: int| 0 <= j < i ==> !regex_match(#[trigger] pairs[j].0, val),
    ensures
        spec_find_alias_in(pairs, val) == spec_find_alias_in(pairs.skip(i), val),
    decreases i,
{
    if i > 0 {
        assert(pairs.drop_first() =~= pairs.skip(1));
        lemma_find_alias_skip(pairs.drop_first(), val, i - 1);
        assert(pairs.drop_first().skip(i - 1) =~= pairs.skip(i));
    } else {
        assert(pairs.skip(0) =~= pairs);
    }
}

/// The first match wins: when the patterns before index `k` all fail and
/// the pattern at `k` matches, the search returns the replacement at `k`,
/// whatever the patterns after it would do.
pub proof fn lemma_first_match_wins(pairs: Seq<(Seq<char>, Seq<char>)>, val: Seq<char>, k: int)
    requires
        0 <= k < pairs.len(),
        regex_match(pairs[k].0, val),
        forall|j: int| 0 <= j < k ==> !regex_match(#[trigger] pairs[j].0, val),
    ensures
        spec_find_alias_in(pairs, val) == Some(pairs[k].1),
{
    lemma_find_alias_skip(pairs, val, k);
    assert(pairs.skip(k)[0] == pairs[k]);
}

/// When no pattern matches, the search fails.
proof fn lemma_find_alias_absent(pairs: Seq<(Seq<char>, Seq<char>)>, val: Seq<char>)
    requires
        forall|j: int| 0 <= j < pairs.len() ==> !regex_match(#[trigger] pairs[j].0, val),
    ensures
        spec_find_alias_in(pairs, val) is None,
{
    lemma_find_alias_skip(pairs, val, pairs.len() as int);
}

/// Scans `patterns` in insertion order and returns the replacement of the
/// first whose regular expression matches anywhere in `value`.
pub fn find_alias(value: Option<&String>, patterns: &Vec<CompiledPattern>) -> (r: Option<String>)
    ensures
        view_opt(r) == spec_find_alias(view_opt_ref(value), pattern_pairs(patterns@)),
{
    let val = match value {
        Some(v) => v,
        None => {
            return None;
        },
    };
    let ghost pairs = pattern_pairs(patterns@);
    let mut i: usize = 0;
    while i < patterns.len()
        invariant
            i <= patterns.len(),
            pairs == pattern_pairs(patterns@),
            view_opt_ref(value) == Some(val@),
            forall|j: int| 0 <= j < i ==> !regex_match(#[trigger] pairs[j].0, val@),
        decreases patterns.len() - i,
    {
        proof {
            assert(pairs[i as int] == (patterns@[i as int].src(), patterns@[i as int].repl()));
        }
        if patterns[i].is_match(val.as_str()) {
            proof {
                lemma_first_match_wins(pairs, val@, i as int);
            }
            return Some(patterns[i].replacement());
        }
        i += 1;
    }
    proof {
        lemma_find_alias_absent(pairs, val@);
    }
    None
}

/// How an icon combines with a title: the icon alone under either
/// suppression flag, otherwise the icon, a space, and the title.
pub open spec fn spec_format_with_icon(
    icon: Seq<char>,
    title: Seq<char>,
    no_names: bool,
    no_icon_names: bool,
) -> Seq<char> {
    if no_icon_names || no_names {
        icon
    } else {
        icon + seq![' '] + title
    }
}

/// Combines an icon with a title under the suppression flags.
pub fn format_with_icon(icon: &str, title: &str, no_names: bool, no_icon_names: bool) -> (r:
    String)
    ensures
        r@ == spec_format_with_icon(icon@, title@, no_names, no_icon_names),
{
    if no_icon_names || no_names {
        icon.to_owned()
    } else {
        let mut s = icon.to_owned();
        s.append(" ");
        s.append(title);
        proof {
            reveal_strlit(" ");
            assert(" "@ =~= seq![' ']);
        }
        s
    }
}

/// An option that is absent defaults to false.
pub open spec fn spec_option_or_false(config: Config, key: Seq<char>) -> bool {
    match config.spec_option(key) {
        Some(b) => b,
        None => false,
    }
}

/// Reads a boolean option, treating an absent one as false.
pub fn get_option(config: &Config, key: &str) -> (r: bool)
    ensures
        r == spec_option_or_false(*config, key@),
{
    match config.get_option(key) {
        Some(b) => b,
        None => false,
    }
}

/// The window property used as a raw fallback label: the configured
/// `display_property`, or `class` when none is configured.
pub open spec fn spec_display_prop(config: Config) -> Seq<char> {
    match config.spec_general("display_property"@) {
        Some(v) => v,
        None => "class"@,
    }
}

/// The first of two optional values that is present.
pub open spec fn spec_or(a: Option<Seq<char>>, b: Option<Seq<char>>) -> Option<Seq<char>> {
    if a is Some {
        a
    } else {
        b
    }
}

/// The resolved (pre-icon) title of a window node.
///
/// For an X11 window (window properties present) the alias search runs on
/// the title against the `name` patterns, then on the instance, then on the
/// class; the fallback is the raw property named by `display_prop`. For a
/// Wayland window the alias search runs on the node name against the
/// `name` patterns, then on the application id; the fallback is the node
/// name when `display_prop` is `name`, else the application id.
pub open spec fn spec_resolve_title(
    n: NodeView,
    res: Compiled,
    display_prop: Seq<char>,
) -> Option<Seq<char>> {
    match n.window_properties {
        Some(p) => {
            let alias = spec_or(
                spec_find_alias(p.title, pattern_pairs(res.name@)),
                spec_or(
                    spec_find_alias(p.instance, pattern_pairs(res.instance@)),
                    spec_find_alias(p.class, pattern_pairs(res.class@)),
                ),
            );
            match alias {
                Some(t) => Some(t),
                None => if display_prop == "name"@ {
                    p.title
                } else if display_prop == "instance"@ {
                    p.instance
                } else {
                    p.class
                },
            }
        },
        None => {
            let alias = spec_or(
                spec_find_alias(n.name, pattern_pairs(res.name@)),
                spec_find_alias(n.app_id, pattern_pairs(res.app_id@)),
            );
            match alias {
                Some(t) => Some(t),
                None => if display_prop == "name"@ {
                    n.name
                } else {
                    n.app_id
                },
            }
        },
    }
}

/// The display string of a resolved title: its icon (configured or
/// default) combined under the suppression flags; with no icon, the title
/// itself, or nothing when names are suppressed.
pub open spec fn spec_compose(title: Seq<char>, config: Config) -> Seq<char> {
    let no_names = spec_option_or_false(config, "no_names"@);
    let no_icon_names = spec_option_or_false(config, "no_icon_names"@);
    match config.spec_icon(title) {
        Some(icon) => spec_format_with_icon(icon, title, no_names, no_icon_names),
        None => match config.spec_general("default_icon"@) {
            Some(icon) => spec_format_with_icon(icon, title, no_names, no_icon_names),
            None => if no_names {
                Seq::empty()
            } else {
                title
            },
        },
    }
}

/// The display string of a window node, when one can be derived.
pub open spec fn spec_title(n: NodeView, config: Config, res: Compiled) -> Option<
    Seq<char>,
> {
    match spec_resolve_title(n, res, spec_display_prop(config)) {
        Some(t) => Some(spec_compose(t, config)),
        None => None,
    }
}

/// A per-window failure to derive a title: no alias matched and the
/// configured display property was absent. Local to the window; the sync
/// pass skips it and continues.
#[derive(Debug)]
pub struct TitleError {
    pub display_property: String,
}

impl TitleError {
    /// A rendered description of the failure, naming the display property
    /// that was tried.
    pub fn message(&self) -> (r: String)
        ensures
            r@ == "No title found: tried aliases and display_prop '"@ + self.display_property@
                + "'"@,
    {
        let mut s = String::from_str("No title found: tried aliases and display_prop '");
        s.append(self.display_property.as_str());
        s.append("'");
        s
    }
}

/// Derives a window's display string: alias search in category precedence
/// order (name, then instance, then class or application id), raw fallback
/// on the configured display property, then icon composition.
pub fn get_title(node: &Node, config: &Config, res: &Compiled) -> (r: Result<String, TitleError>)
    ensures
        r is Ok <==> spec_title(node_view(*node), *config, *res) is Some,
        r is Ok ==> r->Ok_0@ == spec_title(node_view(*node), *config, *res)->0,
        r is Err ==> r->Err_0.display_property@ == spec_display_prop(*config),
{
    let display_prop = match config.get_general("display_property") {
        Some(s) => s,
        None => String::from_str("class"),
    };

    let title_opt: Option<String> = match &node.window_properties {
        Some(props) => {
            let mut t = find_alias(props.title.as_ref(), &res.name);
            if t.is_none() {
                t = find_alias(props.instance.as_ref(), &res.instance);
            }
            if t.is_none() {
                t = find_alias(props.class.as_ref(), &res.class);
            }
            if t.is_none() {
                t = if str_eq(display_prop.as_str(), "name") {
                    clone_opt_string(&props.title)
                } else if str_eq(display_prop.as_str(), "instance") {
                    clone_opt_string(&props.instance)
                } else {
                    clone_opt_string(&props.class)
                };
            }
            t
        },
        None => {
            let mut t = find_alias(node.name.as_ref(), &res.name);
            if t.is_none() {
                t = find_alias(node.app_id.as_ref(), &res.app_id);
            }
            if t.is_none() {
                t = if str_eq(display_prop.as_str(), "name") {
                    clone_opt_string(&node.name)
                } else {
                    clone_opt_string(&node.app_id)
                };
            }
            t
        },
    };

    let title = match title_opt {
        Some(t) => t,
        None => {
            return Err(TitleError { display_property: display_prop });
        },
    };

    let no_names = get_option(config, "no_names");
    let no_icon_names = get_option(config, "no_icon_names");

    let r = if let Some(icon) = config.get_icon(title.as_str()) {
        format_with_icon(icon.as_str(), title.as_str(), no_names, no_icon_names)
    } else if let Some(default_icon) = config.get_general("default_icon") {
        format_with_icon(default_icon.as_str(), title.as_str(), no_names, no_icon_names)
    } else if no_names {
        String::new()
    } else {
        title
    };
    Ok(r)
}

/// Law: alias precedence. For a window matching patterns in more than one
/// category, a `name` alias beats an `instance` alias, which beats a
/// `class` alias, which beats the raw fallback: whichever earlier category
/// yields a match decides the resolved title, whatever the later
/// categories or the display property would have said.
pub proof fn lemma_alias_precedence(n: NodeView, res: Compiled, display_prop: Seq<char>)
    requires
        n.window_properties is Some,
    ensures
        spec_find_alias(n.window_properties->0.title, pattern_pairs(res.name@)) is Some
            ==> spec_resolve_title(n, res, display_prop) == spec_find_alias(
            n.window_properties->0.title,
            pattern_pairs(res.name@),
        ),
        spec_find_alias(n.window_properties->0.title, pattern_pairs(res.name@)) is None
            && spec_find_alias(n.window_properties->0.instance, pattern_pairs(res.instance@))
            is Some ==> spec_resolve_title(n, res, display_prop) == spec_find_alias(
            n.window_properties->0.instance,
            pattern_pairs(res.instance@),
        ),
        spec_find_alias(n.window_properties->0.title, pattern_pairs(res.name@)) is None
            && spec_find_alias(n.window_properties->0.instance, pattern_pairs(res.instance@))
            is None && spec_find_alias(n.window_properties->0.class, pattern_pairs(res.class@))
            is Some ==> spec_resolve_title(n, res, display_prop) == spec_find_alias(
            n.window_properties->0.class,
            pattern_pairs(res.class@),
        ),
{
}

/// Law: icon and name suppression. With an icon configured for the title
/// (directly or as the default icon), either suppression flag leaves the
/// icon alone, and no flag yields the icon, a space, and the title. With
/// no icon at all, `no_names` yields the empty string and otherwise the
/// title stands by itself.
pub proof fn lemma_icon_name_suppression(title: Seq<char>, config: Config)
    ensures
        ({
            let no_names = spec_option_or_false(config, "no_names"@);
            let no_icon_names = spec_option_or_false(config, "no_icon_names"@);
            let icon = spec_or(config.spec_icon(title), config.spec_general("default_icon"@));
            match icon {
                Some(i) => spec_compose(title, config) == (if no_names || no_icon_names {
                    i
                } else {
                    i + seq![' '] + title
                }),
                None => spec_compose(title, config) == (if no_names {
                    Seq::<char>::empty()
                } else {
                    title
                }),
            }
        }),
{
}

/// Law: a window carrying no usable property yields no title. With window
/// properties present but class, instance and title all absent — or with
/// no window properties, no node name and no application id — resolution
/// fails, so `get_title` returns its error and the window contributes
/// nothing to the joined title list.
pub proof fn lemma_no_property_no_title(n: NodeView, config: Config, res: Compiled)
    requires
        match n.window_properties {
            Some(p) => p.title is None && p.instance is None && p.class is None,
            None => n.name is None && n.app_id is None,
        },
    ensures
        spec_title(n, config, res) is None,
        spec_titles_of(seq![n], config, res) == Seq::<Seq<char>>::empty(),
{
    assert(spec_title(n, config, res) is None);
    assert(seq![n][0] == n);
    assert(seq![n].drop_first() =~= Seq::<NodeView>::empty());
    assert(spec_titles_of(Seq::<NodeView>::empty(), config, res) == Seq::<Seq<char>>::empty());
    assert(spec_titles_of(seq![n], config, res) =~= Seq::<Seq<char>>::empty());
}

/// The display strings of a sequence of window nodes, in order, passing
/// over the windows for which no title can be derived.
pub open spec fn spec_titles_of(
    ws: Seq<NodeView>,
    config: Config,
    res: Compiled,
) -> Seq<Seq<char>>
    decreases ws.len(),
{
    if ws.len() == 0 {
        Seq::empty()
    } else {
        let rest = spec_titles_of(ws.drop_first(), config, res);
        match spec_title(ws[0], config, res) {
            Some(t) => seq![t] + rest,
            None => rest,
        }
    }
}

/// `spec_titles_of` distributes over concatenation.
proof fn lemma_titles_of_concat(
    a: Seq<NodeView>,
    b: Seq<NodeView>,
    config: Config,
    res: Compiled,
)
    ensures
        spec_titles_of(a + b, config, res) == spec_titles_of(a, config, res) + spec_titles_of(
            b,
            config,
            res,
        ),
    decreases a.len(),
{
    if a.len() == 0 {
        assert(a + b =~= b);
        assert(spec_titles_of(a, config, res) + spec_titles_of(b, config, res)
            =~= spec_titles_of(b, config, res));
    } else {
        lemma_titles_of_concat(a.drop_first(), b, config, res);
        assert((a + b).drop_first() =~= a.drop_first() + b);
        assert((a + b)[0] == a[0]);
        match spec_title(a[0], config, res) {
            Some(t) => {
                assert(seq![t] + (spec_titles_of(a.drop_first(), config, res) + spec_titles_of(
                    b,
                    config,
                    res,
                )) =~= (seq![t] + spec_titles_of(a.drop_first(), config, res)) + spec_titles_of(
                    b,
                    config,
                    res,
                ));
            },
            None => {},
        }
    }
}

/// The titles of every window of the workspace subtree rooted at `w`.
pub open spec fn spec_collect_titles(
    w: NodeView,
    config: Config,
    res: Compiled,
) -> Seq<Seq<char>> {
    spec_titles_of(spec_window_nodes(w), config, res)
}

/// Appends the titles of every window under `node` to `out`.
fn collect_titles_into(node: &Node, config: &Config, res: &Compiled, out: &mut Vec<String>)
    ensures
        final(out).deep_view() == old(out).deep_view() + spec_titles_of(
            spec_window_nodes(node_view(*node)),
            *config,
            *res,
        ),
    decreases *node,
{
    let ghost start = out.deep_view();
    let ghost own = if tree::spec_has_window(node_view(*node)) {
        seq![node_view(*node)]
    } else {
        Seq::<NodeView>::empty()
    };
    if node.window_properties.is_some() || node.app_id.is_some() {
        match get_title(node, config, res) {
            Ok(t) => {
                let ghost tv = t@;
                out.push(t);
                proof {
                    assert(out.deep_view() =~= start + seq![tv]);
                    assert(own[0] == node_view(*node));
                    assert(own.drop_first() =~= Seq::<NodeView>::empty());
                    assert(spec_titles_of(Seq::<NodeView>::empty(), *config, *res)
                        =~= Seq::<Seq<char>>::empty());
                    assert(spec_titles_of(own, *config, *res)
                        == seq![tv] + Seq::<Seq<char>>::empty());
                    assert(spec_titles_of(own, *config, *res) =~= seq![tv]);
                }
            },
            Err(_) => {
                // The window contributes no title; the pass continues.
                proof {
                    assert(own[0] == node_view(*node));
                    assert(own.drop_first() =~= Seq::<NodeView>::empty());
                    assert(spec_titles_of(Seq::<NodeView>::empty(), *config, *res)
                        =~= Seq::<Seq<char>>::empty());
                    assert(spec_titles_of(own, *config, *res) =~= Seq::<Seq<char>>::empty());
                    assert(out.deep_view() =~= start + spec_titles_of(own, *config, *res));
                }
            },
        }
    } else {
        proof {
            assert(own =~= Seq::<NodeView>::empty());
            assert(out.deep_view() =~= start + spec_titles_of(own, *config, *res));
        }
    }
    let mut i: usize = 0;
    while i < node.nodes.len()
        invariant
            i <= node.nodes.len(),
            out.deep_view() == start + spec_titles_of(own, *config, *res) + spec_titles_of(
                spec_window_nodes_list(tree::nodes_view(node.nodes@).take(i as int)),
                *config,
                *res,
            ),
        decreases node.nodes.len() - i,
    {
        proof {
            tree::lemma_nodes_view_index(node.nodes@);
        }
        collect_titles_into(&node.nodes[i], config, res, out);
        proof {
            let nv = tree::nodes_view(node.nodes@);
            tree::lemma_window_nodes_list_push(nv.take(i as int), nv[i as int]);
            assert(nv.take(i as int).push(nv[i as int]) =~= nv.take(i + 1 as int));
            lemma_titles_of_concat(
                spec_window_nodes_list(nv.take(i as int)),
                spec_window_nodes(nv[i as int]),
                *config,
                *res,
            );
            assert(out.deep_view() =~= start + spec_titles_of(own, *config, *res)
                + spec_titles_of(
                spec_window_nodes_list(nv.take(i + 1 as int)),
                *config,
                *res,
            ));
        }
        i += 1;
    }
    proof {
        let nv = tree::nodes_view(node.nodes@);
        tree::lemma_nodes_view_index(node.nodes@);
        assert(nv.take(nv.len() as int) =~= nv);
        assert(tree::nodes_view(node.floating_nodes@).take(0) =~= Seq::<NodeView>::empty());
        assert(spec_titles_of(
            spec_window_nodes_list(Seq::<NodeView>::empty()),
            *config,
            *res,
        ) =~= Seq::<Seq<char>>::empty());
    }
    let mut j: usize = 0;
    while j < node.floating_nodes.len()
        invariant
            j <= node.floating_nodes.len(),
            out.deep_view() == start + spec_titles_of(own, *config, *res) + spec_titles_of(
                spec_window_nodes_list(tree::nodes_view(node.nodes@)),
                *config,
                *res,
            ) + spec_titles_of(
                spec_window_nodes_list(tree::nodes_view(node.floating_nodes@).take(j as int)),
                *config,
                *res,
            ),
        decreases node.floating_nodes.len() - j,
    {
        proof {
            tree::lemma_nodes_view_index(node.floating_nodes@);
        }
        collect_titles_into(&node.floating_nodes[j], config, res, out);
        proof {
            let fv = tree::nodes_view(node.floating_nodes@);
            tree::lemma_window_nodes_list_push(fv.take(j as int), fv[j as int]);
            assert(fv.take(j as int).push(fv[j as int]) =~= fv.take(j + 1 as int));
            lemma_titles_of_concat(
                spec_window_nodes_list(fv.take(j as int)),
                spec_window_nodes(fv[j as int]),
                *config,
                *res,
            );
            assert(out.deep_view() =~= start + spec_titles_of(own, *config, *res)
                + spec_titles_of(
                spec_window_nodes_list(tree::nodes_view(node.nodes@)),
                *config,
                *res,
            ) + spec_titles_of(
                spec_window_nodes_list(fv.take(j + 1 as int)),
                *config,
                *res,
            ));
        }
        j += 1;
    }
    proof {
        let nv = tree::nodes_view(node.nodes@);
        let fv = tree::nodes_view(node.floating_nodes@);
        tree::lemma_nodes_view_index(node.nodes@);
        tree::lemma_nodes_view_index(node.floating_nodes@);
        assert(nv.take(nv.len() as int) =~= nv);
        assert(fv.take(fv.len() as int) =~= fv);
        lemma_titles_of_concat(own, spec_window_nodes_list(nv), *config, *res);
        lemma_titles_of_concat(
            own + spec_window_nodes_list(nv),
            spec_window_nodes_list(fv),
            *config,
            *res,
        );
        assert(spec_window_nodes(node_view(*node)) == own + spec_window_nodes_list(nv)
            + spec_window_nodes_list(fv));
        assert((own + spec_window_nodes_list(nv)) + spec_window_nodes_list(fv) =~= own
            + spec_window_nodes_list(nv) + spec_window_nodes_list(fv));
        assert(out.deep_view() =~= start + spec_titles_of(
            spec_window_nodes(node_view(*node)),
            *config,
            *res,
        ));
    }
}

/// Collects the display strings of every window of a workspace, regular
/// and floating, in traversal order; windows whose title cannot be derived
/// are passed over.
pub fn collect_titles(workspace: &Node, config: &Config, res: &Compiled) -> (r: Vec<String>)
    ensures
        r.deep_view() == spec_collect_titles(node_view(*workspace), *config, *res),
{
    let mut out: Vec<String> = Vec::new();
    collect_titles_into(workspace, config, res, &mut out);
    proof {
        assert(out.deep_view() =~= spec_collect_titles(node_view(*workspace), *config, *res));
    }
    out
}

} // verus!
