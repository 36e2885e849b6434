//! The sync pass and the event-to-action decisions.
//!
//! A sync pass walks the workspaces of a tree snapshot, recomputes every
//! workspace name, and yields the literal commands to issue: a rename for
//! each workspace whose name changed, preceded by a focus command when the
//! focus fix applies. The caller owns the connection and sends the
//! commands; on each relevant window or workspace notification it runs
//! another pass.

use vstd::prelude::*;
use vstd::string::StringExecFns;
use crate::collect_titles;
use crate::config::Config;
use crate::namer::{
    apply_options, format_workspace_name, get_split_char, join_titles, spec_apply_options,
    spec_format_workspace_name, spec_join, spec_split_char,
};
use crate::patterns::Compiled;
use crate::spec_collect_titles;
use crate::strutil::{lemma_prefix_before_concat, lemma_prefix_before_free, prefix_before,
    spec_prefix_before, str_eq};
use crate::tree::{
    get_workspaces, lemma_nodes_view_index, lemma_workspaces_are_regular, node_view, nodes_view,
    spec_is_regular_workspace, spec_workspaces, Node, NodeView,
};

verus! {

/// The configured separator between joined titles, defaulting to `" | "`.
pub open spec fn spec_separator(config: Config) -> Seq<char> {
    match config.spec_general("separator"@) {
        Some(s) => s,
        None => " | "@,
    }
}

/// The generated title suffix: the processed titles joined and prefixed
/// with one space, or nothing when no titles remain.
pub open spec fn spec_titles_string(ts: Seq<Seq<char>>, sep: Seq<char>) -> Seq<char> {
    if ts.len() > 0 {
        seq![' '] + spec_join(ts, sep)
    } else {
        Seq::empty()
    }
}

/// The name a workspace should bear: its preserved prefix followed by the
/// composed titles of its windows.
pub open spec fn spec_new_name(w: NodeView, config: Config, res: Compiled) -> Seq<char> {
    let titles = spec_apply_options(spec_collect_titles(w, config, res), config);
    let tstr = spec_titles_string(titles, spec_separator(config));
    let c = spec_split_char(config);
    let initial = spec_prefix_before(w.name->0, c);
    spec_format_workspace_name(initial, tstr, c, config)
}

/// The literal rename command for a workspace, old and new name inserted
/// verbatim.
pub open spec fn spec_rename_command(old: Seq<char>, new: Seq<char>) -> Seq<char> {
    "rename workspace \""@ + old + "\" to \""@ + new + "\""@
}

/// The literal focus command for a workspace.
pub open spec fn spec_focus_command(old: Seq<char>) -> Seq<char> {
    "workspace \""@ + old + "\""@
}

/// The commands one workspace contributes to a pass: nothing when its name
/// is already the computed one; otherwise the rename, preceded by a focus
/// command when the focus fix applies.
pub open spec fn spec_workspace_commands(
    w: NodeView,
    config: Config,
    res: Compiled,
    focus: bool,
) -> Seq<Seq<char>> {
    let old = w.name->0;
    let new = spec_new_name(w, config, res);
    if old == new {
        Seq::empty()
    } else if focus {
        seq![spec_focus_command(old), spec_rename_command(old, new)]
    } else {
        seq![spec_rename_command(old, new)]
    }
}

/// The commands of a sequence of workspaces, in order.
pub open spec fn spec_commands_list(
    ws: Seq<NodeView>,
    config: Config,
    res: Compiled,
    focus: bool,
) -> Seq<Seq<char>>
    decreases ws.len(),
{
    if ws.len() == 0 {
        Seq::empty()
    } else {
        spec_workspace_commands(ws[0], config, res, focus) + spec_commands_list(
            ws.drop_first(),
            config,
            res,
            focus,
        )
    }
}

/// The commands of a whole pass over a tree snapshot.
pub open spec fn spec_sync_commands(
    tree: NodeView,
    config: Config,
    res: Compiled,
    focus: bool,
) -> Seq<Seq<char>> {
    spec_commands_list(spec_workspaces(tree), config, res, focus)
}

/// `spec_commands_list` commutes with appending one workspace.
proof fn lemma_commands_list_push(
    ws: Seq<NodeView>,
    w: NodeView,
    config: Config,
    res: Compiled,
    focus: bool,
)
    ensures
        spec_commands_list(ws.push(w), config, res, focus) == spec_commands_list(
            ws,
            config,
            res,
            focus,
        ) + spec_workspace_commands(w, config, res, focus),
    decreases ws.len(),
{
    if ws.len() == 0 {
        assert(ws.push(w).drop_first() =~= Seq::<NodeView>::empty());
        assert(ws.push(w)[0] == w);
        assert(spec_commands_list(ws.push(w), config, res, focus) == spec_workspace_commands(
            w,
            config,
            res,
            focus,
        ) + spec_commands_list(Seq::<NodeView>::empty(), config, res, focus));
        assert(spec_commands_list(ws.push(w), config, res, focus) =~= spec_commands_list(
            ws,
            config,
            res,
            focus,
        ) + spec_workspace_commands(w, config, res, focus));
    } else {
        lemma_commands_list_push(ws.drop_first(), w, config, res, focus);
        assert(ws.push(w).drop_first() =~= ws.drop_first().push(w));
        assert(ws.push(w)[0] == ws[0]);
        let a = spec_workspace_commands(ws[0], config, res, focus);
        let b = spec_commands_list(ws.drop_first(), config, res, focus);
        let c = spec_workspace_commands(w, config, res, focus);
        assert(spec_commands_list(ws.push(w), config, res, focus) == a + (b + c));
        assert(a + (b + c) =~= (a + b) + c);
        assert(spec_commands_list(ws, config, res, focus) + spec_workspace_commands(
            w,
            config,
            res,
            focus,
        ) == (a + b) + c);
    }
}

/// Builds the literal rename command.
fn rename_command(old: &String, new: &String) -> (r: String)
    ensures
        r@ == spec_rename_command(old@, new@),
{
    let mut s = String::from_str("rename workspace \"");
    s.append(old.as_str());
    s.append("\" to \"");
    s.append(new.as_str());
    s.append("\"");
    s
}

/// Builds the literal focus command.
fn focus_command(old: &String) -> (r: String)
    ensures
        r@ == spec_focus_command(old@),
{
    let mut s = String::from_str("workspace \"");
    s.append(old.as_str());
    s.append("\"");
    s
}

/// One sync pass over a tree snapshot: for every workspace, compares its
/// name with the computed one and yields the commands to issue, in order.
/// A pass over an already-synchronized tree yields nothing.
pub fn sync_commands(tree: Node, config: &Config, res: &Compiled, focus: bool) -> (cmds: Vec<
    String,
>)
    ensures
        cmds.deep_view() == spec_sync_commands(node_view(tree), *config, *res, focus),
{
    let separator = match config.get_general("separator") {
        Some(s) => s,
        None => String::from_str(" | "),
    };
    let split_at = get_split_char(config);
    let ghost tv = node_view(tree);
    let workspaces = get_workspaces(tree);
    let ghost wsv = nodes_view(workspaces@);
    proof {
        lemma_nodes_view_index(workspaces@);
        lemma_workspaces_are_regular(tv);
    }
    let mut cmds: Vec<String> = Vec::new();
    let mut i: usize = 0;
    while i < workspaces.len()
        invariant
            i <= workspaces.len(),
            wsv == nodes_view(workspaces@),
            wsv == spec_workspaces(tv),
            wsv.len() == workspaces@.len(),
            forall|j: int| 0 <= j < workspaces@.len() ==> #[trigger] nodes_view(workspaces@)[j]
                == node_view(workspaces@[j]),
            forall|j: int| 0 <= j < wsv.len()
                ==> spec_is_regular_workspace(#[trigger] wsv[j]),
            separator@ == spec_separator(*config),
            split_at == spec_split_char(*config),
            cmds.deep_view() == spec_commands_list(wsv.take(i as int), *config, *res, focus),
        decreases workspaces.len() - i,
    {
        let workspace = &workspaces[i];
        proof {
            assert(node_view(*workspace) == wsv[i as int]);
            assert(spec_is_regular_workspace(wsv[i as int]));
        }
        let old = match &workspace.name {
            Some(n) => n,
            None => {
                proof {
                    assert(false);
                }
                vstd::pervasive::unreached()
            },
        };
        let titles = collect_titles(workspace, config, res);
        let titles = apply_options(titles, config);
        let titles_str = if titles.len() > 0 {
            let mut s = String::from_str(" ");
            let joined = join_titles(&titles, separator.as_str());
            s.append(joined.as_str());
            proof {
                reveal_strlit(" ");
                assert(" "@ =~= seq![' ']);
            }
            s
        } else {
            String::new()
        };
        proof {
            assert(titles_str@ == spec_titles_string(
                spec_apply_options(spec_collect_titles(wsv[i as int], *config, *res), *config),
                spec_separator(*config),
            ));
        }
        let initial = prefix_before(old.as_str(), split_at);
        let new = format_workspace_name(initial.as_str(), titles_str.as_str(), split_at, config);
        proof {
            assert(new@ == spec_new_name(wsv[i as int], *config, *res));
        }
        let ghost cmds0 = cmds.deep_view();
        if !str_eq(old.as_str(), new.as_str()) {
            if focus {
                let fc = focus_command(old);
                cmds.push(fc);
            }
            let rc = rename_command(old, &new);
            cmds.push(rc);
            proof {
                assert(cmds.deep_view() =~= cmds0 + spec_workspace_commands(
                    wsv[i as int],
                    *config,
                    *res,
                    focus,
                ));
            }
        } else {
            proof {
                assert(spec_workspace_commands(wsv[i as int], *config, *res, focus)
                    =~= Seq::<Seq<char>>::empty());
                assert(cmds.deep_view() =~= cmds0 + spec_workspace_commands(
                    wsv[i as int],
                    *config,
                    *res,
                    focus,
                ));
            }
        }
        proof {
            lemma_commands_list_push(wsv.take(i as int), wsv[i as int], *config, *res, focus);
            assert(wsv.take(i as int).push(wsv[i as int]) =~= wsv.take(i + 1 as int));
        }
        i += 1;
    }
    proof {
        assert(wsv.take(wsv.len() as int) =~= wsv);
    }
    cmds
}

/// Law: name reconstruction is idempotent. Reconstructing a name from the
/// prefix of an already-reconstructed name, with the same titles, yields
/// the same name: the split keeps recovering the same preserved prefix.
/// Holds whenever the title string starts with a space (as the sync pass
/// builds it) and the split character is a space; for a `':'` split it
/// additionally needs a non-empty preserved prefix when titles are
/// present, and no `empty_label` when they are not. (A `':'` split with an
/// `empty_label` re-appends the label on every pass: the label lands after
/// a space and is then never split off again.)
pub proof fn lemma_format_name_stable(
    old_name: Seq<char>,
    titles: Seq<char>,
    c: char,
    config: Config,
)
    requires
        titles.len() > 0 ==> titles[0] == ' ',
        c == ' ' || c == ':',
        c == ':' && titles.len() == 0 ==> config.spec_general("empty_label"@) is None,
        c == ':' && titles.len() > 0 ==> spec_prefix_before(old_name, c).len() > 0,
    ensures
        ({
            let initial = spec_prefix_before(old_name, c);
            let new = spec_format_workspace_name(initial, titles, c, config);
            spec_prefix_before(new, c) == initial && spec_format_workspace_name(
                spec_prefix_before(new, c),
                titles,
                c,
                config,
            ) == new
        }),
{
    let initial = spec_prefix_before(old_name, c);
    let new = spec_format_workspace_name(initial, titles, c, config);
    lemma_prefix_before_free(old_name, c);
    if titles.len() > 0 {
        if c == ':' {
            let b = seq![':'] + titles;
            assert(b[0] == ':');
            lemma_prefix_before_concat(initial, b, c);
            assert((initial + seq![':']) + titles =~= initial + b);
            assert(new == initial + b);
        } else {
            lemma_prefix_before_concat(initial, titles, c);
            assert(new == initial + titles);
        }
    } else {
        match config.spec_general("empty_label"@) {
            Some(label) => {
                assert(c == ' ');
                let b = seq![' '] + label;
                assert(b[0] == ' ');
                lemma_prefix_before_concat(initial, b, c);
                assert((initial + seq![' ']) + label =~= initial + b);
                assert(new == initial + b);
            },
            None => {
                assert(new == initial);
                lemma_prefix_before_concat(initial, Seq::<char>::empty(), c);
                assert(initial + Seq::<char>::empty() =~= initial);
            },
        }
    }
}

/// Law: a workspace that already bears its computed name keeps it. `w2` is
/// `w` renamed to its computed name, its windows unchanged; recomputing on
/// `w2` yields that same name, so a second sync pass over an unchanged
/// tree finds `old == new` and issues no command for the workspace. The
/// side conditions are those of [`lemma_format_name_stable`], plus that
/// the workspace node itself carries no window (its name then plays no
/// part in its own titles).
pub proof fn lemma_new_name_stable(w: NodeView, w2: NodeView, config: Config, res: Compiled)
    requires
        w.name is Some,
        w.window_properties is None,
        w.app_id is None,
        w2.name == Some(spec_new_name(w, config, res)),
        w2.window_properties is None,
        w2.app_id is None,
        w2.nodes == w.nodes,
        w2.floating_nodes == w.floating_nodes,
        ({
            let c = spec_split_char(config);
            let titles = spec_titles_string(
                spec_apply_options(spec_collect_titles(w, config, res), config),
                spec_separator(config),
            );
            &&& (c == ' ' || c == ':')
            &&& (c == ':' && titles.len() == 0 ==> config.spec_general("empty_label"@) is None)
            &&& (c == ':' && titles.len() > 0 ==> spec_prefix_before(w.name->0, c).len() > 0)
        }),
    ensures
        spec_new_name(w2, config, res) == spec_new_name(w, config, res),
{
    let c = spec_split_char(config);
    assert(crate::tree::spec_window_nodes(w2) =~= crate::tree::spec_window_nodes(w));
    let titles = spec_titles_string(
        spec_apply_options(spec_collect_titles(w, config, res), config),
        spec_separator(config),
    );
    assert(titles.len() > 0 ==> titles[0] == ' ');
    lemma_format_name_stable(w.name->0, titles, c, config);
}

/// Empty-list form of [`lemma_synced_tree_no_commands`].
proof fn lemma_commands_list_empty(ws: Seq<NodeView>, config: Config, res: Compiled, focus: bool)
    requires
        forall|i: int| 0 <= i < ws.len() ==> (#[trigger] ws[i]).name->0 == spec_new_name(
            ws[i],
            config,
            res,
        ),
    ensures
        spec_commands_list(ws, config, res, focus) == Seq::<Seq<char>>::empty(),
    decreases ws.len(),
{
    if ws.len() != 0 {
        assert(ws[0].name->0 == spec_new_name(ws[0], config, res));
        assert(spec_workspace_commands(ws[0], config, res, focus) =~= Seq::<Seq<char>>::empty());
        assert forall|i: int| 0 <= i < ws.drop_first().len()
            implies (#[trigger] ws.drop_first()[i]).name->0 == spec_new_name(
            ws.drop_first()[i],
            config,
            res,
        ) by {
            assert(ws.drop_first()[i] == ws[i + 1]);
        }
        lemma_commands_list_empty(ws.drop_first(), config, res, focus);
        assert(spec_commands_list(ws, config, res, focus) =~= Seq::<Seq<char>>::empty());
    }
}

/// Law: idempotence of the sync pass. A pass over a tree whose every
/// workspace already bears its computed name issues no commands; in
/// particular, running two passes in succession with no intervening tree
/// change issues nothing the second time, since the first pass left every
/// workspace named as computed.
pub proof fn lemma_synced_tree_no_commands(
    tree: NodeView,
    config: Config,
    res: Compiled,
    focus: bool,
)
    requires
        forall|i: int| 0 <= i < spec_workspaces(tree).len()
            ==> (#[trigger] spec_workspaces(tree)[i]).name->0 == spec_new_name(
            spec_workspaces(tree)[i],
            config,
            res,
        ),
    ensures
        spec_sync_commands(tree, config, res, focus) == Seq::<Seq<char>>::empty(),
{
    lemma_commands_list_empty(spec_workspaces(tree), config, res, focus);
}

/// A change kind of a window notification.
#[derive(Clone, Copy, PartialEq, Eq, Structural, Debug)]
pub enum WindowChange {
    New,
    Close,
    Focus,
    Title,
    FullscreenMode,
    Move,
    Floating,
    Urgent,
    Mark,
    Other,
}

/// A change kind of a workspace notification.
#[derive(Clone, Copy, PartialEq, Eq, Structural, Debug)]
pub enum WorkspaceChange {
    Init,
    Empty,
    Focus,
    Move,
    Rename,
    Urgent,
    Reload,
    Other,
}

/// What the event loop must do with a notification.
#[derive(Clone, Copy, PartialEq, Eq, Structural, Debug)]
pub enum EventAction {
    /// Run a sync pass; `focus` says whether the focus fix applies.
    Update { focus: bool },
    /// Exit the process so a supervisor can start a fresh instance.
    Abort,
    /// Do nothing.
    Ignore,
}

/// The action a window notification asks for: a sync pass on a new,
/// closed, moved, retitled or floating-toggled window; nothing otherwise.
pub open spec fn spec_window_event_action(change: WindowChange) -> EventAction {
    match change {
        WindowChange::New => EventAction::Update { focus: false },
        WindowChange::Close => EventAction::Update { focus: false },
        WindowChange::Move => EventAction::Update { focus: false },
        WindowChange::Title => EventAction::Update { focus: false },
        WindowChange::Floating => EventAction::Update { focus: false },
        _ => EventAction::Ignore,
    }
}

/// Decides what a window notification asks for.
pub fn window_event_action(change: WindowChange) -> (a: EventAction)
    ensures
        a == spec_window_event_action(change),
{
    match change {
        WindowChange::New
        | WindowChange::Close
        | WindowChange::Move
        | WindowChange::Title
        | WindowChange::Floating => EventAction::Update { focus: false },
        _ => EventAction::Ignore,
    }
}

/// The action a workspace notification asks for. A compositor-originated
/// reload is a poison pill, always fatal: the process must exit promptly
/// so a supervising instance can start a fresh one. A workspace becoming
/// empty triggers a plain pass; a focus change triggers a pass with the
/// focus fix when that option is set; everything else is ignored.
pub open spec fn spec_workspace_event_action(
    change: WorkspaceChange,
    focus_fix: bool,
) -> EventAction {
    match change {
        WorkspaceChange::Reload => EventAction::Abort,
        WorkspaceChange::Empty => EventAction::Update { focus: false },
        WorkspaceChange::Focus => EventAction::Update { focus: focus_fix },
        _ => EventAction::Ignore,
    }
}

/// Decides what a workspace notification asks for. `focus_fix` is the
/// configured option.
pub fn workspace_event_action(change: WorkspaceChange, focus_fix: bool) -> (a: EventAction)
    ensures
        a == spec_workspace_event_action(change, focus_fix),
{
    match change {
        WorkspaceChange::Reload => EventAction::Abort,
        WorkspaceChange::Empty => EventAction::Update { focus: false },
        WorkspaceChange::Focus => EventAction::Update { focus: focus_fix },
        _ => EventAction::Ignore,
    }
}

/// The action on a failure of the event stream itself: an end of stream
/// means the compositor went away, so the process must exit for a
/// supervisor to restart it; any other transport failure is transient —
/// the caller reports it and the loop continues.
pub open spec fn spec_transport_error_action(end_of_stream: bool) -> EventAction {
    if end_of_stream {
        EventAction::Abort
    } else {
        EventAction::Ignore
    }
}

/// Decides what a transport-level failure of the event stream asks for.
pub fn transport_error_action(end_of_stream: bool) -> (a: EventAction)
    ensures
        a == spec_transport_error_action(end_of_stream),
{
    if end_of_stream {
        EventAction::Abort
    } else {
        EventAction::Ignore
    }
}

} // verus!
