//! Workspace-name composition: post-processing of window titles
//! (deduplication, empty filtering), joining, the split character, and the
//! reconstruction of a workspace name from its preserved prefix.

use vstd::prelude::*;
use vstd::string::StrSliceExecFns;
use vstd::string::StringExecFns;
use crate::config::Config;
use crate::spec_option_or_false;
use crate::get_option;

verus! {

/// Stable deduplication: of equal titles only the first occurrence stays,
/// in its original position.
pub open spec fn spec_dedup(s: Seq<Seq<char>>) -> Seq<Seq<char>>
    decreases s.len(),
{
    if s.len() == 0 {
        Seq::empty()
    } else {
        let pre = spec_dedup(s.drop_last());
        if s.drop_last().contains(s.last()) {
            pre
        } else {
            pre.push(s.last())
        }
    }
}

/// Deduplication keeps exactly the values that were present.
pub proof fn lemma_dedup_membership(s: Seq<Seq<char>>)
    ensures
        forall|x: Seq<char>| #[trigger] spec_dedup(s).contains(x) == s.contains(x),
    decreases s.len(),
{
    if s.len() != 0 {
        lemma_dedup_membership(s.drop_last());
        assert forall|x: Seq<char>| #[trigger] spec_dedup(s).contains(x) == s.contains(x) by {
            let pre = spec_dedup(s.drop_last());
            if s.drop_last().contains(s.last()) {
                if s.contains(x) {
                    let i = choose|i: int| 0 <= i < s.len() && s[i] == x;
                    if i < s.len() - 1 {
                        assert(s.drop_last()[i] == x);
                        assert(s.drop_last().contains(x));
                    } else {
                        assert(x == s.last());
                        assert(s.drop_last().contains(x));
                    }
                }
                if pre.contains(x) {
                    let i = choose|i: int| 0 <= i < s.drop_last().len() && s.drop_last()[i] == x;
                    assert(s[i] == x);
                    assert(s.contains(x));
                }
            } else {
                if s.contains(x) {
                    let i = choose|i: int| 0 <= i < s.len() && s[i] == x;
                    if i < s.len() - 1 {
                        assert(s.drop_last()[i] == x);
                        assert(s.drop_last().contains(x));
                        assert(pre.contains(x));
                        let j = choose|j: int| 0 <= j < pre.len() && pre[j] == x;
                        assert(pre.push(s.last())[j] == x);
                    } else {
                        assert(pre.push(s.last()).last() == x);
                    }
                    assert(spec_dedup(s).contains(x));
                }
                if spec_dedup(s).contains(x) {
                    let i = choose|i: int| 0 <= i < spec_dedup(s).len() && spec_dedup(s)[i] == x;
                    if i < pre.len() {
                        assert(pre[i] == x);
                        assert(pre.contains(x));
                        assert(s.drop_last().contains(x));
                        let j = choose|j: int|
                            0 <= j < s.drop_last().len() && s.drop_last()[j] == x;
                        assert(s[j] == x);
                    } else {
                        assert(x == s.last());
                        assert(s[s.len() - 1] == x);
                    }
                    assert(s.contains(x));
                }
            }
        }
    }
}

/// The titles with the empty ones removed, in order.
pub open spec fn spec_drop_empty(s: Seq<Seq<char>>) -> Seq<Seq<char>>
    decreases s.len(),
{
    if s.len() == 0 {
        Seq::empty()
    } else {
        let pre = spec_drop_empty(s.drop_last());
        if s.last().len() == 0 {
            pre
        } else {
            pre.push(s.last())
        }
    }
}

/// The post-processing the options ask for: deduplication first (under
/// `remove_duplicates`), then removal of empty titles (under `no_names`),
/// in that order, so duplicate empty titles collapse to one before being
/// dropped.
pub open spec fn spec_apply_options(titles: Seq<Seq<char>>, config: Config) -> Seq<Seq<char>> {
    let deduped = if spec_option_or_false(config, "remove_duplicates"@) {
        spec_dedup(titles)
    } else {
        titles
    };
    if spec_option_or_false(config, "no_names"@) {
        spec_drop_empty(deduped)
    } else {
        deduped
    }
}

/// Whether `v` holds a string whose characters equal `s`'s.
fn contains_string(v: &Vec<String>, s: &String) -> (r: bool)
    ensures
        r == v.deep_view().contains(s@),
{
    let mut i: usize = 0;
    while i < v.len()
        invariant
            i <= v.len(),
            forall|j: int| 0 <= j < i ==> v.deep_view()[j] != s@,
        decreases v.len() - i,
    {
        if v[i].eq(s) {
            proof {
                assert(v.deep_view()[i as int] == s@);
            }
            return true;
        }
        i += 1;
    }
    proof {
        assert(!v.deep_view().contains(s@)) by {
            if v.deep_view().contains(s@) {
                let j = choose|j: int| 0 <= j < v.deep_view().len() && v.deep_view()[j] == s@;
                assert(v.deep_view()[j] != s@);
            }
        }
    }
    false
}

/// Deduplicates the titles, keeping first occurrences in order.
fn dedup_titles(titles: &Vec<String>) -> (r: Vec<String>)
    ensures
        r.deep_view() == spec_dedup(titles.deep_view()),
{
    let ghost dv = titles.deep_view();
    let mut out: Vec<String> = Vec::new();
    let mut i: usize = 0;
    while i < titles.len()
        invariant
            i <= titles.len(),
            dv == titles.deep_view(),
            out.deep_view() == spec_dedup(dv.take(i as int)),
        decreases titles.len() - i,
    {
        let ghost out0 = out.deep_view();
        proof {
            lemma_dedup_membership(dv.take(i as int));
            assert(dv.take(i + 1 as int).drop_last() =~= dv.take(i as int));
            assert(dv.take(i + 1 as int).last() == dv[i as int]);
        }
        if !contains_string(&out, &titles[i]) {
            let t = titles[i].clone();
            out.push(t);
            proof {
                assert(out.deep_view() =~= out0.push(dv[i as int]));
            }
        }
        i += 1;
    }
    proof {
        assert(dv.take(dv.len() as int) =~= dv);
    }
    out
}

/// Removes empty titles, keeping order.
fn drop_empty_titles(titles: &Vec<String>) -> (r: Vec<String>)
    ensures
        r.deep_view() == spec_drop_empty(titles.deep_view()),
{
    let ghost dv = titles.deep_view();
    let mut out: Vec<String> = Vec::new();
    let mut i: usize = 0;
    while i < titles.len()
        invariant
            i <= titles.len(),
            dv == titles.deep_view(),
            out.deep_view() == spec_drop_empty(dv.take(i as int)),
        decreases titles.len() - i,
    {
        let ghost out0 = out.deep_view();
        proof {
            assert(dv.take(i + 1 as int).drop_last() =~= dv.take(i as int));
            assert(dv.take(i + 1 as int).last() == dv[i as int]);
        }
        if !titles[i].as_str().is_empty() {
            let t = titles[i].clone();
            out.push(t);
            proof {
                assert(out.deep_view() =~= out0.push(dv[i as int]));
            }
        }
        i += 1;
    }
    proof {
        assert(dv.take(dv.len() as int) =~= dv);
    }
    out
}

/// Applies the configured post-processing to the collected titles:
/// deduplication under `remove_duplicates`, then removal of empty titles
/// under `no_names`.
pub fn apply_options(titles: Vec<String>, config: &Config) -> (r: Vec<String>)
    ensures
        r.deep_view() == spec_apply_options(titles.deep_view(), *config),
{
    let processed = if get_option(config, "remove_duplicates") {
        dedup_titles(&titles)
    } else {
        titles
    };
    if get_option(config, "no_names") {
        drop_empty_titles(&processed)
    } else {
        processed
    }
}

/// The character that separates the preserved workspace prefix from the
/// generated title suffix: the first character of the configured
/// `split_at`, or a space when none (or an empty one) is configured.
pub open spec fn spec_split_char(config: Config) -> char {
    match config.spec_general("split_at"@) {
        Some(s) => if s.len() == 0 {
            ' '
        } else {
            s[0]
        },
        None => ' ',
    }
}

/// Reads the configured split character.
pub fn get_split_char(config: &Config) -> (c: char)
    ensures
        c == spec_split_char(*config),
{
    match config.get_general("split_at") {
        Some(s) => {
            if s.as_str().is_empty() {
                ' '
            } else {
                s.as_str().get_char(0)
            }
        },
        None => ' ',
    }
}

/// The titles joined with the separator between consecutive entries.
pub open spec fn spec_join(ts: Seq<Seq<char>>, sep: Seq<char>) -> Seq<char>
    decreases ts.len(),
{
    if ts.len() == 0 {
        Seq::empty()
    } else if ts.len() == 1 {
        ts[0]
    } else {
        spec_join(ts.drop_last(), sep) + sep + ts.last()
    }
}

/// Joins the titles with the separator.
pub fn join_titles(titles: &Vec<String>, sep: &str) -> (r: String)
    ensures
        r@ == spec_join(titles.deep_view(), sep@),
{
    let ghost dv = titles.deep_view();
    let mut s = String::new();
    let mut i: usize = 0;
    while i < titles.len()
        invariant
            i <= titles.len(),
            dv == titles.deep_view(),
            s@ == spec_join(dv.take(i as int), sep@),
        decreases titles.len() - i,
    {
        proof {
            assert(dv.take(i + 1 as int).drop_last() =~= dv.take(i as int));
            assert(dv.take(i + 1 as int).last() == dv[i as int]);
        }
        if i > 0 {
            s.append(sep);
        }
        s.append(titles[i].as_str());
        proof {
            if i == 0 {
                assert(dv.take(1)[0] == dv[0]);
                assert(s@ =~= spec_join(dv.take(1), sep@));
            }
        }
        i += 1;
    }
    proof {
        assert(dv.take(dv.len() as int) =~= dv);
    }
    s
}

/// The reconstructed workspace name: the preserved prefix; a reinserted
/// colon when the split character is exactly `':'` and both prefix and
/// titles are non-empty; then the titles, or, when they are empty, a space
/// and the configured `empty_label`, if any.
pub open spec fn spec_format_workspace_name(
    initial: Seq<char>,
    titles: Seq<char>,
    split_at: char,
    config: Config,
) -> Seq<char> {
    let base = if split_at == ':' && initial.len() > 0 && titles.len() > 0 {
        initial + seq![':']
    } else {
        initial
    };
    if titles.len() > 0 {
        base + titles
    } else {
        match config.spec_general("empty_label"@) {
            Some(label) => base + seq![' '] + label,
            None => base,
        }
    }
}

/// Rebuilds a workspace name from its preserved prefix and the composed
/// title string.
pub fn format_workspace_name(initial: &str, titles: &str, split_at: char, config: &Config) -> (r:
    String)
    ensures
        r@ == spec_format_workspace_name(initial@, titles@, split_at, *config),
{
    let mut new = initial.to_owned();

    // Reinsert the colon consumed by the split, only for a ':' split.
    if split_at == ':' && !initial.is_empty() && !titles.is_empty() {
        new.append(":");
        proof {
            reveal_strlit(":");
            assert(":"@ =~= seq![':']);
        }
    }

    if !titles.is_empty() {
        new.append(titles);
    } else if let Some(empty_label) = config.get_general("empty_label") {
        new.append(" ");
        new.append(empty_label.as_str());
        proof {
            reveal_strlit(" ");
            assert(" "@ =~= seq![' ']);
        }
    }

    new
}

} // verus!
