//! Stepping through the find matches of the schema text.

use crate::edit::status;
use crate::studio::{MFlashStudioApp, Workspace};
use crate::text::{decimal, decimal_string};
use vstd::prelude::*;

verus! {

/// The status message that reports the current find match.
#[verifier::opaque]
pub open spec fn find_match_message(index: nat, count: nat) -> Seq<char> {
    "Find match "@ + decimal(index + 1) + " of "@ + decimal(count) + "."@
}

pub fn find_match_status(index: usize, count: usize) -> (r: Option<String>)
    requires
        index < usize::MAX,
    ensures
        r.deep_view() == Some(find_match_message(index as nat, count as nat)),
{
    let mut m = String::from_str("Find match ");
    let a = decimal_string(index + 1);
    m.append(a.as_str());
    m.append(" of ");
    let b = decimal_string(count);
    m.append(b.as_str());
    m.append(".");
    proof {
        reveal(find_match_message);
    }
    Some(m)
}

/// `new` is `old` after a step through the find matches: only the current match and the
/// status message changed.
pub open spec fn find_step_common(old: MFlashStudioApp, new: MFlashStudioApp) -> bool {
    &&& new.same_document(&old)
    &&& new.same_view_options(&old)
    &&& new.same_find_settings(&old)
    &&& new.find_matches == old.find_matches
    &&& old.find_matches@.len() == 0 ==> {
        &&& new.current_match_idx == old.current_match_idx
        &&& new.json_error.deep_view() == Some("No find matches available yet."@)
    }
    &&& old.find_matches@.len() > 0 ==> new.json_error.deep_view() == Some(
        find_match_message(new.current_match_idx as nat, old.find_matches@.len()),
    )
}

/// `new` is `old` after `find_next`.
pub open spec fn find_next_post(old: MFlashStudioApp, new: MFlashStudioApp) -> bool {
    &&& find_step_common(old, new)
    &&& old.find_matches@.len() > 0 ==> new.current_match_idx == (old.current_match_idx + 1)
        % (old.find_matches@.len() as int)
}

/// `new` is `old` after `find_previous`.
pub open spec fn find_previous_post(old: MFlashStudioApp, new: MFlashStudioApp) -> bool {
    &&& find_step_common(old, new)
    &&& old.find_matches@.len() > 0 ==> new.current_match_idx == if old.current_match_idx == 0 {
        old.find_matches@.len() - 1
    } else {
        old.current_match_idx - 1
    }
}

/// Reports that there are no find matches.
fn report_no_matches(app: &mut MFlashStudioApp)
    ensures
        final(app).same_document(&*old(app)),
        final(app).same_view_options(&*old(app)),
        final(app).same_find_settings(&*old(app)),
        final(app).find_matches == old(app).find_matches,
        final(app).current_match_idx == old(app).current_match_idx,
        final(app).json_error.deep_view() == Some("No find matches available yet."@),
{
    app.json_error = status("No find matches available yet.");
}

/// Makes the match at `index` the current one and reports it.
fn step_to_match(app: &mut MFlashStudioApp, index: usize)
    requires
        index < usize::MAX,
    ensures
        final(app).same_document(&*old(app)),
        final(app).same_view_options(&*old(app)),
        final(app).same_find_settings(&*old(app)),
        final(app).find_matches == old(app).find_matches,
        final(app).current_match_idx == index,
        final(app).json_error.deep_view() == Some(
            find_match_message(index as nat, old(app).find_matches@.len()),
        ),
{
    let n: usize = app.find_matches.len();
    let message = find_match_status(index, n);
    app.current_match_idx = index;
    app.json_error = message;
}

/// Moves to the next find match, wrapping around after the last one.
pub fn find_next(app: &mut MFlashStudioApp)
    requires
        old(app).current_match_idx < usize::MAX,
    ensures
        find_next_post(*old(app), *final(app)),
{
    let n: usize = app.find_matches.len();
    if n == 0 {
        report_no_matches(app);
    } else {
        let index: usize = (app.current_match_idx + 1) % n;
        step_to_match(app, index);
    }
}

/// Moves to the previous find match, wrapping around before the first one.
pub fn find_previous(app: &mut MFlashStudioApp)
    ensures
        find_previous_post(*old(app), *final(app)),
{
    let n: usize = app.find_matches.len();
    if n == 0 {
        report_no_matches(app);
    } else {
        let index: usize = if app.current_match_idx == 0 {
            n - 1
        } else {
            app.current_match_idx - 1
        };
        step_to_match(app, index);
    }
}

/// `new` is `old` but for the find bar: only the find bar's visibility, the replace row's
/// visibility, the matches and the current match may differ.
pub open spec fn only_find_bar_changed(old: MFlashStudioApp, new: MFlashStudioApp) -> bool {
    &&& new.same_document(&old)
    &&& new.same_view_options(&old)
    &&& new.json_error == old.json_error
    &&& new.find_query == old.find_query
    &&& new.replace_query == old.replace_query
    &&& new.find_use_regex == old.find_use_regex
    &&& new.find_case_sensitive == old.find_case_sensitive
}

/// `new` is `old` after showing or hiding the find bar: hiding it also forgets the matches
/// and hides the replace row. Outside the schema editor nothing changes.
pub open spec fn toggle_find_post(old: MFlashStudioApp, new: MFlashStudioApp) -> bool {
    &&& old.workspace != Workspace::SchemaEditor ==> new == old
    &&& old.workspace == Workspace::SchemaEditor ==> {
        &&& only_find_bar_changed(old, new)
        &&& new.find_visible == !old.find_visible
        &&& old.find_visible ==> {
            &&& new.find_matches@.len() == 0
            &&& new.current_match_idx == 0
            &&& !new.replace_visible
        }
        &&& !old.find_visible ==> {
            &&& new.find_matches == old.find_matches
            &&& new.current_match_idx == old.current_match_idx
            &&& new.replace_visible == old.replace_visible
        }
    }
}

/// Shows or hides the find bar of the schema editor; hiding it also forgets the matches
/// and hides the replace row. Outside the schema editor nothing changes.
pub fn toggle_find(app: &mut MFlashStudioApp)
    ensures
        toggle_find_post(*old(app), *final(app)),
{
    if app.workspace != Workspace::SchemaEditor {
        return;
    }
    app.find_visible = !app.find_visible;
    if !app.find_visible {
        app.find_matches.clear();
        app.current_match_idx = 0;
        app.replace_visible = false;
    }
}

/// `new` is `old` after showing or hiding the replace row, which shows the find bar.
/// Outside the schema editor nothing changes.
pub open spec fn toggle_replace_post(old: MFlashStudioApp, new: MFlashStudioApp) -> bool {
    &&& old.workspace != Workspace::SchemaEditor ==> new == old
    &&& old.workspace == Workspace::SchemaEditor ==> {
        &&& only_find_bar_changed(old, new)
        &&& new.find_visible
        &&& new.replace_visible == !old.replace_visible
        &&& new.find_matches == old.find_matches
        &&& new.current_match_idx == old.current_match_idx
    }
}

/// Shows or hides the replace row of the schema editor's find bar, showing the find bar.
/// Outside the schema editor nothing changes.
pub fn toggle_replace(app: &mut MFlashStudioApp)
    ensures
        toggle_replace_post(*old(app), *final(app)),
{
    if app.workspace != Workspace::SchemaEditor {
        return;
    }
    app.find_visible = true;
    app.replace_visible = !app.replace_visible;
}

/// Stepping to the next find match and then to the previous one comes back to the match
/// one started from (when there are matches and the current one is among them).
pub proof fn lemma_find_previous_reverts_next(a: MFlashStudioApp, b: MFlashStudioApp, c: MFlashStudioApp)
    requires
        find_next_post(a, b),
        find_previous_post(b, c),
        a.find_matches@.len() > 0,
        a.current_match_idx < a.find_matches@.len(),
    ensures
        c.current_match_idx == a.current_match_idx,
        c.find_matches == a.find_matches,
        c.same_document(&a),
{
    let n = a.find_matches@.len() as int;
    let i = a.current_match_idx as int;
    if i + 1 < n {
        vstd::arithmetic::div_mod::lemma_small_mod((i + 1) as nat, n as nat);
    } else {
        vstd::arithmetic::div_mod::lemma_mod_self_0(n);
    }
}

/// Stepping to the previous find match and then to the next one comes back to the match
/// one started from (when there are matches and the current one is among them).
pub proof fn lemma_find_next_reverts_previous(a: MFlashStudioApp, b: MFlashStudioApp, c: MFlashStudioApp)
    requires
        find_previous_post(a, b),
        find_next_post(b, c),
        a.find_matches@.len() > 0,
        a.current_match_idx < a.find_matches@.len(),
    ensures
        c.current_match_idx == a.current_match_idx,
        c.find_matches == a.find_matches,
        c.same_document(&a),
{
    let n = a.find_matches@.len() as int;
    let j = b.current_match_idx as int;
    if j + 1 < n {
        vstd::arithmetic::div_mod::lemma_small_mod((j + 1) as nat, n as nat);
    } else {
        vstd::arithmetic::div_mod::lemma_mod_self_0(n);
    }
}

} // verus!
