//! Installing updates: which script a request runs, how the output of a
//! batch of cask upgrades is split back into one record per cask, and the
//! records that go into the update history.

use vstd::prelude::*;
use vstd::string::*;
use crate::scripts::{
    ADOPT_CASK_FN, MACOS_INSTALLING_NOTE, NEWLINE, PROTECTED_BUNDLE_FN, askpass_scope, cask_fns,
    cask_fns_text, heads_up_text, label_of, macos_heads_up, scope_escaped, scope_raw,
    section_label,
};
use crate::text::{
    begins_with, is_alphanumeric, join, joined, owned, starts_with_str, str_eq, strings_view,
    substring, unicode_alphanumeric,
};

verus! {

/// Whether `c` may appear in a Homebrew cask token as the app accepts it.
pub open spec fn token_char(c: char) -> bool {
    unicode_alphanumeric(c) || c == '-' || c == '_' || c == '@' || c == '.'
}

/// Whether every character of `t` may appear in a cask token; the token is
/// interpolated into a single-quoted shell word, so nothing else is allowed.
pub open spec fn valid_token(t: Seq<char>) -> bool {
    forall|i: int| 0 <= i < t.len() ==> token_char(#[trigger] t[i])
}

/// Whether `token` is an acceptable cask token.
pub fn is_valid_cask_token(token: &str) -> (r: bool)
    ensures
        r == valid_token(token@),
{
    let n = token.unicode_len();
    let mut i: usize = 0;
    while i < n
        invariant
            n == token@.len(),
            i <= n,
            forall|j: int| 0 <= j < i ==> token_char(#[trigger] token@[j]),
        decreases n - i,
    {
        let c = token.get_char(i);
        if !(is_alphanumeric(c) || c == '-' || c == '_' || c == '@' || c == '.') {
            assert(!token_char(token@[i as int]));
            return false;
        }
        i = i + 1;
    }
    true
}

/// One entry of the update history.
pub struct HistoryEntry {
    pub ts: u64,
    pub section: String,
    pub label: String,
    pub items: Vec<String>,
    pub item_names: Vec<String>,
    pub lines: Vec<String>,
}

/// A history entry for `section`, labelled with the section's heading.
pub fn history_entry(
    ts: u64,
    section: &str,
    items: Vec<String>,
    item_names: Vec<String>,
    lines: Vec<String>,
) -> (e: HistoryEntry)
    ensures
        e.ts == ts,
        e.section@ == section@,
        e.label@ == label_of(section@),
        e.items == items,
        e.item_names == item_names,
        e.lines == lines,
{
    HistoryEntry {
        ts,
        section: owned(section),
        label: owned(section_label(section)),
        items,
        item_names,
        lines,
    }
}

// ---------------------------------------------------------------------------
// Upgrading selected items
// ---------------------------------------------------------------------------

pub const CASK_MARKER_PREFIX: &'static str = "__PM_CASK_";

pub const CASK_START: &'static str = "__PM_CASK_START__:";

pub const CASK_END: &'static str = "__PM_CASK_END__:";

/// Whether a line of upgrade output is one of the sentinels that delimit a
/// cask; those are kept out of the live view.
pub fn is_cask_marker(line: &str) -> (r: bool)
    ensures
        r == begins_with(line@, CASK_MARKER_PREFIX@),
{
    starts_with_str(line, CASK_MARKER_PREFIX)
}

pub const BREW_PATH_LINE: &'static str = "export PATH=\"/opt/homebrew/bin:/usr/local/bin:$PATH\"\nif command -v brew &>/dev/null; then\n";

pub const ASKPASS_EXPORT: &'static str = "export PM_ASKPASS_APP='";

pub const QUOTE_NEWLINE: &'static str = "'\n";

pub const NO_BREW_TAIL: &'static str = "else\n  echo '\u{2716}  brew not found'\nfi";

/// The name a cask is shown by: its display name when one was sent for it,
/// otherwise the token.
pub open spec fn display_name(items: Seq<Seq<char>>, names: Seq<Seq<char>>, i: int) -> Seq<char> {
    if i < names.len() {
        names[i]
    } else {
        items[i]
    }
}

/// The selected casks paired with their display names, those with a token
/// that is not acceptable left out.
pub open spec fn cask_pairs(items: Seq<Seq<char>>, names: Seq<Seq<char>>) -> Seq<(Seq<char>, Seq<char>)>
    decreases items.len(),
{
    if items.len() == 0 {
        Seq::empty()
    } else {
        let i = items.len() - 1;
        let prev = cask_pairs(items.drop_last(), names);
        if valid_token(items[i]) {
            prev.push((items[i], display_name(items, names, i)))
        } else {
            prev
        }
    }
}

/// The lines that upgrade one cask between its two sentinels.
pub open spec fn cask_call(token: Seq<char>) -> Seq<char> {
    "echo '"@ + CASK_START@ + token + "'\nbrew_upgrade_cask '"@ + token + "'\necho '"@ + CASK_END@
        + token + "'\n"@
}

pub open spec fn cask_calls(tokens: Seq<Seq<char>>) -> Seq<char>
    decreases tokens.len(),
{
    if tokens.len() == 0 {
        Seq::empty()
    } else {
        cask_calls(tokens.drop_last()) + cask_call(tokens.last())
    }
}

pub open spec fn firsts(pairs: Seq<(Seq<char>, Seq<char>)>) -> Seq<Seq<char>> {
    pairs.map_values(|p: (Seq<char>, Seq<char>)| p.0)
}

pub open spec fn seconds(pairs: Seq<(Seq<char>, Seq<char>)>) -> Seq<Seq<char>> {
    pairs.map_values(|p: (Seq<char>, Seq<char>)| p.1)
}

/// One shell for the whole batch, so one password covers it: the password
/// dialog labelled for the batch, the cask helpers, then each cask's upgrade
/// between sentinels.
pub open spec fn casks_script(pairs: Seq<(Seq<char>, Seq<char>)>) -> Seq<char> {
    BREW_PATH_LINE@ + ASKPASS_EXPORT@ + scope_escaped(scope_raw(seconds(pairs))) + QUOTE_NEWLINE@
        + cask_fns_text() + NEWLINE@ + cask_calls(firsts(pairs)) + NO_BREW_TAIL@
}

/// The names a batch is recorded under: the display names when any were
/// sent, otherwise the items themselves.
pub open spec fn shown_names(items: Seq<Seq<char>>, names: Seq<Seq<char>>) -> Seq<Seq<char>> {
    if names.len() == 0 {
        items
    } else {
        names
    }
}

pub const STORE_OPEN_FOR: &'static str = "echo '\u{2192}  Opening App Store Updates for: ";

pub const STORE_OPEN_TAIL: &'static str = "'\nopen 'macappstores://showUpdatesPage'\necho '\u{2714}  App Store opened \u{2014} please click Update next to each app.'";

/// The App Store cannot be driven from a script: this opens its Updates page
/// and says which apps to update there.
pub open spec fn store_script(items: Seq<Seq<char>>, names: Seq<Seq<char>>) -> Seq<char> {
    STORE_OPEN_FOR@ + joined(shown_names(items, names), ", "@) + STORE_OPEN_TAIL@
}

/// A `softwareupdate` label inside the double-quoted AppleScript string:
/// quoted, with its own double quotes escaped.
pub open spec fn label_char(c: char) -> Seq<char> {
    if c == '"' {
        "\\\""@
    } else {
        seq![c]
    }
}

pub open spec fn label_escaped(s: Seq<char>) -> Seq<char>
    decreases s.len(),
{
    if s.len() == 0 {
        Seq::empty()
    } else {
        label_escaped(s.drop_last()) + label_char(s.last())
    }
}

pub open spec fn quoted_label(l: Seq<char>) -> Seq<char> {
    "\\\""@ + label_escaped(l) + "\\\""@
}

/// A name as the heads-up dialog shows it: backslashes and double quotes
/// dropped.
pub open spec fn name_char(c: char) -> Seq<char> {
    if c == '\\' || c == '"' {
        Seq::empty()
    } else {
        seq![c]
    }
}

pub open spec fn name_cleaned(s: Seq<char>) -> Seq<char>
    decreases s.len(),
{
    if s.len() == 0 {
        Seq::empty()
    } else {
        name_cleaned(s.drop_last()) + name_char(s.last())
    }
}

pub const INSTALL_LABELS_HEAD: &'static str = "\nosascript -e 'do shell script \"softwareupdate -i ";

pub const INSTALL_LABELS_TAIL: &'static str = "\" with administrator privileges' 2>&1\necho '\u{2192}  macOS update complete.'";

/// Installs the chosen macOS updates by label, after the heads-up naming them.
pub open spec fn macos_script(items: Seq<Seq<char>>, names: Seq<Seq<char>>) -> Seq<char> {
    heads_up_text(joined(shown_names(items, names).map_values(|n: Seq<char>| name_cleaned(n)), ", "@))
        + NEWLINE@ + MACOS_INSTALLING_NOTE@ + INSTALL_LABELS_HEAD@ + joined(
        items.map_values(|l: Seq<char>| quoted_label(l)),
        " "@,
    ) + INSTALL_LABELS_TAIL@
}

/// What upgrading a selection of items amounts to.
pub enum ItemsPlan {
    /// Nothing to do: report "No items selected." and finish.
    NothingSelected,
    /// The section cannot upgrade single items: report it as an error.
    Unsupported,
    /// Run `script` (Homebrew casks), then split its output with
    /// `split_cask_groups` and record one entry per cask; `pairs` holds each
    /// cask's token and display name.
    Casks { script: String, pairs: Vec<(String, String)> },
    /// Run `script` and record one entry for the whole selection under
    /// `names`.
    Batch { script: String, names: Vec<String> },
}

pub open spec fn pairs_view(v: Seq<(String, String)>) -> Seq<(Seq<char>, Seq<char>)> {
    v.map_values(|p: (String, String)| (p.0@, p.1@))
}

/// The plan for upgrading `items` (with their display names `item_names`)
/// in `section`.
pub open spec fn items_plan_ok(
    section: Seq<char>,
    items: Seq<Seq<char>>,
    names: Seq<Seq<char>>,
    plan: ItemsPlan,
) -> bool {
    if items.len() == 0 {
        plan is NothingSelected
    } else if section == "brew_casks"@ {
        if cask_pairs(items, names).len() == 0 {
            plan is NothingSelected
        } else {
            plan matches ItemsPlan::Casks { script, pairs } && pairs_view(pairs@) == cask_pairs(
                items,
                names,
            ) && script@ == casks_script(cask_pairs(items, names))
        }
    } else if section == "app_store"@ {
        plan matches ItemsPlan::Batch { script, names: shown } && script@ == store_script(items, names)
            && strings_view(shown@) == shown_names(items, names)
    } else if section == "macos_updates"@ {
        plan matches ItemsPlan::Batch { script, names: shown } && script@ == macos_script(items, names)
            && strings_view(shown@) == shown_names(items, names)
    } else {
        plan is Unsupported
    }
}

fn clone_strings(v: &[String]) -> (r: Vec<String>)
    ensures
        strings_view(r@) == strings_view(v@),
{
    let mut out: Vec<String> = Vec::new();
    let mut i: usize = 0;
    while i < v.len()
        invariant
            i <= v@.len(),
            strings_view(out@) == strings_view(v@).take(i as int),
        decreases v@.len() - i,
    {
        let ghost before = out@;
        out.push(owned(v[i].as_str()));
        assert(strings_view(out@) =~= strings_view(before).push(v@[i as int]@));
        assert(strings_view(v@).take(i + 1) =~= strings_view(v@).take(i as int).push(v@[i as int]@));
        i = i + 1;
    }
    assert(strings_view(v@).take(v@.len() as int) =~= strings_view(v@));
    out
}

fn escape_with(s: &str, label: bool) -> (r: String)
    ensures
        label ==> r@ == label_escaped(s@),
        !label ==> r@ == name_cleaned(s@),
{
    let n = s.unicode_len();
    let mut out = String::new();
    let mut i: usize = 0;
    assert(s@.take(0) =~= Seq::<char>::empty());
    while i < n
        invariant
            n == s@.len(),
            i <= n,
            label ==> out@ == label_escaped(s@.take(i as int)),
            !label ==> out@ == name_cleaned(s@.take(i as int)),
        decreases n - i,
    {
        let c = s.get_char(i);
        let ghost t = s@.take(i + 1);
        assert(t.drop_last() =~= s@.take(i as int));
        assert(t.last() == c);
        if label && c == '"' {
            out.append("\\\"");
        } else if !label && (c == '\\' || c == '"') {
            assert(out@ + Seq::<char>::empty() =~= out@);
        } else {
            let one = s.substring_char(i, i + 1);
            assert(one@ =~= seq![c]);
            out.append(one);
        }
        i = i + 1;
    }
    assert(s@.take(n as int) =~= s@);
    out
}

fn plan_casks(items: &[String], item_names: &[String]) -> (plan: ItemsPlan)
    requires
        items@.len() > 0,
    ensures
        items_plan_ok("brew_casks"@, strings_view(items@), strings_view(item_names@), plan),
{
    let ghost iv = strings_view(items@);
    let ghost nv = strings_view(item_names@);
    let mut pairs: Vec<(String, String)> = Vec::new();
    let mut calls = String::new();
    let mut i: usize = 0;
    assert(iv.take(0) =~= Seq::<Seq<char>>::empty());
    assert(pairs_view(pairs@) =~= Seq::<(Seq<char>, Seq<char>)>::empty());
    while i < items.len()
        invariant
            i <= items@.len(),
            iv == strings_view(items@),
            nv == strings_view(item_names@),
            pairs_view(pairs@) == cask_pairs(iv.take(i as int), nv),
            calls@ == cask_calls(firsts(pairs_view(pairs@))),
        decreases items@.len() - i,
    {
        let ghost t = iv.take(i + 1);
        assert(t.drop_last() =~= iv.take(i as int));
        assert(t[i as int] == iv[i as int]);
        let token = items[i].as_str();
        if is_valid_cask_token(token) {
            let name = if i < item_names.len() {
                owned(item_names[i].as_str())
            } else {
                owned(token)
            };
            assert(name@ == display_name(t, nv, i as int));
            let ghost before = pairs_view(pairs@);
            pairs.push((owned(token), name));
            assert(pairs_view(pairs@) =~= before.push((token@, name@)));
            assert(firsts(pairs_view(pairs@)).drop_last() =~= firsts(before));
            calls.append("echo '");
            calls.append(CASK_START);
            calls.append(token);
            calls.append("'\nbrew_upgrade_cask '");
            calls.append(token);
            calls.append("'\necho '");
            calls.append(CASK_END);
            calls.append(token);
            calls.append("'\n");
            assert(calls@ =~= cask_calls(firsts(pairs_view(pairs@))));
        }
        i = i + 1;
    }
    assert(iv.take(items@.len() as int) =~= iv);
    if pairs.len() == 0 {
        return ItemsPlan::NothingSelected;
    }
    let mut names: Vec<String> = Vec::new();
    let mut j: usize = 0;
    while j < pairs.len()
        invariant
            j <= pairs@.len(),
            strings_view(names@) == seconds(pairs_view(pairs@)).take(j as int),
        decreases pairs@.len() - j,
    {
        let ghost before = names@;
        names.push(owned(pairs[j].1.as_str()));
        assert(strings_view(names@) =~= strings_view(before).push(pairs@[j as int].1@));
        assert(seconds(pairs_view(pairs@)).take(j + 1) =~= seconds(pairs_view(pairs@)).take(
            j as int,
        ).push(pairs@[j as int].1@));
        j = j + 1;
    }
    assert(seconds(pairs_view(pairs@)).take(pairs@.len() as int) =~= seconds(pairs_view(pairs@)));
    assert(strings_view(names@) == names@.map_values(|n: String| n@));
    let mut script = owned(BREW_PATH_LINE);
    script.append(ASKPASS_EXPORT);
    script.append(askpass_scope(names.as_slice()).as_str());
    script.append(QUOTE_NEWLINE);
    script.append(cask_fns().as_str());
    script.append(NEWLINE);
    script.append(calls.as_str());
    script.append(NO_BREW_TAIL);
    assert(script@ =~= casks_script(pairs_view(pairs@)));
    ItemsPlan::Casks { script, pairs }
}

fn plan_macos(items: &[String], item_names: &[String]) -> (plan: ItemsPlan)
    ensures
        plan matches ItemsPlan::Batch { script, names: shown } && script@ == macos_script(
            strings_view(items@),
            strings_view(item_names@),
        ) && strings_view(shown@) == shown_names(strings_view(items@), strings_view(item_names@)),
{
    let ghost iv = strings_view(items@);
    let mut quoted: Vec<String> = Vec::new();
    let mut i: usize = 0;
    while i < items.len()
        invariant
            i <= items@.len(),
            iv == strings_view(items@),
            strings_view(quoted@) == iv.take(i as int).map_values(|l: Seq<char>| quoted_label(l)),
        decreases items@.len() - i,
    {
        let mut q = owned("\\\"");
        q.append(escape_with(items[i].as_str(), true).as_str());
        q.append("\\\"");
        let ghost before = quoted@;
        let ghost qv = q@;
        quoted.push(q);
        assert(strings_view(quoted@) =~= strings_view(before).push(qv));
        assert(iv.take(i + 1).map_values(|l: Seq<char>| quoted_label(l)) =~= iv.take(
            i as int,
        ).map_values(|l: Seq<char>| quoted_label(l)).push(quoted_label(iv[i as int])));
        i = i + 1;
    }
    assert(iv.take(items@.len() as int) =~= iv);
    let shown = if item_names.len() == 0 {
        clone_strings(items)
    } else {
        clone_strings(item_names)
    };
    let ghost sv = strings_view(shown@);
    let mut cleaned: Vec<String> = Vec::new();
    let mut j: usize = 0;
    while j < shown.len()
        invariant
            j <= shown@.len(),
            sv == strings_view(shown@),
            strings_view(cleaned@) == sv.take(j as int).map_values(|n: Seq<char>| name_cleaned(n)),
        decreases shown@.len() - j,
    {
        let ghost before = cleaned@;
        let c = escape_with(shown[j].as_str(), false);
        let ghost cv = c@;
        cleaned.push(c);
        assert(strings_view(cleaned@) =~= strings_view(before).push(cv));
        assert(sv.take(j + 1).map_values(|n: Seq<char>| name_cleaned(n)) =~= sv.take(
            j as int,
        ).map_values(|n: Seq<char>| name_cleaned(n)).push(name_cleaned(sv[j as int])));
        j = j + 1;
    }
    assert(sv.take(shown@.len() as int) =~= sv);
    let list = join(cleaned.as_slice(), ", ");
    let labels = join(quoted.as_slice(), " ");
    let mut script = macos_heads_up(list.as_str());
    script.append(NEWLINE);
    script.append(MACOS_INSTALLING_NOTE);
    script.append(INSTALL_LABELS_HEAD);
    script.append(labels.as_str());
    script.append(INSTALL_LABELS_TAIL);
    assert(script@ =~= macos_script(iv, strings_view(item_names@)));
    ItemsPlan::Batch { script, names: shown }
}

/// The plan for upgrading the selected `items` of `section`, with
/// `item_names` their display names (possibly fewer, or none).
pub fn plan_upgrade_items(section: &str, items: &[String], item_names: &[String]) -> (plan: ItemsPlan)
    ensures
        items_plan_ok(section@, strings_view(items@), strings_view(item_names@), plan),
{
    if items.len() == 0 {
        return ItemsPlan::NothingSelected;
    }
    if str_eq(section, "brew_casks") {
        plan_casks(items, item_names)
    } else if str_eq(section, "app_store") {
        let shown = if item_names.len() == 0 {
            clone_strings(items)
        } else {
            clone_strings(item_names)
        };
        let list = join(shown.as_slice(), ", ");
        let mut script = owned(STORE_OPEN_FOR);
        script.append(list.as_str());
        script.append(STORE_OPEN_TAIL);
        ItemsPlan::Batch { script, names: shown }
    } else if str_eq(section, "macos_updates") {
        plan_macos(items, item_names)
    } else {
        ItemsPlan::Unsupported
    }
}


// ---------------------------------------------------------------------------
// Splitting a batch's output per cask
// ---------------------------------------------------------------------------

/// A cask's token and the output lines of its upgrade.
pub type Group = (Seq<char>, Seq<Seq<char>>);

pub open spec fn flushed(cur: Option<Group>) -> Seq<Group> {
    match cur {
        Some(g) => seq![g],
        None => Seq::empty(),
    }
}

/// The per-cask groups of a batch's output, `cur` being the group being
/// read: a start sentinel opens a group for the token after it, an end
/// sentinel closes the current one, and other lines belong to the open group
/// (or to none, outside every group).
pub open spec fn groups_from(lines: Seq<Seq<char>>, cur: Option<Group>) -> Seq<Group>
    decreases lines.len(),
{
    if lines.len() == 0 {
        flushed(cur)
    } else {
        let l = lines[0];
        let rest = lines.drop_first();
        if begins_with(l, CASK_START@) {
            flushed(cur) + groups_from(rest, Some((l.skip(CASK_START@.len() as int), Seq::empty())))
        } else if begins_with(l, CASK_END@) {
            flushed(cur) + groups_from(rest, None)
        } else {
            match cur {
                Some(g) => groups_from(rest, Some((g.0, g.1.push(l)))),
                None => groups_from(rest, None),
            }
        }
    }
}

pub open spec fn cask_groups(lines: Seq<Seq<char>>) -> Seq<Group> {
    groups_from(lines, None)
}

pub open spec fn group_view(g: (String, Vec<String>)) -> Group {
    (g.0@, strings_view(g.1@))
}

pub open spec fn groups_view(v: Seq<(String, Vec<String>)>) -> Seq<Group> {
    v.map_values(|g: (String, Vec<String>)| group_view(g))
}

pub open spec fn cur_view(cur: Option<(String, Vec<String>)>) -> Option<Group> {
    match cur {
        Some(g) => Some(group_view(g)),
        None => None,
    }
}

proof fn lemma_groups_push(out: Seq<(String, Vec<String>)>, g: (String, Vec<String>))
    ensures
        groups_view(out.push(g)) == groups_view(out).push(group_view(g)),
{
    assert(groups_view(out.push(g)) =~= groups_view(out).push(group_view(g)));
}

/// The output of a batch of cask upgrades split into one group per cask, on
/// the sentinels around each.
pub fn split_cask_groups(lines: &[String]) -> (groups: Vec<(String, Vec<String>)>)
    ensures
        groups_view(groups@) == cask_groups(strings_view(lines@)),
{
    let ghost lv = strings_view(lines@);
    let mut out: Vec<(String, Vec<String>)> = Vec::new();
    let mut cur: Option<(String, Vec<String>)> = None;
    let n = lines.len();
    let mut i: usize = 0;
    let start_len = CASK_START.unicode_len();
    assert(lv.skip(0) =~= lv);
    assert(groups_view(out@) =~= Seq::<Group>::empty());
    while i < n
        invariant
            n == lines@.len(),
            lv == strings_view(lines@),
            start_len == CASK_START@.len(),
            i <= n,
            groups_view(out@) + groups_from(lv.skip(i as int), cur_view(cur)) == cask_groups(lv),
        decreases n - i,
    {
        let ghost rest = lv.skip(i as int);
        assert(rest[0] == lines@[i as int]@);
        assert(rest.drop_first() =~= lv.skip(i + 1));
        let line = lines[i].as_str();
        let ghost before = groups_view(out@);
        let ghost cv = cur_view(cur);
        if starts_with_str(line, CASK_START) {
            match cur {
                Some(g) => {
                    proof {
                        lemma_groups_push(out@, g);
                    }
                    out.push(g);
                },
                None => {},
            }
            let token = substring(line, start_len, line.unicode_len());
            assert(token@ =~= line@.skip(start_len as int));
            let empty: Vec<String> = Vec::new();
            assert(strings_view(empty@) =~= Seq::<Seq<char>>::empty());
            cur = Some((token, empty));
            proof {
                assert(cur_view(cur) == Some((line@.skip(CASK_START@.len() as int), Seq::<Seq<char>>::empty())));
                assert(groups_view(out@) =~= before + flushed(cv));
            }
        } else if starts_with_str(line, CASK_END) {
            match cur {
                Some(g) => {
                    proof {
                        lemma_groups_push(out@, g);
                    }
                    out.push(g);
                },
                None => {},
            }
            cur = None;
            assert(groups_view(out@) =~= before + flushed(cv));
        } else {
            cur = match cur {
                Some((t, mut body)) => {
                    let ghost bv = body@;
                    body.push(owned(line));
                    assert(strings_view(body@) =~= strings_view(bv).push(line@));
                    Some((t, body))
                },
                None => None,
            };
        }
        i = i + 1;
    }
    assert(lv.skip(n as int) =~= Seq::<Seq<char>>::empty());
    match cur {
        Some(g) => {
            proof {
                lemma_groups_push(out@, g);
            }
            out.push(g);
        },
        None => {
            assert(groups_view(out@) + Seq::<Group>::empty() =~= groups_view(out@));
        },
    }
    proof {
        assert(groups_view(out@) =~= cask_groups(lv));
    }
    out
}

/// How many start sentinels the output holds.
pub open spec fn count_starts(lines: Seq<Seq<char>>) -> nat
    decreases lines.len(),
{
    if lines.len() == 0 {
        0
    } else {
        (if begins_with(lines[0], CASK_START@) { 1nat } else { 0nat }) + count_starts(lines.drop_first())
    }
}

pub open spec fn is_marker_free(g: Group) -> bool {
    forall|k: int|
        0 <= k < g.1.len() ==> !begins_with(#[trigger] g.1[k], CASK_START@) && !begins_with(
            g.1[k],
            CASK_END@,
        )
}

proof fn lemma_groups_from(lines: Seq<Seq<char>>, cur: Option<Group>)
    requires
        cur matches Some(g) ==> is_marker_free(g),
    ensures
        groups_from(lines, cur).len() == count_starts(lines) + (if cur is Some { 1nat } else { 0nat }),
        forall|k: int| 0 <= k < groups_from(lines, cur).len() ==> is_marker_free(
            #[trigger] groups_from(lines, cur)[k],
        ),
    decreases lines.len(),
{
    if lines.len() > 0 {
        let l = lines[0];
        let rest = lines.drop_first();
        if begins_with(l, CASK_START@) {
            let next: Option<Group> = Some((l.skip(CASK_START@.len() as int), Seq::empty()));
            lemma_groups_from(rest, next);
            let a = flushed(cur);
            let b = groups_from(rest, next);
            assert forall|k: int| 0 <= k < (a + b).len() implies is_marker_free(#[trigger] (a + b)[k]) by {
                if k >= a.len() {
                    assert((a + b)[k] == b[k - a.len()]);
                }
            }
        } else if begins_with(l, CASK_END@) {
            lemma_groups_from(rest, None);
            let a = flushed(cur);
            let b = groups_from(rest, None);
            assert forall|k: int| 0 <= k < (a + b).len() implies is_marker_free(#[trigger] (a + b)[k]) by {
                if k >= a.len() {
                    assert((a + b)[k] == b[k - a.len()]);
                }
            }
        } else {
            match cur {
                Some(g) => {
                    let ng: Group = (g.0, g.1.push(l));
                    assert forall|k: int| 0 <= k < ng.1.len() implies !begins_with(#[trigger] ng.1[k], CASK_START@)
                        && !begins_with(ng.1[k], CASK_END@) by {
                        if k < g.1.len() {
                            assert(ng.1[k] == g.1[k]);
                        }
                    }
                    lemma_groups_from(rest, Some(ng));
                },
                None => {
                    lemma_groups_from(rest, None);
                },
            }
        }
    }
}

/// Every cask the batch started gets exactly one group, and no sentinel ever
/// lands in a group's lines.
pub proof fn law_one_group_per_started_cask(lines: Seq<Seq<char>>)
    ensures
        cask_groups(lines).len() == count_starts(lines),
        forall|k: int| 0 <= k < cask_groups(lines).len() ==> is_marker_free(
            #[trigger] cask_groups(lines)[k],
        ),
{
    lemma_groups_from(lines, None);
}

/// The display name recorded for a cask: that of the first selected pair
/// with its token, or the token itself.
pub open spec fn name_for(pairs: Seq<(Seq<char>, Seq<char>)>, token: Seq<char>) -> Seq<char>
    decreases pairs.len(),
{
    if pairs.len() == 0 {
        token
    } else if pairs[0].0 == token {
        pairs[0].1
    } else {
        name_for(pairs.drop_first(), token)
    }
}

fn lookup_name(pairs: &[(String, String)], token: &str) -> (r: String)
    ensures
        r@ == name_for(pairs_view(pairs@), token@),
{
    let ghost pv = pairs_view(pairs@);
    let mut i: usize = 0;
    assert(pv.skip(0) =~= pv);
    while i < pairs.len()
        invariant
            i <= pairs@.len(),
            pv == pairs_view(pairs@),
            name_for(pv, token@) == name_for(pv.skip(i as int), token@),
        decreases pairs@.len() - i,
    {
        let ghost rest = pv.skip(i as int);
        assert(rest[0] == pv[i as int]);
        assert(rest.drop_first() =~= pv.skip(i + 1));
        if str_eq(pairs[i].0.as_str(), token) {
            return owned(pairs[i].1.as_str());
        }
        i = i + 1;
    }
    owned(token)
}

/// The history entries of a batch of cask upgrades: one per group, recording
/// the cask's token, display name and output lines.
pub fn cask_entries(groups: Vec<(String, Vec<String>)>, pairs: &[(String, String)], ts: u64) -> (entries: Vec<HistoryEntry>)
    ensures
        entries@.len() == groups@.len(),
        forall|k: int|
            0 <= k < entries@.len() ==> {
                let e = #[trigger] entries@[k];
                &&& e.ts == ts
                &&& e.section@ == "brew_casks"@
                &&& e.label@ == label_of("brew_casks"@)
                &&& strings_view(e.items@) == seq![groups@[k].0@]
                &&& strings_view(e.item_names@) == seq![name_for(pairs_view(pairs@), groups@[k].0@)]
                &&& e.lines == groups@[k].1
            },
{
    let ghost gs = groups@;
    let mut entries: Vec<HistoryEntry> = Vec::new();
    let mut groups = groups;
    let mut k: usize = 0;
    let n = groups.len();
    assert(gs.skip(0) =~= gs);
    while k < n
        invariant
            n == gs.len(),
            k <= n,
            groups@ == gs.skip(k as int),
            entries@.len() == k,
            forall|j: int|
                0 <= j < k ==> {
                    let e = #[trigger] entries@[j];
                    &&& e.ts == ts
                    &&& e.section@ == "brew_casks"@
                    &&& e.label@ == label_of("brew_casks"@)
                    &&& strings_view(e.items@) == seq![gs[j].0@]
                    &&& strings_view(e.item_names@) == seq![name_for(pairs_view(pairs@), gs[j].0@)]
                    &&& e.lines == gs[j].1
                },
        decreases n - k,
    {
        let ghost before = groups@;
        let (token, body) = groups.remove(0);
        assert(before[0] == gs[k as int]);
        assert(groups@ =~= gs.skip(k + 1));
        let name = lookup_name(pairs, token.as_str());
        let mut items: Vec<String> = Vec::new();
        items.push(owned(token.as_str()));
        let mut names: Vec<String> = Vec::new();
        names.push(name);
        assert(strings_view(items@) =~= seq![gs[k as int].0@]);
        assert(strings_view(names@) =~= seq![name_for(pairs_view(pairs@), gs[k as int].0@)]);
        let e = history_entry(ts, "brew_casks", items, names, body);
        entries.push(e);
        k = k + 1;
    }
    entries
}

// ---------------------------------------------------------------------------
// Adopting untracked apps into Homebrew
// ---------------------------------------------------------------------------

/// One app to adopt: its cask token, display name, and the folder it lives
/// in when not /Applications.
pub struct TrackItem {
    pub token: String,
    pub name: String,
    pub appdir: Option<String>,
}

pub open spec fn appdir_view(d: Option<String>) -> Option<Seq<char>> {
    match d {
        Some(s) => Some(s@),
        None => None,
    }
}

/// `adopt_cask`'s first argument: "user" installs into ~/Applications, and
/// only that exact folder is accepted.
pub open spec fn userdir_flag(appdir: Option<Seq<char>>) -> Seq<char> {
    if appdir == Some("~/Applications"@) {
        "user"@
    } else {
        Seq::empty()
    }
}

fn userdir_arg(appdir: &Option<String>) -> (r: &'static str)
    ensures
        r@ == userdir_flag(appdir_view(*appdir)),
{
    let user = "user";
    let none = "";
    proof {
        reveal_strlit("");
    }
    match appdir {
        Some(d) => {
            if str_eq(d.as_str(), "~/Applications") {
                user
            } else {
                assert(none@ =~= Seq::<char>::empty());
                none
            }
        },
        None => {
            assert(none@ =~= Seq::<char>::empty());
            none
        },
    }
}

pub const ADOPT_CALL: &'static str = "adopt_cask '";

pub const ARG_SEP: &'static str = "' '";

pub const ADOPT_ONE_TAIL: &'static str = "'\necho '\u{2192}  Run a check to see this app move to Homebrew Apps.'\n";

pub const ADOPT_ALL_TAIL: &'static str = "echo '\u{2192}  All set! Run a check to move these apps to Homebrew Apps.'\n";

/// The script that adopts one app.
pub open spec fn adopt_one_text(token: Seq<char>, appdir: Option<Seq<char>>) -> Seq<char> {
    BREW_PATH_LINE@ + PROTECTED_BUNDLE_FN@ + NEWLINE@ + ADOPT_CASK_FN@ + NEWLINE@ + ADOPT_CALL@
        + userdir_flag(appdir) + ARG_SEP@ + token + ADOPT_ONE_TAIL@ + NO_BREW_TAIL@
}

/// The script that adopts the app with cask `token`, or `None` when the
/// token is not acceptable ("Invalid cask token.").
pub fn adopt_script(token: &str, appdir: &Option<String>) -> (r: Option<String>)
    ensures
        r is None <==> !valid_token(token@),
        r matches Some(s) ==> s@ == adopt_one_text(token@, appdir_view(*appdir)),
{
    if !is_valid_cask_token(token) {
        return None;
    }
    let mut out = owned(BREW_PATH_LINE);
    out.append(PROTECTED_BUNDLE_FN);
    out.append(NEWLINE);
    out.append(ADOPT_CASK_FN);
    out.append(NEWLINE);
    out.append(ADOPT_CALL);
    out.append(userdir_arg(appdir));
    out.append(ARG_SEP);
    out.append(token);
    out.append(ADOPT_ONE_TAIL);
    out.append(NO_BREW_TAIL);
    Some(out)
}

pub open spec fn track_view(t: TrackItem) -> (Seq<char>, Seq<char>, Option<Seq<char>>) {
    (t.token@, t.name@, appdir_view(t.appdir))
}

/// The apps of a batch that are adopted: those with an acceptable token.
pub open spec fn kept_tracks(items: Seq<(Seq<char>, Seq<char>, Option<Seq<char>>)>) -> Seq<(Seq<char>, Seq<char>, Option<Seq<char>>)>
    decreases items.len(),
{
    if items.len() == 0 {
        Seq::empty()
    } else {
        let prev = kept_tracks(items.drop_last());
        if valid_token(items.last().0) {
            prev.push(items.last())
        } else {
            prev
        }
    }
}

pub open spec fn adopt_calls(kept: Seq<(Seq<char>, Seq<char>, Option<Seq<char>>)>) -> Seq<char>
    decreases kept.len(),
{
    if kept.len() == 0 {
        Seq::empty()
    } else {
        adopt_calls(kept.drop_last()) + ADOPT_CALL@ + userdir_flag(kept.last().2) + ARG_SEP@
            + kept.last().0 + QUOTE_NEWLINE@
    }
}

/// The script that adopts a batch of apps in one shell, under one password.
pub open spec fn adopt_all_text(kept: Seq<(Seq<char>, Seq<char>, Option<Seq<char>>)>) -> Seq<char> {
    BREW_PATH_LINE@ + ASKPASS_EXPORT@ + scope_escaped(
        scope_raw(kept.map_values(|t: (Seq<char>, Seq<char>, Option<Seq<char>>)| t.1)),
    ) + QUOTE_NEWLINE@ + PROTECTED_BUNDLE_FN@ + NEWLINE@ + ADOPT_CASK_FN@ + NEWLINE@
        + adopt_calls(kept) + ADOPT_ALL_TAIL@ + NO_BREW_TAIL@
}

/// A batch adoption: the script, and the tokens and names it is recorded
/// under.
pub struct TrackPlan {
    pub script: String,
    pub tokens: Vec<String>,
    pub names: Vec<String>,
}

/// The plan for adopting `items`, or `None` when none has an acceptable token
/// ("No apps to enable.").
pub fn plan_track_apps(items: &[TrackItem]) -> (r: Option<TrackPlan>)
    ensures
        ({
            let kept = kept_tracks(items@.map_values(|t: TrackItem| track_view(t)));
            &&& r is None <==> kept.len() == 0
            &&& r matches Some(p) ==> {
                &&& p.script@ == adopt_all_text(kept)
                &&& strings_view(p.tokens@) == kept.map_values(
                    |t: (Seq<char>, Seq<char>, Option<Seq<char>>)| t.0,
                )
                &&& strings_view(p.names@) == kept.map_values(
                    |t: (Seq<char>, Seq<char>, Option<Seq<char>>)| t.1,
                )
            }
        }),
{
    let ghost iv = items@.map_values(|t: TrackItem| track_view(t));
    let mut calls = String::new();
    let mut tokens: Vec<String> = Vec::new();
    let mut names: Vec<String> = Vec::new();
    let mut i: usize = 0;
    assert(iv.take(0) =~= Seq::<(Seq<char>, Seq<char>, Option<Seq<char>>)>::empty());
    assert(strings_view(tokens@) =~= Seq::<Seq<char>>::empty());
    assert(strings_view(names@) =~= Seq::<Seq<char>>::empty());
    while i < items.len()
        invariant
            i <= items@.len(),
            iv == items@.map_values(|t: TrackItem| track_view(t)),
            calls@ == adopt_calls(kept_tracks(iv.take(i as int))),
            strings_view(tokens@) == kept_tracks(iv.take(i as int)).map_values(
                |t: (Seq<char>, Seq<char>, Option<Seq<char>>)| t.0,
            ),
            strings_view(names@) == kept_tracks(iv.take(i as int)).map_values(
                |t: (Seq<char>, Seq<char>, Option<Seq<char>>)| t.1,
            ),
        decreases items@.len() - i,
    {
        let ghost t = iv.take(i + 1);
        assert(t.drop_last() =~= iv.take(i as int));
        assert(t.last() == track_view(items@[i as int]));
        let it = &items[i];
        if is_valid_cask_token(it.token.as_str()) {
            let ghost prev = kept_tracks(iv.take(i as int));
            let ghost tv = tokens@;
            let ghost nv = names@;
            calls.append(ADOPT_CALL);
            calls.append(userdir_arg(&it.appdir));
            calls.append(ARG_SEP);
            calls.append(it.token.as_str());
            calls.append(QUOTE_NEWLINE);
            tokens.push(owned(it.token.as_str()));
            names.push(owned(it.name.as_str()));
            proof {
                let kept = prev.push(track_view(items@[i as int]));
                assert(kept.drop_last() =~= prev);
                assert(strings_view(tokens@) =~= strings_view(tv).push(it.token@));
                assert(strings_view(names@) =~= strings_view(nv).push(it.name@));
                assert(kept.map_values(|t: (Seq<char>, Seq<char>, Option<Seq<char>>)| t.0) =~= prev.map_values(
                    |t: (Seq<char>, Seq<char>, Option<Seq<char>>)| t.0,
                ).push(it.token@));
                assert(kept.map_values(|t: (Seq<char>, Seq<char>, Option<Seq<char>>)| t.1) =~= prev.map_values(
                    |t: (Seq<char>, Seq<char>, Option<Seq<char>>)| t.1,
                ).push(it.name@));
            }
        }
        i = i + 1;
    }
    assert(iv.take(items@.len() as int) =~= iv);
    if tokens.len() == 0 {
        return None;
    }
    assert(strings_view(names@) == names@.map_values(|n: String| n@));
    let mut script = owned(BREW_PATH_LINE);
    script.append(ASKPASS_EXPORT);
    script.append(askpass_scope(names.as_slice()).as_str());
    script.append(QUOTE_NEWLINE);
    script.append(PROTECTED_BUNDLE_FN);
    script.append(NEWLINE);
    script.append(ADOPT_CASK_FN);
    script.append(NEWLINE);
    script.append(calls.as_str());
    script.append(ADOPT_ALL_TAIL);
    script.append(NO_BREW_TAIL);
    Some(TrackPlan { script, tokens, names })
}

} // verus!
