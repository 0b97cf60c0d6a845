//! Reading what an update check printed: the items it lists and how many
//! updates it reports.
//!
//! Four sections list their updates one per line (Homebrew apps, App Store
//! apps, macOS updates, untracked apps); the others print a summary line such
//! as `⚠  7 outdated formula(e):`, whose number is the count.

use vstd::prelude::*;
use vstd::string::*;
use crate::section_map::SectionMap;
use crate::text::{
    all_digits, contains_char, contains_str, decimal_value, digit_run, ends_with_char,
    ends_with_str, find_first, find_from, find_str, finishes_with, first_word_len, has_sub,
    decimal_of, digit_prefix_len, is_all_digits, join_words, lemma_digit_run_bound, joined_words, last_index_of, lemma_word_len_bound, matches_at,
    owned, rfind_char, starts_with_char, str_eq, substring, trim, trim_end, trimmed, trimmed_end,
    word_len, is_ws, lossy_text, split_lines, strings_view, text_lines, utf8_lossy,
};

verus! {

/// The arrow that opens a hint line (`→  To upgrade all: …`).
pub open spec fn arrow() -> char {
    '\u{2192}'
}

/// The warning sign that opens a line reporting something outstanding.
pub open spec fn warn_sign() -> char {
    '\u{26a0}'
}

/// One pending update, or one untracked app, as a section lists it.
#[derive(Clone, Debug, PartialEq)]
pub struct CheckItem {
    pub id: String,
    pub name: String,
    pub app_dir: Option<String>,
}

/// An item by its characters: id, name, and the folder it lives in if not
/// `/Applications`.
pub type ItemView = (Seq<char>, Seq<char>, Option<Seq<char>>);

impl View for CheckItem {
    type V = ItemView;

    open spec fn view(&self) -> ItemView {
        (self.id@, self.name@, match self.app_dir {
            Some(d) => Some(d@),
            None => None,
        })
    }
}

pub open spec fn lines_view(lines: Seq<String>) -> Seq<Seq<char>> {
    lines.map_values(|l: String| l@)
}

pub open spec fn items_view(items: Seq<CheckItem>) -> Seq<ItemView> {
    items.map_values(|it: CheckItem| it@)
}

/// A name with a trailing `( … )` removed, as `strip_trailing_parenthetical`
/// leaves it: trailing whitespace goes; if what remains ends in `)`, everything
/// from the last `(` on goes too and the rest is trimmed.
pub open spec fn stripped_paren(s: Seq<char>) -> Seq<char> {
    let t = trimmed_end(s);
    if t.len() > 0 && t.last() == ')' {
        match last_index_of(t, '(') {
            Some(o) => trimmed(t.take(o)),
            None => t,
        }
    } else {
        t
    }
}

/// The first word of a trimmed line.
pub open spec fn first_word(t: Seq<char>) -> Seq<char> {
    t.take(word_len(t) as int)
}

/// A Homebrew cask line (`alt-tab (6.46.1) != 11.4.4`), already trimmed: its
/// first word is both id and name.
pub open spec fn cask_item_of(t: Seq<char>) -> Option<ItemView> {
    if t.len() == 0 {
        None
    } else {
        Some((first_word(t), first_word(t), None))
    }
}

/// An App Store line (`497799835 Xcode (15.0 -> 15.1)`), already trimmed: a
/// numeric id, then a name with any trailing parenthetical removed (the id
/// again when nothing is left).
pub open spec fn store_item_of(t: Seq<char>) -> Option<ItemView> {
    let w = first_word(t);
    if t.len() == 0 || w.len() == 0 || !all_digits(w) {
        None
    } else {
        let name = stripped_paren(joined_words(t.skip(w.len() as int)));
        Some((w, if name.len() == 0 { w } else { name }, None))
    }
}

/// Items of a section that lists them in a block opened by `header` and
/// closed by a line starting with the arrow.
pub open spec fn block_items(lines: Seq<Seq<char>>, header: Seq<char>, in_block: bool, store: bool) -> Seq<ItemView>
    decreases lines.len(),
{
    if lines.len() == 0 {
        Seq::empty()
    } else {
        let l = lines[0];
        let rest = lines.drop_first();
        if has_sub(l, header) {
            block_items(rest, header, true, store)
        } else if !in_block {
            block_items(rest, header, false, store)
        } else {
            let t = trimmed(l);
            if t.len() > 0 && t[0] == arrow() {
                Seq::empty()
            } else {
                match (if store { store_item_of(t) } else { cask_item_of(t) }) {
                    Some(it) => seq![it] + block_items(rest, header, true, store),
                    None => block_items(rest, header, true, store),
                }
            }
        }
    }
}

/// A `softwareupdate` line: one with a `*` and a `Label:` names an update.
pub open spec fn macos_item_of(l: Seq<char>) -> Option<ItemView> {
    if !l.contains('*') {
        None
    } else {
        match find_first(l, "Label:"@) {
            Some(i) => {
                let label = trimmed(l.skip(i + 6));
                if label.len() == 0 {
                    None
                } else {
                    Some((label, label, None))
                }
            },
            None => None,
        }
    }
}

/// An untracked-apps line: `⚠  Name`, or `⚠  Name [~/Applications]` for an
/// app in the user's own Applications folder.
pub open spec fn untracked_item_of(l: Seq<char>) -> Option<ItemView> {
    let t = trimmed(l);
    if t.len() == 0 || t[0] != warn_sign() {
        None
    } else {
        let rest = trimmed(t.skip(1));
        let suffix = "[~/Applications]"@;
        let name = if finishes_with(rest, suffix) {
            trimmed(rest.take(rest.len() - suffix.len()))
        } else {
            rest
        };
        let dir = if finishes_with(rest, suffix) {
            Some("~/Applications"@)
        } else {
            None
        };
        if name.len() == 0 {
            None
        } else {
            Some((name, name, dir))
        }
    }
}

/// Items of a section that marks each one on a line of its own.
pub open spec fn line_items(lines: Seq<Seq<char>>, macos: bool) -> Seq<ItemView>
    decreases lines.len(),
{
    if lines.len() == 0 {
        Seq::empty()
    } else {
        let rest = line_items(lines.drop_first(), macos);
        match (if macos { macos_item_of(lines[0]) } else { untracked_item_of(lines[0]) }) {
            Some(it) => seq![it] + rest,
            None => rest,
        }
    }
}

/// The items a section's output lists; sections that report only a total
/// list none.
pub open spec fn section_items(section: Seq<char>, lines: Seq<Seq<char>>) -> Seq<ItemView> {
    if section == "brew_casks"@ {
        block_items(lines, "Outdated apps:"@, false, false)
    } else if section == "app_store"@ {
        block_items(lines, "Outdated App Store apps:"@, false, true)
    } else if section == "macos_updates"@ {
        line_items(lines, true)
    } else if section == "untracked_apps"@ {
        line_items(lines, false)
    } else {
        Seq::empty()
    }
}

/// The sections whose output is counted item by item.
pub open spec fn is_itemised(section: Seq<char>) -> bool {
    section == "brew_casks"@ || section == "app_store"@ || section == "macos_updates"@ || section
        == "untracked_apps"@
}

/// What one line of a summarising section adds to its count: a `⚠` line
/// counts the number it starts with, or one when it starts with none (or
/// with more digits than a `usize` holds); any other line counts nothing.
pub open spec fn summary_value(l: Seq<char>) -> nat {
    let t = trimmed(l);
    if t.len() == 0 || t[0] != warn_sign() {
        0
    } else {
        let rest = trimmed(t.skip(1));
        let digits = rest.take(digit_run(rest) as int);
        if digits.len() > 0 && decimal_value(digits) <= usize::MAX {
            decimal_value(digits)
        } else {
            1
        }
    }
}

pub open spec fn summary_total(lines: Seq<Seq<char>>) -> nat
    decreases lines.len(),
{
    if lines.len() == 0 {
        0
    } else {
        summary_value(lines[0]) + summary_total(lines.drop_first())
    }
}

/// How many updates a section's output reports.
pub open spec fn section_count(section: Seq<char>, lines: Seq<Seq<char>>) -> nat {
    if is_itemised(section) {
        section_items(section, lines).len()
    } else {
        summary_total(lines)
    }
}

// ---------------------------------------------------------------------------

/// `strip_trailing_parenthetical`: `"Xcode (15.0 -> 15.1)"` becomes `"Xcode"`.
pub fn strip_trailing_parenthetical(s: &str) -> (r: String)
    ensures
        r@ == stripped_paren(s@),
{
    let t = trim_end(s);
    if ends_with_char(t, ')') {
        match rfind_char(t, '(') {
            Some(o) => {
                let _n = t.unicode_len();
                let head = t.substring_char(0, o);
                assert(head@ =~= t@.take(o as int));
                return owned(trim(head));
            },
            None => {},
        }
    }
    owned(t)
}

fn cask_item(t: &str) -> (r: Option<CheckItem>)
    ensures
        match r {
            Some(it) => cask_item_of(t@) == Some(it@),
            None => cask_item_of(t@) is None,
        },
{
    let n = t.unicode_len();
    if n == 0 {
        return None;
    }
    let k = first_word_len(t);
    proof {
        lemma_word_len_bound(t@);
    }
    let w = substring(t, 0, k);
    assert(w@ =~= first_word(t@));
    Some(CheckItem { id: w.clone(), name: w, app_dir: None })
}

fn store_item(t: &str) -> (r: Option<CheckItem>)
    ensures
        match r {
            Some(it) => store_item_of(t@) == Some(it@),
            None => store_item_of(t@) is None,
        },
{
    let n = t.unicode_len();
    if n == 0 {
        return None;
    }
    let k = first_word_len(t);
    proof {
        lemma_word_len_bound(t@);
    }
    let w = t.substring_char(0, k);
    assert(w@ =~= first_word(t@));
    if k == 0 || !is_all_digits(w) {
        return None;
    }
    let tail = t.substring_char(k, n);
    assert(tail@ =~= t@.skip(k as int));
    let rest = join_words(tail);
    let name = strip_trailing_parenthetical(rest.as_str());
    let id = owned(w);
    if name.unicode_len() == 0 {
        Some(CheckItem { id: id.clone(), name: id, app_dir: None })
    } else {
        Some(CheckItem { id, name, app_dir: None })
    }
}

proof fn lemma_view_push(items: Seq<CheckItem>, it: CheckItem)
    ensures
        items_view(items.push(it)) == items_view(items).push(it@),
{
    assert(items_view(items.push(it)) =~= items_view(items).push(it@));
}

proof fn lemma_lines_step(lines: Seq<String>, i: int)
    requires
        0 <= i < lines.len(),
    ensures
        lines_view(lines).skip(i)[0] == lines[i]@,
        lines_view(lines).skip(i).drop_first() == lines_view(lines).skip(i + 1),
        lines_view(lines).skip(i).len() > 0,
{
    assert(lines_view(lines).skip(i).drop_first() =~= lines_view(lines).skip(i + 1));
}

fn block_items_of(lines: &[String], header: &str, store: bool) -> (items: Vec<CheckItem>)
    ensures
        items_view(items@) == block_items(lines_view(lines@), header@, false, store),
{
    let ghost lv = lines_view(lines@);
    let mut items: Vec<CheckItem> = Vec::new();
    let mut in_block = false;
    let mut i: usize = 0;
    let n = lines.len();
    assert(lv.skip(0) =~= lv);
    assert(items_view(items@) =~= Seq::<ItemView>::empty());
    while i < n
        invariant
            n == lines@.len(),
            lv == lines_view(lines@),
            i <= n,
            items_view(items@) + block_items(lv.skip(i as int), header@, in_block, store)
                == block_items(lv, header@, false, store),
        decreases n - i,
    {
        let line = lines[i].as_str();
        proof {
            lemma_lines_step(lines@, i as int);
        }
        let ghost rest = lv.skip(i + 1);
        if contains_str(line, header) {
            in_block = true;
        } else if in_block {
            let t = trim(line);
            if starts_with_char(t, '\u{2192}') {
                assert(block_items(lv.skip(i as int), header@, true, store) == Seq::<ItemView>::empty());
                assert(items_view(items@) + Seq::<ItemView>::empty() =~= items_view(items@));
                return items;
            }
            let found = if store {
                store_item(t)
            } else {
                cask_item(t)
            };
            match found {
                Some(it) => {
                    let ghost before = items_view(items@);
                    proof {
                        lemma_view_push(items@, it);
                    }
                    items.push(it);
                    proof {
                        assert(before.push(it@) + block_items(rest, header@, true, store) =~= before
                            + (seq![it@] + block_items(rest, header@, true, store)));
                    }
                },
                None => {},
            }
        }
        i = i + 1;
    }
    assert(lv.skip(n as int) =~= Seq::<Seq<char>>::empty());
    assert(items_view(items@) + Seq::<ItemView>::empty() =~= items_view(items@));
    items
}

fn macos_item(l: &str) -> (r: Option<CheckItem>)
    ensures
        match r {
            Some(it) => macos_item_of(l@) == Some(it@),
            None => macos_item_of(l@) is None,
        },
{
    if !contains_char(l, '*') {
        return None;
    }
    let key = "Label:";
    proof {
        reveal_strlit("Label:");
    }
    match find_str(l, key) {
        Some(idx) => {
            let n = l.unicode_len();
            let ghost at = find_first(l@, key@)->0;
            assert(matches_at(l@, key@, at)) by {
                lemma_find_from_matches(l@, key@, 0);
            }
            let tail = l.substring_char(idx + 6, n);
            assert(tail@ =~= l@.skip(idx + 6));
            let label = trim(tail);
            if label.unicode_len() == 0 {
                None
            } else {
                let s = owned(label);
                Some(CheckItem { id: s.clone(), name: s, app_dir: None })
            }
        },
        None => None,
    }
}

proof fn lemma_find_from_matches(s: Seq<char>, p: Seq<char>, i: int)
    ensures
        find_from(s, p, i) matches Some(k) ==> matches_at(s, p, k) && i <= k,
    decreases s.len() + 1 - i,
{
    if !(i < 0 || i + p.len() > s.len()) && !matches_at(s, p, i) {
        lemma_find_from_matches(s, p, i + 1);
    }
}

fn untracked_item(l: &str) -> (r: Option<CheckItem>)
    ensures
        match r {
            Some(it) => untracked_item_of(l@) == Some(it@),
            None => untracked_item_of(l@) is None,
        },
{
    let t = trim(l);
    if !starts_with_char(t, '\u{26a0}') {
        return None;
    }
    let tn = t.unicode_len();
    let after = t.substring_char(1, tn);
    assert(after@ =~= t@.skip(1));
    let rest = trim(after);
    let suffix = "[~/Applications]";
    let dir_text = "~/Applications";
    proof {
        reveal_strlit("[~/Applications]");
    }
    let (name, app_dir) = if ends_with_str(rest, suffix) {
        let rn = rest.unicode_len();
        let head = rest.substring_char(0, rn - suffix.unicode_len());
        assert(head@ =~= rest@.take(rest@.len() - suffix@.len()));
        (trim(head), Some(owned(dir_text)))
    } else {
        (rest, None)
    };
    if name.unicode_len() == 0 {
        None
    } else {
        let s = owned(name);
        Some(CheckItem { id: s.clone(), name: s, app_dir })
    }
}

fn line_items_of(lines: &[String], macos: bool) -> (items: Vec<CheckItem>)
    ensures
        items_view(items@) == line_items(lines_view(lines@), macos),
{
    let ghost lv = lines_view(lines@);
    let mut items: Vec<CheckItem> = Vec::new();
    let mut i: usize = 0;
    let n = lines.len();
    assert(lv.skip(0) =~= lv);
    assert(items_view(items@) =~= Seq::<ItemView>::empty());
    while i < n
        invariant
            n == lines@.len(),
            lv == lines_view(lines@),
            i <= n,
            items_view(items@) + line_items(lv.skip(i as int), macos) == line_items(lv, macos),
        decreases n - i,
    {
        let line = lines[i].as_str();
        proof {
            lemma_lines_step(lines@, i as int);
        }
        let ghost rest = lv.skip(i + 1);
        let found = if macos {
            macos_item(line)
        } else {
            untracked_item(line)
        };
        match found {
            Some(it) => {
                let ghost before = items_view(items@);
                proof {
                    lemma_view_push(items@, it);
                }
                items.push(it);
                proof {
                    assert(before.push(it@) + line_items(rest, macos) =~= before + (seq![it@]
                        + line_items(rest, macos)));
                }
            },
            None => {},
        }
        i = i + 1;
    }
    assert(lv.skip(n as int) =~= Seq::<Seq<char>>::empty());
    assert(items_view(items@) + Seq::<ItemView>::empty() =~= items_view(items@));
    items
}

/// The items a section's output lists, in the order it lists them.
pub fn parse_items(section: &str, lines: &[String]) -> (items: Vec<CheckItem>)
    ensures
        items_view(items@) == section_items(section@, lines_view(lines@)),
{
    if str_eq(section, "brew_casks") {
        block_items_of(lines, "Outdated apps:", false)
    } else if str_eq(section, "app_store") {
        block_items_of(lines, "Outdated App Store apps:", true)
    } else if str_eq(section, "macos_updates") {
        line_items_of(lines, true)
    } else if str_eq(section, "untracked_apps") {
        line_items_of(lines, false)
    } else {
        let items: Vec<CheckItem> = Vec::new();
        assert(items_view(items@) =~= Seq::<ItemView>::empty());
        items
    }
}


fn summary_line_value(l: &str) -> (v: usize)
    ensures
        v == summary_value(l@),
{
    let t = trim(l);
    if !starts_with_char(t, '\u{26a0}') {
        return 0;
    }
    let tn = t.unicode_len();
    let after = t.substring_char(1, tn);
    assert(after@ =~= t@.skip(1));
    let rest = trim(after);
    let k = digit_prefix_len(rest);
    proof {
        lemma_digit_run_bound(rest@);
    }
    if k == 0 {
        return 1;
    }
    let digits = rest.substring_char(0, k);
    assert(digits@ =~= rest@.take(k as int));
    match decimal_of(digits) {
        Some(v) => v,
        None => 1,
    }
}

/// The total a summarising section reports, or `None` when it exceeds what a
/// `usize` holds.
pub fn summary_count(lines: &[String]) -> (r: Option<usize>)
    ensures
        r matches Some(v) ==> v == summary_total(lines_view(lines@)),
        r is None <==> summary_total(lines_view(lines@)) > usize::MAX,
{
    let ghost lv = lines_view(lines@);
    let n = lines.len();
    let mut acc: usize = 0;
    let mut i: usize = 0;
    assert(lv.skip(0) =~= lv);
    while i < n
        invariant
            n == lines@.len(),
            lv == lines_view(lines@),
            i <= n,
            acc + summary_total(lv.skip(i as int)) == summary_total(lv),
        decreases n - i,
    {
        proof {
            lemma_lines_step(lines@, i as int);
        }
        let v = summary_line_value(lines[i].as_str());
        if v > usize::MAX - acc {
            return None;
        }
        acc = acc + v;
        i = i + 1;
    }
    assert(lv.skip(n as int) =~= Seq::<Seq<char>>::empty());
    Some(acc)
}

/// Whether a section's output is counted item by item.
pub fn itemised(section: &str) -> (r: bool)
    ensures
        r == is_itemised(section@),
{
    str_eq(section, "brew_casks") || str_eq(section, "app_store") || str_eq(section, "macos_updates")
        || str_eq(section, "untracked_apps")
}

/// How many updates a section's output reports: the itemised sections by
/// their items, the others by the numbers on their `⚠` lines.
pub fn count_for(section: &str, lines: &[String]) -> (n: usize)
    requires
        is_itemised(section@) || summary_total(lines_view(lines@)) <= usize::MAX,
    ensures
        n == section_count(section@, lines_view(lines@)),
{
    if itemised(section) {
        let items = parse_items(section, lines);
        assert(items_view(items@).len() == items@.len());
        items.len()
    } else {
        match summary_count(lines) {
            Some(v) => v,
            None => 0,
        }
    }
}

/// The sections the menu-bar badge always counts: app and system updates.
pub open spec fn is_badge_section(k: Seq<char>) -> bool {
    k == "macos_updates"@ || k == "app_store"@ || k == "brew_casks"@
}

/// Whether a section's count goes into the menu-bar total. Developer tooling
/// counts only when asked for; untracked apps never do.
pub open spec fn is_counted(k: Seq<char>, include_dev: bool) -> bool {
    is_badge_section(k) || (include_dev && k != "untracked_apps"@)
}

/// The sum of the counted sections' counts.
pub open spec fn counted_total(pairs: Seq<(Seq<char>, usize)>, include_dev: bool) -> nat
    decreases pairs.len(),
{
    if pairs.len() == 0 {
        0
    } else {
        counted_total(pairs.drop_last(), include_dev) + if is_counted(pairs.last().0, include_dev) {
            pairs.last().1 as nat
        } else {
            0
        }
    }
}

fn counted(k: &str, include_dev: bool) -> (r: bool)
    ensures
        r == is_counted(k@, include_dev),
{
    str_eq(k, "macos_updates") || str_eq(k, "app_store") || str_eq(k, "brew_casks") || (include_dev
        && !str_eq(k, "untracked_apps"))
}

/// The menu-bar total of a set of section counts, or `None` when it exceeds
/// what a `usize` holds.
pub fn checked_total_from_counts(counts: &SectionMap<usize>, include_dev: bool) -> (r: Option<usize>)
    ensures
        r matches Some(v) ==> v == counted_total(counts.pairs(), include_dev),
        r is None <==> counted_total(counts.pairs(), include_dev) > usize::MAX,
{
    let n = counts.len();
    let mut acc: usize = 0;
    let mut i: usize = 0;
    while i < n
        invariant
            n == counts.pairs().len(),
            i <= n,
            acc == counted_total(counts.pairs().take(i as int), include_dev),
        decreases n - i,
    {
        let (k, v) = counts.entry(i);
        let ghost p = counts.pairs().take(i + 1);
        assert(p.drop_last() =~= counts.pairs().take(i as int));
        if counted(k.as_str(), include_dev) {
            if *v > usize::MAX - acc {
                proof {
                    lemma_counted_total_prefix(counts.pairs(), i + 1, include_dev);
                }
                return None;
            }
            acc = acc + *v;
        }
        i = i + 1;
    }
    assert(counts.pairs().take(n as int) =~= counts.pairs());
    Some(acc)
}

/// What the menu-bar count reports: app and system updates, plus developer
/// tooling when `include_dev` is set, never untracked apps.
pub fn total_from_counts(counts: &SectionMap<usize>, include_dev: bool) -> (n: usize)
    requires
        counted_total(counts.pairs(), include_dev) <= usize::MAX,
    ensures
        n == counted_total(counts.pairs(), include_dev),
{
    match checked_total_from_counts(counts, include_dev) {
        Some(v) => v,
        None => 0,
    }
}

proof fn lemma_counted_total_prefix(pairs: Seq<(Seq<char>, usize)>, k: int, include_dev: bool)
    requires
        0 <= k <= pairs.len(),
    ensures
        counted_total(pairs.take(k), include_dev) <= counted_total(pairs, include_dev),
    decreases pairs.len() - k,
{
    if k < pairs.len() {
        assert(pairs.drop_last().take(k) =~= pairs.take(k));
        lemma_counted_total_prefix(pairs.drop_last(), k, include_dev);
    } else {
        assert(pairs.take(k) =~= pairs);
    }
}

/// Opting into developer tooling never lowers the total.
pub proof fn law_dev_updates_only_add(pairs: Seq<(Seq<char>, usize)>)
    ensures
        counted_total(pairs, false) <= counted_total(pairs, true),
    decreases pairs.len(),
{
    if pairs.len() > 0 {
        law_dev_updates_only_add(pairs.drop_last());
    }
}

/// An untracked-apps count never reaches the total, whatever it is.
pub proof fn law_untracked_apps_never_counted(
    pairs: Seq<(Seq<char>, usize)>,
    n: usize,
    include_dev: bool,
)
    ensures
        counted_total(pairs.push(("untracked_apps"@, n)), include_dev) == counted_total(
            pairs,
            include_dev,
        ),
{
    let p = pairs.push(("untracked_apps"@, n));
    assert(p.drop_last() =~= pairs);
    assert(!is_counted("untracked_apps"@, include_dev)) by {
        reveal_strlit("untracked_apps");
        reveal_strlit("macos_updates");
        reveal_strlit("app_store");
        reveal_strlit("brew_casks");
        assert("untracked_apps"@.len() == 14);
        assert("macos_updates"@.len() == 13);
        assert("app_store"@.len() == 9);
        assert("brew_casks"@.len() == 10);
    }
}

/// Without developer tooling the total is the sum over the app and system
/// sections alone.
pub proof fn law_badge_counts_apps_and_system(pairs: Seq<(Seq<char>, usize)>, k: Seq<char>, n: usize)
    requires
        !is_badge_section(k),
    ensures
        counted_total(pairs.push((k, n)), false) == counted_total(pairs, false),
{
    assert(pairs.push((k, n)).drop_last() =~= pairs);
}

/// With developer tooling opted in, every section but untracked apps counts:
/// adding any other section's count raises the total by exactly that count.
pub proof fn law_opting_in_counts_every_tracked_section(
    pairs: Seq<(Seq<char>, usize)>,
    k: Seq<char>,
    n: usize,
)
    requires
        k != "untracked_apps"@,
    ensures
        counted_total(pairs.push((k, n)), true) == counted_total(pairs, true) + n,
{
    assert(pairs.push((k, n)).drop_last() =~= pairs);
}

/// App and system updates always count, opted in or not.
pub proof fn law_app_and_system_updates_always_count(
    pairs: Seq<(Seq<char>, usize)>,
    k: Seq<char>,
    n: usize,
    include_dev: bool,
)
    requires
        k == "macos_updates"@ || k == "app_store"@ || k == "brew_casks"@,
    ensures
        counted_total(pairs.push((k, n)), include_dev) == counted_total(pairs, include_dev) + n,
{
    assert(pairs.push((k, n)).drop_last() =~= pairs);
}

/// Whether a listed item is named by its token: the name is the id, a
/// single word without whitespace, and no folder is given.
pub open spec fn named_by_token(it: ItemView) -> bool {
    &&& it.1 == it.0
    &&& it.2 is None
    &&& forall|j: int| 0 <= j < it.0.len() ==> !is_ws(#[trigger] it.0[j])
}

proof fn lemma_cask_block_named_by_token(lines: Seq<Seq<char>>, header: Seq<char>, in_block: bool)
    ensures
        forall|i: int| 0 <= i < block_items(lines, header, in_block, false).len()
            ==> named_by_token(#[trigger] block_items(lines, header, in_block, false)[i]),
    decreases lines.len(),
{
    if lines.len() > 0 {
        let rest = lines.drop_first();
        lemma_cask_block_named_by_token(rest, header, true);
        lemma_cask_block_named_by_token(rest, header, false);
        let t = trimmed(lines[0]);
        let b = block_items(lines, header, in_block, false);
        let tail = block_items(rest, header, true, false);
        if has_sub(lines[0], header) {
            assert(b == tail);
        } else if !in_block {
            assert(b == block_items(rest, header, false, false));
        } else if t.len() > 0 && t[0] == arrow() {
            assert(b.len() == 0);
        } else if t.len() == 0 {
            assert(b == tail);
        } else {
            lemma_word_len_bound(t);
            let w = first_word(t);
            assert forall|j: int| 0 <= j < w.len() implies !is_ws(#[trigger] w[j]) by {
                assert(w[j] == t[j]);
            }
            assert(b == seq![(w, w, None::<Seq<char>>)] + tail);
            assert forall|i: int| 0 <= i < b.len() implies named_by_token(#[trigger] b[i]) by {
                if i > 0 {
                    assert(b[i] == tail[i - 1]);
                }
            }
        }
    }
}

/// Every Homebrew app a check lists is named by its cask token: its name is
/// its id, a single word with no whitespace (so nothing after the token,
/// such as the versions, ends up in it), and it carries no folder.
pub proof fn law_cask_items_are_named_by_their_token(lines: Seq<Seq<char>>)
    ensures
        forall|i: int| 0 <= i < section_items("brew_casks"@, lines).len()
            ==> named_by_token(#[trigger] section_items("brew_casks"@, lines)[i]),
{
    lemma_cask_block_named_by_token(lines, "Outdated apps:"@, false);
}

/// An itemised section's count is the number of items it lists.
pub proof fn law_itemised_count_is_item_count(section: Seq<char>, lines: Seq<Seq<char>>)
    requires
        is_itemised(section),
    ensures
        section_count(section, lines) == section_items(section, lines).len(),
{
}

/// The lines a check printed: those of its standard output, then those of
/// its standard error, each read as UTF-8 with invalid bytes replaced.
pub fn collect_output(stdout: &[u8], stderr: &[u8]) -> (r: Vec<String>)
    ensures
        strings_view(r@) == text_lines(utf8_lossy(stdout@)) + text_lines(utf8_lossy(stderr@)),
{
    let out_text = lossy_text(stdout);
    let err_text = lossy_text(stderr);
    let mut lines = split_lines(out_text.as_str());
    let mut more = split_lines(err_text.as_str());
    let ghost a = strings_view(lines@);
    let ghost b = strings_view(more@);
    lines.append(&mut more);
    assert(strings_view(lines@) =~= a + b);
    lines
}

} // verus!
