//! Finding the Homebrew cask for an app that Homebrew does not manage yet.
//!
//! The app's name is first turned into a likely cask token and looked up
//! exactly (`brew info`, no network); when that names no cask, the name is
//! searched for (`brew search`), and the first five hits are offered.

use vstd::prelude::*;
use vstd::string::*;
use crate::json::{cask_fields_view, cask_info_fields, cask_info_of, opt_text};
use crate::text::{
    begins_with, contains_str, has_sub, is_alphanumeric, lossy_text, owned, split_lines,
    starts_with_str, strings_view, text_lines, to_lowercase, lowercase, trim, trimmed,
    unicode_alphanumeric, utf8_lossy,
};

verus! {

/// A cask offered for an app: its token and its display name.
pub struct CaskCandidate {
    pub token: String,
    pub name: String,
}

pub open spec fn candidate_view(c: CaskCandidate) -> (Seq<char>, Seq<char>) {
    (c.token@, c.name@)
}

pub open spec fn candidates_view(v: Seq<CaskCandidate>) -> Seq<(Seq<char>, Seq<char>)> {
    v.map_values(|c: CaskCandidate| candidate_view(c))
}

// ---------------------------------------------------------------------------
// The scripts
// ---------------------------------------------------------------------------

/// What a character of the lower-cased name becomes in a token guess: a
/// space becomes `-`; alphanumerics, `-` and `+` stay; anything else goes.
pub open spec fn token_guess_char(c: char) -> Seq<char> {
    let d = if c == ' ' { '-' } else { c };
    if unicode_alphanumeric(d) || d == '-' || d == '+' {
        seq![d]
    } else {
        Seq::empty()
    }
}

pub open spec fn token_guess_of(s: Seq<char>) -> Seq<char>
    decreases s.len(),
{
    if s.len() == 0 {
        Seq::empty()
    } else {
        token_guess_of(s.drop_last()) + token_guess_char(s.last())
    }
}

/// The token guessed from an app's name: the name in lower case, spaces as
/// `-`, and only alphanumerics, `-` and `+` kept.
pub open spec fn token_guess(name: Seq<char>) -> Seq<char> {
    token_guess_of(lowercase(name))
}

/// A guessed token is fit for a shell word and a cask name: it holds only
/// alphanumerics, `-` and `+`.
pub proof fn law_guessed_tokens_are_plain(s: Seq<char>)
    ensures
        forall|i: int| 0 <= i < token_guess_of(s).len() ==> {
            let c = #[trigger] token_guess_of(s)[i];
            unicode_alphanumeric(c) || c == '-' || c == '+'
        },
    decreases s.len(),
{
    if s.len() > 0 {
        law_guessed_tokens_are_plain(s.drop_last());
        let a = token_guess_of(s.drop_last());
        let b = token_guess_char(s.last());
        assert forall|i: int| 0 <= i < token_guess_of(s).len() implies {
            let c = #[trigger] token_guess_of(s)[i];
            unicode_alphanumeric(c) || c == '-' || c == '+'
        } by {
            if i < a.len() {
                assert(token_guess_of(s)[i] == a[i]);
            } else {
                assert(token_guess_of(s)[i] == b[i - a.len()]);
            }
        }
    }
}

/// `s` without its `'` characters, so that it fits in a single-quoted shell
/// word.
pub open spec fn without_quotes(s: Seq<char>) -> Seq<char>
    decreases s.len(),
{
    if s.len() == 0 {
        Seq::empty()
    } else if s.last() == '\'' {
        without_quotes(s.drop_last())
    } else {
        without_quotes(s.drop_last()).push(s.last())
    }
}

fn remove_quotes(s: &str) -> (r: String)
    ensures
        r@ == without_quotes(s@),
{
    let n = s.unicode_len();
    let mut out = String::new();
    let mut i: usize = 0;
    assert(s@.take(0) =~= Seq::<char>::empty());
    while i < n
        invariant
            n == s@.len(),
            i <= n,
            out@ == without_quotes(s@.take(i as int)),
        decreases n - i,
    {
        let c = s.get_char(i);
        let ghost t = s@.take(i + 1);
        assert(t.drop_last() =~= s@.take(i as int));
        assert(t.last() == c);
        if c != '\'' {
            let piece = s.substring_char(i, i + 1);
            assert(piece@ =~= seq![c]);
            out.append(piece);
        }
        i = i + 1;
    }
    assert(s@.take(n as int) =~= s@);
    out
}

/// The token guessed from the app's name `name`.
pub fn guess_token(name: &str) -> (r: String)
    ensures
        r@ == token_guess(name@),
{
    let lower = to_lowercase(name);
    let s = lower.as_str();
    let n = s.unicode_len();
    let mut out = String::new();
    let mut i: usize = 0;
    assert(s@.take(0) =~= Seq::<char>::empty());
    while i < n
        invariant
            n == s@.len(),
            s@ == lowercase(name@),
            i <= n,
            out@ == token_guess_of(s@.take(i as int)),
        decreases n - i,
    {
        let c = s.get_char(i);
        let ghost t = s@.take(i + 1);
        assert(t.drop_last() =~= s@.take(i as int));
        assert(t.last() == c);
        if c == ' ' {
            proof {
                reveal_strlit("-");
            }
            out.append("-");
            assert(out@ =~= token_guess_of(t));
        } else if is_alphanumeric(c) || c == '-' || c == '+' {
            let piece = s.substring_char(i, i + 1);
            assert(piece@ =~= seq![c]);
            out.append(piece);
            assert(out@ =~= token_guess_of(t));
        } else {
            assert(out@ =~= token_guess_of(t));
        }
        i = i + 1;
    }
    assert(s@.take(n as int) =~= s@);
    out
}

pub const BREW_ON_PATH: &'static str = "export PATH=\"/usr/local/bin:/opt/homebrew/bin:$PATH\"; ";

pub const BREW_INFO_CASK: &'static str = "brew info --cask --json=v2 '";

pub const BREW_SEARCH_CASKS: &'static str = "brew search --casks '";

pub const QUIET_TAIL: &'static str = "' 2>/dev/null";

/// The script that looks the guessed token up exactly.
pub open spec fn info_script_text(name: Seq<char>) -> Seq<char> {
    BREW_ON_PATH@ + BREW_INFO_CASK@ + without_quotes(token_guess(name)) + QUIET_TAIL@
}

/// The script that searches for the name itself.
pub open spec fn search_script_text(name: Seq<char>) -> Seq<char> {
    BREW_ON_PATH@ + BREW_SEARCH_CASKS@ + without_quotes(name) + QUIET_TAIL@
}

/// The script that asks `brew info` about the cask token guessed from the
/// app's name, as JSON.
pub fn cask_info_script(name: &str) -> (r: String)
    ensures
        r@ == info_script_text(name@),
{
    let guess = guess_token(name);
    let safe = remove_quotes(guess.as_str());
    let mut s = owned(BREW_ON_PATH);
    s.append(BREW_INFO_CASK);
    s.append(safe.as_str());
    s.append(QUIET_TAIL);
    s
}

/// The script that asks `brew search` for casks matching the app's name.
pub fn cask_search_script(name: &str) -> (r: String)
    ensures
        r@ == search_script_text(name@),
{
    let safe = remove_quotes(name);
    let mut s = owned(BREW_ON_PATH);
    s.append(BREW_SEARCH_CASKS);
    s.append(safe.as_str());
    s.append(QUIET_TAIL);
    s
}

// ---------------------------------------------------------------------------
// Reading the answers
// ---------------------------------------------------------------------------

/// The candidates in what `brew info` described: each cask with a token,
/// named by its first display name, or by its token when it has none.
pub open spec fn info_candidates(entries: Seq<(Option<Seq<char>>, Option<Seq<char>>)>) -> Seq<(Seq<char>, Seq<char>)>
    decreases entries.len(),
{
    if entries.len() == 0 {
        Seq::empty()
    } else {
        let rest = info_candidates(entries.drop_last());
        match entries.last().0 {
            Some(t) => rest.push((
                t,
                match entries.last().1 {
                    Some(n) => n,
                    None => t,
                },
            )),
            None => rest,
        }
    }
}

/// The candidates an exact lookup found: none unless it succeeded with some
/// output that parses, and then those that `info_candidates` reads.
pub open spec fn info_answer(success: bool, stdout: Seq<u8>) -> Seq<(Seq<char>, Seq<char>)> {
    if success && stdout.len() > 0 {
        match cask_info_of(stdout) {
            Some(entries) => info_candidates(entries),
            None => Seq::empty(),
        }
    } else {
        Seq::empty()
    }
}

/// The candidates found by the exact lookup, from whether it succeeded and
/// what it printed. When there are none, the app falls back to a search.
pub fn candidates_from_info(success: bool, stdout: &[u8]) -> (r: Vec<CaskCandidate>)
    ensures
        candidates_view(r@) == info_answer(success, stdout@),
{
    let mut out: Vec<CaskCandidate> = Vec::new();
    if !success || stdout.len() == 0 {
        assert(candidates_view(out@) =~= Seq::<(Seq<char>, Seq<char>)>::empty());
        return out;
    }
    let entries = match cask_info_fields(stdout) {
        Some(v) => v,
        None => {
            assert(candidates_view(out@) =~= Seq::<(Seq<char>, Seq<char>)>::empty());
            return out;
        },
    };
    let ghost ev = cask_fields_view(entries@);
    let n = entries.len();
    let mut i: usize = 0;
    assert(ev.take(0) =~= Seq::<(Option<Seq<char>>, Option<Seq<char>>)>::empty());
    assert(candidates_view(out@) =~= Seq::<(Seq<char>, Seq<char>)>::empty());
    while i < n
        invariant
            n == entries@.len(),
            ev == cask_fields_view(entries@),
            i <= n,
            candidates_view(out@) == info_candidates(ev.take(i as int)),
        decreases n - i,
    {
        let ghost t = ev.take(i + 1);
        assert(t.drop_last() =~= ev.take(i as int));
        assert(t.last() == (opt_text(entries@[i as int].0), opt_text(entries@[i as int].1)));
        match &entries[i].0 {
            Some(token) => {
                let name = match &entries[i].1 {
                    Some(nm) => nm.clone(),
                    None => token.clone(),
                };
                let ghost before = candidates_view(out@);
                out.push(CaskCandidate { token: token.clone(), name });
                assert(candidates_view(out@) =~= before.push(candidate_view(out@.last())));
            },
            None => {},
        }
        i = i + 1;
    }
    assert(ev.take(n as int) =~= ev);
    out
}

/// Whether a line that `brew search` printed names a cask: it is not empty,
/// not a `==>` heading, and not the message that nothing was found.
pub open spec fn is_hit(l: Seq<char>) -> bool {
    &&& l.len() > 0
    &&& !begins_with(l, "==>"@)
    &&& !has_sub(l, "No formulae or casks"@)
}

/// The hits among `lines`, trimmed, at most five: the first five in order.
pub open spec fn first_hits(lines: Seq<Seq<char>>) -> Seq<Seq<char>>
    decreases lines.len(),
{
    if lines.len() == 0 {
        Seq::empty()
    } else {
        let rest = first_hits(lines.drop_last());
        if is_hit(lines.last()) && rest.len() < 5 {
            rest.push(trimmed(lines.last()))
        } else {
            rest
        }
    }
}

/// A search never offers more than five candidates.
pub proof fn law_search_offers_at_most_five(lines: Seq<Seq<char>>)
    ensures
        first_hits(lines).len() <= 5,
    decreases lines.len(),
{
    if lines.len() > 0 {
        law_search_offers_at_most_five(lines.drop_last());
    }
}

/// The candidates a search found: none unless it succeeded, and then each
/// of the first five hits in its output, as both token and name.
pub open spec fn search_answer(success: bool, stdout: Seq<u8>) -> Seq<(Seq<char>, Seq<char>)> {
    if success {
        first_hits(text_lines(utf8_lossy(stdout))).map_values(|h: Seq<char>| (h, h))
    } else {
        Seq::empty()
    }
}

/// The candidates found by the search, from whether it succeeded and what it
/// printed (read as UTF-8, invalid bytes replaced).
pub fn candidates_from_search(success: bool, stdout: &[u8]) -> (r: Vec<CaskCandidate>)
    ensures
        candidates_view(r@) == search_answer(success, stdout@),
{
    let mut out: Vec<CaskCandidate> = Vec::new();
    if !success {
        assert(candidates_view(out@) =~= Seq::<(Seq<char>, Seq<char>)>::empty());
        return out;
    }
    let text = lossy_text(stdout);
    let lines = split_lines(text.as_str());
    let ghost all = strings_view(lines@);
    let n = lines.len();
    let mut i: usize = 0;
    assert(all.take(0) =~= Seq::<Seq<char>>::empty());
    assert(candidates_view(out@) =~= Seq::<(Seq<char>, Seq<char>)>::empty());
    while i < n
        invariant
            n == lines@.len(),
            all == strings_view(lines@),
            i <= n,
            out@.len() == first_hits(all.take(i as int)).len(),
            candidates_view(out@) == first_hits(all.take(i as int)).map_values(|h: Seq<char>| (h, h)),
        decreases n - i,
    {
        let ghost t = all.take(i + 1);
        assert(t.drop_last() =~= all.take(i as int));
        assert(t.last() == lines@[i as int]@);
        let l = lines[i].as_str();
        if l.unicode_len() > 0 && !starts_with_str(l, "==>") && !contains_str(l, "No formulae or casks")
            && out.len() < 5 {
            let h = trim(l);
            let ghost before = first_hits(all.take(i as int));
            let ghost old_view = candidates_view(out@);
            out.push(CaskCandidate { token: owned(h), name: owned(h) });
            assert(first_hits(t) == before.push(h@));
            assert(candidates_view(out@) =~= old_view.push((h@, h@)));
            assert(before.push(h@).map_values(|h: Seq<char>| (h, h))
                =~= before.map_values(|h: Seq<char>| (h, h)).push((h@, h@)));
        }
        i = i + 1;
    }
    assert(all.take(n as int) =~= all);
    out
}

/// What to do once the exact lookup has answered.
pub enum CaskLookup {
    /// The exact lookup found these casks: offer them.
    Found(Vec<CaskCandidate>),
    /// It found none: run this search script (it needs the network) and
    /// offer what `candidates_from_search` reads from its answer.
    Search(String),
}

/// After the exact lookup for the app `name` finished (`success`, `stdout`;
/// a lookup that could not start counts as failed): its candidates when it
/// found any, otherwise the search to fall back on.
pub fn after_exact_lookup(name: &str, success: bool, stdout: &[u8]) -> (r: CaskLookup)
    ensures
        info_answer(success, stdout@).len() > 0 ==> (r matches CaskLookup::Found(v) && candidates_view(v@)
            == info_answer(success, stdout@)),
        info_answer(success, stdout@).len() == 0 ==> (r matches CaskLookup::Search(s) && s@
            == search_script_text(name@)),
{
    let found = candidates_from_info(success, stdout);
    if found.len() > 0 {
        CaskLookup::Found(found)
    } else {
        assert(candidates_view(found@).len() == found@.len());
        CaskLookup::Search(cask_search_script(name))
    }
}

} // verus!
