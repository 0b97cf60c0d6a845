//! Updates of the app itself: comparing version numbers, reading the latest
//! release that GitHub reports, fetching the notes of one release, and which
//! release pages the app may open.

use vstd::prelude::*;
use vstd::string::*;
use vstd::utf8::encode_utf8;
use crate::json::{json_bytes_str_at, json_bytes_str_field, json_str_at, json_str_field};
use crate::text::{
    begins_with, is_digit, lossy_text, owned, parse_u32, parsed_u32, starts_with_str, str_eq,
    strings_view, substring, utf8_lossy,
};

verus! {

// ---------------------------------------------------------------------------
// Version numbers
// ---------------------------------------------------------------------------

/// The `.`-separated fields of `s` as `str::split('.')` yields them, with
/// `cur` the part of a field already read: every field counts, empty ones
/// too, so a string with `k` dots has `k + 1` fields.
pub open spec fn dot_fields_from(s: Seq<char>, cur: Seq<char>) -> Seq<Seq<char>>
    decreases s.len(),
{
    if s.len() == 0 {
        seq![cur]
    } else if s[0] == '.' {
        seq![cur] + dot_fields_from(s.drop_first(), Seq::empty())
    } else {
        dot_fields_from(s.drop_first(), cur.push(s[0]))
    }
}

pub open spec fn dot_fields(s: Seq<char>) -> Seq<Seq<char>> {
    dot_fields_from(s, Seq::empty())
}

/// The number in field `i`, or 0 when there is no such field or it is not a
/// `u32`.
pub open spec fn field_number(fields: Seq<Seq<char>>, i: int) -> u32 {
    if 0 <= i < fields.len() {
        match parsed_u32(fields[i]) {
            Some(v) => v,
            None => 0,
        }
    } else {
        0
    }
}

/// A version string read as (major, minor, patch); anything after the
/// third field is ignored.
pub open spec fn version_triple(s: Seq<char>) -> (u32, u32, u32) {
    let f = dot_fields(s);
    (field_number(f, 0), field_number(f, 1), field_number(f, 2))
}

/// The order of version triples: by major, then minor, then patch.
pub open spec fn triple_greater(a: (u32, u32, u32), b: (u32, u32, u32)) -> bool {
    ||| a.0 > b.0
    ||| a.0 == b.0 && a.1 > b.1
    ||| a.0 == b.0 && a.1 == b.1 && a.2 > b.2
}

/// Whether version `candidate` is newer than version `current`.
pub open spec fn is_newer(candidate: Seq<char>, current: Seq<char>) -> bool {
    triple_greater(version_triple(candidate), version_triple(current))
}

/// `s.split('.')`, each field owned.
fn dot_split(s: &str) -> (r: Vec<String>)
    ensures
        strings_view(r@) == dot_fields(s@),
{
    let n = s.unicode_len();
    let mut out: Vec<String> = Vec::new();
    let mut start: usize = 0;
    let mut i: usize = 0;
    assert(s@.skip(0) =~= s@);
    assert(s@.subrange(0, 0) =~= Seq::<char>::empty());
    assert(strings_view(out@) =~= Seq::<Seq<char>>::empty());
    while i < n
        invariant
            n == s@.len(),
            start <= i <= n,
            strings_view(out@) + dot_fields_from(s@.skip(i as int), s@.subrange(start as int, i as int))
                == dot_fields(s@),
        decreases n - i,
    {
        let ghost rest = s@.skip(i as int);
        let ghost cur = s@.subrange(start as int, i as int);
        let c = s.get_char(i);
        assert(rest[0] == c);
        assert(rest.drop_first() =~= s@.skip(i + 1));
        if c == '.' {
            let field = substring(s, start, i);
            proof {
                assert(strings_view(out@.push(field)) =~= strings_view(out@).push(field@));
                assert(s@.subrange(i + 1, i + 1) =~= Seq::<char>::empty());
                assert(strings_view(out@).push(field@) + dot_fields_from(s@.skip(i + 1), Seq::empty())
                    =~= strings_view(out@) + (seq![cur] + dot_fields_from(s@.skip(i + 1), Seq::empty())));
            }
            out.push(field);
            start = i + 1;
        } else {
            assert(cur.push(c) =~= s@.subrange(start as int, i + 1));
        }
        i = i + 1;
    }
    let ghost cur = s@.subrange(start as int, n as int);
    assert(s@.skip(n as int) =~= Seq::<char>::empty());
    let field = substring(s, start, n);
    proof {
        assert(strings_view(out@.push(field)) =~= strings_view(out@).push(field@));
        assert(strings_view(out@).push(field@) =~= strings_view(out@) + seq![cur]);
    }
    out.push(field);
    out
}

/// The number in field `i` of `fields`, 0 when absent or not a number.
fn number_at(fields: &Vec<String>, i: usize) -> (r: u32)
    ensures
        r == field_number(strings_view(fields@), i as int),
{
    if i < fields.len() {
        match parse_u32(fields[i].as_str()) {
            Some(v) => v,
            None => 0,
        }
    } else {
        0
    }
}

/// The (major, minor, patch) numbers of a version string.
pub fn parse_version(s: &str) -> (r: (u32, u32, u32))
    ensures
        r == version_triple(s@),
{
    let fields = dot_split(s);
    (number_at(&fields, 0), number_at(&fields, 1), number_at(&fields, 2))
}

/// Whether version `candidate` is newer than version `current`, comparing
/// major, minor and patch numbers in turn; a missing or unreadable field
/// counts as 0.
pub fn version_newer(candidate: &str, current: &str) -> (r: bool)
    ensures
        r == is_newer(candidate@, current@),
{
    let a = parse_version(candidate);
    let b = parse_version(current);
    a.0 > b.0 || (a.0 == b.0 && a.1 > b.1) || (a.0 == b.0 && a.1 == b.1 && a.2 > b.2)
}

/// No version is newer than itself.
pub proof fn law_version_not_newer_than_itself(v: Seq<char>)
    ensures
        !is_newer(v, v),
{
}

/// Of two versions, at most one is newer than the other.
pub proof fn law_version_newer_is_asymmetric(a: Seq<char>, b: Seq<char>)
    ensures
        is_newer(a, b) ==> !is_newer(b, a),
{
}

/// A version newer than one that is newer than a third is newer than the
/// third.
pub proof fn law_version_newer_is_transitive(a: Seq<char>, b: Seq<char>, c: Seq<char>)
    requires
        is_newer(a, b),
        is_newer(b, c),
    ensures
        is_newer(a, c),
{
}

// ---------------------------------------------------------------------------
// The latest release
// ---------------------------------------------------------------------------

/// Where the latest release of the app is described.
pub const LATEST_RELEASE_API: &'static str = "https://api.github.com/repos/paymonr/partyman_update_manager/releases/latest";

/// What the app reports of an update of itself.
pub struct AppUpdateInfo {
    pub available: bool,
    pub version: String,
    pub url: String,
    pub notes: String,
}

/// `s` with every leading `v` removed (`trim_start_matches('v')`).
pub open spec fn without_v(s: Seq<char>) -> Seq<char>
    decreases s.len(),
{
    if s.len() > 0 && s[0] == 'v' {
        without_v(s.drop_first())
    } else {
        s
    }
}

/// A JSON string field of the release, or the empty string.
pub open spec fn release_field(text: Seq<char>, key: Seq<char>) -> Seq<char> {
    match json_str_at(text, key) {
        Some(v) => v,
        None => Seq::empty(),
    }
}

/// The version a release document names: its tag without leading `v`s.
pub open spec fn release_version(text: Seq<char>) -> Seq<char> {
    without_v(release_field(text, "tag_name"@))
}

/// Whether the release described by `text` is an update for `current`: it
/// names a version, and that version is newer.
pub open spec fn offers_update(text: Seq<char>, current: Seq<char>) -> bool {
    release_version(text).len() > 0 && is_newer(release_version(text), current)
}

/// What the app reports for the release described by `text`: the release's
/// version, page and notes when it is an update, otherwise nothing.
pub open spec fn update_info_is(r: AppUpdateInfo, text: Seq<char>, current: Seq<char>) -> bool {
    if offers_update(text, current) {
        &&& r.available
        &&& r.version@ == release_version(text)
        &&& r.url@ == release_field(text, "html_url"@)
        &&& r.notes@ == release_field(text, "body"@)
    } else {
        is_blank(r)
    }
}

/// The report of no update.
pub open spec fn is_blank(r: AppUpdateInfo) -> bool {
    &&& !r.available
    &&& r.version@.len() == 0
    &&& r.url@.len() == 0
    &&& r.notes@.len() == 0
}

/// The report of no update.
pub fn no_update() -> (r: AppUpdateInfo)
    ensures
        is_blank(r),
{
    AppUpdateInfo { available: false, version: String::new(), url: String::new(), notes: String::new() }
}

/// `s` without its leading `v`s.
fn strip_v(s: &str) -> (r: String)
    ensures
        r@ == without_v(s@),
{
    let n = s.unicode_len();
    let mut i: usize = 0;
    assert(s@.skip(0) =~= s@);
    while i < n && s.get_char(i) == 'v'
        invariant
            n == s@.len(),
            i <= n,
            without_v(s@) == without_v(s@.skip(i as int)),
        decreases n - i,
    {
        assert(s@.skip(i as int).drop_first() =~= s@.skip(i + 1));
        i = i + 1;
    }
    let r = substring(s, i, n);
    assert(r@ =~= s@.skip(i as int));
    r
}

/// A field of the release document, or the empty string.
fn field_or_empty(text: &str, key: &str) -> (r: String)
    ensures
        r@ == release_field(text@, key@),
{
    match json_str_field(text, key) {
        Some(v) => v,
        None => String::new(),
    }
}

/// What to report for the release document `text` (GitHub's description of
/// the latest release) when the running version is `current`.
pub fn app_update_from_release(text: &str, current: &str) -> (r: AppUpdateInfo)
    ensures
        update_info_is(r, text@, current@),
{
    let tag_field = field_or_empty(text, "tag_name");
    let tag = strip_v(tag_field.as_str());
    if tag.as_str().unicode_len() > 0 && version_newer(tag.as_str(), current) {
        let url = field_or_empty(text, "html_url");
        let notes = field_or_empty(text, "body");
        AppUpdateInfo { available: true, version: tag, url, notes }
    } else {
        no_update()
    }
}

/// What to report once the request for the latest release has finished:
/// nothing unless it succeeded, otherwise what its output, read as UTF-8
/// with invalid bytes replaced, describes.
pub fn app_update_from_output(success: bool, stdout: &[u8], current: &str) -> (r: AppUpdateInfo)
    ensures
        success ==> update_info_is(r, utf8_lossy(stdout@), current@),
        !success ==> is_blank(r),
{
    if success {
        let text = lossy_text(stdout);
        app_update_from_release(text.as_str(), current)
    } else {
        no_update()
    }
}

// ---------------------------------------------------------------------------
// Notes of one release
// ---------------------------------------------------------------------------

/// Where the release tagged `v<version>` is described; the version follows.
pub const RELEASE_TAG_API: &'static str = "https://api.github.com/repos/paymonr/partyman_update_manager/releases/tags/v";

/// Whether `v` may be put into the release URL: not empty, at most 32 bytes,
/// and only ASCII digits and dots.
pub open spec fn is_release_version(v: Seq<char>) -> bool {
    &&& v.len() > 0
    &&& encode_utf8(v).len() <= 32
    &&& forall|i: int| 0 <= i < v.len() ==> is_digit(#[trigger] v[i]) || v[i] == '.'
}

/// Whether every character of `v` is an ASCII digit or a dot.
fn digits_and_dots(v: &str) -> (r: bool)
    ensures
        r == (forall|i: int| 0 <= i < v@.len() ==> is_digit(#[trigger] v@[i]) || v@[i] == '.'),
{
    let n = v.unicode_len();
    let mut i: usize = 0;
    while i < n
        invariant
            n == v@.len(),
            i <= n,
            forall|j: int| 0 <= j < i ==> is_digit(#[trigger] v@[j]) || v@[j] == '.',
        decreases n - i,
    {
        let c = v.get_char(i);
        if !(('0' <= c && c <= '9') || c == '.') {
            return false;
        }
        i = i + 1;
    }
    true
}

/// The URL that describes the release of `version`, or `None` when
/// `version` is not one that may be put into it.
pub fn release_notes_url(version: &str) -> (r: Option<String>)
    ensures
        is_release_version(version@) ==> (r matches Some(u) && u@ == RELEASE_TAG_API@ + version@),
        !is_release_version(version@) ==> r is None,
{
    if version.unicode_len() == 0 || version.as_bytes().len() > 32 || !digits_and_dots(version) {
        return None;
    }
    let mut url = owned(RELEASE_TAG_API);
    url.append(version);
    Some(url)
}

/// The notes of a release once the request for it has finished: the string
/// field `body` of what it returned, or the empty string when the request
/// failed or there is no such field.
pub fn release_notes_from_output(success: bool, stdout: &[u8]) -> (r: String)
    ensures
        success && json_bytes_str_at(stdout@, "body"@) is Some
            ==> Some(r@) == json_bytes_str_at(stdout@, "body"@),
        !success || json_bytes_str_at(stdout@, "body"@) is None ==> r@.len() == 0,
{
    if !success {
        return String::new();
    }
    match json_bytes_str_field(stdout, "body") {
        Some(b) => b,
        None => String::new(),
    }
}

// ---------------------------------------------------------------------------
// Release pages the app may open
// ---------------------------------------------------------------------------

pub const APP_REPO_URL: &'static str = "https://github.com/paymonr/partyman_update_manager";

pub const MEADOW_REPO_URL: &'static str = "https://github.com/paymonr/kawaii-meadow";

pub const PROFILE_URL: &'static str = "https://github.com/paymonr";

/// Whether `url` is `base` or a path below it. A bare prefix is not enough:
/// `base` must be followed by `/`.
pub open spec fn is_under(url: Seq<char>, base: Seq<char>) -> bool {
    url == base || begins_with(url, base + "/"@)
}

/// Whether the app may hand `url` to the system to open.
pub open spec fn url_allowed(url: Seq<char>) -> bool {
    ||| is_under(url, APP_REPO_URL@)
    ||| is_under(url, MEADOW_REPO_URL@)
    ||| is_under(url, PROFILE_URL@)
}

fn under(url: &str, base: &str) -> (r: bool)
    ensures
        r == is_under(url@, base@),
{
    if str_eq(url, base) {
        return true;
    }
    let mut prefix = owned(base);
    prefix.append("/");
    starts_with_str(url, prefix.as_str())
}

/// Whether the app may open `url`: one of its allowed pages, or a path
/// below one of them.
pub fn release_url_allowed(url: &str) -> (r: bool)
    ensures
        r == url_allowed(url@),
{
    under(url, APP_REPO_URL) || under(url, MEADOW_REPO_URL) || under(url, PROFILE_URL)
}

/// Every page the app may open is the owner's GitHub profile or a path below
/// it; a look-alike account such as `.../paymonr-evil` is never allowed.
pub proof fn law_only_the_owners_pages_open(url: Seq<char>)
    requires
        url_allowed(url),
    ensures
        url == PROFILE_URL@ || begins_with(url, PROFILE_URL@ + "/"@),
{
    reveal_strlit("https://github.com/paymonr/partyman_update_manager");
    reveal_strlit("https://github.com/paymonr/kawaii-meadow");
    reveal_strlit("https://github.com/paymonr");
    reveal_strlit("/");
    let p = PROFILE_URL@ + "/"@;
    if is_under(url, APP_REPO_URL@) {
        assert(APP_REPO_URL@.take(p.len() as int) =~= p);
        if url != APP_REPO_URL@ {
            assert(url.take(p.len() as int) =~= p);
        }
    }
    if is_under(url, MEADOW_REPO_URL@) {
        assert(MEADOW_REPO_URL@.take(p.len() as int) =~= p);
        if url != MEADOW_REPO_URL@ {
            assert(url.take(p.len() as int) =~= p);
        }
    }
}

} // verus!
