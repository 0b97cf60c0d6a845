//! The shell scripts the app runs: the check for each section, the upgrade
//! for each section, and the bash helpers they share.

use vstd::prelude::*;
use vstd::string::*;
use crate::text::{decimal, decimal_string, owned, str_eq};

verus! {

/// Put before every check: the version managers' tools on `PATH`, so that a
/// check sees what the user's own shell would. Checks never need root.
pub const CHECK_PREAMBLE: &'static str = r#"
export PATH="$HOME/.rvm/bin:$HOME/.rbenv/bin:$HOME/.nvm/versions/node/$(ls $HOME/.nvm/versions/node 2>/dev/null | tail -1)/bin:/usr/local/bin:/opt/homebrew/bin:$PATH"
[ -s "$HOME/.rvm/scripts/rvm" ] && source "$HOME/.rvm/scripts/rvm"
command -v rbenv &>/dev/null && eval "$(rbenv init -)"
"#;

/// Put before every install: the same `PATH`, and a password helper for
/// `sudo` that asks once per run through a native dialog, naming the app in
/// `$PM_ASKPASS_APP` when set, and keeps the credential alive for the batch.
pub const ASKPASS_PREAMBLE: &'static str = r#"
export PATH="$HOME/.rvm/bin:$HOME/.rbenv/bin:$HOME/.nvm/versions/node/$(ls $HOME/.nvm/versions/node 2>/dev/null | tail -1)/bin:/usr/local/bin:/opt/homebrew/bin:$PATH"
[ -s "$HOME/.rvm/scripts/rvm" ] && source "$HOME/.rvm/scripts/rvm"
command -v rbenv &>/dev/null && eval "$(rbenv init -)"
_pm_dir=$(mktemp -d /tmp/partyman-askpass-XXXXXX)
chmod 700 "$_pm_dir"
_pm_askpass="$_pm_dir/askpass"
cat > "$_pm_askpass" <<'PARTYMAN_ASKPASS'
#!/bin/bash
_pm_stamp="${PM_ASK_STAMP:-}"
_pm_retry=""
if [ -n "$_pm_stamp" ] && [ -s "$_pm_stamp" ]; then
  _pm_last=$(cat "$_pm_stamp" 2>/dev/null)
  if [ "${_pm_last%% *}" = "$PPID" ] && [ $(( $(date +%s) - ${_pm_last##* } )) -lt 20 ]; then
    _pm_retry=1
  fi
fi
_pm_app="${PM_ASKPASS_APP:-}"
if [ -n "$_pm_app" ]; then
  _pm_msg="PartyMAN Update Manager needs your administrator password to update ${_pm_app}."
else
  _pm_msg="PartyMAN Update Manager needs your administrator password to complete this update."
fi
[ -n "$_pm_retry" ] && _pm_msg="That password didn't work. $_pm_msg"
_pm_pw=$(osascript -e "display dialog \"${_pm_msg}\" default answer \"\" with hidden answer with title \"PartyMAN Update Manager\" with icon caution giving up after 120" -e 'text returned of result' 2>/dev/null) || exit 1
[ -z "$_pm_pw" ] && exit 1
[ -n "$_pm_stamp" ] && printf '%s %s' "$PPID" "$(date +%s)" > "$_pm_stamp"
printf '%s' "$_pm_pw"
PARTYMAN_ASKPASS
chmod 700 "$_pm_askpass"
export SUDO_ASKPASS="$_pm_askpass"
export PM_ASK_STAMP="$_pm_dir/asked"
# run_upgrade_shell attaches a controlling terminal, which sudo prefers over
# SUDO_ASKPASS — and a prompt written there is invisible and never answered, so it
# would block forever. Our own calls and Homebrew's always pass -A, so this shim
# only matters for third-party scripts that shell out to a bare `sudo`. Left alone
# if the caller already chose how to read the password.
mkdir -p "$_pm_dir/bin"
cat > "$_pm_dir/bin/sudo" <<'PARTYMAN_SUDO'
#!/bin/bash
# Only sudo's own leading options are inspected; scanning further could mistake a
# flag belonging to the command being run (sudo tar -S …) for one of sudo's.
for _a in "$@"; do
  case "$_a" in
    --) break ;;
    -A|--askpass|-S|--stdin|-*[AS]*) exec /usr/bin/sudo "$@" ;;
    -*) ;;
    *) break ;;
  esac
done
exec /usr/bin/sudo -A "$@"
PARTYMAN_SUDO
chmod 700 "$_pm_dir/bin/sudo"
export PATH="$_pm_dir/bin:$PATH"
# Refresh sudo's cached credential every minute so it cannot lapse (default 5
# min) part-way through a long batch and ask a second time. Fully detached from
# our pipes so it never emits anything into the update log.
( while :; do sleep 60; sudo -n -v; done ) >/dev/null 2>&1 &
_pm_keepalive=$!
# Off the job table, or bash announces "Terminated" on stderr when the trap kills
# it and that lands in the update log.
disown "$_pm_keepalive" 2>/dev/null
trap '[ -n "$_pm_keepalive" ] && kill "$_pm_keepalive" 2>/dev/null; [ -n "$_pm_dir" ] && rm -rf "$_pm_dir"' EXIT
"#;


/// The bash helper `pm_fix_protected_bundle`: recovers from a root-owned app
/// bundle ("Permission denied @ apply2files") by taking ownership with
/// administrator rights so brew can replace it; prints guidance and fails when
/// macOS App Management protection or a cancelled prompt prevents it.
pub const PROTECTED_BUNDLE_FN: &'static str = r#"pm_fix_protected_bundle() {
  local tmpout="$1"
  local current_user app_path app_basename chownout rc
  current_user=$(whoami)
  app_path=$(grep "Permission denied @ apply2files" "$tmpout" | head -1 \
    | sed 's/.*@ apply2files - //' | sed 's|/Contents/.*||')
  if [ -z "$app_path" ]; then
    echo "✖  Could not determine app path."
    return 1
  fi
  app_basename=$(basename "$app_path")
  echo "→  $app_basename is protected by macOS — requesting administrator access…"
  chownout=$(mktemp)
  # `sudo -A` rides on the credential sudo already cached for this run (see
  # ASKPASS_PREAMBLE) rather than opening a second, unrelated auth dialog.
  sudo -A chown -R "$current_user" "$app_path" > "$chownout" 2>&1
  rc=$?
  if [ "$rc" -ne 0 ] && ! grep -q "Operation not permitted" "$chownout"; then
    if grep -qiE "no password was provided|a password is required|incorrect password" "$chownout"; then
      rm -f "$chownout"
      echo "✖  Cancelled — administrator access is needed for $app_basename."
      return 1
    fi
    # sudo itself could not run (e.g. the account is not an admin). Fall back to
    # Authorization Services, which can authenticate as a different admin user.
    # '2>&1; true' keeps chown errors in the result and stops `do shell script`
    # from raising, so we can inspect what actually happened.
    osascript -e "do shell script \"chown -R $current_user '$app_path' 2>&1; true\" with administrator privileges" > "$chownout" 2>&1
  fi
  if grep -q "Operation not permitted" "$chownout"; then
    # EPERM as root = macOS App Management / SIP bundle protection, not ownership.
    rm -f "$chownout"
    echo "✖  macOS blocked this: it protects $app_basename and won't let another app modify it — even with your password."
    echo "→  To let PartyMAN manage apps in /Applications, grant it permission once:"
    echo "     System Settings ▸ Privacy & Security ▸ App Management (or Full Disk Access)"
    echo "     → turn on \"PartyMAN Update Manager\", then quit and reopen this app and try again."
    echo "→  Opening Privacy & Security settings…"
    open "x-apple.systempreferences:com.apple.preference.security?Privacy_AppBundles" 2>/dev/null
    echo "→  (Google Chrome, Google Drive and some apps also update themselves automatically.)"
    return 1
  elif grep -qiE "User canceled|-128" "$chownout"; then
    rm -f "$chownout"
    echo "✖  Cancelled — administrator access is needed for $app_basename."
    return 1
  fi
  cat "$chownout"
  rm -f "$chownout"
  return 0
}
"#;

/// The bash function `brew_upgrade_cask`: upgrades one cask, retrying with
/// `--force` after a backup conflict, reinstalling into ~/Applications when
/// the app lives there, and recovering protected bundles.
pub const BREW_CASK_UPGRADE_FN: &'static str = r#"brew_upgrade_cask() {
  local token="$1"
  local CURRENT_USER
  CURRENT_USER=$(whoami)
  local TMPOUT
  TMPOUT=$(mktemp)
  local APPDIR_FLAG=""

  brew upgrade --cask "$token" 2>&1 | tee "$TMPOUT"
  local BREW_EXIT="${PIPESTATUS[0]}"

  if grep -q "It seems there is already an App at" "$TMPOUT"; then
    echo "→  Backup conflict (app may have self-updated) — retrying with --force…"
    rm -f "$TMPOUT"; TMPOUT=$(mktemp)
    brew upgrade --cask --force $APPDIR_FLAG "$token" 2>&1 | tee "$TMPOUT"
    BREW_EXIT="${PIPESTATUS[0]}"
  fi

  if grep -q "App source.*is not there" "$TMPOUT"; then
    EXPECTED_PATH=$(grep "App source.*is not there" "$TMPOUT" | head -1 \
      | sed "s/.*App source '//;s/' is not there.*//")
    APP_NAME=$(basename "$EXPECTED_PATH")
    rm -f "$TMPOUT"
    TMPOUT=$(mktemp)
    if [ -n "$APP_NAME" ] && [ -d "$HOME/Applications/$APP_NAME" ]; then
      APPDIR_FLAG="--appdir $HOME/Applications"
      echo "→  App is in ~/Applications — reinstalling there…"
    else
      APPDIR_FLAG=""
      echo "→  App not found — reinstalling to /Applications…"
    fi
    brew install --cask --force $APPDIR_FLAG "$token" 2>&1 | tee "$TMPOUT"
    BREW_EXIT="${PIPESTATUS[0]}"
  fi

  if grep -q "Permission denied @ apply2files" "$TMPOUT"; then
    if pm_fix_protected_bundle "$TMPOUT"; then
      rm -f "$TMPOUT"
      brew upgrade --cask $APPDIR_FLAG "$token" 2>&1
      BREW_EXIT=$?
    else
      rm -f "$TMPOUT"
      BREW_EXIT=1
    fi
  else
    rm -f "$TMPOUT"
  fi

  if [ "$BREW_EXIT" -eq 0 ]; then
    echo "→  Done."
  else
    echo "✖  Update failed for $token."
  fi
}
"#;

/// The bash function `adopt_cask`: puts one app under Homebrew management
/// (`$1` is "user" for ~/Applications, `$2` the cask token).
pub const ADOPT_CASK_FN: &'static str = r#"adopt_cask() {
  local use_userdir="$1" token="$2"
  local flag=""
  [ "$use_userdir" = "user" ] && flag="--appdir $HOME/Applications"
  local TMPOUT; TMPOUT=$(mktemp)
  brew install --cask --force $flag "$token" 2>&1 | tee "$TMPOUT"
  local BREW_EXIT=${PIPESTATUS[0]}
  if grep -q "Permission denied @ apply2files" "$TMPOUT"; then
    if pm_fix_protected_bundle "$TMPOUT"; then
      rm -f "$TMPOUT"
      if brew install --cask --force $flag "$token" 2>&1; then
        echo "→  Done! $token is now managed by Homebrew."
      else
        echo "✖  Setup failed for $token."
      fi
    else
      rm -f "$TMPOUT"
    fi
  elif [ "$BREW_EXIT" -eq 0 ]; then
    rm -f "$TMPOUT"
    echo "→  Done! $token is now managed by Homebrew."
  elif grep -qE "Running installer for|/usr/sbin/installer|installer -pkg" "$TMPOUT"; then
    rm -f "$TMPOUT"
    echo "✖  $token couldn't be set up — its installer failed."
    echo "→  This usually means the app is still running, or it is managed by your organization (MDM)."
    echo "→  Quit the app completely (check the menu bar) and try again."
    echo "→  If it keeps failing, it is likely managed by IT and can't be adopted by Homebrew — you can leave it to update on its own."
  else
    rm -f "$TMPOUT"
    echo "✖  Setup failed for $token."
  fi
}
"#;

/// The check script for `macos_updates`.
pub const CHECK_MACOS_UPDATES: &'static str = r#"
if command -v softwareupdate &>/dev/null; then
  updates=$(softwareupdate -l 2>&1)
  if echo "$updates" | grep -q "No new software available"; then
    echo "✔  macOS is up to date."
  else
    echo "$updates" | grep -E "^\s*\*|\bLabel\b|Title:" || echo "$updates" | grep -v "^Software Update Tool" | grep -v "^$"
  fi
else
  echo "✖  softwareupdate not found — not running on macOS"
fi
"#;

/// The check script for `brew_casks`.
pub const CHECK_BREW_CASKS: &'static str = r#"
if command -v brew &>/dev/null; then
  echo "→  Refreshing Homebrew…"
  brew update --quiet 2>/dev/null
  outdated=$(brew outdated --cask --greedy 2>/dev/null)
  if [ -z "$outdated" ]; then
    echo "✔  All Homebrew cask apps are up to date."
  else
    echo "⚠  Outdated apps:"
    echo "$outdated" | while read -r line; do echo "   $line"; done
  fi
else
  echo "✖  brew not found — install from https://brew.sh"
fi
"#;

/// The check script for `app_store`.
pub const CHECK_APP_STORE: &'static str = r#"
if command -v mas &>/dev/null; then
  outdated=$(mas outdated 2>/dev/null)
  if [ -z "$outdated" ]; then
    echo "✔  All App Store apps are up to date."
  else
    echo "⚠  Outdated App Store apps:"
    echo "$outdated" | while read -r line; do echo "   $line"; done
  fi
else
  echo "✖  mas not installed."
  echo "→  Install with: brew install mas"
fi
"#;

/// The check script for `untracked_apps`.
pub const CHECK_UNTRACKED_APPS: &'static str = r#"
cask_tokens=""
cask_apps=""
if command -v brew &>/dev/null; then
  cask_tokens=$(brew list --cask 2>/dev/null)
  if [ -n "$cask_tokens" ] && command -v jq &>/dev/null; then
    cask_apps=$(brew info --cask --json=v2 $cask_tokens 2>/dev/null \
      | jq -r '.casks[].artifacts[]?.app[]? | select(type=="string")' 2>/dev/null)
  fi
fi

is_tracked() {
  local app="$1"
  local base
  base=$(basename "$app")
  codesign -dvv "$app" 2>&1 | grep -q "Authority=Software Signing" && return 0
  [ -e "$app/Contents/_MASReceipt/receipt" ] && return 0
  [ -n "$cask_apps" ] && echo "$cask_apps" | grep -qxF "$base" && return 0
  local norm
  norm=$(echo "${base%.app}" | tr '[:upper:]' '[:lower:]' | tr -cd 'a-z0-9')
  local tok
  while IFS= read -r tok; do
    [ -z "$tok" ] && continue
    [ "$(echo "$tok" | tr -cd 'a-z0-9')" = "$norm" ] && return 0
  done <<< "$cask_tokens"
  return 1
}

untracked=0
SEEN=$(mktemp)

for app in "/Applications"/*.app; do
  [ -e "$app" ] || continue
  name="$(basename "$app" .app)"
  is_tracked "$app" && continue
  echo "⚠  $name"
  echo "$name" >> "$SEEN"
  untracked=1
done

if [ -d "$HOME/Applications" ]; then
  for app in "$HOME/Applications"/*.app; do
    [ -e "$app" ] || continue
    name="$(basename "$app" .app)"
    grep -qxF "$name" "$SEEN" 2>/dev/null && continue
    is_tracked "$app" && continue
    echo "⚠  $name [~/Applications]"
    untracked=1
  done
fi

rm -f "$SEEN"
[ "$untracked" -eq 0 ] && echo "✔  No untracked apps found."
"#;

/// The check script for `brew_formulae`.
pub const CHECK_BREW_FORMULAE: &'static str = r#"
if command -v brew &>/dev/null; then
  outdated=$(brew outdated --verbose 2>/dev/null)
  if [ -z "$outdated" ]; then
    echo "✔  All Homebrew formulae are up to date."
  else
    count=$(echo "$outdated" | grep -c '')
    echo "⚠  $count outdated formula(e):"
    echo "$outdated" | while read -r line; do echo "   $line"; done
    echo "→  To upgrade all: brew upgrade"
  fi
else
  echo "✖  brew not found"
fi
"#;

/// The check script for `npm_globals`.
pub const CHECK_NPM_GLOBALS: &'static str = r#"
if command -v npm &>/dev/null; then
  outdated=$(npm outdated -g --parseable 2>/dev/null)
  if [ -z "$outdated" ]; then
    echo "✔  All global npm packages are up to date."
  else
    count=$(echo "$outdated" | grep -c '')
    echo "⚠  $count outdated global package(s):"
    npm outdated -g 2>/dev/null | while read -r line; do echo "   $line"; done
    echo "→  To upgrade all: npm update -g"
  fi
else
  echo "✖  npm not found"
fi
"#;

/// The check script for `pip_packages`.
pub const CHECK_PIP_PACKAGES: &'static str = r#"
PIP_CMD=""
command -v pip3 &>/dev/null && PIP_CMD="pip3"
command -v pip  &>/dev/null && [ -z "$PIP_CMD" ] && PIP_CMD="pip"
if [ -n "$PIP_CMD" ]; then
  outdated=$($PIP_CMD list --outdated --format=columns 2>/dev/null | tail -n +3)
  if [ -z "$outdated" ]; then
    echo "✔  All pip packages are up to date."
  else
    count=$(echo "$outdated" | grep -c '')
    echo "⚠  $count outdated package(s):"
    echo "$outdated" | while read -r line; do echo "   $line"; done
    echo "→  Run '$PIP_CMD list --outdated' for full details"
  fi
else
  echo "✖  pip / pip3 not found"
fi
"#;

/// The check script for `ruby_rvm`.
pub const CHECK_RUBY_RVM: &'static str = r#"
if command -v rvm &>/dev/null || [ -s "$HOME/.rvm/scripts/rvm" ]; then
  [ -s "$HOME/.rvm/scripts/rvm" ] && source "$HOME/.rvm/scripts/rvm"
  if command -v rvm &>/dev/null; then
    echo "→  Installed Ruby versions:"
    rvm list 2>/dev/null | grep -v "^$" | while read -r line; do echo "   $line"; done
    latest_known=$(rvm list known 2>/dev/null | grep -E "^\[ruby-\]" | tail -1 | tr -d '[]')
    current=$(rvm current 2>/dev/null)
    if [ -n "$latest_known" ] && [ -n "$current" ]; then
      if [[ "$current" == *"$latest_known"* ]]; then
        echo "✔  Current ($current) matches latest ($latest_known)."
      else
        echo "⚠  Current: $current  |  Latest: $latest_known"
        echo "→  To upgrade: rvm install $latest_known"
      fi
    fi
    outdated_gems=$(gem outdated 2>/dev/null)
    if [ -z "$outdated_gems" ]; then
      echo "✔  All gems up to date."
    else
      count=$(echo "$outdated_gems" | grep -c '')
      echo "⚠  $count outdated gem(s). Run 'gem outdated' for full list."
    fi
  else
    echo "✖  rvm could not be sourced"
  fi
else
  echo "✖  rvm not found"
fi
"#;

/// The check script for `ruby_rbenv`.
pub const CHECK_RUBY_RBENV: &'static str = r#"
if command -v rbenv &>/dev/null; then
  echo "→  Installed Ruby versions:"
  rbenv versions 2>/dev/null | while read -r line; do echo "   $line"; done
  current=$(rbenv version 2>/dev/null | awk '{print $1}')
  echo "→  Active: $current"
  outdated_gems=$(gem outdated 2>/dev/null)
  if [ -z "$outdated_gems" ]; then
    echo "✔  All gems up to date."
  else
    count=$(echo "$outdated_gems" | grep -c '')
    echo "⚠  $count outdated gem(s). Run 'gem outdated' for full list."
  fi
else
  echo "✖  rbenv not found"
fi
"#;

/// The macOS heads-up dialog's command up to what is being installed.
pub const HEADS_UP_BEFORE: &'static str = r#"osascript -e 'display dialog "PartyMAN Update Manager is about to install "#;

/// The macOS heads-up dialog's command after what is being installed.
pub const HEADS_UP_AFTER: &'static str = r#".\n\nmacOS will now ask for your administrator password. Its prompt is shown by the system and may appear as \"osascript\"." with title "PartyMAN Update Manager" with icon note buttons {"Cancel", "Continue"} default button "Continue"' >/dev/null 2>&1 || { echo "✖  Update cancelled."; exit 0; }"#;

/// The Homebrew apps upgrade script up to the cask helpers.
pub const UPGRADE_BREW_CASKS_BEFORE: &'static str = r#"
export PATH="/opt/homebrew/bin:/usr/local/bin:$PATH"
if command -v brew &>/dev/null; then
  "#;

/// The Homebrew apps upgrade script after the cask helpers.
pub const UPGRADE_BREW_CASKS_AFTER: &'static str = r#"
  TMPOUT=$(mktemp)
  brew upgrade --cask --greedy 2>&1 | tee "$TMPOUT"
  grep "It seems the App source" "$TMPOUT" 2>/dev/null \
    | sed 's/Error: //;s/:.*//' | tr -d ' ' | while IFS= read -r tok; do
    [ -z "$tok" ] && continue
    echo "→  Retrying $tok in ~/Applications…"
    brew upgrade --cask --appdir "$HOME/Applications" "$tok" 2>&1
  done
  rm -f "$TMPOUT"
  echo "→  Homebrew cask upgrade complete."
else
  echo "✖  brew not found"
fi
"#;

/// The upgrade script for `app_store`.
pub const UPGRADE_APP_STORE: &'static str = r#"
echo "→  Opening App Store Updates…"
open "macappstores://showUpdatesPage"
echo "✔  App Store opened — please click Update next to each app."
"#;

/// The upgrade script for `brew_formulae`.
pub const UPGRADE_BREW_FORMULAE: &'static str = r#"
if command -v brew &>/dev/null; then
  brew upgrade 2>&1
  echo "→  Homebrew formulae upgrade complete."
else
  echo "✖  brew not found"
fi
"#;

/// The upgrade script for `npm_globals`.
pub const UPGRADE_NPM_GLOBALS: &'static str = r#"
if command -v npm &>/dev/null; then
  npm update -g 2>&1
  echo "→  npm global packages updated."
else
  echo "✖  npm not found"
fi
"#;

/// The upgrade script for `pip_packages`.
pub const UPGRADE_PIP_PACKAGES: &'static str = r#"
PIP_CMD=""
command -v pip3 &>/dev/null && PIP_CMD="pip3"
command -v pip  &>/dev/null && [ -z "$PIP_CMD" ] && PIP_CMD="pip"
if [ -n "$PIP_CMD" ]; then
  pkgs=$($PIP_CMD list --outdated --format=freeze 2>/dev/null | cut -d= -f1 | tr '\n' ' ')
  if [ -n "$pkgs" ]; then
    $PIP_CMD install --upgrade $pkgs 2>&1
    echo "→  pip packages updated."
  else
    echo "✔  Nothing to upgrade."
  fi
else
  echo "✖  pip / pip3 not found"
fi
"#;

/// The upgrade script for `ruby_rvm`.
pub const UPGRADE_RUBY_RVM: &'static str = r#"
[ -s "$HOME/.rvm/scripts/rvm" ] && source "$HOME/.rvm/scripts/rvm"
if command -v gem &>/dev/null; then
  gem update 2>&1
  echo "→  gems updated."
else
  echo "✖  gem not found"
fi
"#;

/// The upgrade script for `ruby_rbenv`.
pub const UPGRADE_RUBY_RBENV: &'static str = r#"
if command -v gem &>/dev/null; then
  gem update 2>&1
  echo "→  gems updated."
else
  echo "✖  gem not found"
fi
"#;

/// Printed before a macOS install, which runs with no live output.
pub const MACOS_INSTALLING_NOTE: &'static str = "echo '\u{2192}  Installing\u{2026} macOS runs this with no live progress, so this window may look idle for several minutes. Please wait for the completion message.'";

/// The install-everything step of the macOS upgrade, after the note.
pub const MACOS_INSTALL_ALL: &'static str = "\nosascript -e 'do shell script \"softwareupdate -ia --verbose\" with administrator privileges' 2>&1\necho '\u{2192}  macOS update complete.'";

/// What the heads-up names when every macOS update is installed.
pub const ALL_MACOS_UPDATES: &'static str = "your available macOS system updates";

pub const NEWLINE: &'static str = "\n";

/// The bash helper that recovers protected bundles.
pub fn protected_bundle_fn() -> (r: &'static str)
    ensures
        r@ == PROTECTED_BUNDLE_FN@,
{
    PROTECTED_BUNDLE_FN
}

/// The bash function that upgrades one cask.
pub fn brew_cask_upgrade_fn() -> (r: &'static str)
    ensures
        r@ == BREW_CASK_UPGRADE_FN@,
{
    BREW_CASK_UPGRADE_FN
}

/// The bash function that adopts one app into Homebrew.
pub fn adopt_cask_fn() -> (r: &'static str)
    ensures
        r@ == ADOPT_CASK_FN@,
{
    ADOPT_CASK_FN
}

/// The protected-bundle recovery followed by the single-cask upgrade that
/// depends on it.
pub open spec fn cask_fns_text() -> Seq<char> {
    PROTECTED_BUNDLE_FN@ + NEWLINE@ + BREW_CASK_UPGRADE_FN@
}

/// The cask helper bundle.
pub fn cask_fns() -> (r: String)
    ensures
        r@ == cask_fns_text(),
{
    let mut out = owned(PROTECTED_BUNDLE_FN);
    out.append(NEWLINE);
    out.append(BREW_CASK_UPGRADE_FN);
    out
}

/// The heading each section is logged under.
pub open spec fn label_of(section: Seq<char>) -> Seq<char> {
    if section == "macos_updates"@ {
        "OS System Updates"@
    } else if section == "app_store"@ {
        "App Store"@
    } else if section == "brew_casks"@ {
        "Homebrew Apps"@
    } else if section == "untracked_apps"@ {
        "Untracked Apps"@
    } else if section == "brew_formulae"@ {
        "brew"@
    } else if section == "npm_globals"@ {
        "npm"@
    } else if section == "pip_packages"@ {
        "pip"@
    } else if section == "ruby_rbenv"@ {
        "rbenv"@
    } else if section == "ruby_rvm"@ {
        "rvm"@
    } else {
        "Unknown"@
    }
}

/// The heading a section is logged under.
pub fn section_label(section: &str) -> (r: &'static str)
    ensures
        r@ == label_of(section@),
{
    if str_eq(section, "macos_updates") {
        "OS System Updates"
    } else if str_eq(section, "app_store") {
        "App Store"
    } else if str_eq(section, "brew_casks") {
        "Homebrew Apps"
    } else if str_eq(section, "untracked_apps") {
        "Untracked Apps"
    } else if str_eq(section, "brew_formulae") {
        "brew"
    } else if str_eq(section, "npm_globals") {
        "npm"
    } else if str_eq(section, "pip_packages") {
        "pip"
    } else if str_eq(section, "ruby_rbenv") {
        "rbenv"
    } else if str_eq(section, "ruby_rvm") {
        "rvm"
    } else {
        "Unknown"
    }
}

/// The check script of each known section.
pub open spec fn check_text(section: Seq<char>) -> Option<Seq<char>> {
    if section == "macos_updates"@ {
        Some(CHECK_MACOS_UPDATES@)
    } else if section == "brew_casks"@ {
        Some(CHECK_BREW_CASKS@)
    } else if section == "app_store"@ {
        Some(CHECK_APP_STORE@)
    } else if section == "untracked_apps"@ {
        Some(CHECK_UNTRACKED_APPS@)
    } else if section == "brew_formulae"@ {
        Some(CHECK_BREW_FORMULAE@)
    } else if section == "npm_globals"@ {
        Some(CHECK_NPM_GLOBALS@)
    } else if section == "pip_packages"@ {
        Some(CHECK_PIP_PACKAGES@)
    } else if section == "ruby_rvm"@ {
        Some(CHECK_RUBY_RVM@)
    } else if section == "ruby_rbenv"@ {
        Some(CHECK_RUBY_RBENV@)
    } else {
        None
    }
}

/// The script that checks a section, or `None` for an unknown section.
pub fn check_script(section: &str) -> (r: Option<&'static str>)
    ensures
        match r {
            Some(s) => check_text(section@) == Some(s@),
            None => check_text(section@) is None,
        },
{
    if str_eq(section, "macos_updates") {
        Some(CHECK_MACOS_UPDATES)
    } else if str_eq(section, "brew_casks") {
        Some(CHECK_BREW_CASKS)
    } else if str_eq(section, "app_store") {
        Some(CHECK_APP_STORE)
    } else if str_eq(section, "untracked_apps") {
        Some(CHECK_UNTRACKED_APPS)
    } else if str_eq(section, "brew_formulae") {
        Some(CHECK_BREW_FORMULAE)
    } else if str_eq(section, "npm_globals") {
        Some(CHECK_NPM_GLOBALS)
    } else if str_eq(section, "pip_packages") {
        Some(CHECK_PIP_PACKAGES)
    } else if str_eq(section, "ruby_rvm") {
        Some(CHECK_RUBY_RVM)
    } else if str_eq(section, "ruby_rbenv") {
        Some(CHECK_RUBY_RBENV)
    } else {
        None
    }
}

/// The heads-up dialog shown before macOS asks for a password, naming what
/// will be installed.
pub open spec fn heads_up_text(what: Seq<char>) -> Seq<char> {
    HEADS_UP_BEFORE@ + what + HEADS_UP_AFTER@
}

/// A bash line that shows the branded heads-up before the system's own
/// password prompt, and ends the script cleanly if the user cancels.
pub fn macos_heads_up(what: &str) -> (r: String)
    ensures
        r@ == heads_up_text(what@),
{
    let mut out = owned(HEADS_UP_BEFORE);
    out.append(what);
    out.append(HEADS_UP_AFTER);
    out
}

/// The upgrade script of each section that has one.
pub open spec fn upgrade_text(section: Seq<char>) -> Option<Seq<char>> {
    if section == "macos_updates"@ {
        Some(heads_up_text(ALL_MACOS_UPDATES@) + NEWLINE@ + MACOS_INSTALLING_NOTE@ + MACOS_INSTALL_ALL@)
    } else if section == "brew_casks"@ {
        Some(UPGRADE_BREW_CASKS_BEFORE@ + cask_fns_text() + UPGRADE_BREW_CASKS_AFTER@)
    } else if section == "app_store"@ {
        Some(UPGRADE_APP_STORE@)
    } else if section == "brew_formulae"@ {
        Some(UPGRADE_BREW_FORMULAE@)
    } else if section == "npm_globals"@ {
        Some(UPGRADE_NPM_GLOBALS@)
    } else if section == "pip_packages"@ {
        Some(UPGRADE_PIP_PACKAGES@)
    } else if section == "ruby_rvm"@ {
        Some(UPGRADE_RUBY_RVM@)
    } else if section == "ruby_rbenv"@ {
        Some(UPGRADE_RUBY_RBENV@)
    } else {
        None
    }
}

/// The script that upgrades everything in a section, or `None` for a section
/// with no upgrade (untracked apps, unknown names).
pub fn upgrade_script(section: &str) -> (r: Option<String>)
    ensures
        match r {
            Some(s) => upgrade_text(section@) == Some(s@),
            None => upgrade_text(section@) is None,
        },
{
    if str_eq(section, "macos_updates") {
        let mut out = macos_heads_up(ALL_MACOS_UPDATES);
        out.append(NEWLINE);
        out.append(MACOS_INSTALLING_NOTE);
        out.append(MACOS_INSTALL_ALL);
        Some(out)
    } else if str_eq(section, "brew_casks") {
        let mut out = owned(UPGRADE_BREW_CASKS_BEFORE);
        out.append(cask_fns().as_str());
        out.append(UPGRADE_BREW_CASKS_AFTER);
        Some(out)
    } else if str_eq(section, "app_store") {
        Some(owned(UPGRADE_APP_STORE))
    } else if str_eq(section, "brew_formulae") {
        Some(owned(UPGRADE_BREW_FORMULAE))
    } else if str_eq(section, "npm_globals") {
        Some(owned(UPGRADE_NPM_GLOBALS))
    } else if str_eq(section, "pip_packages") {
        Some(owned(UPGRADE_PIP_PACKAGES))
    } else if str_eq(section, "ruby_rvm") {
        Some(owned(UPGRADE_RUBY_RVM))
    } else if str_eq(section, "ruby_rbenv") {
        Some(owned(UPGRADE_RUBY_RBENV))
    } else {
        None
    }
}

/// `c` as it may stand in the password dialog's label: backslashes and double
/// quotes dropped (they would break the AppleScript string), single quotes
/// closed, escaped and reopened for the single-quoted shell export.
pub open spec fn scope_char(c: char) -> Seq<char> {
    if c == '\\' || c == '"' {
        Seq::empty()
    } else if c == '\'' {
        "'\\''"@
    } else {
        seq![c]
    }
}

pub open spec fn scope_escaped(s: Seq<char>) -> Seq<char>
    decreases s.len(),
{
    if s.len() == 0 {
        Seq::empty()
    } else {
        scope_escaped(s.drop_last()) + scope_char(s.last())
    }
}

/// The dialog's label can break neither the AppleScript string nor the
/// single-quoted shell word it goes into: it holds no double quote, and a
/// backslash appears in it only inside the escape `'\''` of a single quote.
pub proof fn law_scope_label_is_quote_safe(s: Seq<char>)
    ensures
        forall|i: int| 0 <= i < scope_escaped(s).len() ==> #[trigger] scope_escaped(s)[i] != '"',
        forall|i: int|
            0 <= i < scope_escaped(s).len() && #[trigger] scope_escaped(s)[i] == '\\' ==> {
                &&& 0 < i < scope_escaped(s).len() - 1
                &&& scope_escaped(s)[i - 1] == '\''
                &&& scope_escaped(s)[i + 1] == '\''
            },
    decreases s.len(),
{
    reveal_strlit("'\\''");
    if s.len() > 0 {
        law_scope_label_is_quote_safe(s.drop_last());
        let a = scope_escaped(s.drop_last());
        let b = scope_char(s.last());
        let e = scope_escaped(s);
        assert(e == a + b);
        assert forall|i: int| 0 <= i < e.len() implies #[trigger] e[i] != '"' by {
            if i < a.len() {
                assert(e[i] == a[i]);
            } else {
                assert(e[i] == b[i - a.len()]);
            }
        }
        assert forall|i: int| 0 <= i < e.len() && #[trigger] e[i] == '\\' implies {
            &&& 0 < i < e.len() - 1
            &&& e[i - 1] == '\''
            &&& e[i + 1] == '\''
        } by {
            if i < a.len() {
                assert(e[i] == a[i]);
                assert(a[i] == '\\');
                assert(e[i - 1] == a[i - 1]);
                assert(e[i + 1] == a[i + 1]);
            } else {
                assert(e[i] == b[i - a.len()]);
                assert(e[i - 1] == b[i - 1 - a.len()]);
                assert(e[i + 1] == b[i + 1 - a.len()]);
            }
        }
    }
}

/// What the one password dialog of a batch names: the app itself when there
/// is one, otherwise how many.
pub open spec fn scope_raw(names: Seq<Seq<char>>) -> Seq<char> {
    if names.len() == 1 {
        names[0]
    } else {
        "these "@ + decimal(names.len()) + " apps"@
    }
}

/// The label of the password dialog that covers a whole batch.
pub fn askpass_scope(names: &[String]) -> (r: String)
    ensures
        r@ == scope_escaped(scope_raw(names@.map_values(|n: String| n@))),
{
    let raw = if names.len() == 1 {
        owned(names[0].as_str())
    } else {
        let mut s = owned("these ");
        s.append(decimal_string(names.len() as u64).as_str());
        s.append(" apps");
        s
    };
    assert(raw@ == scope_raw(names@.map_values(|n: String| n@)));
    let n = raw.unicode_len();
    let mut out = String::new();
    let mut i: usize = 0;
    assert(raw@.take(0) =~= Seq::<char>::empty());
    while i < n
        invariant
            n == raw@.len(),
            i <= n,
            out@ == scope_escaped(raw@.take(i as int)),
        decreases n - i,
    {
        let c = raw.as_str().get_char(i);
        let ghost t = raw@.take(i + 1);
        assert(t.drop_last() =~= raw@.take(i as int));
        assert(t.last() == c);
        if c == '\\' || c == '"' {
            assert(out@ + Seq::<char>::empty() =~= out@);
        } else if c == '\'' {
            out.append("'\\''");
        } else {
            let one = raw.as_str().substring_char(i, i + 1);
            assert(one@ =~= seq![c]);
            out.append(one);
        }
        i = i + 1;
    }
    assert(raw@.take(n as int) =~= raw@);
    out
}

} // verus!
