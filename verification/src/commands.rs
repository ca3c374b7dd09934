//! The shell commands that a deployment runs, as text.

use crate::settings::LARAVEL_PROJECT_PATH;
use crate::text::{chars_of, slice_chars, string_of};
use vstd::prelude::*;

verus! {

/// The text of the command that clones the repository at `repo_url` into
/// the project directory.
pub open spec fn clone_command_text(repo_url: Seq<char>) -> Seq<char> {
    "mkdir -p "@ + LARAVEL_PROJECT_PATH@ + " && git clone "@ + repo_url + " "@
        + LARAVEL_PROJECT_PATH@
}

/// The text of the command that installs the packages of the operating
/// system and of the runtime.
pub open spec fn install_command_text() -> Seq<char> {
    "apt update -y && apt install -y git php8.3 php8.3-cli php8.3-fpm php8.3-sqlite3 php8.3-mbstring php8.3-xml php8.3-curl php8.3-zip php8.3-gd php8.3-bcmath php8.3-intl php8.3-soap php8.3-opcache caddy composer"@
}

/// The text of the command that prepares the cloned project: its
/// dependencies, its key, its database, its storage link and the ownership
/// and permissions of its files.
pub open spec fn bootstrap_command_text() -> Seq<char> {
    "cd "@ + LARAVEL_PROJECT_PATH@
        + " && composer --no-interaction install && php artisan key:generate --force && touch database/database.sqlite && php artisan migrate --force && php artisan db:seed --force && php artisan storage:link && chown -R www-data:www-data "@
        + LARAVEL_PROJECT_PATH@ + " && chmod -R 775 "@ + LARAVEL_PROJECT_PATH@
        + "/storage && chmod -R 775 "@ + LARAVEL_PROJECT_PATH@ + "/bootstrap/cache"@
}

/// `path` up to its last `/`, which is left out; empty where `path` holds
/// no `/`.
pub open spec fn parent_of(path: Seq<char>) -> Seq<char>
    decreases path.len(),
{
    if path.len() == 0 {
        path
    } else if path.last() == '/' {
        path.drop_last()
    } else {
        parent_of(path.drop_last())
    }
}

/// What follows the last `/` of `path` holds no `/`, and `parent_of` is what
/// stands before that `/`.
pub proof fn lemma_parent_of(path: Seq<char>, k: int)
    requires
        0 <= k <= path.len(),
        forall|j: int| k <= j < path.len() ==> path[j] != '/',
        k == 0 || path[k - 1] == '/',
    ensures
        parent_of(path) == path.take(if k == 0 { 0 } else { k - 1 }),
    decreases path.len() - k,
{
    if k < path.len() {
        lemma_parent_of(path.drop_last(), k);
    }
}

/// The command that clones the repository at `repo_url` into the project
/// directory, which it creates first.
pub fn clone_command(repo_url: &str) -> (command: String)
    ensures
        command@ == clone_command_text(repo_url@),
{
    String::from_str("mkdir -p ").concat(LARAVEL_PROJECT_PATH).concat(" && git clone ").concat(
        repo_url,
    ).concat(" ").concat(LARAVEL_PROJECT_PATH)
}

/// The command that installs the packages of the operating system and of
/// the runtime.
pub fn install_command() -> (command: String)
    ensures
        command@ == install_command_text(),
{
    String::from_str(
        "apt update -y && apt install -y git php8.3 php8.3-cli php8.3-fpm php8.3-sqlite3 php8.3-mbstring php8.3-xml php8.3-curl php8.3-zip php8.3-gd php8.3-bcmath php8.3-intl php8.3-soap php8.3-opcache caddy composer",
    )
}

/// The command that prepares the cloned project.
pub fn bootstrap_command() -> (command: String)
    ensures
        command@ == bootstrap_command_text(),
{
    String::from_str("cd ").concat(LARAVEL_PROJECT_PATH).concat(
        " && composer --no-interaction install && php artisan key:generate --force && touch database/database.sqlite && php artisan migrate --force && php artisan db:seed --force && php artisan storage:link && chown -R www-data:www-data ",
    ).concat(LARAVEL_PROJECT_PATH).concat(" && chmod -R 775 ").concat(LARAVEL_PROJECT_PATH).concat(
        "/storage && chmod -R 775 ",
    ).concat(LARAVEL_PROJECT_PATH).concat("/bootstrap/cache")
}

/// The directory that holds `path`: `path` up to its last `/`.
pub fn parent_path(path: &str) -> (parent: String)
    ensures
        parent@ == parent_of(path@),
{
    let chars = chars_of(path);
    let mut k: usize = chars.len();
    while k > 0 && chars[k - 1] != '/'
        invariant
            k <= chars.len(),
            forall|j: int| k <= j < chars.len() ==> chars@[j] != '/',
        decreases k,
    {
        k -= 1;
    }
    proof {
        lemma_parent_of(chars@, k as int);
    }
    let end: usize = if k == 0 { 0 } else { k - 1 };
    let parent = slice_chars(&chars, 0, end);
    string_of(&parent)
}

} // verus!
