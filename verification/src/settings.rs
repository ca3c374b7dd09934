//! The fixed settings of a deployment: where the project lives on the
//! target machine, which files are written, and the proxy configuration
//! that is rendered for it.

use vstd::prelude::*;

verus! {

/// The directory that the repository is cloned into.
pub const LARAVEL_PROJECT_PATH: &'static str = "/var/www/laravel";

/// The proxy configuration file that is written for the site.
pub const CADDY_FILE_PATH: &'static str = "/etc/caddy/Caddyfile";

/// The proxy configuration before rendering. It names the domain, the two
/// Reverb ports and the project directory by placeholder.
pub const CADDY_FILE_TEMPLATE: &'static str = "{{DOMAIN}} {
    root * {{LARAVEL_PROJECT_PATH}}/public
    encode zstd gzip
    php_fastcgi unix//run/php/php8.3-fpm.sock
    file_server
}

{{DOMAIN}}:{{REVERB_PORT}} {
    reverse_proxy 127.0.0.1:{{REVERB_SERVER_PORT}}
}
";

/// The port that Reverb is reached on where the environment names none.
pub const DEFAULT_REVERB_PORT: &'static str = "8001";

/// The port that the Reverb server listens on where the environment names
/// none.
pub const DEFAULT_REVERB_SERVER_PORT: &'static str = "8002";

/// The text of the path of the example environment file, which lists the
/// keys that the project expects.
pub open spec fn env_example_path_text() -> Seq<char> {
    LARAVEL_PROJECT_PATH@ + "/.env.example"@
}

/// The text of the path of the environment file.
pub open spec fn env_file_path_text() -> Seq<char> {
    LARAVEL_PROJECT_PATH@ + "/.env"@
}

/// The path of the example environment file.
pub fn env_example_path() -> (path: String)
    ensures
        path@ == env_example_path_text(),
{
    String::from_str(LARAVEL_PROJECT_PATH).concat("/.env.example")
}

/// The path of the environment file.
pub fn env_file_path() -> (path: String)
    ensures
        path@ == env_file_path_text(),
{
    String::from_str(LARAVEL_PROJECT_PATH).concat("/.env")
}

} // verus!
