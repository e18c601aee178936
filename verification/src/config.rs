//! The settings of the application that touch on security.

pub mod themes;

use vstd::prelude::*;

verus! {

/// Seconds without input after which the application locks itself.
pub const DEFAULT_AUTO_LOCK_TIMEOUT: u32 = 300;

/// How careful the application is.
#[derive(Debug, Clone, Copy, PartialEq, Eq, Structural)]
pub struct SecurityConfig {
    pub auto_lock_timeout: u32,
    pub require_password_on_startup: bool,
    pub ssh_key_passphrase_cache: bool,
    pub verify_host_keys: bool,
    pub strict_host_key_checking: bool,
}

impl Default for SecurityConfig {
    /// Host keys are verified strictly; no password is asked at startup and
    /// no passphrase is kept.
    fn default() -> (r: SecurityConfig)
        ensures
            r == (SecurityConfig {
                auto_lock_timeout: DEFAULT_AUTO_LOCK_TIMEOUT,
                require_password_on_startup: false,
                ssh_key_passphrase_cache: false,
                verify_host_keys: true,
                strict_host_key_checking: true,
            }),
    {
        SecurityConfig {
            auto_lock_timeout: DEFAULT_AUTO_LOCK_TIMEOUT,
            require_password_on_startup: false,
            ssh_key_passphrase_cache: false,
            verify_host_keys: true,
            strict_host_key_checking: true,
        }
    }
}

} // verus!
