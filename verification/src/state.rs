//! What the proxy is started with.
use crate::access::IpAddress;
use crate::paths::{BasePath, BaseView};
use vstd::prelude::*;

verus! {

/// The settings that every request is handled under.
pub struct AppState {
    /// The token that goes before one in a request.
    pub default_token: Option<String>,
    /// The directory that downloads for the profile go below.
    pub profile_path: Option<BasePath>,
    /// The directory that downloads for the mission go below.
    pub mission_path: Option<BasePath>,
    /// The clients that may ask.
    pub allowed_ips: Vec<IpAddress>,
}

/// What the settings say.
pub struct AppStateView {
    pub default_token: Option<Seq<char>>,
    pub profile_path: Option<BaseView>,
    pub mission_path: Option<BaseView>,
    pub allowed_ips: Seq<IpAddress>,
}

/// The text of an optional string.
pub open spec fn optional_text(text: Option<String>) -> Option<Seq<char>> {
    match text {
        Some(t) => Some(t@),
        None => None,
    }
}

/// What an optional base directory's path says.
pub open spec fn optional_base(base: Option<BasePath>) -> Option<BaseView> {
    match base {
        Some(b) => Some(b@),
        None => None,
    }
}

impl View for AppState {
    type V = AppStateView;

    open spec fn view(&self) -> AppStateView {
        AppStateView {
            default_token: optional_text(self.default_token),
            profile_path: optional_base(self.profile_path),
            mission_path: optional_base(self.mission_path),
            allowed_ips: self.allowed_ips@,
        }
    }
}

/// Whether TLS is on, given whether a certificate and a key were named. Only one of them is a
/// mistake, which has no answer.
pub fn tls_enabled(has_cert: bool, has_key: bool) -> (enabled: Option<bool>)
    ensures
        enabled == (if has_cert == has_key {
            Some(has_cert)
        } else {
            None
        }),
{
    match (has_cert, has_key) {
        (true, true) => Some(true),
        (false, false) => Some(false),
        _ => None,
    }
}

/// What is said of the settings is said of all that was set.
pub proof fn law_settings_are_seen_whole(state: AppState)
    ensures
        state@.default_token is Some <==> state.default_token is Some,
        state.default_token matches Some(token) ==> state@.default_token == Some(token@),
        state@.profile_path is Some <==> state.profile_path is Some,
        state.profile_path matches Some(base) ==> state@.profile_path == Some(base@),
        state@.mission_path is Some <==> state.mission_path is Some,
        state.mission_path matches Some(base) ==> state@.mission_path == Some(base@),
        state@.allowed_ips == state.allowed_ips@,
{
}

} // verus!
