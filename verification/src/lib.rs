//! Security-and-lifecycle boundary for a desktop shell that embeds
//! third-party web content as child surfaces.
//!
//! The crate holds the registry of embedded web surfaces (creation,
//! navigation, destruction, trust tracking) together with the two
//! gatekeeping policies that protect it: outbound URL validation and
//! filesystem path confinement, the latter applied through the
//! filesystem mutation gate. Policies are stateless; the registry is
//! the single source of truth for which surfaces exist and whether
//! they may be scripted.

pub mod fs_gate;
pub mod git_status;
pub mod path_policy;
pub mod registry;
pub mod text;
pub mod url_parse;
pub mod url_policy;
pub mod window_effects;
