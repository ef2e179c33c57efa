//! Server-side session management: opaque session identifiers, a pluggable
//! session store with an in-memory backend, per-request lifecycle handling
//! (load-or-create, mutation tracking, rotation, invalidation), and rendering
//! of the `Set-Cookie` header that carries the session reference.

mod ci_paths;
mod config;
mod cookie;
mod id;
mod manager;
mod state;
mod store;

pub use ci_paths::pavex_path;
pub use ci_paths::pavexc_path;
pub use config::CookieConfigView;
pub use config::SameSite;
pub use config::SessionCookieConfig;
pub use config::SessionCookieKind;
pub use config::default_config_view;
pub use config::default_session_cookie_http_only;
pub use config::default_session_cookie_name;
pub use config::default_session_cookie_path;
pub use config::default_session_cookie_same_site;
pub use config::default_session_cookie_secure;
pub use cookie::dec_of;
pub use cookie::lemma_default_config_header;
pub use cookie::render_expired_cookie;
pub use cookie::render_set_cookie;
pub use cookie::render_spec;
pub use cookie::u64_to_dec;
pub use id::SESSION_ID_BYTES;
pub use id::SessionId;
pub use id::bytes_of_hex;
pub use id::hex_of;
pub use id::is_valid_id_encoding;
pub use id::lemma_bytes_of_hex_inverts;
pub use id::lemma_hex_of_inverts;
pub use manager::Session;
pub use manager::begin;
pub use manager::finish;
pub use manager::kind_max_age;
pub use manager::lemma_invalidation_effect;
pub use manager::lemma_rotation_effect;
pub use manager::lemma_session_id_len;
pub use manager::presented_id;
pub use manager::presents_live_session;
pub use manager::saved_like;
pub use manager::saved_like_id;
pub use manager::saved_view;
pub use state::SessionState;
pub use store::InMemoryStore;
pub use store::SessionError;
pub use store::SessionRecord;
pub use store::SessionRecordView;
pub use store::SessionStore;
pub use store::live;
