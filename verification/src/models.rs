//! The data shapes the host and the user interface exchange:
//! configuration, clients and file listings. The host keeps its own
//! serializable mirrors of these; here they are plain values.

use vstd::prelude::*;

verus! {

/// A window size in logical pixels.
#[derive(Debug, Clone, PartialEq, Eq, Structural)]
pub struct Resolution {
    /// Width in logical pixels.
    pub width: u32,
    /// Height in logical pixels.
    pub height: u32,
}

/// The user-editable application configuration.
#[derive(Debug, Clone)]
pub struct AppConfig {
    /// Base interface colour.
    pub primary_color: String,
    /// Border colour.
    pub border_color: String,
    /// Accent colour.
    pub accent_color: String,
    /// Warning colour.
    pub warning_color: String,
    /// The module shown on start.
    pub current_module: String,
    /// Whether the shown module is remembered across restarts.
    pub remember_module: bool,
    /// Whether paths are shown lower-cased.
    pub lowercase_path: bool,
    /// The window size to restore.
    pub resolution: Resolution,
}

impl Default for AppConfig {
    /// The configuration a fresh installation starts from.
    fn default() -> (r: AppConfig)
        ensures
            r.primary_color@ == ("#111b23")@,
            r.border_color@ == ("rgba(124, 124, 124, 0.33)")@,
            r.accent_color@ == ("#2fa5a2")@,
            r.warning_color@ == ("#ff6b6b")@,
            r.current_module@ == ("M-Inicio")@,
            r.remember_module,
            !r.lowercase_path,
            r.resolution == (Resolution { width: 1000, height: 600 }),
    {
        AppConfig {
            primary_color: String::from_str("#111b23"),
            border_color: String::from_str("rgba(124, 124, 124, 0.33)"),
            accent_color: String::from_str("#2fa5a2"),
            warning_color: String::from_str("#ff6b6b"),
            current_module: String::from_str("M-Inicio"),
            remember_module: true,
            lowercase_path: false,
            resolution: Resolution { width: 1000, height: 600 },
        }
    }
}

/// One client folder under the user data root.
#[derive(Debug, Clone)]
pub struct Client {
    /// The folder's name.
    pub name: String,
    /// Whether it is pinned ahead of the others.
    pub pinned: bool,
}

/// One entry of a file listing.
#[derive(Debug, Clone)]
pub struct FileItem {
    /// The entry's name.
    pub name: String,
    /// Its full path.
    pub path: String,
    /// Whether it is a directory.
    pub is_dir: bool,
    /// How many entries a directory holds.
    pub item_count: usize,
    /// Size in bytes.
    pub size: u64,
    /// Modification time, seconds since the epoch.
    pub mtime: i64,
    /// Displayed date, seconds since the epoch.
    pub date: i64,
    /// Whether sidecar metadata exists for it.
    pub has_metadata: bool,
    /// The kind its leading bytes suggest, for display.
    pub detected_type: String,
}

/// Sidecar metadata a listing entry may carry.
#[derive(Debug, Clone)]
pub struct Metadata {
    /// A recorded date, seconds since the epoch.
    pub fecha: Option<i64>,
    /// An alternative recorded date, seconds since the epoch.
    pub date: Option<i64>,
    /// Whether the entry is pinned.
    pub pin: Option<bool>,
}

} // verus!
