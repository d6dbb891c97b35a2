//! Which windowing backend draws the overlay.
use vstd::prelude::*;

use crate::text::same_text;

verus! {

/// The windowing backend.
#[derive(Clone, Copy, PartialEq, Eq, Debug)]
pub enum Backend {
    /// Wayland with wlr-layer-shell (wlroots compositors, KDE, Mir).
    LayerShell,
    /// Wayland without layer-shell (GNOME Mutter): a plain fullscreen window.
    XdgFallback,
    /// X11 (Xorg or XWayland games).
    X11,
}

/// The backend for this session: `GDK_BACKEND=x11` forces X11 (for
/// XWayland/Xorg games); otherwise Wayland when `WAYLAND_DISPLAY` is set,
/// on the layer shell when the compositor supports it (asked only then),
/// and X11 when only `DISPLAY` is set. `None`: no display at all.
pub fn detect<F: Fn() -> bool>(
    gdk_backend: Option<&str>,
    wayland_display: bool,
    x_display: bool,
    layer_shell_supported: F,
) -> (b: Option<Backend>)
    requires
        call_requires(layer_shell_supported, ()),
    ensures
        if gdk_backend matches Some(g) && g@ == "x11"@ {
            b == Some(Backend::X11)
        } else if wayland_display {
            b == Some(Backend::LayerShell) && call_ensures(layer_shell_supported, (), true) || b
                == Some(Backend::XdgFallback) && call_ensures(layer_shell_supported, (), false)
        } else if x_display {
            b == Some(Backend::X11)
        } else {
            b is None
        },
{
    if let Some(g) = gdk_backend {
        if same_text(g, "x11") {
            return Some(Backend::X11);
        }
    }
    if wayland_display {
        return if layer_shell_supported() {
            Some(Backend::LayerShell)
        } else {
            Some(Backend::XdgFallback)
        };
    }
    if x_display {
        return Some(Backend::X11);
    }
    None
}

} // verus!
