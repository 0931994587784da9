//! What the host that WasmOS runs on can offer.
use vstd::prelude::*;

verus! {

#[derive(Debug, Clone, Copy, PartialEq, Eq, Structural)]
pub enum HostKind {
    Desktop,
    Browser,
    Unknown,
}

#[derive(Debug, Clone, Copy, PartialEq, Eq, Structural)]
pub struct HostCapabilities {
    pub file_mapping: bool,
    pub tcp: bool,
    pub http: bool,
    pub websocket: bool,
    pub windowing: bool,
}

#[derive(Debug, Clone, Copy, PartialEq, Eq, Structural)]
pub struct HostBridge {
    kind: HostKind,
    capabilities: HostCapabilities,
}

/// The host as it is detected: a browser when built for `wasm32`, a desktop
/// otherwise; only a desktop maps files and opens raw TCP sockets.
pub open spec fn detected(is_wasm32: bool) -> (HostKind, HostCapabilities) {
    (
        if is_wasm32 {
            HostKind::Browser
        } else {
            HostKind::Desktop
        },
        HostCapabilities {
            file_mapping: !is_wasm32,
            tcp: !is_wasm32,
            http: true,
            websocket: true,
            windowing: true,
        },
    )
}

impl HostBridge {
    pub closed spec fn spec_kind(&self) -> HostKind {
        self.kind
    }

    pub closed spec fn spec_capabilities(&self) -> HostCapabilities {
        self.capabilities
    }

    /// The host for a build that does or does not target `wasm32` (the
    /// caller tells which, as the build knows it).
    pub fn detect(is_wasm32: bool) -> (h: Self)
        ensures
            (h.spec_kind(), h.spec_capabilities()) == detected(is_wasm32),
    {
        let kind = if is_wasm32 {
            HostKind::Browser
        } else {
            HostKind::Desktop
        };
        HostBridge {
            kind,
            capabilities: HostCapabilities {
                file_mapping: !is_wasm32,
                tcp: !is_wasm32,
                http: true,
                websocket: true,
                windowing: true,
            },
        }
    }

    pub fn kind(&self) -> (k: &HostKind)
        ensures
            *k == self.spec_kind(),
    {
        &self.kind
    }

    pub fn capabilities(&self) -> (c: &HostCapabilities)
        ensures
            *c == self.spec_capabilities(),
    {
        &self.capabilities
    }
}

} // verus!
