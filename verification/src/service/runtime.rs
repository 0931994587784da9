//! Launching a desktop task: only WebAssembly programs start, and each start
//! gives the app its folders, its network policy and its window session.
use crate::service::gui::GuiBroker;
use crate::service::net::NetManager;
use crate::service::scheduler::{TaskRecord, TaskState};
use crate::service::vfs::{FsRefusal, VirtualFileSystem, app_gate, normalized, refusal_text};
use crate::text::{has_suffix, text_ends_with};
use vstd::prelude::*;

verus! {

/// How the engine that compiles and runs guest code is configured.
#[derive(Debug, Clone, Copy)]
pub struct EngineSettings {
    pub async_support: bool,
    pub component_model: bool,
    pub consume_fuel: bool,
}

/// The desktop's engine: asynchronous calls, the component model and fuel
/// metering, all switched on.
pub open spec fn desktop_engine_settings() -> EngineSettings {
    EngineSettings { async_support: true, component_model: true, consume_fuel: true }
}

impl EngineSettings {
    /// The settings the desktop's engine is made with.
    pub fn desktop() -> (s: Self)
        ensures
            s == desktop_engine_settings(),
    {
        EngineSettings { async_support: true, component_model: true, consume_fuel: true }
    }
}

/// An engine together with the settings it was made with.
pub struct GuestEngine {
    pub engine: wasmtime::Engine,
    pub settings: EngineSettings,
}

/// Makes an engine (`wasmtime::Engine::new`) on a `wasmtime::Config` whose
/// `async_support`, `wasm_component_model` and `consume_fuel` switches are
/// set from `settings`, and keeps the settings beside it. Whether the engine
/// can be made depends on the machine, so nothing is claimed of that.
#[verifier::external_body]
fn guest_engine(settings: &EngineSettings) -> (r: Result<GuestEngine, anyhow::Error>)
    ensures
        r matches Ok(e) ==> e.settings == *settings,
{
    let mut config = wasmtime::Config::new();
    config.async_support(settings.async_support);
    config.wasm_component_model(settings.component_model);
    config.consume_fuel(settings.consume_fuel);
    match wasmtime::Engine::new(&config) {
        Ok(engine) => Ok(GuestEngine { engine, settings: *settings }),
        Err(e) => Err(e),
    }
}

/// What a launch hands back: the state the task starts in.
#[derive(Debug)]
pub struct RuntimeTicket {
    pub state: TaskState,
}

/// Why a launch failed.
#[derive(Debug)]
pub enum LaunchError {
    NotWasm,
    Fs(FsRefusal),
}

pub open spec fn launch_error_text(e: LaunchError) -> Seq<char> {
    match e {
        LaunchError::NotWasm => "program must be a .wasm module"@,
        LaunchError::Fs(f) => refusal_text(f),
    }
}

impl LaunchError {
    /// The message the error is reported with.
    pub fn message(&self) -> (s: String)
        ensures
            s@ == launch_error_text(*self),
    {
        match self {
            LaunchError::NotWasm => "program must be a .wasm module".to_string(),
            LaunchError::Fs(e) => e.message(),
        }
    }
}

/// The engine and the subsystems a task is launched against.
pub struct RuntimeHost {
    engine: GuestEngine,
    vfs: VirtualFileSystem,
    net: NetManager,
    gui: GuiBroker,
}

/// `post` is `pre` after an app was given its folders and its session.
pub open spec fn app_prepared(pre: RuntimeHost, post: RuntimeHost, app_id: Seq<char>) -> bool {
    &&& post.fs().files() == pre.fs().files()
    &&& post.fs().dirs() == pre.fs().dirs().insert(normalized("/apps/"@ + app_id)).insert(
        normalized("/data/apps"@),
    ).insert(normalized("/data/apps/"@ + app_id))
    &&& post.network() == pre.network()
    &&& post.windows().events() == pre.windows().events()
    &&& if pre.windows().sessions().dom().contains(app_id) {
        post.windows().sessions() == pre.windows().sessions()
    } else {
        post.windows().sessions() == pre.windows().sessions().insert(
            app_id,
            (app_id, Seq::<(Seq<char>, Seq<char>, u32, u32)>::empty()),
        )
    }
}

impl RuntimeHost {
    pub closed spec fn wf(&self) -> bool {
        self.vfs.wf() && self.net.wf() && self.gui.wf()
    }

    /// The settings its engine was made with.
    pub closed spec fn engine_settings(&self) -> EngineSettings {
        self.engine.settings
    }

    /// The filesystem.
    pub closed spec fn fs(&self) -> VirtualFileSystem {
        self.vfs
    }

    /// The allowlists.
    pub closed spec fn network(&self) -> NetManager {
        self.net
    }

    /// The window sessions.
    pub closed spec fn windows(&self) -> GuiBroker {
        self.gui
    }

    /// A host over the given subsystems, with a new engine made with the
    /// desktop's settings.
    pub fn new(vfs: VirtualFileSystem, net: NetManager, gui: GuiBroker) -> (r: Result<
        Self,
        anyhow::Error,
    >)
        requires
            vfs.wf(),
            net.wf(),
            gui.wf(),
        ensures
            r matches Ok(h) ==> h.wf() && h.fs() == vfs && h.network() == net && h.windows() == gui
                && h.engine_settings() == desktop_engine_settings(),
    {
        let settings = EngineSettings::desktop();
        Self::with_engine(guest_engine(&settings), vfs, net, gui)
    }

    /// A host over the given subsystems and the outcome of making its engine:
    /// the host when the engine was made, the engine's error otherwise.
    pub fn with_engine(
        engine: Result<GuestEngine, anyhow::Error>,
        vfs: VirtualFileSystem,
        net: NetManager,
        gui: GuiBroker,
    ) -> (r: Result<Self, anyhow::Error>)
        requires
            vfs.wf(),
            net.wf(),
            gui.wf(),
        ensures
            r is Ok <==> engine is Ok,
            r matches Ok(h) ==> h.wf() && h.fs() == vfs && h.network() == net && h.windows() == gui
                && h.engine_settings() == engine->Ok_0.settings,
            r matches Err(e) ==> engine == Err::<GuestEngine, anyhow::Error>(e),
    {
        match engine {
            Ok(engine) => Ok(RuntimeHost { engine, vfs, net, gui }),
            Err(e) => Err(e),
        }
    }

    /// The filesystem.
    pub fn vfs(&self) -> (v: &VirtualFileSystem)
        ensures
            *v == self.fs(),
            self.wf() ==> v.wf(),
    {
        &self.vfs
    }

    /// The allowlists.
    pub fn net(&self) -> (v: &NetManager)
        ensures
            *v == self.network(),
    {
        &self.net
    }

    /// The window sessions.
    pub fn gui(&self) -> (v: &GuiBroker)
        ensures
            *v == self.windows(),
    {
        &self.gui
    }

    /// Stores a file in the filesystem.
    pub fn write_file(&mut self, path: &str, contents: Vec<u8>) -> (r: Result<(), FsRefusal>)
        requires
            old(self).wf(),
        ensures
            final(self).wf(),
            final(self).network() == old(self).network(),
            final(self).windows() == old(self).windows(),
            old(self).fs().write_file_effect(final(self).fs(), path@, contents, r),
    {
        self.vfs.write_file(path, contents)
    }

    /// Removes a file or directory from the filesystem.
    pub fn delete(&mut self, path: &str) -> (r: Result<(), FsRefusal>)
        requires
            old(self).wf(),
        ensures
            final(self).wf(),
            final(self).network() == old(self).network(),
            final(self).windows() == old(self).windows(),
            old(self).fs().delete_effect(final(self).fs(), path@, r),
    {
        self.vfs.delete(path)
    }

    /// Hands out the waiting GUI events.
    pub fn drain_events(&mut self) -> (v: Vec<serde_json::Value>)
        requires
            old(self).wf(),
        ensures
            final(self).wf(),
            v@ == old(self).windows().events(),
            final(self).windows().events() == Seq::<serde_json::Value>::empty(),
            final(self).windows().sessions() == old(self).windows().sessions(),
            final(self).fs() == old(self).fs(),
            final(self).network() == old(self).network(),
    {
        self.gui.drain_events()
    }

    /// Launches a task: a program whose name does not end in `.wasm` is
    /// refused; otherwise the app gets its folders, its policy and its
    /// session, and the task starts running.
    pub fn launch(&mut self, task: &TaskRecord) -> (r: Result<RuntimeTicket, LaunchError>)
        requires
            old(self).wf(),
        ensures
            final(self).wf(),
            !has_suffix(task.program@, ".wasm"@) ==> (r matches Err(LaunchError::NotWasm)) && *final(self)
                == *old(self),
            has_suffix(task.program@, ".wasm"@) ==> match app_gate(task.app_id@) {
                Err(e) => r == Err::<RuntimeTicket, LaunchError>(LaunchError::Fs(e)) && *final(self)
                    == *old(self),
                Ok(_) => (r matches Ok(t) && t.state == TaskState::Running) && app_prepared(
                    *old(self),
                    *final(self),
                    task.app_id@,
                ),
            },
    {
        if !text_ends_with(task.program.as_str(), ".wasm") {
            return Err(LaunchError::NotWasm);
        }
        let _fs_caps = match self.vfs.app_view(task.app_id.as_str()) {
            Ok(view) => view,
            Err(e) => {
                return Err(LaunchError::Fs(e));
            },
        };
        let _net_caps = self.net.policy_for(task.app_id.as_str());
        let _gui_session = self.gui.session_for(task.app_id.as_str());
        Ok(RuntimeTicket { state: TaskState::Running })
    }
}

} // verus!
