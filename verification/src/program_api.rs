//! The `wasmos::*` syscall ABI: how guest pointers and lengths are checked,
//! how replies are fitted into guest buffers, how errors become status
//! numbers, and what each syscall does to the subsystems.
use crate::gui::{DrawCommand, GuiEvent, GuiSubsystem, WindowDescriptor, WindowId};
use crate::network::{HttpRequest, HttpResponse};
use crate::ordered::TextMap;
use crate::os_error::{OsError, OsErrorCode, code_number, from_fault};
use crate::runtime::{BlockView, TaskRuntimeControl, block_view};
use crate::vfs::{
    Fault, FileDescriptor, SeekWhence, VfsDirEntry, VfsError, VirtualFileSystem, close_effect,
    create_dir_effect, delete_effect, list_dir_effect, normalized, open_effect, outcome,
    read_effect, seek_effect, write_effect,
};
use vstd::prelude::*;
use vstd::utf8::{decode_utf8, valid_utf8};

verus! {

/// The largest buffer a syscall reads from or writes to a guest.
pub const MAX_GUEST_BUFFER: usize = 65536;

pub struct SystemCallRegistry;

#[derive(Debug)]
pub struct VfsOpenRequest {
    pub path: String,
    pub flags: u32,
}

#[derive(Debug)]
pub struct VfsReadRequest {
    pub fd: u64,
    pub len: u32,
}

#[derive(Debug)]
pub struct VfsWriteRequest {
    pub fd: u64,
    pub data: Vec<u8>,
}

#[derive(Debug)]
pub struct VfsSeekRequest {
    pub fd: u64,
    pub offset: i64,
    pub whence: SeekWhence,
}

#[derive(Debug)]
pub struct VfsPathRequest {
    pub path: String,
}

#[derive(Debug)]
pub struct NetWebSocketOpenRequest {
    pub url: String,
}

#[derive(Debug)]
pub struct NetWebSocketSendRequest {
    pub socket_id: u64,
    pub text: String,
}

#[derive(Debug)]
pub struct NetTcpConnectRequest {
    pub host: String,
    pub port: u16,
}

#[derive(Debug)]
pub struct GuiDrawRequest {
    pub window_id: u64,
    pub commands: Vec<DrawCommand>,
}

#[derive(Debug)]
pub struct GuiPollRequest {
    pub window_id: u64,
}

pub type AbiStatus = OsErrorCode;

/// Why a syscall failed.
#[derive(Debug)]
pub enum AbiError {
    Structured(OsError),
    InvalidUtf8(std::str::Utf8Error),
    MemoryOutOfBounds { ptr: usize, len: usize },
    BufferTooSmall { required: usize, available: usize },
}

/// The status a syscall error is reported with.
pub open spec fn error_status(e: AbiError) -> OsErrorCode {
    match e {
        AbiError::Structured(o) => o.code,
        AbiError::InvalidUtf8(_) => OsErrorCode::InvalidUtf8,
        AbiError::MemoryOutOfBounds { .. } => OsErrorCode::MemoryOutOfBounds,
        AbiError::BufferTooSmall { .. } => OsErrorCode::BufferTooSmall,
    }
}

/// The status number a syscall returns for an outcome.
pub open spec fn result_status<T>(r: Result<T, AbiError>) -> i32 {
    match r {
        Ok(_) => 0,
        Err(e) => code_number(error_status(e)),
    }
}

impl AbiError {
    pub fn status(&self) -> (s: AbiStatus)
        ensures
            s == error_status(*self),
    {
        match self {
            AbiError::Structured(error) => error.code,
            AbiError::InvalidUtf8(_) => OsErrorCode::InvalidUtf8,
            AbiError::MemoryOutOfBounds { .. } => OsErrorCode::MemoryOutOfBounds,
            AbiError::BufferTooSmall { .. } => OsErrorCode::BufferTooSmall,
        }
    }

    /// The syscall error that a filesystem error becomes.
    pub fn from_vfs_error(value: VfsError) -> (e: Self)
        ensures
            e matches AbiError::Structured(o) && o@ == from_fault(value@),
    {
        AbiError::Structured(OsError::from_vfs_error(value))
    }

    /// The syscall error that a host error becomes.
    pub fn from_error(value: &anyhow::Error) -> (e: Self)
        ensures
            e matches AbiError::Structured(o) && o@ == (
                crate::os_error::classify_message(crate::os_error::host_error_text(*value)),
                crate::os_error::host_error_text(*value),
            ),
    {
        AbiError::Structured(OsError::from_error(value))
    }
}

/// 0 for success, the error's status number otherwise.
pub fn status_from_result(result: Result<(), AbiError>) -> (n: i32)
    ensures
        n == result_status(result),
{
    match result {
        Ok(()) => OsErrorCode::Success.as_i32(),
        Err(error) => error.status().as_i32(),
    }
}

/// A guest pointer as an offset into its memory; negative pointers are
/// refused.
pub fn clamp_guest_offset(ptr: i32) -> (r: Result<usize, AbiError>)
    ensures
        ptr >= 0 ==> r == Ok::<usize, AbiError>(ptr as usize),
        ptr < 0 ==> (r matches Err(AbiError::Structured(o)) && o@ == (
            OsErrorCode::InvalidArgument,
            "pointer must be non-negative"@,
        )),
{
    if ptr < 0 {
        Err(AbiError::Structured(OsError::invalid_argument("pointer must be non-negative".to_string())))
    } else {
        Ok(ptr as usize)
    }
}

/// A guest length; negative lengths and lengths over the ABI limit are
/// refused.
pub fn clamp_guest_len(len: i32) -> (r: Result<usize, AbiError>)
    ensures
        0 <= len <= MAX_GUEST_BUFFER ==> r == Ok::<usize, AbiError>(len as usize),
        len < 0 ==> (r matches Err(AbiError::Structured(o)) && o@ == (
            OsErrorCode::InvalidArgument,
            "length must be non-negative"@,
        )),
        len > MAX_GUEST_BUFFER ==> (r matches Err(AbiError::Structured(o)) && o@ == (
            OsErrorCode::InvalidArgument,
            "length exceeds syscall ABI limit"@,
        )),
{
    if len < 0 {
        return Err(
            AbiError::Structured(OsError::invalid_argument("length must be non-negative".to_string())),
        );
    }
    let len = len as usize;
    if len > MAX_GUEST_BUFFER {
        return Err(
            AbiError::Structured(OsError::invalid_argument("length exceeds syscall ABI limit".to_string())),
        );
    }
    Ok(len)
}

/// Whether `len` bytes at `ptr` lie inside a guest memory of `memory_size`
/// bytes.
pub fn ensure_memory_range(ptr: usize, len: usize, memory_size: usize) -> (r: Result<(), AbiError>)
    ensures
        ptr + len <= memory_size ==> r is Ok,
        ptr + len > memory_size ==> (r matches Err(AbiError::MemoryOutOfBounds { ptr: p, len: l })
            && p == ptr && l == len),
{
    match ptr.checked_add(len) {
        None => Err(AbiError::MemoryOutOfBounds { ptr, len }),
        Some(end) => {
            if end > memory_size {
                Err(AbiError::MemoryOutOfBounds { ptr, len })
            } else {
                Ok(())
            }
        },
    }
}

/// How much of a reply of `payload_len` bytes goes into a guest buffer of
/// `out_len` bytes: as much as fits, and the buffer's capacity.
pub fn plan_reply(payload_len: usize, out_len: i32) -> (r: Result<(usize, usize), AbiError>)
    ensures
        0 <= out_len <= MAX_GUEST_BUFFER ==> r == Ok::<(usize, usize), AbiError>(
            (
                if payload_len < out_len as usize {
                    payload_len
                } else {
                    out_len as usize
                },
                out_len as usize,
            ),
        ),
        !(0 <= out_len <= MAX_GUEST_BUFFER) ==> (r matches Err(AbiError::Structured(o)) && o.code
            == OsErrorCode::InvalidArgument),
{
    let capacity = clamp_guest_len(out_len)?;
    let bytes_to_write = if payload_len < capacity {
        payload_len
    } else {
        capacity
    };
    Ok((bytes_to_write, capacity))
}

/// The outcome of a reply once its part was written: a reply that did not
/// fit is reported as too large for the buffer.
pub fn finish_reply(payload_len: usize, bytes_written: usize, capacity: usize) -> (r: Result<
    (),
    AbiError,
>)
    ensures
        bytes_written < payload_len ==> (r matches Err(AbiError::BufferTooSmall { required, available })
            && required == payload_len && available == capacity),
        bytes_written >= payload_len ==> r is Ok,
{
    if bytes_written < payload_len {
        Err(AbiError::BufferTooSmall { required: payload_len, available: capacity })
    } else {
        Ok(())
    }
}

/// Decodes bytes as UTF-8 (`std::str::from_utf8`): valid UTF-8 gives the
/// text it encodes, anything else gives the decoder's error.
#[verifier::external_body]
fn utf8_text(bytes: &[u8]) -> (r: Result<String, std::str::Utf8Error>)
    ensures
        r is Ok <==> valid_utf8(bytes@),
        r matches Ok(s) ==> s@ == decode_utf8(bytes@),
{
    match std::str::from_utf8(bytes) {
        Ok(text) => Ok(text.to_owned()),
        Err(error) => Err(error),
    }
}

/// A string that a guest handed over as bytes: its UTF-8 text, or the
/// `InvalidUtf8` error.
pub fn decode_guest_string(bytes: &[u8]) -> (r: Result<String, AbiError>)
    ensures
        valid_utf8(bytes@) ==> (r matches Ok(s) && s@ == decode_utf8(bytes@)),
        !valid_utf8(bytes@) ==> r matches Err(AbiError::InvalidUtf8(_)),
{
    match utf8_text(bytes) {
        Ok(text) => Ok(text),
        Err(error) => Err(AbiError::InvalidUtf8(error)),
    }
}

/// A filesystem outcome as the ABI carries it: the same value, or the
/// structured error that the fault becomes.
pub open spec fn carried<T>(o: Result<T, Fault>, r: Result<T, AbiError>) -> bool {
    match o {
        Ok(v) => r == Ok::<T, AbiError>(v),
        Err(f) => r matches Err(AbiError::Structured(e)) && e@ == from_fault(f),
    }
}

/// The status number that a filesystem outcome is reported with.
pub open spec fn fault_status<T>(o: Result<T, Fault>) -> i32 {
    match o {
        Ok(_) => 0,
        Err(f) => code_number(from_fault(f).0),
    }
}

fn lift<T>(r: Result<T, VfsError>) -> (a: Result<T, AbiError>)
    ensures
        carried(outcome(r), a),
        result_status(a) == fault_status(outcome(r)),
{
    match r {
        Ok(v) => Ok(v),
        Err(e) => Err(AbiError::from_vfs_error(e)),
    }
}

impl SystemCallRegistry {
    /// `yield_now`: the task asks to give up the rest of its quantum.
    pub fn yield_now(control: &mut TaskRuntimeControl) -> (n: i32)
        ensures
            n == 0,
            final(control).requested_yield,
            block_view(final(control).block_reason) == block_view(old(control).block_reason),
    {
        control.request_yield();
        OsErrorCode::Success.as_i32()
    }

    /// `sleep_ms`: a negative duration is refused; otherwise the task asks to
    /// sleep that many ticks.
    pub fn sleep_ms(control: &mut TaskRuntimeControl, duration_ms: i64) -> (n: i32)
        ensures
            duration_ms < 0 ==> n == code_number(OsErrorCode::InvalidArgument) && block_view(
                final(control).block_reason,
            ) == block_view(old(control).block_reason),
            duration_ms >= 0 ==> n == 0 && block_view(final(control).block_reason) == Some(
                BlockView::Sleep(duration_ms as u64),
            ),
            final(control).requested_yield == old(control).requested_yield,
    {
        if duration_ms < 0 {
            return OsErrorCode::InvalidArgument.as_i32();
        }
        control.request_sleep(duration_ms as u64);
        OsErrorCode::Success.as_i32()
    }

    /// `wait_event`: the task asks to wait on a named channel.
    pub fn wait_event(control: &mut TaskRuntimeControl, channel: String) -> (n: i32)
        ensures
            n == 0,
            block_view(final(control).block_reason) == Some(BlockView::Io(channel@)),
            final(control).requested_yield == old(control).requested_yield,
    {
        control.request_io_wait(channel);
        OsErrorCode::Success.as_i32()
    }

    /// `vfs_read`: a whole file, whatever the task's policy.
    pub fn vfs_read(vfs: &VirtualFileSystem, path: &str) -> (r: Result<Vec<u8>, AbiError>)
        requires
            vfs.wf(),
        ensures
            match crate::vfs::file_read(vfs.nodes(), path@) {
                Ok(c) => r matches Ok(v) && v@ == c,
                Err(f) => r matches Err(AbiError::Structured(e)) && e@ == from_fault(f),
            },
    {
        match vfs.read_file(path) {
            Ok(data) => Ok(data),
            Err(e) => Err(AbiError::from_vfs_error(e)),
        }
    }

    /// `vfs_write`: a whole file; always succeeds.
    pub fn vfs_write(vfs: &mut VirtualFileSystem, path: &str, content: Vec<u8>) -> (n: i32)
        requires
            old(vfs).wf(),
        ensures
            final(vfs).wf(),
            n == 0,
            final(vfs).nodes() == old(vfs).nodes().insert(
                normalized(path@),
                crate::vfs::file_node(normalized(path@), content@),
            ),
            final(vfs).same_but_nodes(old(vfs)),
    {
        let r = vfs.write_file(path, content);
        status_from_result(lift(r))
    }

    /// `vfs_open`: the descriptor, or the error the filesystem gave.
    pub fn vfs_open(vfs: &mut VirtualFileSystem, task_id: u64, request: &VfsOpenRequest) -> (r: Result<
        FileDescriptor,
        AbiError,
    >)
        requires
            old(vfs).wf(),
        ensures
            final(vfs).wf(),
            exists|o: Result<FileDescriptor, Fault>|
                open_effect(*old(vfs), *final(vfs), task_id, request.path@, request.flags, o)
                    && carried(o, r),
    {
        let v = vfs.open_for_task(task_id, request.path.as_str(), request.flags);
        let a = lift(v);
        proof {
            assert(carried(outcome(v), a));
        }
        a
    }

    /// `vfs_close`: the status of closing a descriptor.
    pub fn vfs_close(vfs: &mut VirtualFileSystem, task_id: u64, fd: FileDescriptor) -> (n: i32)
        requires
            old(vfs).wf(),
        ensures
            final(vfs).wf(),
            final(vfs).same_but_handles(old(vfs)),
            exists|o: Result<(), Fault>|
                close_effect(*old(vfs), *final(vfs), task_id, fd, o) && n == fault_status(o),
    {
        let v = vfs.close_for_task(task_id, fd);
        let n = status_from_result(lift(v));
        proof {
            assert(n == fault_status(outcome(v)));
        }
        n
    }

    /// `vfs_fd_read`: the bytes read through a descriptor.
    pub fn vfs_fd_read(vfs: &mut VirtualFileSystem, task_id: u64, request: &VfsReadRequest) -> (r:
        Result<Vec<u8>, AbiError>)
        requires
            old(vfs).wf(),
            old(vfs).read_fits(request.fd, request.len as usize),
        ensures
            final(vfs).wf(),
            final(vfs).same_but_handles(old(vfs)),
            exists|o: Result<Vec<u8>, Fault>|
                read_effect(*old(vfs), *final(vfs), task_id, request.fd, request.len as usize, o)
                    && carried(o, r),
    {
        let v = vfs.read_for_task(task_id, request.fd, request.len as usize);
        let a = lift(v);
        proof {
            assert(carried(outcome(v), a));
        }
        a
    }

    /// `vfs_fd_write`: the count written through a descriptor.
    pub fn vfs_fd_write(vfs: &mut VirtualFileSystem, task_id: u64, request: &VfsWriteRequest) -> (r:
        Result<usize, AbiError>)
        requires
            old(vfs).wf(),
            old(vfs).write_fits(request.fd, request.data@.len() as int),
        ensures
            final(vfs).wf(),
            exists|o: Result<usize, Fault>|
                write_effect(*old(vfs), *final(vfs), task_id, request.fd, request.data@, o)
                    && carried(o, r),
    {
        let v = vfs.write_for_task(task_id, request.fd, request.data.as_slice());
        let a = lift(v);
        proof {
            assert(carried(outcome(v), a));
        }
        a
    }

    /// `vfs_seek`: the new position of a descriptor.
    pub fn vfs_seek(vfs: &mut VirtualFileSystem, task_id: u64, request: &VfsSeekRequest) -> (r: Result<
        u64,
        AbiError,
    >)
        requires
            old(vfs).wf(),
        ensures
            final(vfs).wf(),
            final(vfs).same_but_handles(old(vfs)),
            exists|o: Result<u64, Fault>|
                seek_effect(
                    *old(vfs),
                    *final(vfs),
                    task_id,
                    request.fd,
                    request.offset,
                    request.whence,
                    o,
                ) && carried(o, r),
    {
        let v = vfs.seek_for_task(task_id, request.fd, request.offset, request.whence);
        let a = lift(v);
        proof {
            assert(carried(outcome(v), a));
        }
        a
    }

    /// `vfs_list_dir`: the entries of a directory.
    pub fn vfs_list_dir(vfs: &VirtualFileSystem, task_id: u64, request: &VfsPathRequest) -> (r: Result<
        Vec<VfsDirEntry>,
        AbiError,
    >)
        requires
            vfs.wf(),
        ensures
            exists|o: Result<Vec<VfsDirEntry>, Fault>|
                list_dir_effect(*vfs, task_id, request.path@, o) && carried(o, r),
    {
        let v = vfs.list_dir_for_task(task_id, request.path.as_str());
        let a = lift(v);
        proof {
            assert(carried(outcome(v), a));
        }
        a
    }

    /// `vfs_mkdir`: the status of creating a directory.
    pub fn vfs_mkdir(vfs: &mut VirtualFileSystem, task_id: u64, request: &VfsPathRequest) -> (n: i32)
        requires
            old(vfs).wf(),
        ensures
            final(vfs).wf(),
            final(vfs).same_but_nodes(old(vfs)),
            exists|o: Result<(), Fault>|
                create_dir_effect(*old(vfs), *final(vfs), task_id, request.path@, o) && n
                    == fault_status(o),
    {
        let v = vfs.create_dir_for_task(task_id, request.path.as_str());
        let n = status_from_result(lift(v));
        proof {
            assert(n == fault_status(outcome(v)));
        }
        n
    }

    /// `vfs_delete`: the status of deleting a node.
    pub fn vfs_delete(vfs: &mut VirtualFileSystem, task_id: u64, request: &VfsPathRequest) -> (n: i32)
        requires
            old(vfs).wf(),
        ensures
            final(vfs).wf(),
            final(vfs).same_but_nodes(old(vfs)),
            exists|o: Result<(), Fault>|
                delete_effect(*old(vfs), *final(vfs), task_id, request.path@, o) && n
                    == fault_status(o),
    {
        let v = vfs.delete_for_task(task_id, request.path.as_str());
        let n = status_from_result(lift(v));
        proof {
            assert(n == fault_status(outcome(v)));
        }
        n
    }

    /// `gui_open_window`: opens a window owned by the task and answers its id.
    pub fn gui_open_window(gui: &mut GuiSubsystem, task_id: u64, descriptor: WindowDescriptor) -> (id:
        WindowId)
        requires
            old(gui).wf(),
        ensures
            final(gui).wf(),
            id == crate::gui::window_id_for(task_id, descriptor.width),
            final(gui).windows() == old(gui).windows().insert(
                id,
                (task_id, descriptor.title@, descriptor.width, descriptor.height),
            ),
    {
        gui.create_window(task_id, descriptor)
    }
}

/// The guest-side view of the API, as stubs that a host without a runtime
/// answers with.
#[derive(Debug)]
pub struct GuestApi;

impl GuestApi {
    pub fn yield_now() {
    }

    pub fn file_read(path: &str) -> (r: Result<Vec<u8>, OsError>)
        ensures
            r matches Ok(v) && v@.len() == 0,
    {
        Ok(Vec::new())
    }

    pub fn file_write(path: &str, bytes: &[u8]) -> (r: Result<(), OsError>)
        ensures
            r is Ok,
    {
        Ok(())
    }

    /// Answers every request with `501 Not Implemented` and an empty body.
    pub fn http_request(request: HttpRequest) -> (r: Result<HttpResponse, OsError>)
        ensures
            r matches Ok(resp) && resp.status == 501 && resp.body@.len() == 0 && resp.headers@.len()
                == 0,
    {
        let headers = TextMap::new();
        Ok(HttpResponse { status: 501, headers, body: Vec::new() })
    }

    pub fn create_window(descriptor: WindowDescriptor) -> (r: Result<u64, OsError>)
        ensures
            r matches Ok(id) && id == 0,
    {
        Ok(0)
    }

    pub fn draw(window_id: u64, commands: &[DrawCommand]) -> (r: Result<(), OsError>)
        ensures
            r is Ok,
    {
        Ok(())
    }

    pub fn poll_events(window_id: u64) -> (r: Result<Vec<GuiEvent>, OsError>)
        ensures
            r matches Ok(v) && v@.len() == 0,
    {
        Ok(Vec::new())
    }
}

} // verus!
