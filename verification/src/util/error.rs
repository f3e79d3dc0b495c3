//! The error type of the engine.

use vstd::prelude::*;

verus! {

/// Everything that can go wrong in the engine, by cause.
///
/// Paths, localisation diagnostics and foreign error values are carried as
/// text, so that every variant holds plain data.
#[allow(inconsistent_fields)]
#[derive(Debug)]
pub enum LunarisError {
    /// Generic error. Refrain from using as much as possible.
    Unknown { context: Option<String> },
    /// Tried to use a feature that was not supported.
    Unsupported { feature: &'static str },
    /// Tried to invoke a command with wrong arguments.
    InvalidArgument { name: String, reason: Option<String> },
    /// Element property of another kind than the one asked for.
    PropertyTypeMismatch { expected_variant: String, variant: String },
    /// Resource not initialized yet.
    Uninit { resource: String },
    /// Found a null pointer.
    NullPointer { location: &'static str },
    /// Out of memory.
    OutOfMemory,
    /// Command timed out.
    Timeout { duration_ms: u64 },
    /// Interrupted while doing something.
    Interrupted { during: &'static str },
    /// Tried to access a resource but was denied.
    Busy { resource: String },
    /// Tried to do an operation but failed.
    PermissionDenied { operation: String },
    /// Tried to do an operation that lacked support.
    NotSupported { operation: &'static str },
    /// Tried to create a duplicate item.
    AlreadyExists { item: String },
    /// Tried to find a resource but failed.
    NotFound { item: String },
    /// Envelope failed to send.
    InvalidEnvelope { expected: String },
    /// Message size was too large to hold.
    MessageTooLarge { size: usize },
    /// Failed to find destination for envelope.
    InvalidDestination { id: u32 },
    /// Failed to initialize kernel.
    KernelInitFailed { reason: String },
    /// Kernel internally panicked.
    KernelPanic { reason: String },
    /// Kernel contents are off.
    InvalidState { expected: String, found: String },
    /// Found a deadlock.
    DeadlockDetected { component: String },
    /// Tried to shut down while shutting down.
    ShutdownInProgress,
    /// Renderer failed to initialize.
    RenderInitFailed { reason: String },
    /// GPU device or CPU device failed.
    RenderDeviceLost,
    /// Ran out of VRAM.
    RenderOutOfMemory,
    /// Too many entries in the rendering queue.
    RenderQueueFull,
    /// Tried to combine frames of different size.
    Dimensionmismatch { a: (usize, usize), b: (usize, usize) },
    /// Took too much time to render.
    RenderTimeout { stage: &'static str },
    /// A codec could not encode a frame; `what` is the codec's diagnostic.
    FailedCompress { what: String },
    /// A codec could not decode a payload; `what` is the codec's diagnostic.
    FailedDecompress { what: String },
    PluginFeatureUnsupported { feature: &'static str },
    PluginNameNotFound { name: String },
    PluginPanicked { id: String, backtrace: Option<String> },
    PluginAckTimeout { id: String, opcode: u32 },
    FileNotFound { path: String },
    FileReadError { path: String, reason: String },
    FileWriteError { path: String, reason: String },
    FileCorrupted { path: String },
    InvalidPath { reason: String },
    ConfigInvalid { key: String, reason: Option<String> },
    ConfigMissing { key: String },
    ConfigMismatch { expected: String, found: String },
    EnvVariableMissing { name: String },
    ResourceUnavailable { name: String },
    AudioInitFailed { reason: String },
    AudioDeviceUnavailable { name: Option<String> },
    AudioStreamError { reason: String },
    /// Localisation failed; one line per diagnostic.
    FluentError { diagnostics: Vec<String> },
    /// A plugin returned an error of its own; `source` is its text.
    PluginError { id: String, source: String },
}

} // verus!
