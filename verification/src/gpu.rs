//! Graphics-buffer-producer client and the parcel codec it speaks.

use vstd::prelude::*;

pub mod parcel;
pub mod binder;

verus! {

/// Which client API connects to a buffer queue.
#[derive(Clone, Copy, PartialEq, Eq, Structural, Debug)]
pub enum ConnectionApi {
    Egl,
    Cpu,
    Media,
    Camera,
}

impl ConnectionApi {
    /// The value that stands for this API on the wire.
    pub open spec fn value(self) -> u32 {
        match self {
            ConnectionApi::Egl => 1,
            ConnectionApi::Cpu => 2,
            ConnectionApi::Media => 3,
            ConnectionApi::Camera => 4,
        }
    }

    pub fn to_u32(self) -> (v: u32)
        ensures
            v == self.value(),
    {
        match self {
            ConnectionApi::Egl => 1,
            ConnectionApi::Cpu => 2,
            ConnectionApi::Media => 3,
            ConnectionApi::Camera => 4,
        }
    }
}

/// How much of a connection a disconnect tears down.
#[derive(Clone, Copy, PartialEq, Eq, Structural, Debug)]
pub enum DisconnectMode {
    Api,
    AllLocal,
}

impl DisconnectMode {
    /// The value that stands for this mode on the wire.
    pub open spec fn value(self) -> u32 {
        match self {
            DisconnectMode::Api => 0,
            DisconnectMode::AllLocal => 1,
        }
    }

    pub fn to_u32(self) -> (v: u32)
        ensures
            v == self.value(),
    {
        match self {
            DisconnectMode::Api => 0,
            DisconnectMode::AllLocal => 1,
        }
    }
}

/// What a buffer queue reports after a connect or a queued buffer.
#[derive(Clone, Copy, PartialEq, Eq, Structural, Debug)]
pub struct QueueBufferOutput {
    pub width: u32,
    pub height: u32,
    pub transform_hint: u32,
    pub pending_buffer_count: u32,
}

/// Usage flags handed to the graphics allocator.
#[derive(Clone, Copy, PartialEq, Eq, Structural, Debug)]
pub struct GraphicsAllocatorUsage {
    pub bits: u32,
}

/// A graphic buffer description, flattened to the bytes that travel.
#[derive(Debug)]
pub struct GraphicBuffer {
    pub data: Vec<u8>,
}

/// A set of fences, flattened to the bytes that travel.
#[derive(Debug)]
pub struct MultiFence {
    pub data: Vec<u8>,
}

/// The parameters of a queued buffer, flattened to the bytes that travel.
#[derive(Debug)]
pub struct QueueBufferInput {
    pub data: Vec<u8>,
}

} // verus!
