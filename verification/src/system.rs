//! What is reported of the machine.

use crate::text::{copy_of, views};
use vstd::prelude::*;
use vstd::string::StringSliceAdditionalSpecFns;

verus! {

/// A graphics adapter.
#[derive(Debug)]
pub struct GpuInfo {
    pub model: Vec<u8>,
    /// Bytes of video memory.
    pub vram: u64,
}

pub struct GpuInfoView {
    pub model: Seq<u8>,
    pub vram: u64,
}

impl View for GpuInfo {
    type V = GpuInfoView;

    open spec fn view(&self) -> GpuInfoView {
        GpuInfoView { model: self.model@, vram: self.vram }
    }
}

/// What is known of the machine and of this program.
#[derive(Debug)]
pub struct SystemInfo {
    pub arch: Vec<u8>,
    pub platform: Vec<u8>,
    pub os_version: Vec<u8>,
    pub tauri_version: Vec<u8>,
    pub app_version: Vec<u8>,
    pub build_time: Vec<u8>,
    pub memory_total: Option<u64>,
    pub cpu_model: Option<Vec<u8>>,
}

/// A video controller as the system lists it.
#[derive(Debug)]
pub struct VideoController {
    pub name: Vec<u8>,
    pub adapter_ram: Option<u64>,
}

/// Whether a controller is a graphics adapter worth showing: it has memory of its own.
pub open spec fn has_memory(controller: VideoController) -> bool {
    match controller.adapter_ram {
        Some(ram) => ram > 0,
        None => false,
    }
}

/// The names of the controllers among the first `upto` that have memory, in order.
pub open spec fn adapter_names(controllers: Seq<VideoController>, upto: int) -> Seq<Seq<u8>>
    decreases upto,
{
    if upto <= 0 || upto > controllers.len() {
        Seq::empty()
    } else if has_memory(controllers[upto - 1]) {
        adapter_names(controllers, upto - 1).push(controllers[upto - 1].name@)
    } else {
        adapter_names(controllers, upto - 1)
    }
}

/// The names of the graphics adapters among the system's video controllers.
pub fn gpu_names(controllers: &Vec<VideoController>) -> (names: Vec<Vec<u8>>)
    ensures
        views(names@) == adapter_names(controllers@, controllers@.len() as int),
{
    let mut names: Vec<Vec<u8>> = Vec::new();
    let mut i: usize = 0;
    assert(views(names@) =~= Seq::<Seq<u8>>::empty());
    while i < controllers.len()
        invariant
            i <= controllers.len(),
            views(names@) == adapter_names(controllers@, i as int),
        decreases controllers.len() - i,
    {
        let ghost before = views(names@);
        let shown = match controllers[i].adapter_ram {
            Some(ram) => ram > 0,
            None => false,
        };
        if shown {
            names.push(copy_of(controllers[i].name.as_slice()));
            assert(views(names@) =~= before.push(controllers@[i as int].name@));
        }
        i += 1;
    }
    names
}

/// Bytes of memory, from the kilobytes that the system reports; 0 where it reports none.
pub fn memory_bytes(kilobytes: Option<u64>) -> (bytes: u64)
    requires
        kilobytes matches Some(kb) ==> kb * 1024 <= u64::MAX,
    ensures
        bytes == match kilobytes {
            Some(kb) => kb * 1024,
            None => 0,
        },
{
    match kilobytes {
        Some(kb) => kb * 1024,
        None => 0,
    }
}

/// The model of the first processor; `Unknown CPU` where none is listed.
pub open spec fn first_model(processors: Seq<Seq<u8>>) -> Seq<u8> {
    if processors.len() > 0 {
        processors[0]
    } else {
        "Unknown CPU".spec_bytes()
    }
}

pub fn cpu_model(processors: &Vec<Vec<u8>>) -> (model: Vec<u8>)
    ensures
        model@ == first_model(views(processors@)),
{
    if processors.len() > 0 {
        copy_of(processors[0].as_slice())
    } else {
        copy_of("Unknown CPU".as_bytes())
    }
}

} // verus!
