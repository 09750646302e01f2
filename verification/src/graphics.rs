//! Sorting the PCI bus's display devices by vendor, each with the PCI
//! functions that share its slot.
//!
//! The caller lists the PCI devices with their class and vendor.
use crate::text::{chars_of, push_chars, str_eq};
use vstd::prelude::*;

verus! {

/// The vendors the daemon tells apart.
#[derive(Clone, Copy, Debug, PartialEq, Eq, Structural)]
pub enum GpuVendor {
    Amd,
    Intel,
    Nvidia,
    Other,
}

pub open spec fn vendor_kind(vendor: u16) -> GpuVendor {
    if vendor == 0x1002 {
        GpuVendor::Amd
    } else if vendor == 0x10de {
        GpuVendor::Nvidia
    } else if vendor == 0x8086 {
        GpuVendor::Intel
    } else {
        GpuVendor::Other
    }
}

/// A PCI function as sysfs lists it.
#[derive(Debug)]
pub struct PciFunction {
    pub id: String,
    pub class: u32,
    pub vendor: u16,
}

/// A graphics device: the ids of the PCI functions in its slot.
#[derive(Debug)]
pub struct GraphicsDevice {
    pub functions: Vec<String>,
}

/// The display devices of the bus, by vendor.
#[derive(Debug)]
pub struct Graphics {
    pub amd: Vec<GraphicsDevice>,
    pub intel: Vec<GraphicsDevice>,
    pub nvidia: Vec<GraphicsDevice>,
    pub other: Vec<GraphicsDevice>,
}

/// A display controller: PCI base class 0x03.
pub open spec fn is_display(class: u32) -> bool {
    (class >> 16u32) & 0xffu32 == 3
}

/// The length of the part of `id` before its first `.`, among the first `n`.
pub open spec fn slot_len(id: Seq<char>, n: int) -> int
    decreases n,
{
    if n <= 0 {
        0
    } else if slot_len(id, n - 1) < n - 1 {
        slot_len(id, n - 1)
    } else if id[n - 1] == '.' {
        n - 1
    } else {
        n
    }
}

/// A function's slot: its id up to the first `.`.
pub open spec fn slot(id: Seq<char>) -> Seq<char> {
    id.subrange(0, slot_len(id, id.len() as int))
}

proof fn lemma_slot_len_bounds(id: Seq<char>, n: int)
    requires
        0 <= n <= id.len(),
    ensures
        0 <= slot_len(id, n) <= n,
        slot_len(id, n) < n ==> id[slot_len(id, n)] == '.',
        forall|k: int| 0 <= k < slot_len(id, n) ==> id[k] != '.',
    decreases n,
{
    if n > 0 {
        lemma_slot_len_bounds(id, n - 1);
    }
}

/// The slot of a function id.
pub fn pci_slot(id: &str) -> (s: String)
    ensures
        s@ == slot(id@),
{
    let v = chars_of(id);
    let mut k: usize = 0;
    while k < v.len() && v[k] != '.'
        invariant
            v@ == id@,
            k <= v@.len(),
            slot_len(id@, k as int) == k,
        decreases v@.len() - k,
    {
        k = k + 1;
    }
    proof {
        lemma_slot_len_bounds(id@, k as int);
        lemma_slot_len_rest(id@, k as int, id@.len() as int);
    }
    let mut out: Vec<char> = Vec::new();
    let mut j: usize = 0;
    while j < k
        invariant
            j <= k <= v@.len(),
            out@ == v@.subrange(0, j as int),
        decreases k - j,
    {
        out.push(v[j]);
        j = j + 1;
        assert(out@ =~= v@.subrange(0, j as int));
    }
    let mut s = String::new();
    push_chars(&mut s, &out);
    assert(s@ =~= slot(id@));
    s
}

/// Once a `.` is found, the slot ends there.
proof fn lemma_slot_len_rest(id: Seq<char>, m: int, n: int)
    requires
        0 <= m <= n <= id.len(),
        slot_len(id, m) == m,
        m < id.len() ==> id[m] == '.',
    ensures
        slot_len(id, n) == if m < n { m } else { n },
    decreases n - m,
{
    if m < n {
        if n == m + 1 {
        } else {
            lemma_slot_len_rest(id, m, n - 1);
        }
    }
}

pub open spec fn id_views(v: Seq<String>) -> Seq<Seq<char>> {
    v.map_values(|s: String| s@)
}

/// The ids, in bus order, of the first `n` functions in slot `s`.
pub open spec fn functions_in(devs: Seq<PciFunction>, s: Seq<char>, n: int) -> Seq<Seq<char>>
    decreases n,
{
    if n <= 0 {
        Seq::empty()
    } else {
        functions_in(devs, s, n - 1) + if slot(devs[n - 1].id@) == s {
            seq![devs[n - 1].id@]
        } else {
            Seq::empty()
        }
    }
}

/// The graphics devices of vendor `k` among the first `n` functions, each
/// as the ids of the functions in its slot.
pub open spec fn gpus_of(devs: Seq<PciFunction>, k: GpuVendor, n: int) -> Seq<Seq<Seq<char>>>
    decreases n,
{
    if n <= 0 {
        Seq::empty()
    } else {
        gpus_of(devs, k, n - 1) + if is_display(devs[n - 1].class) && vendor_kind(devs[n - 1].vendor) == k {
            seq![functions_in(devs, slot(devs[n - 1].id@), devs.len() as int)]
        } else {
            Seq::empty()
        }
    }
}

pub open spec fn device_views(v: Seq<GraphicsDevice>) -> Seq<Seq<Seq<char>>> {
    v.map_values(|g: GraphicsDevice| id_views(g.functions@))
}

fn slot_functions(devs: &Vec<PciFunction>, s: &str) -> (g: GraphicsDevice)
    ensures
        id_views(g.functions@) == functions_in(devs@, s@, devs@.len() as int),
{
    let mut functions: Vec<String> = Vec::new();
    let mut i: usize = 0;
    while i < devs.len()
        invariant
            i <= devs@.len(),
            id_views(functions@) == functions_in(devs@, s@, i as int),
        decreases devs@.len() - i,
    {
        let fs = pci_slot(devs[i].id.as_str());
        if str_eq(fs.as_str(), s) {
            functions.push(crate::text::string_of(devs[i].id.as_str()));
        }
        i = i + 1;
        assert(id_views(functions@) =~= functions_in(devs@, s@, i as int));
    }
    GraphicsDevice { functions }
}

fn vendor_of(vendor: u16) -> (k: GpuVendor)
    ensures
        k == vendor_kind(vendor),
{
    if vendor == 0x1002 {
        GpuVendor::Amd
    } else if vendor == 0x10de {
        GpuVendor::Nvidia
    } else if vendor == 0x8086 {
        GpuVendor::Intel
    } else {
        GpuVendor::Other
    }
}

/// Sorts the display devices of the bus by vendor, in bus order, each with
/// the functions of its slot.
pub fn classify(devs: &Vec<PciFunction>) -> (g: Graphics)
    ensures
        device_views(g.amd@) == gpus_of(devs@, GpuVendor::Amd, devs@.len() as int),
        device_views(g.intel@) == gpus_of(devs@, GpuVendor::Intel, devs@.len() as int),
        device_views(g.nvidia@) == gpus_of(devs@, GpuVendor::Nvidia, devs@.len() as int),
        device_views(g.other@) == gpus_of(devs@, GpuVendor::Other, devs@.len() as int),
{
    let mut g = Graphics { amd: Vec::new(), intel: Vec::new(), nvidia: Vec::new(), other: Vec::new() };
    let mut i: usize = 0;
    while i < devs.len()
        invariant
            i <= devs@.len(),
            device_views(g.amd@) == gpus_of(devs@, GpuVendor::Amd, i as int),
            device_views(g.intel@) == gpus_of(devs@, GpuVendor::Intel, i as int),
            device_views(g.nvidia@) == gpus_of(devs@, GpuVendor::Nvidia, i as int),
            device_views(g.other@) == gpus_of(devs@, GpuVendor::Other, i as int),
        decreases devs@.len() - i,
    {
        let d = &devs[i];
        let display = (d.class >> 16u32) & 0xffu32 == 3;
        if display {
            let s = pci_slot(d.id.as_str());
            let dev = slot_functions(devs, s.as_str());
            match vendor_of(d.vendor) {
                GpuVendor::Amd => g.amd.push(dev),
                GpuVendor::Nvidia => g.nvidia.push(dev),
                GpuVendor::Intel => g.intel.push(dev),
                GpuVendor::Other => g.other.push(dev),
            }
        }
        i = i + 1;
        assert(device_views(g.amd@) =~= gpus_of(devs@, GpuVendor::Amd, i as int));
        assert(device_views(g.intel@) =~= gpus_of(devs@, GpuVendor::Intel, i as int));
        assert(device_views(g.nvidia@) =~= gpus_of(devs@, GpuVendor::Nvidia, i as int));
        assert(device_views(g.other@) =~= gpus_of(devs@, GpuVendor::Other, i as int));
    }
    g
}

} // verus!
