//! Choice of the GPU to render with, from what each physical device reports:
//! its API version, its extensions, its kind, and which of its queue
//! families can both draw and present.
use vstd::prelude::*;

verus! {

/// The kind of a physical device, as the driver reports it.
#[derive(PartialEq, Eq, Structural, Clone, Copy, Debug)]
pub enum DeviceKind {
    DiscreteGpu,
    IntegratedGpu,
    VirtualGpu,
    Cpu,
    Other,
    /// A kind that this program does not know.
    Unknown,
}

/// What the choice needs to know of one physical device.
pub struct DeviceInfo {
    /// (major, minor, patch).
    pub api_version: (u32, u32, u32),
    /// Supports the dynamic rendering extension.
    pub dynamic_rendering: bool,
    /// Supports the swapchain extension.
    pub swapchain: bool,
    pub kind: DeviceKind,
    /// Per queue family: it supports graphics and presentation to the
    /// window.
    pub family_usable: Vec<bool>,
}

/// Preference among device kinds: lower is better.
pub open spec fn kind_rank(k: DeviceKind) -> nat {
    match k {
        DeviceKind::DiscreteGpu => 0,
        DeviceKind::IntegratedGpu => 1,
        DeviceKind::VirtualGpu => 2,
        DeviceKind::Cpu => 3,
        DeviceKind::Other => 4,
        DeviceKind::Unknown => 5,
    }
}

/// The version is at least 1.3.0 (compared as major, then minor, then
/// patch).
pub open spec fn at_least_1_3(v: (u32, u32, u32)) -> bool {
    v.0 > 1 || (v.0 == 1 && v.1 >= 3)
}

/// Version `v` comes at or after version `w` in the order of versions:
/// major first, then minor, then patch.
pub open spec fn version_ge(v: (u32, u32, u32), w: (u32, u32, u32)) -> bool {
    ||| v.0 > w.0
    ||| v.0 == w.0 && v.1 > w.1
    ||| v.0 == w.0 && v.1 == w.1 && v.2 >= w.2
}

/// Dynamic rendering is available (core from 1.3, or as an extension),
/// swapchains are supported, and some queue family can draw and present.
pub open spec fn eligible(d: DeviceInfo) -> bool {
    &&& at_least_1_3(d.api_version) || d.dynamic_rendering
    &&& d.swapchain
    &&& exists|j: int| 0 <= j < d.family_usable@.len() && #[trigger] d.family_usable@[j]
}

/// `q` is the first usable queue family in `fams`.
pub open spec fn first_usable(fams: Seq<bool>, q: int) -> bool {
    &&& 0 <= q < fams.len()
    &&& fams[q]
    &&& forall|j: int| 0 <= j < q ==> !#[trigger] fams[j]
}

/// The device chosen, with the queue family to use: the first, in the
/// order given, of the eligible devices of the most preferred kind, and its
/// first usable queue family; `None` when no device is eligible.
pub open spec fn is_choice(devices: Seq<DeviceInfo>, chosen: Option<(usize, usize)>) -> bool {
    match chosen {
        None => forall|i: int| 0 <= i < devices.len() ==> !eligible(#[trigger] devices[i]),
        Some((i, q)) => {
            &&& i < devices.len()
            &&& eligible(devices[i as int])
            &&& first_usable(devices[i as int].family_usable@, q as int)
            &&& forall|j: int|
                0 <= j < devices.len() && eligible(#[trigger] devices[j]) ==> kind_rank(
                    devices[i as int].kind,
                ) <= kind_rank(devices[j].kind)
            &&& forall|j: int|
                0 <= j < i && eligible(#[trigger] devices[j]) ==> kind_rank(devices[i as int].kind)
                    < kind_rank(devices[j].kind)
        },
    }
}

/// The preference rank of a device kind.
pub fn rank_of(k: DeviceKind) -> (r: u8)
    ensures
        r == kind_rank(k),
{
    match k {
        DeviceKind::DiscreteGpu => 0,
        DeviceKind::IntegratedGpu => 1,
        DeviceKind::VirtualGpu => 2,
        DeviceKind::Cpu => 3,
        DeviceKind::Other => 4,
        DeviceKind::Unknown => 5,
    }
}

/// The first queue family of `fams` that can draw and present, if any.
pub fn first_usable_family(fams: &Vec<bool>) -> (q: Option<usize>)
    ensures
        q is None <==> forall|j: int| 0 <= j < fams@.len() ==> !#[trigger] fams@[j],
        q matches Some(q) ==> first_usable(fams@, q as int),
{
    let mut j: usize = 0;
    while j < fams.len()
        invariant
            j <= fams@.len(),
            forall|k: int| 0 <= k < j ==> !#[trigger] fams@[k],
        decreases fams@.len() - j,
    {
        if fams[j] {
            return Some(j);
        }
        j = j + 1;
    }
    None
}

/// Whether the device is eligible, and if so its first usable queue family.
fn usable_family(d: &DeviceInfo) -> (q: Option<usize>)
    ensures
        q is None <==> !eligible(*d),
        q matches Some(q) ==> first_usable(d.family_usable@, q as int),
{
    let (major, minor, _patch) = d.api_version;
    if (major > 1 || (major == 1 && minor >= 3) || d.dynamic_rendering) && d.swapchain {
        first_usable_family(&d.family_usable)
    } else {
        None
    }
}

/// Chooses the device to render with, and its queue family.
pub fn choose_device(devices: &Vec<DeviceInfo>) -> (chosen: Option<(usize, usize)>)
    ensures
        is_choice(devices@, chosen),
        chosen is None <==> forall|i: int| 0 <= i < devices@.len() ==> !eligible(
            #[trigger] devices@[i],
        ),
{
    let mut best: Option<(usize, usize, u8)> = None;
    let mut i: usize = 0;
    while i < devices.len()
        invariant
            i <= devices@.len(),
            best is None <==> forall|j: int| 0 <= j < i ==> !eligible(#[trigger] devices@[j]),
            best matches Some((b, q, r)) ==> {
                &&& b < i
                &&& eligible(devices@[b as int])
                &&& first_usable(devices@[b as int].family_usable@, q as int)
                &&& r == kind_rank(devices@[b as int].kind)
                &&& forall|j: int|
                    0 <= j < i && eligible(#[trigger] devices@[j]) ==> r <= kind_rank(
                        devices@[j].kind,
                    )
                &&& forall|j: int|
                    0 <= j < b && eligible(#[trigger] devices@[j]) ==> r < kind_rank(
                        devices@[j].kind,
                    )
            },
        decreases devices@.len() - i,
    {
        let d = &devices[i];
        match usable_family(d) {
            None => {},
            Some(q) => {
                let r = rank_of(d.kind);
                let better = match best {
                    None => true,
                    Some((_, _, rb)) => r < rb,
                };
                if better {
                    best = Some((i, q, r));
                }
            },
        }
        i = i + 1;
    }
    match best {
        None => None,
        Some((b, q, _)) => Some((b, q)),
    }
}

/// Whether dynamic rendering must be enabled as an extension: the device's
/// API version is below 1.3.0, where it is not core.
pub fn needs_dynamic_rendering_extension(api_version: (u32, u32, u32)) -> (b: bool)
    ensures
        b == !at_least_1_3(api_version),
        b == !version_ge(api_version, (1, 3, 0)),
        b <==> api_version.0 < 1 || (api_version.0 == 1 && api_version.1 < 3),
{
    let (major, minor, _patch) = api_version;
    !(major > 1 || (major == 1 && minor >= 3))
}

/// "At least 1.3" is the order of versions against 1.3.0: every 1.3.x,
/// whatever its patch level, and every later minor or major version
/// counts; every version before 1.3.0 does not.
pub proof fn lemma_at_least_1_3_is_version_order(v: (u32, u32, u32))
    ensures
        at_least_1_3(v) <==> version_ge(v, (1, 3, 0)),
        v.0 == 1 && v.1 == 3 ==> at_least_1_3(v),
        v.0 == 1 && v.1 < 3 ==> !at_least_1_3(v),
        v.0 == 0 ==> !at_least_1_3(v),
        v.0 >= 2 ==> at_least_1_3(v),
{
}

/// A device at API 1.3.0 or later with swapchain support and a usable
/// queue family is eligible whether or not it lists the dynamic rendering
/// extension (it is core there); below 1.3.0 it needs that extension.
pub proof fn lemma_core_dynamic_rendering(d: DeviceInfo, q: int)
    requires
        d.swapchain,
        0 <= q < d.family_usable@.len(),
        d.family_usable@[q],
    ensures
        version_ge(d.api_version, (1, 3, 0)) ==> eligible(d),
        !version_ge(d.api_version, (1, 3, 0)) ==> (eligible(d) <==> d.dynamic_rendering),
{
}

/// Device kinds are preferred in the order discrete, integrated, virtual,
/// CPU, other, unknown.
pub proof fn lemma_kind_preference()
    ensures
        kind_rank(DeviceKind::DiscreteGpu) < kind_rank(DeviceKind::IntegratedGpu),
        kind_rank(DeviceKind::IntegratedGpu) < kind_rank(DeviceKind::VirtualGpu),
        kind_rank(DeviceKind::VirtualGpu) < kind_rank(DeviceKind::Cpu),
        kind_rank(DeviceKind::Cpu) < kind_rank(DeviceKind::Other),
        kind_rank(DeviceKind::Other) < kind_rank(DeviceKind::Unknown),
        kind_rank(DeviceKind::DiscreteGpu) == 0,
        kind_rank(DeviceKind::Unknown) == 5,
{
}

/// A device is eligible exactly when it renders dynamically (API 1.3.0 or
/// later, or the extension), supports swapchains, and has a queue family
/// that can draw and present.
pub proof fn lemma_eligible_exactly(d: DeviceInfo)
    ensures
        eligible(d) <==> ((version_ge(d.api_version, (1, 3, 0)) || d.dynamic_rendering)
            && d.swapchain && exists|j: int|
            0 <= j < d.family_usable@.len() && #[trigger] d.family_usable@[j]),
{
    lemma_at_least_1_3_is_version_order(d.api_version);
}

/// The first usable family is usable, and no family before it is; there is
/// at most one.
pub proof fn lemma_first_usable_unique(fams: Seq<bool>, q: int, r: int)
    requires
        first_usable(fams, q),
        first_usable(fams, r),
    ensures
        q == r,
        0 <= q < fams.len() && fams[q],
        forall|j: int| 0 <= j < q ==> !#[trigger] fams[j],
{
    if q < r {
        assert(!fams[q]);
    } else if r < q {
        assert(!fams[r]);
    }
}

/// A choice picks an eligible device, with its first usable family, whose
/// kind is preferred at least as much as that of every eligible device and
/// strictly more than that of every eligible device listed before it; there
/// is no choice only when no device is eligible.
pub proof fn lemma_choice_exactly(devices: Seq<DeviceInfo>, chosen: Option<(usize, usize)>, j: int)
    requires
        is_choice(devices, chosen),
        0 <= j < devices.len(),
    ensures
        chosen is None ==> !eligible(devices[j]),
        chosen matches Some((i, q)) ==> {
            &&& i < devices.len()
            &&& eligible(devices[i as int])
            &&& q < devices[i as int].family_usable@.len()
            &&& devices[i as int].family_usable@[q as int]
            &&& forall|k: int| 0 <= k < q ==> !#[trigger] devices[i as int].family_usable@[k]
            &&& eligible(devices[j]) ==> kind_rank(devices[i as int].kind) <= kind_rank(
                devices[j].kind,
            )
            &&& eligible(devices[j]) && j < i ==> kind_rank(devices[i as int].kind) < kind_rank(
                devices[j].kind,
            )
        },
{
}

/// A discrete GPU wins whenever one is eligible.
pub proof fn lemma_discrete_preferred(devices: Seq<DeviceInfo>, chosen: Option<(usize, usize)>, j: int)
    requires
        is_choice(devices, chosen),
        0 <= j < devices.len(),
        eligible(devices[j]),
        devices[j].kind == DeviceKind::DiscreteGpu,
    ensures
        chosen matches Some((i, q)) && devices[i as int].kind == DeviceKind::DiscreteGpu,
{
    if chosen is None {
        assert(!eligible(devices[j]));
    }
}

/// An eligible device is always found: the choice is `None` only when no
/// device can render to the window.
pub proof fn lemma_choice_exists(devices: Seq<DeviceInfo>, chosen: Option<(usize, usize)>, j: int)
    requires
        is_choice(devices, chosen),
        0 <= j < devices.len(),
        eligible(devices[j]),
    ensures
        chosen is Some,
{
    if chosen is None {
        assert(!eligible(devices[j]));
    }
}

} // verus!
