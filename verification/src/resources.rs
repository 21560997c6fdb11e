//! Resource directory: resolving property names to handles and selecting
//! a scanout plane compatible with a CRTC and pixel format.
//!
//! Property handles are object-scoped: the same name resolves to different
//! numeric handles on different objects, so resolution always works against
//! one object's own property table. Plane enumeration order is kernel-defined;
//! selection takes the first compatible plane in the order given.

use vstd::prelude::*;
use crate::errors::DisplayError;

verus! {

/// One named property of a kernel object, as enumerated for that object.
pub struct PropertyDescriptor {
    /// The opaque numeric handle the kernel knows this property by.
    pub handle: u64,
    /// The human-readable property name, as raw bytes.
    pub name: Vec<u8>,
}

/// One scanout plane, as enumerated.
pub struct PlaneInfo {
    /// The plane's own handle.
    pub handle: u32,
    /// CRTC affinity: bit `i` set means the plane can scan out on the CRTC
    /// at index `i` of the enumeration's CRTC list.
    pub crtc_mask: u32,
    /// The pixel formats the plane supports.
    pub formats: Vec<u32>,
}

/// The handle of the first property in `props` named `name`, if any.
pub open spec fn spec_find_property(props: Seq<PropertyDescriptor>, name: Seq<u8>) -> Option<u64>
    decreases props.len(),
{
    if props.len() == 0 {
        None
    } else if props[0].name@ == name {
        Some(props[0].handle)
    } else {
        spec_find_property(props.drop_first(), name)
    }
}

/// What `resolve_property` returns: the first matching handle, or
/// `PropertyNotFound` where the object has no property of that name.
pub open spec fn spec_resolve_property(
    props: Seq<PropertyDescriptor>,
    name: Seq<u8>,
) -> Result<u64, DisplayError> {
    match spec_find_property(props, name) {
        Some(h) => Ok(h),
        None => Err(DisplayError::PropertyNotFound),
    }
}

fn bytes_eq(a: &Vec<u8>, b: &Vec<u8>) -> (r: bool)
    ensures
        r == (a@ == b@),
{
    if a.len() != b.len() {
        return false;
    }
    let mut i: usize = 0;
    while i < a.len()
        invariant
            i <= a@.len(),
            a@.len() == b@.len(),
            forall|j: int| 0 <= j < i ==> a@[j] == b@[j],
        decreases a@.len() - i,
    {
        if a[i] != b[i] {
            return false;
        }
        i = i + 1;
    }
    proof {
        assert(a@ =~= b@);
    }
    true
}

/// Resolves a property name to its numeric handle by a linear scan of one
/// object's property table, taking the first exact match. Absence is a hard
/// error: it signals a driver or capability mismatch, not a transient state.
pub fn resolve_property(props: &Vec<PropertyDescriptor>, name: &Vec<u8>) -> (r: Result<
    u64,
    DisplayError,
>)
    ensures
        r == spec_resolve_property(props@, name@),
{
    let mut i: usize = 0;
    proof {
        assert(props@.skip(0) =~= props@);
    }
    while i < props.len()
        invariant
            i <= props@.len(),
            spec_find_property(props@, name@) == spec_find_property(props@.skip(i as int), name@),
        decreases props@.len() - i,
    {
        proof {
            assert(props@.skip(i as int)[0] == props@[i as int]);
            assert(props@.skip(i as int).drop_first() =~= props@.skip(i as int + 1));
        }
        if bytes_eq(&props[i].name, name) {
            return Ok(props[i].handle);
        }
        i = i + 1;
    }
    proof {
        assert(props@.skip(i as int).len() == 0);
    }
    Err(DisplayError::PropertyNotFound)
}

/// A resolved handle always comes out of the table it was resolved
/// against: it belongs to some entry carrying exactly the resolved name.
pub proof fn lemma_resolved_handle_in_table(props: Seq<PropertyDescriptor>, name: Seq<u8>, h: u64)
    requires
        spec_find_property(props, name) == Some(h),
    ensures
        exists|i: int| 0 <= i < props.len() && props[i].handle == h && props[i].name@ == name,
    decreases props.len(),
{
    if props.len() == 0 {
    } else if props[0].name@ == name {
        assert(0 <= 0 < props.len() && props[0].handle == h && props[0].name@ == name);
    } else {
        lemma_resolved_handle_in_table(props.drop_first(), name, h);
        let i = choose|i: int|
            0 <= i < props.drop_first().len() && props.drop_first()[i].handle == h
                && props.drop_first()[i].name@ == name;
        assert(props.drop_first()[i] == props[i + 1]);
        assert(0 <= i + 1 < props.len() && props[i + 1].handle == h && props[i + 1].name@ == name);
    }
}

/// Property resolution is object-scoped. Each object carries its own
/// property table, and the kernel never shares a property handle between
/// two objects' tables; resolving the same name on two such objects
/// therefore yields two different numeric handles, and a handle resolved
/// on one object must never be used on another.
pub proof fn lemma_resolution_object_scoped(
    a: Seq<PropertyDescriptor>,
    b: Seq<PropertyDescriptor>,
    name: Seq<u8>,
    ha: u64,
    hb: u64,
)
    requires
        spec_find_property(a, name) == Some(ha),
        spec_find_property(b, name) == Some(hb),
        forall|i: int, j: int|
            0 <= i < a.len() && 0 <= j < b.len() ==> a[i].handle != b[j].handle,
    ensures
        ha != hb,
{
    lemma_resolved_handle_in_table(a, name, ha);
    lemma_resolved_handle_in_table(b, name, hb);
}

/// Whether `plane` can serve `crtc` (the CRTC at some index of `crtcs` that
/// the plane's affinity mask covers) and supports `format`.
pub open spec fn plane_matches(
    plane: PlaneInfo,
    crtcs: Seq<u32>,
    crtc: u32,
    format: u32,
) -> bool {
    (exists|i: int|
        0 <= i < crtcs.len() && i < 32 && crtcs[i] == crtc && plane.crtc_mask >> (i as u32) & 1
            == 1) && plane.formats@.contains(format)
}

/// The handle of the first plane in `planes` matching `crtc` and `format`.
pub open spec fn spec_select_plane(
    planes: Seq<PlaneInfo>,
    crtcs: Seq<u32>,
    crtc: u32,
    format: u32,
) -> Option<u32>
    decreases planes.len(),
{
    if planes.len() == 0 {
        None
    } else if plane_matches(planes[0], crtcs, crtc, format) {
        Some(planes[0].handle)
    } else {
        spec_select_plane(planes.drop_first(), crtcs, crtc, format)
    }
}

/// What `select_plane` returns: the first compatible plane's handle, or
/// `NoCompatiblePlane` where no plane covers the CRTC with that format.
pub open spec fn spec_select_plane_result(
    planes: Seq<PlaneInfo>,
    crtcs: Seq<u32>,
    crtc: u32,
    format: u32,
) -> Result<u32, DisplayError> {
    match spec_select_plane(planes, crtcs, crtc, format) {
        Some(h) => Ok(h),
        None => Err(DisplayError::NoCompatiblePlane),
    }
}

fn plane_matches_exec(plane: &PlaneInfo, crtcs: &Vec<u32>, crtc: u32, format: u32) -> (r: bool)
    ensures
        r == plane_matches(*plane, crtcs@, crtc, format),
{
    let mut covers = false;
    let mut i: usize = 0;
    while i < crtcs.len() && i < 32
        invariant
            i <= crtcs@.len(),
            i <= 32,
            covers == exists|j: int|
                0 <= j < i && crtcs@[j] == crtc && plane.crtc_mask >> (j as u32) & 1 == 1,
        decreases crtcs@.len() - i,
    {
        if crtcs[i] == crtc && plane.crtc_mask >> (i as u32) & 1 == 1 {
            covers = true;
        }
        i = i + 1;
    }
    proof {
        assert(covers == exists|j: int|
            0 <= j < crtcs@.len() && j < 32 && crtcs@[j] == crtc && plane.crtc_mask >> (j as u32)
                & 1 == 1);
    }
    if !covers {
        return false;
    }
    let mut k: usize = 0;
    while k < plane.formats.len()
        invariant
            k <= plane.formats@.len(),
            forall|j: int| 0 <= j < k ==> plane.formats@[j] != format,
            exists|j: int|
                0 <= j < crtcs@.len() && j < 32 && crtcs@[j] == crtc && plane.crtc_mask >> (
                j as u32) & 1 == 1,
        decreases plane.formats@.len() - k,
    {
        if plane.formats[k] == format {
            proof {
                assert(plane.formats@.contains(format));
            }
            return true;
        }
        k = k + 1;
    }
    false
}

/// Searches the planes in enumeration order for the first one whose CRTC
/// affinity mask covers `crtc` and whose format list contains `format`.
/// Enumeration order is kernel-defined: callers must not depend on a
/// specific plane winning among ties across sessions.
pub fn select_plane(planes: &Vec<PlaneInfo>, crtcs: &Vec<u32>, crtc: u32, format: u32) -> (r:
    Result<u32, DisplayError>)
    ensures
        r == spec_select_plane_result(planes@, crtcs@, crtc, format),
{
    let mut i: usize = 0;
    proof {
        assert(planes@.skip(0) =~= planes@);
    }
    while i < planes.len()
        invariant
            i <= planes@.len(),
            spec_select_plane(planes@, crtcs@, crtc, format) == spec_select_plane(
                planes@.skip(i as int),
                crtcs@,
                crtc,
                format,
            ),
        decreases planes@.len() - i,
    {
        proof {
            assert(planes@.skip(i as int)[0] == planes@[i as int]);
            assert(planes@.skip(i as int).drop_first() =~= planes@.skip(i as int + 1));
        }
        if plane_matches_exec(&planes[i], crtcs, crtc, format) {
            return Ok(planes[i].handle);
        }
        i = i + 1;
    }
    proof {
        assert(planes@.skip(i as int).len() == 0);
    }
    Err(DisplayError::NoCompatiblePlane)
}

/// Plane selection is deterministic for a fixed enumeration order: against
/// an unchanged resource set and the same CRTC and format, any two results
/// that meet `select_plane`'s contract are the same plane.
pub proof fn lemma_select_plane_deterministic(
    planes: Seq<PlaneInfo>,
    crtcs: Seq<u32>,
    crtc: u32,
    format: u32,
    r1: Result<u32, DisplayError>,
    r2: Result<u32, DisplayError>,
)
    requires
        r1 == spec_select_plane_result(planes, crtcs, crtc, format),
        r2 == spec_select_plane_result(planes, crtcs, crtc, format),
    ensures
        r1 == r2,
{
}

/// A selected plane really is compatible: it stands in the plane list, its
/// affinity mask covers the target CRTC, and it supports the format.
pub proof fn lemma_selected_plane_compatible(
    planes: Seq<PlaneInfo>,
    crtcs: Seq<u32>,
    crtc: u32,
    format: u32,
)
    requires
        spec_select_plane(planes, crtcs, crtc, format) is Some,
    ensures
        exists|i: int|
            0 <= i < planes.len() && planes[i].handle == spec_select_plane(
                planes,
                crtcs,
                crtc,
                format,
            )->Some_0 && plane_matches(planes[i], crtcs, crtc, format),
    decreases planes.len(),
{
    if planes.len() == 0 {
    } else if plane_matches(planes[0], crtcs, crtc, format) {
        assert(0 <= 0 < planes.len() && planes[0].handle == spec_select_plane(
            planes,
            crtcs,
            crtc,
            format,
        )->Some_0 && plane_matches(planes[0], crtcs, crtc, format));
    } else {
        lemma_selected_plane_compatible(planes.drop_first(), crtcs, crtc, format);
        let j = choose|j: int|
            0 <= j < planes.drop_first().len() && planes.drop_first()[j].handle
                == spec_select_plane(planes.drop_first(), crtcs, crtc, format)->Some_0
                && plane_matches(planes.drop_first()[j], crtcs, crtc, format);
        assert(planes.drop_first()[j] == planes[j + 1]);
        assert(0 <= j + 1 < planes.len() && planes[j + 1].handle == spec_select_plane(
            planes,
            crtcs,
            crtc,
            format,
        )->Some_0 && plane_matches(planes[j + 1], crtcs, crtc, format));
    }
}

} // verus!
