use atomic_present::errors::DisplayError;
use atomic_present::resources::{resolve_property, select_plane, PlaneInfo, PropertyDescriptor};

fn prop(handle: u64, name: &str) -> PropertyDescriptor {
    PropertyDescriptor {
        handle,
        name: name.as_bytes().to_vec(),
    }
}

#[test]
fn resolves_a_name_to_its_handle() {
    let props = vec![prop(3, "MODE_ID"), prop(7, "ACTIVE"), prop(9, "CTM")];
    let name = "ACTIVE".as_bytes().to_vec();
    assert_eq!(resolve_property(&props, &name), Ok(7));
}

#[test]
fn missing_name_is_a_hard_error() {
    let props = vec![prop(3, "MODE_ID"), prop(7, "ACTIVE")];
    let name = "CTM".as_bytes().to_vec();
    assert_eq!(
        resolve_property(&props, &name),
        Err(DisplayError::PropertyNotFound)
    );
    let empty: Vec<PropertyDescriptor> = Vec::new();
    assert_eq!(
        resolve_property(&empty, &name),
        Err(DisplayError::PropertyNotFound)
    );
}

#[test]
fn first_match_wins() {
    let props = vec![prop(1, "ACTIVE"), prop(2, "ACTIVE")];
    let name = "ACTIVE".as_bytes().to_vec();
    assert_eq!(resolve_property(&props, &name), Ok(1));
}

#[test]
fn resolution_is_object_scoped() {
    // The same name on two different objects resolves to each object's own
    // handle: handles must be re-resolved per object, never shared.
    let crtc_props = vec![prop(20, "ACTIVE"), prop(21, "CTM")];
    let connector_props = vec![prop(35, "CRTC_ID"), prop(36, "ACTIVE")];
    let name = "ACTIVE".as_bytes().to_vec();
    let on_crtc = resolve_property(&crtc_props, &name).unwrap();
    let on_connector = resolve_property(&connector_props, &name).unwrap();
    assert_eq!(on_crtc, 20);
    assert_eq!(on_connector, 36);
    assert_ne!(on_crtc, on_connector);
}

const XRGB: u32 = 0x3432_5258;
const NV12: u32 = 0x3231_564e;

#[test]
fn selects_the_first_compatible_plane() {
    let crtcs = vec![40, 41];
    let planes = vec![
        // Covers CRTC index 0 only, wrong format.
        PlaneInfo { handle: 60, crtc_mask: 0b01, formats: vec![NV12] },
        // Covers CRTC index 1, right format, but we target CRTC 40.
        PlaneInfo { handle: 61, crtc_mask: 0b10, formats: vec![XRGB] },
        // Covers both CRTCs, right format: the first real match.
        PlaneInfo { handle: 62, crtc_mask: 0b11, formats: vec![NV12, XRGB] },
        // Also compatible, but enumerated later.
        PlaneInfo { handle: 63, crtc_mask: 0b01, formats: vec![XRGB] },
    ];
    assert_eq!(select_plane(&planes, &crtcs, 40, XRGB), Ok(62));
    assert_eq!(select_plane(&planes, &crtcs, 41, XRGB), Ok(61));
}

#[test]
fn selection_is_deterministic_for_a_fixed_enumeration() {
    let crtcs = vec![40, 41];
    let planes = vec![
        PlaneInfo { handle: 62, crtc_mask: 0b11, formats: vec![NV12, XRGB] },
        PlaneInfo { handle: 63, crtc_mask: 0b01, formats: vec![XRGB] },
    ];
    let first = select_plane(&planes, &crtcs, 40, XRGB);
    for _ in 0..10 {
        assert_eq!(select_plane(&planes, &crtcs, 40, XRGB), first);
    }
}

#[test]
fn no_plane_with_the_format_is_rejected() {
    // Planes on this CRTC support only NV12; XRGB is requested.
    let crtcs = vec![40];
    let planes = vec![
        PlaneInfo { handle: 60, crtc_mask: 0b01, formats: vec![NV12] },
        PlaneInfo { handle: 61, crtc_mask: 0b01, formats: vec![NV12] },
    ];
    assert_eq!(
        select_plane(&planes, &crtcs, 40, XRGB),
        Err(DisplayError::NoCompatiblePlane)
    );
}

#[test]
fn affinity_mask_is_honored() {
    // The only plane with the right format cannot scan out on CRTC 41.
    let crtcs = vec![40, 41];
    let planes = vec![PlaneInfo { handle: 60, crtc_mask: 0b01, formats: vec![XRGB] }];
    assert_eq!(select_plane(&planes, &crtcs, 40, XRGB), Ok(60));
    assert_eq!(
        select_plane(&planes, &crtcs, 41, XRGB),
        Err(DisplayError::NoCompatiblePlane)
    );
}
