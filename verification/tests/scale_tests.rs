use slideshow::scale::pad_even;
use slideshow::{OutGeometry, ScalerState, SrcGeometry};

#[test]
fn odd_dimensions_pad_up_to_even() {
    assert_eq!(pad_even(101), 102);
    assert_eq!(pad_even(99), 100);
    assert_eq!(pad_even(1), 2);
}

#[test]
fn even_dimensions_stay() {
    assert_eq!(pad_even(320), 320);
    assert_eq!(pad_even(0), 0);
}

#[test]
fn output_geometry_is_even_for_odd_source() {
    let first = SrcGeometry { format: 5, width: 101, height: 99 };
    let s = ScalerState::configure(first);
    assert_eq!(s.out, OutGeometry { width: 102, height: 100 });
}

#[test]
fn plan_rebuilt_exactly_on_geometry_change() {
    let first = SrcGeometry { format: 5, width: 320, height: 240 };
    let mut s = ScalerState::configure(first);
    // same geometry again: the cached plan is reused
    assert!(!s.prepare(first));
    // a frame with different geometry forces one rebuild ...
    let second = SrcGeometry { format: 5, width: 64, height: 48 };
    assert!(s.prepare(second));
    // ... into the unchanged output geometry of the run
    assert_eq!(s.out, OutGeometry { width: 320, height: 240 });
    // and repeating that geometry rebuilds nothing further
    assert!(!s.prepare(second));
    // a pixel-format change alone also forces a rebuild
    let third = SrcGeometry { format: 7, width: 64, height: 48 };
    assert!(s.prepare(third));
}
