use minecrust::gl::{AttributeFormat, AttributeLayout, COMPONENT_SIZE};
use minecrust::render::draw;

fn attr(location: u32, n_components: u32) -> AttributeFormat {
    AttributeFormat { location, n_components, normalized: false }
}

#[test]
fn attributes_are_laid_out_back_to_back() {
    let mut layout = AttributeLayout::new();
    layout.add_attribute(attr(0, 3));
    layout.add_attribute(attr(1, 2));
    let offsets = layout.setup_attributes();
    assert_eq!(offsets, vec![0, 12]);
    assert_eq!(layout.stride, 20);
    assert!(layout.location_in_use(0));
    assert!(layout.location_in_use(1));
    assert!(!layout.location_in_use(2));
    assert_eq!(COMPONENT_SIZE, 4);
}

#[test]
fn a_second_setup_continues_from_the_stride() {
    let mut layout = AttributeLayout::new();
    layout.add_attribute(attr(4, 4));
    assert_eq!(layout.setup_attributes(), vec![0]);
    assert_eq!(layout.setup_attributes(), vec![16]);
    assert_eq!(layout.stride, 32);
}

#[test]
fn locations_are_free_until_set_up() {
    let mut layout = AttributeLayout::new();
    layout.add_attribute(attr(0, 1));
    assert!(!layout.location_in_use(0));
    layout.add_attribute(attr(0, 1));
    assert_eq!(layout.attributes.len(), 2);
    assert_eq!(layout.setup_attributes(), vec![0, 4]);
}

#[test]
fn draw_formats_are_the_same_type() {
    let f: draw::AttributeFormat = attr(7, 2);
    let mut layout = draw::AttributeLayout::new();
    layout.add_attribute(f);
    assert_eq!(layout.setup_attributes(), vec![0]);
    assert_eq!(layout.stride, 8);
}
