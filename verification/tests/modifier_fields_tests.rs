use drakkar_vfx::expr::xexpr::XExpr;
use drakkar_vfx::expr::xval::{XFloat, XValue};
use drakkar_vfx::models::XDimension;
use drakkar_vfx::models::attr::XAttr;
use drakkar_vfx::models::modifier::{
    XInitModifier,
    XLinearDragModifier,
    XSetAttributeModifier,
    XSetPositionSphereModifier,
    XUpdateModifier,
};
use drakkar_vfx::models::modifier_fields::{
    InitModifierFields,
    UpdateModifierFields,
    assemble_init_modifier,
    assemble_update_modifier,
    attr_from_selection,
    extract_init_fields,
    extract_update_fields,
};

fn decimal(n: i32) -> XExpr {
    XExpr::lit(XValue::Float(XFloat::from_int(n)))
}

fn empty_init_fields() -> InitModifierFields {
    InitModifierFields {
        center: None,
        axis: None,
        radius: None,
        speed: None,
        value: None,
        height: None,
        base_radius: None,
        top_radius: None,
        dimension: XDimension::Volume,
        attribute: XAttr::Age,
    }
}

#[test]
fn init_editor_gives_back_its_modifier() {
    for m in XInitModifier::all() {
        assert_eq!(assemble_init_modifier(&m, &extract_init_fields(&m)), m);
    }
    let m = XInitModifier::XSetPositionSphere(XSetPositionSphereModifier {
        center: XExpr::attr("position"),
        radius: decimal(3),
        dimension: XDimension::Volume,
    });
    let f = extract_init_fields(&m);
    assert_eq!(f.center, Some(XExpr::attr("position")));
    assert!(f.axis.is_none());
    assert_eq!(assemble_init_modifier(&m, &f), m);
}

#[test]
fn missing_init_fields_take_defaults() {
    let kind = XInitModifier::default();
    let m = assemble_init_modifier(&kind, &empty_init_fields());
    match m {
        XInitModifier::XSetPositionCircle(c) => {
            assert_eq!(c.center, decimal(0));
            assert_eq!(c.radius, decimal(1));
            assert_eq!(c.dimension, XDimension::Volume);
        }
        _ => panic!("expected a circle"),
    }
    let kind = XInitModifier::XSetAttribute(XSetAttributeModifier::default());
    let m = assemble_init_modifier(&kind, &empty_init_fields());
    assert_eq!(m, XInitModifier::XSetAttribute(XSetAttributeModifier { attr: XAttr::Age, value: decimal(0) }));
}

#[test]
fn update_editor_gives_back_its_modifier() {
    for m in XUpdateModifier::all() {
        assert_eq!(assemble_update_modifier(&m, &extract_update_fields(&m)), m);
    }
    let kind = XUpdateModifier::XLinearDrag(XLinearDragModifier::default());
    let empty = UpdateModifierFields { accel: None, origin: None, axis: None, drag: None, value: None, attribute: XAttr::Position };
    match assemble_update_modifier(&kind, &empty) {
        XUpdateModifier::XLinearDrag(d) => assert_eq!(d.drag.to_string(), "0.1"),
        _ => panic!("expected a drag"),
    }
}

#[test]
fn attribute_selection() {
    assert_eq!(attr_from_selection(Some("velocity")), XAttr::Velocity);
    assert_eq!(attr_from_selection(Some("nope")), XAttr::Position);
    assert_eq!(attr_from_selection(None), XAttr::Position);
}
