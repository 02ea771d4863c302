use drakkar_vfx::models::key_value::{HdrColor, KeyValue, KeyValueEntry};
use drakkar_vfx::expr::xexpr::XExpr;
use drakkar_vfx::expr::xval::{XExprReturnType, XFloat, XValue};
use drakkar_vfx::models::XDimension;
use drakkar_vfx::models::attr::XAttr;
use drakkar_vfx::models::key_value::ValueType;
use drakkar_vfx::models::state::XError;
use drakkar_vfx::models::modifier::{
    XForceFieldModifier,
    XForceFieldSource,
    XInitModifier,
    XOrientMode,
    XOrientModifier,
    XRenderModifier,
    XSetAttributeModifier,
    XSetPositionCircleModifier,
    XSetPositionCone3dModifier,
    XUpdateModifier,
};

fn decimal(n: i32) -> XExpr {
    XExpr::lit(XValue::Float(XFloat::from_int(n)))
}

#[test]
fn attr_names_round_trip() {
    for a in XAttr::all() {
        assert_eq!(XAttr::from_name(a.name()), Ok(a));
        assert_eq!(a.name().parse::<XAttr>(), Ok(a));
    }
    assert_eq!(XAttr::all().len(), 11);
    assert_eq!(XAttr::Size2.name(), "size2");
    assert_eq!(XAttr::AxisY.name(), "axis_y");
    assert_eq!(XAttr::from_name("Position"), Err(()));
    assert_eq!(XAttr::from_name(""), Err(()));
}

#[test]
fn attr_types_and_descriptions() {
    assert_eq!(XAttr::Position.get_type(), XExprReturnType::Vec3);
    assert_eq!(XAttr::Age.get_type(), XExprReturnType::Float);
    assert_eq!(XAttr::Size2.get_type(), XExprReturnType::Vec2);
    assert_eq!(XAttr::AxisZ.get_type(), XExprReturnType::Vec3);
    assert_eq!(XAttr::Color.get_description(), "RGB color values (0-1)");
    assert_eq!(XAttr::Size2.get_description(), "2D size scale (width, height)");
    assert_eq!(XAttr::default(), XAttr::Position);
}

#[test]
fn dimension_names() {
    assert_eq!(XDimension::default(), XDimension::Surface);
    assert_eq!(XDimension::Volume.name(), "Volume");
    assert_eq!(XDimension::from_name("Surface"), Ok(XDimension::Surface));
    assert_eq!(XDimension::from_name("surface"), Err(()));
    assert_eq!(XDimension::all(), vec![XDimension::Surface, XDimension::Volume]);
}

#[test]
fn value_type_indices_round_trip() {
    for i in 0..5 {
        assert_eq!(ValueType::from_index(i).to_index(), i);
    }
    assert_eq!(ValueType::from_index(3), ValueType::Vec3);
    assert_eq!(ValueType::Color.to_index(), 4);
    assert_eq!(ValueType::default(), ValueType::Float);
}

#[test]
fn modifier_defaults() {
    let c = XSetPositionCircleModifier::default();
    assert_eq!(c.center, decimal(0));
    assert_eq!(c.radius, decimal(1));
    assert_eq!(c.dimension, XDimension::Surface);
    assert_eq!(c.radius.to_string(), "1.0");
    let cone = XSetPositionCone3dModifier::default();
    assert_eq!(cone.height, decimal(1));
    assert_eq!(cone.top_radius, decimal(0));
    let s = XForceFieldSource::default();
    assert_eq!(s.max_radius.to_string(), "10.0");
    assert_eq!(s.force_exponent.to_string(), "2.0");
    assert!(!s.conform_to_sphere);
    assert_eq!(XForceFieldModifier::default().sources.len(), 1);
    let a = XSetAttributeModifier::default();
    assert_eq!(a.attr, XAttr::Position);
    assert_eq!(a.value.to_string(), "0.0");
    assert_eq!(XInitModifier::default().name(), "Set Position Circle");
    assert_eq!(XUpdateModifier::default().name(), "Linear Drag");
    assert_eq!(XOrientModifier::default().mode, XOrientMode::ParallelCameraDepthPlane);
    assert_eq!(XRenderModifier::default().name(), "Orient");
}

#[test]
fn modifier_names_round_trip() {
    let inits = XInitModifier::all();
    assert_eq!(inits.len(), 7);
    for m in &inits {
        assert_eq!(&XInitModifier::from_name(m.name()).unwrap(), m);
    }
    assert_eq!(
        XInitModifier::from_name("Set Position Cone 3D").unwrap(),
        XInitModifier::XSetPositionCone3d(XSetPositionCone3dModifier::default())
    );
    assert_eq!(XInitModifier::from_name("Set Position Cone"), Err(()));
    let updates = XUpdateModifier::all();
    assert_eq!(updates.len(), 5);
    for m in &updates {
        assert_eq!(&XUpdateModifier::from_name(m.name()).unwrap(), m);
    }
    assert_eq!(XUpdateModifier::from_name("Acceleration").unwrap().name(), "Acceleration");
    for m in XOrientMode::all() {
        assert_eq!(XOrientMode::from_name(m.name()), Ok(m));
    }
    assert_eq!(XOrientMode::AlongVelocity.name(), "Along Velocity");
    assert_eq!(XRenderModifier::from_name("Orient").unwrap(), XRenderModifier::default());
    assert_eq!(XRenderModifier::from_name("orient"), Err(()));
    assert_eq!(XRenderModifier::all().len(), 1);
}

#[test]
fn conversion_error_messages() {
    assert_eq!(XError::UnknownAttribute("foo".to_string()).to_string(), "Unknown attribute: foo");
    assert_eq!(
        XError::UnknownBuiltInOperator("x".to_string()).to_string(),
        "Unknown built-in operator: x"
    );
    assert_eq!(XError::ExpressionNotFound(String::new()).to_string(), "Expression not found: ");
}

#[test]
fn key_values_have_their_types() {
    for i in 0..5 {
        let t = ValueType::from_index(i);
        assert_eq!(KeyValue::with_type(t).get_type(), t);
    }
    assert_eq!(KeyValue::with_type(ValueType::Integer), KeyValue::Integer(0));
    assert_eq!(KeyValue::default(), KeyValue::Float(XFloat::from_int(0)));
    assert_eq!(KeyValue::with_type(ValueType::Color), KeyValue::Color(HdrColor::default()));
    let e = KeyValueEntry::new("mass".to_string(), KeyValue::Integer(3));
    assert_eq!(e.key, "mass");
    assert_eq!(e.value.get_type(), ValueType::Integer);
    assert_eq!(KeyValueEntry::default().key, "");
}

#[test]
fn hdr_color_components() {
    let half = XFloat::from_parts(false, "0", "5").unwrap();
    let c = HdrColor::default().with_g(half.clone()).with_i(XFloat::from_int(2));
    assert_eq!(c.r().to_string(), "1.0");
    assert_eq!(c.g(), half);
    assert_eq!(c.i().to_string(), "2.0");
    let mut d = c.clone();
    d.set_a(XFloat::from_int(0));
    assert_eq!(d.a().to_string(), "0.0");
    assert_eq!(d.b().to_string(), "1.0");
    let n = HdrColor::new(XFloat::from_int(0), XFloat::from_int(0), XFloat::from_int(0), XFloat::from_int(1), XFloat::from_int(1));
    assert_eq!(n.r().to_string(), "0.0");
}
