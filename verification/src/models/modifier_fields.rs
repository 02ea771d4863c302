//! The fields a modifier editor shows: taking them out of a modifier, and
//! building a modifier of a given kind back from them, with each missing field
//! taking its default.

use vstd::prelude::*;

use crate::expr::xexpr::{SExpr, XExpr};
use crate::expr::xval::{SFloat, SValue, XFloat, XValue};
use crate::models::XDimension;
use crate::models::attr::{XAttr, spec_attr_from_name};
use crate::models::modifier::{
    XAccelModifier,
    XInitModifier,
    XLinearDragModifier,
    XRadialAccelModifier,
    XSetAttributeModifier,
    XSetPositionCircleModifier,
    XSetPositionCone3dModifier,
    XSetPositionSphereModifier,
    XSetVelocityCircleModifier,
    XSetVelocitySphereModifier,
    XSetVelocityTangentModifier,
    XTangentAccelModifier,
    XUpdateModifier,
    decimal,
    decimal_lit,
};

verus! {

/// The view of an optional expression.
pub open spec fn opt_expr_view(e: Option<XExpr>) -> Option<SExpr> {
    match e {
        Some(x) => Some(x@),
        None => None,
    }
}

/// The expression in `f`, or the decimal literal `n.0` when there is none.
pub open spec fn or_decimal(f: Option<SExpr>, n: int) -> SExpr {
    match f {
        Some(e) => e,
        None => decimal_lit(n),
    }
}

/// A copy of the expression in `f`, or the decimal literal `n.0` when there is none.
fn expr_or_decimal(f: &Option<XExpr>, n: i32) -> (r: XExpr)
    ensures
        r@ == or_decimal(opt_expr_view(*f), n as int),
{
    match f {
        Some(e) => e.clone(),
        None => decimal(n),
    }
}

/// The attribute picked by the text `selected` of an attribute list, or the
/// default attribute when nothing or no attribute's name is picked.
pub fn attr_from_selection(selected: Option<&str>) -> (a: XAttr)
    ensures
        a == match selected {
            Some(t) => match spec_attr_from_name(t@) {
                Some(x) => x,
                None => XAttr::Position,
            },
            None => XAttr::Position,
        },
{
    match selected {
        Some(t) => match XAttr::from_name(t) {
            Ok(a) => a,
            Err(_) => XAttr::default(),
        },
        None => XAttr::default(),
    }
}

// ====================
// Init modifiers.
// ====================

/// The fields an init modifier editor shows; a field the modifier's kind does
/// not have is `None`.
pub struct InitModifierFields {
    pub center: Option<XExpr>,
    pub axis: Option<XExpr>,
    pub radius: Option<XExpr>,
    pub speed: Option<XExpr>,
    pub value: Option<XExpr>,
    pub height: Option<XExpr>,
    pub base_radius: Option<XExpr>,
    pub top_radius: Option<XExpr>,
    pub dimension: XDimension,
    pub attribute: XAttr,
}

/// The fields of an init modifier editor, as the specification sees them.
pub struct SInitFields {
    pub center: Option<SExpr>,
    pub axis: Option<SExpr>,
    pub radius: Option<SExpr>,
    pub speed: Option<SExpr>,
    pub value: Option<SExpr>,
    pub height: Option<SExpr>,
    pub base_radius: Option<SExpr>,
    pub top_radius: Option<SExpr>,
    pub dimension: XDimension,
    pub attribute: XAttr,
}

impl View for InitModifierFields {
    type V = SInitFields;

    open spec fn view(&self) -> SInitFields {
        SInitFields {
            center: opt_expr_view(self.center),
            axis: opt_expr_view(self.axis),
            radius: opt_expr_view(self.radius),
            speed: opt_expr_view(self.speed),
            value: opt_expr_view(self.value),
            height: opt_expr_view(self.height),
            base_radius: opt_expr_view(self.base_radius),
            top_radius: opt_expr_view(self.top_radius),
            dimension: self.dimension,
            attribute: self.attribute,
        }
    }
}

/// Fields with the given expressions, surface dimension and default attribute.
pub open spec fn init_fields(
    center: Option<SExpr>,
    axis: Option<SExpr>,
    radius: Option<SExpr>,
    speed: Option<SExpr>,
    value: Option<SExpr>,
    height: Option<SExpr>,
    base_radius: Option<SExpr>,
    top_radius: Option<SExpr>,
) -> SInitFields {
    SInitFields {
        center,
        axis,
        radius,
        speed,
        value,
        height,
        base_radius,
        top_radius,
        dimension: XDimension::Surface,
        attribute: XAttr::Position,
    }
}

/// The fields an editor shows for the init modifier `m`.
pub open spec fn spec_init_fields(m: XInitModifier) -> SInitFields {
    match m {
        XInitModifier::XSetPositionCircle(c) => SInitFields {
            dimension: c.dimension,
            ..init_fields(Some(c.center@), Some(c.axis@), Some(c.radius@), None, None, None, None, None)
        },
        XInitModifier::XSetPositionSphere(c) => SInitFields {
            dimension: c.dimension,
            ..init_fields(Some(c.center@), None, Some(c.radius@), None, None, None, None, None)
        },
        XInitModifier::XSetPositionCone3d(c) => SInitFields {
            dimension: c.dimension,
            ..init_fields(None, None, None, None, None, Some(c.height@), Some(c.base_radius@), Some(c.top_radius@))
        },
        XInitModifier::XSetVelocityCircle(c) => init_fields(
            Some(c.center@),
            Some(c.axis@),
            None,
            Some(c.speed@),
            None,
            None,
            None,
            None,
        ),
        XInitModifier::XSetVelocitySphere(c) => init_fields(
            Some(c.center@),
            None,
            None,
            Some(c.speed@),
            None,
            None,
            None,
            None,
        ),
        XInitModifier::XSetVelocityTangent(c) => init_fields(
            Some(c.center@),
            None,
            None,
            Some(c.speed@),
            None,
            None,
            None,
            None,
        ),
        XInitModifier::XSetAttribute(c) => SInitFields {
            attribute: c.attr,
            ..init_fields(None, None, None, None, Some(c.value@), None, None, None)
        },
    }
}

/// The fields of the init modifier of kind `k` built from the fields `f`: the
/// kind's own fields are taken from `f`, or from their defaults where `f` has none.
pub open spec fn spec_assembled_init_fields(k: int, f: SInitFields) -> SInitFields {
    if k == 0 {
        SInitFields {
            dimension: f.dimension,
            ..init_fields(
                Some(or_decimal(f.center, 0)),
                Some(or_decimal(f.axis, 0)),
                Some(or_decimal(f.radius, 1)),
                None,
                None,
                None,
                None,
                None,
            )
        }
    } else if k == 1 {
        SInitFields {
            dimension: f.dimension,
            ..init_fields(Some(or_decimal(f.center, 0)), None, Some(or_decimal(f.radius, 1)), None, None, None, None, None)
        }
    } else if k == 2 {
        SInitFields {
            dimension: f.dimension,
            ..init_fields(
                None,
                None,
                None,
                None,
                None,
                Some(or_decimal(f.height, 1)),
                Some(or_decimal(f.base_radius, 1)),
                Some(or_decimal(f.top_radius, 0)),
            )
        }
    } else if k == 3 {
        init_fields(
            Some(or_decimal(f.center, 0)),
            Some(or_decimal(f.axis, 0)),
            None,
            Some(or_decimal(f.speed, 1)),
            None,
            None,
            None,
            None,
        )
    } else if k == 4 || k == 5 {
        init_fields(Some(or_decimal(f.center, 0)), None, None, Some(or_decimal(f.speed, 1)), None, None, None, None)
    } else {
        SInitFields {
            attribute: f.attribute,
            ..init_fields(None, None, None, None, Some(or_decimal(f.value, 0)), None, None, None)
        }
    }
}

/// The fields an editor shows for the init modifier `m`.
pub fn extract_init_fields(m: &XInitModifier) -> (f: InitModifierFields)
    ensures
        f@ == spec_init_fields(*m),
{
    let mut f = InitModifierFields {
        center: None,
        axis: None,
        radius: None,
        speed: None,
        value: None,
        height: None,
        base_radius: None,
        top_radius: None,
        dimension: XDimension::default(),
        attribute: XAttr::default(),
    };
    match m {
        XInitModifier::XSetPositionCircle(c) => {
            f.center = Some(c.center.clone());
            f.axis = Some(c.axis.clone());
            f.radius = Some(c.radius.clone());
            f.dimension = c.dimension;
        },
        XInitModifier::XSetPositionSphere(c) => {
            f.center = Some(c.center.clone());
            f.radius = Some(c.radius.clone());
            f.dimension = c.dimension;
        },
        XInitModifier::XSetPositionCone3d(c) => {
            f.height = Some(c.height.clone());
            f.base_radius = Some(c.base_radius.clone());
            f.top_radius = Some(c.top_radius.clone());
            f.dimension = c.dimension;
        },
        XInitModifier::XSetVelocityCircle(c) => {
            f.center = Some(c.center.clone());
            f.axis = Some(c.axis.clone());
            f.speed = Some(c.speed.clone());
        },
        XInitModifier::XSetVelocitySphere(c) => {
            f.center = Some(c.center.clone());
            f.speed = Some(c.speed.clone());
        },
        XInitModifier::XSetVelocityTangent(c) => {
            f.center = Some(c.center.clone());
            f.speed = Some(c.speed.clone());
        },
        XInitModifier::XSetAttribute(c) => {
            f.value = Some(c.value.clone());
            f.attribute = c.attr;
        },
    }
    f
}

/// The init modifier of the same kind as `kind` built from `fields`: each of
/// the kind's fields comes from `fields`, or takes its default when missing.
pub fn assemble_init_modifier(kind: &XInitModifier, fields: &InitModifierFields) -> (m: XInitModifier)
    ensures
        m.kind_index() == kind.kind_index(),
        spec_init_fields(m) == spec_assembled_init_fields(kind.kind_index(), fields@),
{
    match kind {
        XInitModifier::XSetPositionCircle(_) => XInitModifier::XSetPositionCircle(
            XSetPositionCircleModifier {
                center: expr_or_decimal(&fields.center, 0),
                axis: expr_or_decimal(&fields.axis, 0),
                radius: expr_or_decimal(&fields.radius, 1),
                dimension: fields.dimension,
            },
        ),
        XInitModifier::XSetPositionSphere(_) => XInitModifier::XSetPositionSphere(
            XSetPositionSphereModifier {
                center: expr_or_decimal(&fields.center, 0),
                radius: expr_or_decimal(&fields.radius, 1),
                dimension: fields.dimension,
            },
        ),
        XInitModifier::XSetPositionCone3d(_) => XInitModifier::XSetPositionCone3d(
            XSetPositionCone3dModifier {
                height: expr_or_decimal(&fields.height, 1),
                base_radius: expr_or_decimal(&fields.base_radius, 1),
                top_radius: expr_or_decimal(&fields.top_radius, 0),
                dimension: fields.dimension,
            },
        ),
        XInitModifier::XSetVelocityCircle(_) => XInitModifier::XSetVelocityCircle(
            XSetVelocityCircleModifier {
                center: expr_or_decimal(&fields.center, 0),
                axis: expr_or_decimal(&fields.axis, 0),
                speed: expr_or_decimal(&fields.speed, 1),
            },
        ),
        XInitModifier::XSetVelocitySphere(_) => XInitModifier::XSetVelocitySphere(
            XSetVelocitySphereModifier {
                center: expr_or_decimal(&fields.center, 0),
                speed: expr_or_decimal(&fields.speed, 1),
            },
        ),
        XInitModifier::XSetVelocityTangent(_) => XInitModifier::XSetVelocityTangent(
            XSetVelocityTangentModifier {
                center: expr_or_decimal(&fields.center, 0),
                speed: expr_or_decimal(&fields.speed, 1),
            },
        ),
        XInitModifier::XSetAttribute(_) => XInitModifier::XSetAttribute(
            XSetAttributeModifier { attr: fields.attribute, value: expr_or_decimal(&fields.value, 0) },
        ),
    }
}

/// Each editor field shows the modifier's field of the same name, and the
/// fields a kind does not have are empty: a cone shows its height, base
/// radius and top radius; a position circle its center, axis and radius; a
/// position sphere its center and radius; a velocity circle its center, axis
/// and speed; a velocity sphere or tangent its center and speed; a set
/// attribute its value and attribute. A shape's dimension is shown too.
pub proof fn lemma_init_fields_named(m: XInitModifier)
    ensures
        match m {
            XInitModifier::XSetPositionCircle(c) => {
                let f = spec_init_fields(m);
                &&& f.center == Some(c.center@) && f.axis == Some(c.axis@) && f.radius == Some(c.radius@)
                &&& f.speed is None && f.value is None && f.height is None
                &&& f.base_radius is None && f.top_radius is None && f.dimension == c.dimension
            },
            XInitModifier::XSetPositionSphere(c) => {
                let f = spec_init_fields(m);
                &&& f.center == Some(c.center@) && f.radius == Some(c.radius@) && f.axis is None
                &&& f.speed is None && f.value is None && f.height is None
                &&& f.base_radius is None && f.top_radius is None && f.dimension == c.dimension
            },
            XInitModifier::XSetPositionCone3d(c) => {
                let f = spec_init_fields(m);
                &&& f.height == Some(c.height@) && f.base_radius == Some(c.base_radius@)
                &&& f.top_radius == Some(c.top_radius@) && f.dimension == c.dimension
                &&& f.center is None && f.axis is None && f.radius is None && f.speed is None
                &&& f.value is None
            },
            XInitModifier::XSetVelocityCircle(c) => {
                let f = spec_init_fields(m);
                &&& f.center == Some(c.center@) && f.axis == Some(c.axis@) && f.speed == Some(c.speed@)
                &&& f.radius is None && f.value is None && f.height is None
                &&& f.base_radius is None && f.top_radius is None
            },
            XInitModifier::XSetVelocitySphere(c) => {
                let f = spec_init_fields(m);
                &&& f.center == Some(c.center@) && f.speed == Some(c.speed@) && f.axis is None
                &&& f.radius is None && f.value is None && f.height is None
                &&& f.base_radius is None && f.top_radius is None
            },
            XInitModifier::XSetVelocityTangent(c) => {
                let f = spec_init_fields(m);
                &&& f.center == Some(c.center@) && f.speed == Some(c.speed@) && f.axis is None
                &&& f.radius is None && f.value is None && f.height is None
                &&& f.base_radius is None && f.top_radius is None
            },
            XInitModifier::XSetAttribute(c) => {
                let f = spec_init_fields(m);
                &&& f.value == Some(c.value@) && f.attribute == c.attr
                &&& f.center is None && f.axis is None && f.radius is None && f.speed is None
                &&& f.height is None && f.base_radius is None && f.top_radius is None
            },
        },
{
}

/// Building an init modifier takes each of its fields from the editor field
/// of the same name, and only where that field is empty from the default of
/// the kind: centers and axes `0.0`, radii, heights and speeds `1.0` (a
/// cone's top radius `0.0`), values `0.0`.
pub proof fn lemma_assembled_init_fields_named(k: int, f: SInitFields)
    ensures
        k == 0 ==> spec_assembled_init_fields(k, f).center == Some(or_decimal(f.center, 0))
            && spec_assembled_init_fields(k, f).axis == Some(or_decimal(f.axis, 0))
            && spec_assembled_init_fields(k, f).radius == Some(or_decimal(f.radius, 1))
            && spec_assembled_init_fields(k, f).dimension == f.dimension,
        k == 1 ==> spec_assembled_init_fields(k, f).center == Some(or_decimal(f.center, 0))
            && spec_assembled_init_fields(k, f).radius == Some(or_decimal(f.radius, 1))
            && spec_assembled_init_fields(k, f).dimension == f.dimension,
        k == 2 ==> spec_assembled_init_fields(k, f).height == Some(or_decimal(f.height, 1))
            && spec_assembled_init_fields(k, f).base_radius == Some(or_decimal(f.base_radius, 1))
            && spec_assembled_init_fields(k, f).top_radius == Some(or_decimal(f.top_radius, 0))
            && spec_assembled_init_fields(k, f).dimension == f.dimension,
        k == 3 ==> spec_assembled_init_fields(k, f).center == Some(or_decimal(f.center, 0))
            && spec_assembled_init_fields(k, f).axis == Some(or_decimal(f.axis, 0))
            && spec_assembled_init_fields(k, f).speed == Some(or_decimal(f.speed, 1)),
        k == 4 || k == 5 ==> spec_assembled_init_fields(k, f).center == Some(or_decimal(f.center, 0))
            && spec_assembled_init_fields(k, f).speed == Some(or_decimal(f.speed, 1)),
        k == 6 ==> spec_assembled_init_fields(k, f).value == Some(or_decimal(f.value, 0))
            && spec_assembled_init_fields(k, f).attribute == f.attribute,
{
}

/// An init modifier editor gives back the modifier it was shown: building a
/// modifier of `m`'s kind from the fields taken out of `m` gives `m`'s fields.
pub proof fn lemma_init_fields_roundtrip(m: XInitModifier)
    ensures
        spec_assembled_init_fields(m.kind_index(), spec_init_fields(m)) == spec_init_fields(m),
{
}


// ====================
// Update modifiers.
// ====================

/// The literal `0.1`, the drag an update modifier editor falls back to.
pub open spec fn tenth_lit() -> SExpr {
    SExpr::Lit(SValue::Float(SFloat { negative: false, whole: Seq::empty(), frac: seq!['1'] }))
}

/// The expression `0.1`.
fn tenth() -> (r: XExpr)
    ensures
        r@ == tenth_lit(),
{
    let one = "1".to_owned();
    proof {
        reveal_strlit("1");
    }
    assert(one@ =~= seq!['1']);
    XExpr::lit(XValue::float(XFloat { negative: false, whole: String::new(), frac: one }))
}

/// The fields an update modifier editor shows; a field the modifier's kind
/// does not have is `None`.
pub struct UpdateModifierFields {
    pub accel: Option<XExpr>,
    pub origin: Option<XExpr>,
    pub axis: Option<XExpr>,
    pub drag: Option<XExpr>,
    pub value: Option<XExpr>,
    pub attribute: XAttr,
}

/// The fields of an update modifier editor, as the specification sees them.
pub struct SUpdateFields {
    pub accel: Option<SExpr>,
    pub origin: Option<SExpr>,
    pub axis: Option<SExpr>,
    pub drag: Option<SExpr>,
    pub value: Option<SExpr>,
    pub attribute: XAttr,
}

impl View for UpdateModifierFields {
    type V = SUpdateFields;

    open spec fn view(&self) -> SUpdateFields {
        SUpdateFields {
            accel: opt_expr_view(self.accel),
            origin: opt_expr_view(self.origin),
            axis: opt_expr_view(self.axis),
            drag: opt_expr_view(self.drag),
            value: opt_expr_view(self.value),
            attribute: self.attribute,
        }
    }
}

/// Fields with the given expressions and the default attribute.
pub open spec fn update_fields(
    accel: Option<SExpr>,
    origin: Option<SExpr>,
    axis: Option<SExpr>,
    drag: Option<SExpr>,
    value: Option<SExpr>,
) -> SUpdateFields {
    SUpdateFields { accel, origin, axis, drag, value, attribute: XAttr::Position }
}

/// The fields an editor shows for the update modifier `m`.
pub open spec fn spec_update_fields(m: XUpdateModifier) -> SUpdateFields {
    match m {
        XUpdateModifier::XAccel(c) => update_fields(Some(c.accel@), None, None, None, None),
        XUpdateModifier::XRadialAccel(c) => update_fields(Some(c.accel@), Some(c.origin@), None, None, None),
        XUpdateModifier::XTangentAccel(c) => update_fields(
            Some(c.accel@),
            Some(c.origin@),
            Some(c.axis@),
            None,
            None,
        ),
        XUpdateModifier::XLinearDrag(c) => update_fields(None, None, None, Some(c.drag@), None),
        XUpdateModifier::XSetAttribute(c) => SUpdateFields {
            attribute: c.attr,
            ..update_fields(None, None, None, None, Some(c.value@))
        },
    }
}

/// The fields of the update modifier of kind `k` built from the fields `f`:
/// the kind's own fields are taken from `f`, or from their fallbacks where `f`
/// has none (a missing drag becomes `0.1`).
pub open spec fn spec_assembled_update_fields(k: int, f: SUpdateFields) -> SUpdateFields {
    if k == 0 {
        update_fields(Some(or_decimal(f.accel, 0)), None, None, None, None)
    } else if k == 1 {
        update_fields(Some(or_decimal(f.accel, 0)), Some(or_decimal(f.origin, 0)), None, None, None)
    } else if k == 2 {
        update_fields(
            Some(or_decimal(f.accel, 0)),
            Some(or_decimal(f.origin, 0)),
            Some(or_decimal(f.axis, 0)),
            None,
            None,
        )
    } else if k == 3 {
        update_fields(
            None,
            None,
            None,
            Some(
                match f.drag {
                    Some(e) => e,
                    None => tenth_lit(),
                },
            ),
            None,
        )
    } else {
        SUpdateFields {
            attribute: f.attribute,
            ..update_fields(None, None, None, None, Some(or_decimal(f.value, 0)))
        }
    }
}

/// The fields an editor shows for the update modifier `m`.
pub fn extract_update_fields(m: &XUpdateModifier) -> (f: UpdateModifierFields)
    ensures
        f@ == spec_update_fields(*m),
{
    let mut f = UpdateModifierFields {
        accel: None,
        origin: None,
        axis: None,
        drag: None,
        value: None,
        attribute: XAttr::default(),
    };
    match m {
        XUpdateModifier::XAccel(c) => {
            f.accel = Some(c.accel.clone());
        },
        XUpdateModifier::XRadialAccel(c) => {
            f.accel = Some(c.accel.clone());
            f.origin = Some(c.origin.clone());
        },
        XUpdateModifier::XTangentAccel(c) => {
            f.accel = Some(c.accel.clone());
            f.origin = Some(c.origin.clone());
            f.axis = Some(c.axis.clone());
        },
        XUpdateModifier::XLinearDrag(c) => {
            f.drag = Some(c.drag.clone());
        },
        XUpdateModifier::XSetAttribute(c) => {
            f.value = Some(c.value.clone());
            f.attribute = c.attr;
        },
    }
    f
}

/// The update modifier of the same kind as `kind` built from `fields`: each of
/// the kind's fields comes from `fields`, or takes its fallback when missing.
pub fn assemble_update_modifier(kind: &XUpdateModifier, fields: &UpdateModifierFields) -> (m: XUpdateModifier)
    ensures
        m.kind_index() == kind.kind_index(),
        spec_update_fields(m) == spec_assembled_update_fields(kind.kind_index(), fields@),
{
    match kind {
        XUpdateModifier::XAccel(_) => XUpdateModifier::XAccel(
            XAccelModifier { accel: expr_or_decimal(&fields.accel, 0) },
        ),
        XUpdateModifier::XRadialAccel(_) => XUpdateModifier::XRadialAccel(
            XRadialAccelModifier {
                origin: expr_or_decimal(&fields.origin, 0),
                accel: expr_or_decimal(&fields.accel, 0),
            },
        ),
        XUpdateModifier::XTangentAccel(_) => XUpdateModifier::XTangentAccel(
            XTangentAccelModifier {
                origin: expr_or_decimal(&fields.origin, 0),
                axis: expr_or_decimal(&fields.axis, 0),
                accel: expr_or_decimal(&fields.accel, 0),
            },
        ),
        XUpdateModifier::XLinearDrag(_) => {
            let drag = match &fields.drag {
                Some(e) => e.clone(),
                None => tenth(),
            };
            XUpdateModifier::XLinearDrag(XLinearDragModifier { drag })
        },
        XUpdateModifier::XSetAttribute(_) => XUpdateModifier::XSetAttribute(
            XSetAttributeModifier { attr: fields.attribute, value: expr_or_decimal(&fields.value, 0) },
        ),
    }
}

/// Each update editor field shows the modifier's field of the same name, and
/// the fields a kind does not have are empty.
pub proof fn lemma_update_fields_named(m: XUpdateModifier)
    ensures
        match m {
            XUpdateModifier::XAccel(c) => {
                let f = spec_update_fields(m);
                &&& f.accel == Some(c.accel@) && f.origin is None && f.axis is None
                &&& f.drag is None && f.value is None
            },
            XUpdateModifier::XRadialAccel(c) => {
                let f = spec_update_fields(m);
                &&& f.accel == Some(c.accel@) && f.origin == Some(c.origin@) && f.axis is None
                &&& f.drag is None && f.value is None
            },
            XUpdateModifier::XTangentAccel(c) => {
                let f = spec_update_fields(m);
                &&& f.accel == Some(c.accel@) && f.origin == Some(c.origin@) && f.axis == Some(c.axis@)
                &&& f.drag is None && f.value is None
            },
            XUpdateModifier::XLinearDrag(c) => {
                let f = spec_update_fields(m);
                &&& f.drag == Some(c.drag@) && f.accel is None && f.origin is None
                &&& f.axis is None && f.value is None
            },
            XUpdateModifier::XSetAttribute(c) => {
                let f = spec_update_fields(m);
                &&& f.value == Some(c.value@) && f.attribute == c.attr && f.accel is None
                &&& f.origin is None && f.axis is None && f.drag is None
            },
        },
{
}

/// Building an update modifier takes each of its fields from the editor
/// field of the same name, and only where that field is empty from the
/// default: accelerations, origins, axes and values `0.0`, drag `0.1`.
pub proof fn lemma_assembled_update_fields_named(k: int, f: SUpdateFields)
    ensures
        0 <= k <= 2 ==> spec_assembled_update_fields(k, f).accel == Some(or_decimal(f.accel, 0)),
        1 <= k <= 2 ==> spec_assembled_update_fields(k, f).origin == Some(or_decimal(f.origin, 0)),
        k == 2 ==> spec_assembled_update_fields(k, f).axis == Some(or_decimal(f.axis, 0)),
        k == 3 ==> spec_assembled_update_fields(k, f).drag == Some(
            match f.drag {
                Some(e) => e,
                None => SExpr::Lit(
                    SValue::Float(SFloat { negative: false, whole: Seq::empty(), frac: seq!['1'] }),
                ),
            },
        ),
        k >= 4 ==> spec_assembled_update_fields(k, f).value == Some(or_decimal(f.value, 0))
            && spec_assembled_update_fields(k, f).attribute == f.attribute,
{
}

/// An update modifier editor gives back the modifier it was shown: building a
/// modifier of `m`'s kind from the fields taken out of `m` gives `m`'s fields.
pub proof fn lemma_update_fields_roundtrip(m: XUpdateModifier)
    ensures
        spec_assembled_update_fields(m.kind_index(), spec_update_fields(m)) == spec_update_fields(m),
{
}

} // verus!
