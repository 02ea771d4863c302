//! Particle modifiers: how particles are placed and set in motion when they
//! spawn, how they move while they live, and how they are drawn.

use vstd::prelude::*;

use crate::expr::xexpr::{SExpr, XExpr};
use crate::expr::xval::{SValue, XFloat, XValue, float_of_int};
use crate::models::XDimension;
use crate::models::attr::XAttr;
use crate::text::str_eq;

verus! {

/// The decimal literal with the integral value `n`, such as `1.0`.
pub open spec fn decimal_lit(n: int) -> SExpr {
    SExpr::Lit(SValue::Float(float_of_int(n)))
}

/// The expression `n.0`.
pub(crate) fn decimal(n: i32) -> (r: XExpr)
    ensures
        r@ == decimal_lit(n as int),
{
    XExpr::lit(XValue::float(XFloat::from_int(n)))
}

// ====================
// Init modifiers.
// ====================

/// Places particles on a circle.
#[derive(Debug, Clone, PartialEq)]
pub struct XSetPositionCircleModifier {
    pub center: XExpr,
    pub axis: XExpr,
    pub radius: XExpr,
    pub dimension: XDimension,
}

impl XSetPositionCircleModifier {
    /// The modifier holds its default settings.
    pub open spec fn is_default(&self) -> bool {
        &&& self.center@ == decimal_lit(0)
        &&& self.axis@ == decimal_lit(0)
        &&& self.radius@ == decimal_lit(1)
        &&& self.dimension == XDimension::Surface
    }
}

impl Default for XSetPositionCircleModifier {
    fn default() -> (r: Self)
        ensures
            r.is_default(),
    {
        XSetPositionCircleModifier {
            center: decimal(0),
            axis: decimal(0),
            radius: decimal(1),
            dimension: XDimension::Surface,
        }
    }
}

/// Places particles on a sphere.
#[derive(Debug, Clone, PartialEq)]
pub struct XSetPositionSphereModifier {
    pub center: XExpr,
    pub radius: XExpr,
    pub dimension: XDimension,
}

impl XSetPositionSphereModifier {
    /// The modifier holds its default settings.
    pub open spec fn is_default(&self) -> bool {
        &&& self.center@ == decimal_lit(0)
        &&& self.radius@ == decimal_lit(1)
        &&& self.dimension == XDimension::Surface
    }
}

impl Default for XSetPositionSphereModifier {
    fn default() -> (r: Self)
        ensures
            r.is_default(),
    {
        XSetPositionSphereModifier {
            center: decimal(0),
            radius: decimal(1),
            dimension: XDimension::Surface,
        }
    }
}

/// Places particles on a truncated cone.
#[derive(Debug, Clone, PartialEq)]
pub struct XSetPositionCone3dModifier {
    pub height: XExpr,
    pub base_radius: XExpr,
    pub top_radius: XExpr,
    pub dimension: XDimension,
}

impl XSetPositionCone3dModifier {
    /// The modifier holds its default settings.
    pub open spec fn is_default(&self) -> bool {
        &&& self.height@ == decimal_lit(1)
        &&& self.base_radius@ == decimal_lit(1)
        &&& self.top_radius@ == decimal_lit(0)
        &&& self.dimension == XDimension::Surface
    }
}

impl Default for XSetPositionCone3dModifier {
    fn default() -> (r: Self)
        ensures
            r.is_default(),
    {
        XSetPositionCone3dModifier {
            height: decimal(1),
            base_radius: decimal(1),
            top_radius: decimal(0),
            dimension: XDimension::Surface,
        }
    }
}

/// Sets velocities away from a circle's center.
#[derive(Debug, Clone, PartialEq)]
pub struct XSetVelocityCircleModifier {
    pub center: XExpr,
    pub axis: XExpr,
    pub speed: XExpr,
}

impl XSetVelocityCircleModifier {
    /// The modifier holds its default settings.
    pub open spec fn is_default(&self) -> bool {
        &&& self.center@ == decimal_lit(0)
        &&& self.axis@ == decimal_lit(0)
        &&& self.speed@ == decimal_lit(1)
    }
}

impl Default for XSetVelocityCircleModifier {
    fn default() -> (r: Self)
        ensures
            r.is_default(),
    {
        XSetVelocityCircleModifier { center: decimal(0), axis: decimal(0), speed: decimal(1) }
    }
}

/// Sets velocities away from a sphere's center.
#[derive(Debug, Clone, PartialEq)]
pub struct XSetVelocitySphereModifier {
    pub center: XExpr,
    pub speed: XExpr,
}

impl XSetVelocitySphereModifier {
    /// The modifier holds its default settings.
    pub open spec fn is_default(&self) -> bool {
        &&& self.center@ == decimal_lit(0)
        &&& self.speed@ == decimal_lit(1)
    }
}

impl Default for XSetVelocitySphereModifier {
    fn default() -> (r: Self)
        ensures
            r.is_default(),
    {
        XSetVelocitySphereModifier { center: decimal(0), speed: decimal(1) }
    }
}

/// Sets velocities tangent to a circle around a center.
#[derive(Debug, Clone, PartialEq)]
pub struct XSetVelocityTangentModifier {
    pub center: XExpr,
    pub speed: XExpr,
}

impl XSetVelocityTangentModifier {
    /// The modifier holds its default settings.
    pub open spec fn is_default(&self) -> bool {
        &&& self.center@ == decimal_lit(0)
        &&& self.speed@ == decimal_lit(1)
    }
}

impl Default for XSetVelocityTangentModifier {
    fn default() -> (r: Self)
        ensures
            r.is_default(),
    {
        XSetVelocityTangentModifier { center: decimal(0), speed: decimal(1) }
    }
}

/// Sets one attribute of each particle to the value of an expression.
#[derive(Debug, Clone, PartialEq)]
pub struct XSetAttributeModifier {
    pub attr: XAttr,
    pub value: XExpr,
}

impl XSetAttributeModifier {
    /// The modifier holds its default settings.
    pub open spec fn is_default(&self) -> bool {
        &&& self.attr == XAttr::Position
        &&& self.value@ == decimal_lit(0)
    }
}

impl Default for XSetAttributeModifier {
    fn default() -> (r: Self)
        ensures
            r.is_default(),
    {
        XSetAttributeModifier { attr: XAttr::default(), value: decimal(0) }
    }
}

/// A modifier applied once, when a particle spawns.
#[derive(Debug, Clone, PartialEq)]
pub enum XInitModifier {
    XSetPositionCircle(XSetPositionCircleModifier),
    XSetPositionSphere(XSetPositionSphereModifier),
    XSetPositionCone3d(XSetPositionCone3dModifier),
    XSetVelocityCircle(XSetVelocityCircleModifier),
    XSetVelocitySphere(XSetVelocitySphereModifier),
    XSetVelocityTangent(XSetVelocityTangentModifier),
    XSetAttribute(XSetAttributeModifier),
}

/// The names of the init modifier kinds, in declaration order.
pub open spec fn spec_init_modifier_names() -> Seq<Seq<char>> {
    seq![
        "Set Position Circle"@,
        "Set Position Sphere"@,
        "Set Position Cone 3D"@,
        "Set Velocity Circle"@,
        "Set Velocity Sphere"@,
        "Set Velocity Tangent"@,
        "Set Attribute"@,
    ]
}

impl XInitModifier {
    /// The position of this modifier's kind in declaration order.
    pub open spec fn kind_index(&self) -> int {
        match self {
            XInitModifier::XSetPositionCircle(_) => 0,
            XInitModifier::XSetPositionSphere(_) => 1,
            XInitModifier::XSetPositionCone3d(_) => 2,
            XInitModifier::XSetVelocityCircle(_) => 3,
            XInitModifier::XSetVelocitySphere(_) => 4,
            XInitModifier::XSetVelocityTangent(_) => 5,
            XInitModifier::XSetAttribute(_) => 6,
        }
    }

    /// The modifier's settings are the defaults of its kind.
    pub open spec fn is_default(&self) -> bool {
        match self {
            XInitModifier::XSetPositionCircle(m) => m.is_default(),
            XInitModifier::XSetPositionSphere(m) => m.is_default(),
            XInitModifier::XSetPositionCone3d(m) => m.is_default(),
            XInitModifier::XSetVelocityCircle(m) => m.is_default(),
            XInitModifier::XSetVelocitySphere(m) => m.is_default(),
            XInitModifier::XSetVelocityTangent(m) => m.is_default(),
            XInitModifier::XSetAttribute(m) => m.is_default(),
        }
    }

    /// The name of this modifier's kind, e.g. `"Set Position Circle"`.
    pub fn name(&self) -> (s: &'static str)
        ensures
            s@ == spec_init_modifier_names()[self.kind_index()],
    {
        match self {
            XInitModifier::XSetPositionCircle(_) => "Set Position Circle",
            XInitModifier::XSetPositionSphere(_) => "Set Position Sphere",
            XInitModifier::XSetPositionCone3d(_) => "Set Position Cone 3D",
            XInitModifier::XSetVelocityCircle(_) => "Set Velocity Circle",
            XInitModifier::XSetVelocitySphere(_) => "Set Velocity Sphere",
            XInitModifier::XSetVelocityTangent(_) => "Set Velocity Tangent",
            XInitModifier::XSetAttribute(_) => "Set Attribute",
        }
    }

    /// The default modifier of the kind at position `i` in declaration order.
    pub fn default_of_kind(i: usize) -> (m: XInitModifier)
        requires
            i < 7,
        ensures
            m.kind_index() == i,
            m.is_default(),
    {
        match i {
            0 => XInitModifier::XSetPositionCircle(XSetPositionCircleModifier::default()),
            1 => XInitModifier::XSetPositionSphere(XSetPositionSphereModifier::default()),
            2 => XInitModifier::XSetPositionCone3d(XSetPositionCone3dModifier::default()),
            3 => XInitModifier::XSetVelocityCircle(XSetVelocityCircleModifier::default()),
            4 => XInitModifier::XSetVelocitySphere(XSetVelocitySphereModifier::default()),
            5 => XInitModifier::XSetVelocityTangent(XSetVelocityTangentModifier::default()),
            _ => XInitModifier::XSetAttribute(XSetAttributeModifier::default()),
        }
    }

    /// The default modifier of the kind named `s`, or `Err(())` when no kind has that name.
    pub fn from_name(s: &str) -> (r: Result<XInitModifier, ()>)
        ensures
            r is Ok <==> spec_init_modifier_names().contains(s@),
            r matches Ok(m) ==> spec_init_modifier_names()[m.kind_index()] == s@ && m.is_default(),
    {
        let names = XInitModifier::names();
        let mut i: usize = 0;
        while i < names.len()
            invariant
                names@.len() == 7,
                forall|j: int| 0 <= j < 7 ==> #[trigger] names@[j]@ == spec_init_modifier_names()[j],
                0 <= i <= 7,
                forall|j: int| 0 <= j < i ==> spec_init_modifier_names()[j] != s@,
            decreases 7 - i,
        {
            if str_eq(names[i], s) {
                return Ok(XInitModifier::default_of_kind(i));
            }
            i = i + 1;
        }
        Err(())
    }

    /// The names of all kinds, in declaration order.
    fn names() -> (v: Vec<&'static str>)
        ensures
            v@.len() == 7,
            forall|j: int| 0 <= j < 7 ==> #[trigger] v@[j]@ == spec_init_modifier_names()[j],
    {
        vec![
            "Set Position Circle",
            "Set Position Sphere",
            "Set Position Cone 3D",
            "Set Velocity Circle",
            "Set Velocity Sphere",
            "Set Velocity Tangent",
            "Set Attribute",
        ]
    }

    /// One default modifier of each kind, in declaration order.
    pub fn all() -> (v: Vec<XInitModifier>)
        ensures
            v@.len() == 7,
            forall|j: int| 0 <= j < 7 ==> (#[trigger] v@[j]).kind_index() == j && v@[j].is_default(),
    {
        let mut v: Vec<XInitModifier> = Vec::new();
        let mut i: usize = 0;
        while i < 7
            invariant
                0 <= i <= 7,
                v@.len() == i,
                forall|j: int| 0 <= j < i ==> (#[trigger] v@[j]).kind_index() == j && v@[j].is_default(),
            decreases 7 - i,
        {
            v.push(XInitModifier::default_of_kind(i));
            i = i + 1;
        }
        v
    }
}

impl Default for XInitModifier {
    fn default() -> (r: Self)
        ensures
            r.kind_index() == 0,
            r.is_default(),
    {
        XInitModifier::XSetPositionCircle(XSetPositionCircleModifier::default())
    }
}


// ====================
// Update modifiers.
// ====================

/// Accelerates particles uniformly.
#[derive(Debug, Clone, PartialEq)]
pub struct XAccelModifier {
    pub accel: XExpr,
}

impl XAccelModifier {
    /// The modifier holds its default settings.
    pub open spec fn is_default(&self) -> bool {
        self.accel@ == decimal_lit(0)
    }
}

impl Default for XAccelModifier {
    fn default() -> (r: Self)
        ensures
            r.is_default(),
    {
        XAccelModifier { accel: decimal(0) }
    }
}

/// Accelerates particles away from an origin.
#[derive(Debug, Clone, PartialEq)]
pub struct XRadialAccelModifier {
    pub origin: XExpr,
    pub accel: XExpr,
}

impl XRadialAccelModifier {
    /// The modifier holds its default settings.
    pub open spec fn is_default(&self) -> bool {
        &&& self.origin@ == decimal_lit(0)
        &&& self.accel@ == decimal_lit(0)
    }
}

impl Default for XRadialAccelModifier {
    fn default() -> (r: Self)
        ensures
            r.is_default(),
    {
        XRadialAccelModifier { origin: decimal(0), accel: decimal(0) }
    }
}

/// Accelerates particles around an axis through an origin.
#[derive(Debug, Clone, PartialEq)]
pub struct XTangentAccelModifier {
    pub origin: XExpr,
    pub axis: XExpr,
    pub accel: XExpr,
}

impl XTangentAccelModifier {
    /// The modifier holds its default settings.
    pub open spec fn is_default(&self) -> bool {
        &&& self.origin@ == decimal_lit(0)
        &&& self.axis@ == decimal_lit(0)
        &&& self.accel@ == decimal_lit(0)
    }
}

impl Default for XTangentAccelModifier {
    fn default() -> (r: Self)
        ensures
            r.is_default(),
    {
        XTangentAccelModifier { origin: decimal(0), axis: decimal(0), accel: decimal(0) }
    }
}

/// Slows particles down in proportion to their speed.
#[derive(Debug, Clone, PartialEq)]
pub struct XLinearDragModifier {
    pub drag: XExpr,
}

impl XLinearDragModifier {
    /// The modifier holds its default settings.
    pub open spec fn is_default(&self) -> bool {
        self.drag@ == decimal_lit(0)
    }
}

impl Default for XLinearDragModifier {
    fn default() -> (r: Self)
        ensures
            r.is_default(),
    {
        XLinearDragModifier { drag: decimal(0) }
    }
}

/// One attracting or repelling source of a force field.
#[derive(Debug, Clone, PartialEq)]
pub struct XForceFieldSource {
    pub position: XExpr,
    pub max_radius: XExpr,
    pub min_radius: XExpr,
    pub mass: XExpr,
    pub force_exponent: XExpr,
    pub conform_to_sphere: bool,
}

impl XForceFieldSource {
    /// The source holds its default settings.
    pub open spec fn is_default(&self) -> bool {
        &&& self.position@ == decimal_lit(0)
        &&& self.max_radius@ == decimal_lit(10)
        &&& self.min_radius@ == decimal_lit(0)
        &&& self.mass@ == decimal_lit(1)
        &&& self.force_exponent@ == decimal_lit(2)
        &&& !self.conform_to_sphere
    }
}

impl Default for XForceFieldSource {
    fn default() -> (r: Self)
        ensures
            r.is_default(),
    {
        XForceFieldSource {
            position: decimal(0),
            max_radius: decimal(10),
            min_radius: decimal(0),
            mass: decimal(1),
            force_exponent: decimal(2),
            conform_to_sphere: false,
        }
    }
}

/// A force field made of several sources.
#[derive(Debug, Clone, PartialEq)]
pub struct XForceFieldModifier {
    pub sources: Vec<XForceFieldSource>,
}

impl XForceFieldModifier {
    /// The modifier holds its default settings: one default source.
    pub open spec fn is_default(&self) -> bool {
        &&& self.sources@.len() == 1
        &&& self.sources@[0].is_default()
    }
}

impl Default for XForceFieldModifier {
    fn default() -> (r: Self)
        ensures
            r.is_default(),
    {
        XForceFieldModifier { sources: vec![XForceFieldSource::default()] }
    }
}

/// A modifier applied to every particle on every frame.
#[derive(Debug, Clone, PartialEq)]
pub enum XUpdateModifier {
    XAccel(XAccelModifier),
    XRadialAccel(XRadialAccelModifier),
    XTangentAccel(XTangentAccelModifier),
    XLinearDrag(XLinearDragModifier),
    XSetAttribute(XSetAttributeModifier),
}

/// The names of the update modifier kinds, in declaration order.
pub open spec fn spec_update_modifier_names() -> Seq<Seq<char>> {
    seq![
        "Acceleration"@,
        "Radial Acceleration"@,
        "Tangent Acceleration"@,
        "Linear Drag"@,
        "Set Attribute"@,
    ]
}

impl XUpdateModifier {
    /// The position of this modifier's kind in declaration order.
    pub open spec fn kind_index(&self) -> int {
        match self {
            XUpdateModifier::XAccel(_) => 0,
            XUpdateModifier::XRadialAccel(_) => 1,
            XUpdateModifier::XTangentAccel(_) => 2,
            XUpdateModifier::XLinearDrag(_) => 3,
            XUpdateModifier::XSetAttribute(_) => 4,
        }
    }

    /// The modifier's settings are the defaults of its kind.
    pub open spec fn is_default(&self) -> bool {
        match self {
            XUpdateModifier::XAccel(m) => m.is_default(),
            XUpdateModifier::XRadialAccel(m) => m.is_default(),
            XUpdateModifier::XTangentAccel(m) => m.is_default(),
            XUpdateModifier::XLinearDrag(m) => m.is_default(),
            XUpdateModifier::XSetAttribute(m) => m.is_default(),
        }
    }

    /// The name of this modifier's kind, e.g. `"Linear Drag"`.
    pub fn name(&self) -> (s: &'static str)
        ensures
            s@ == spec_update_modifier_names()[self.kind_index()],
    {
        match self {
            XUpdateModifier::XAccel(_) => "Acceleration",
            XUpdateModifier::XRadialAccel(_) => "Radial Acceleration",
            XUpdateModifier::XTangentAccel(_) => "Tangent Acceleration",
            XUpdateModifier::XLinearDrag(_) => "Linear Drag",
            XUpdateModifier::XSetAttribute(_) => "Set Attribute",
        }
    }

    /// The default modifier of the kind at position `i` in declaration order.
    pub fn default_of_kind(i: usize) -> (m: XUpdateModifier)
        requires
            i < 5,
        ensures
            m.kind_index() == i,
            m.is_default(),
    {
        match i {
            0 => XUpdateModifier::XAccel(XAccelModifier::default()),
            1 => XUpdateModifier::XRadialAccel(XRadialAccelModifier::default()),
            2 => XUpdateModifier::XTangentAccel(XTangentAccelModifier::default()),
            3 => XUpdateModifier::XLinearDrag(XLinearDragModifier::default()),
            _ => XUpdateModifier::XSetAttribute(XSetAttributeModifier::default()),
        }
    }

    /// The names of all kinds, in declaration order.
    fn names() -> (v: Vec<&'static str>)
        ensures
            v@.len() == 5,
            forall|j: int| 0 <= j < 5 ==> #[trigger] v@[j]@ == spec_update_modifier_names()[j],
    {
        vec!["Acceleration", "Radial Acceleration", "Tangent Acceleration", "Linear Drag", "Set Attribute"]
    }

    /// The default modifier of the kind named `s`, or `Err(())` when no kind has that name.
    pub fn from_name(s: &str) -> (r: Result<XUpdateModifier, ()>)
        ensures
            r is Ok <==> spec_update_modifier_names().contains(s@),
            r matches Ok(m) ==> spec_update_modifier_names()[m.kind_index()] == s@ && m.is_default(),
    {
        let names = XUpdateModifier::names();
        let mut i: usize = 0;
        while i < names.len()
            invariant
                names@.len() == 5,
                forall|j: int| 0 <= j < 5 ==> #[trigger] names@[j]@ == spec_update_modifier_names()[j],
                0 <= i <= 5,
                forall|j: int| 0 <= j < i ==> spec_update_modifier_names()[j] != s@,
            decreases 5 - i,
        {
            if str_eq(names[i], s) {
                return Ok(XUpdateModifier::default_of_kind(i));
            }
            i = i + 1;
        }
        Err(())
    }

    /// One default modifier of each kind, in declaration order.
    pub fn all() -> (v: Vec<XUpdateModifier>)
        ensures
            v@.len() == 5,
            forall|j: int| 0 <= j < 5 ==> (#[trigger] v@[j]).kind_index() == j && v@[j].is_default(),
    {
        let mut v: Vec<XUpdateModifier> = Vec::new();
        let mut i: usize = 0;
        while i < 5
            invariant
                0 <= i <= 5,
                v@.len() == i,
                forall|j: int| 0 <= j < i ==> (#[trigger] v@[j]).kind_index() == j && v@[j].is_default(),
            decreases 5 - i,
        {
            v.push(XUpdateModifier::default_of_kind(i));
            i = i + 1;
        }
        v
    }
}

impl Default for XUpdateModifier {
    fn default() -> (r: Self)
        ensures
            r.kind_index() == 3,
            r.is_default(),
    {
        XUpdateModifier::XLinearDrag(XLinearDragModifier::default())
    }
}

// ====================
// Render modifiers.
// ====================

/// How particles are turned to face the camera.
#[derive(Debug, Clone, Copy, PartialEq, Eq, Structural)]
pub enum XOrientMode {
    ParallelCameraDepthPlane,
    FaceCameraPosition,
    AlongVelocity,
}

/// The names of the orientation modes, in declaration order.
pub open spec fn spec_orient_mode_names() -> Seq<Seq<char>> {
    seq!["Parallel Camera Depth Plane"@, "Face Camera Position"@, "Along Velocity"@]
}

/// The position of an orientation mode in declaration order.
pub open spec fn spec_orient_mode_index(m: XOrientMode) -> int {
    match m {
        XOrientMode::ParallelCameraDepthPlane => 0,
        XOrientMode::FaceCameraPosition => 1,
        XOrientMode::AlongVelocity => 2,
    }
}

impl XOrientMode {
    /// The name this mode is shown with.
    pub fn name(&self) -> (s: &'static str)
        ensures
            s@ == spec_orient_mode_names()[spec_orient_mode_index(*self)],
    {
        match self {
            XOrientMode::ParallelCameraDepthPlane => "Parallel Camera Depth Plane",
            XOrientMode::FaceCameraPosition => "Face Camera Position",
            XOrientMode::AlongVelocity => "Along Velocity",
        }
    }

    /// The mode named `s`, or `Err(())` when no mode has that name.
    pub fn from_name(s: &str) -> (r: Result<XOrientMode, ()>)
        ensures
            r is Ok <==> spec_orient_mode_names().contains(s@),
            r matches Ok(m) ==> spec_orient_mode_names()[spec_orient_mode_index(m)] == s@,
    {
        proof {
            let n = spec_orient_mode_names();
            assert(n.contains(s@) ==> s@ == n[0] || s@ == n[1] || s@ == n[2]);
        }
        if str_eq(s, "Parallel Camera Depth Plane") {
            Ok(XOrientMode::ParallelCameraDepthPlane)
        } else if str_eq(s, "Face Camera Position") {
            Ok(XOrientMode::FaceCameraPosition)
        } else if str_eq(s, "Along Velocity") {
            Ok(XOrientMode::AlongVelocity)
        } else {
            Err(())
        }
    }

    /// Every mode, in declaration order.
    pub fn all() -> (v: Vec<XOrientMode>)
        ensures
            v@ == seq![
                XOrientMode::ParallelCameraDepthPlane,
                XOrientMode::FaceCameraPosition,
                XOrientMode::AlongVelocity,
            ],
    {
        vec![
            XOrientMode::ParallelCameraDepthPlane,
            XOrientMode::FaceCameraPosition,
            XOrientMode::AlongVelocity,
        ]
    }
}

impl Default for XOrientMode {
    fn default() -> (r: Self)
        ensures
            r == XOrientMode::ParallelCameraDepthPlane,
    {
        XOrientMode::ParallelCameraDepthPlane
    }
}

/// Turns particles according to an orientation mode.
#[derive(Debug, Clone, PartialEq)]
pub struct XOrientModifier {
    pub mode: XOrientMode,
}

impl Default for XOrientModifier {
    fn default() -> (r: Self)
        ensures
            r.mode == XOrientMode::ParallelCameraDepthPlane,
    {
        XOrientModifier { mode: XOrientMode::default() }
    }
}

/// A modifier that changes how particles are drawn.
#[derive(Debug, Clone, PartialEq)]
pub enum XRenderModifier {
    XOrient(XOrientModifier),
}

impl XRenderModifier {
    /// The name of this modifier's kind.
    pub fn name(&self) -> (s: &'static str)
        ensures
            s@ == "Orient"@,
    {
        match self {
            XRenderModifier::XOrient(_) => "Orient",
        }
    }

    /// The default modifier of the kind named `s`, or `Err(())` when no kind has that name.
    pub fn from_name(s: &str) -> (r: Result<XRenderModifier, ()>)
        ensures
            r is Ok <==> s@ == "Orient"@,
            r matches Ok(XRenderModifier::XOrient(m)) ==> m.mode == XOrientMode::ParallelCameraDepthPlane,
    {
        if str_eq(s, "Orient") {
            Ok(XRenderModifier::XOrient(XOrientModifier::default()))
        } else {
            Err(())
        }
    }

    /// One default modifier of each kind.
    pub fn all() -> (v: Vec<XRenderModifier>)
        ensures
            v@.len() == 1,
            v@[0] matches XRenderModifier::XOrient(m) && m.mode == XOrientMode::ParallelCameraDepthPlane,
    {
        vec![XRenderModifier::XOrient(XOrientModifier::default())]
    }
}

impl Default for XRenderModifier {
    fn default() -> (r: Self)
        ensures
            r matches XRenderModifier::XOrient(m) && m.mode == XOrientMode::ParallelCameraDepthPlane,
    {
        XRenderModifier::XOrient(XOrientModifier::default())
    }
}

// ====================
// Names.
// ====================

/// No two init modifier kinds share a name.
pub proof fn lemma_init_modifier_names_distinct()
    ensures
        spec_init_modifier_names().no_duplicates(),
{
    reveal_strlit("Set Position Circle");
    reveal_strlit("Set Position Sphere");
    reveal_strlit("Set Position Cone 3D");
    reveal_strlit("Set Velocity Circle");
    reveal_strlit("Set Velocity Sphere");
    reveal_strlit("Set Velocity Tangent");
    reveal_strlit("Set Attribute");
    let s = spec_init_modifier_names();
    assert(s[0][13] != s[1][13]);
    assert(s[0].len() != s[2].len());
    assert(s[0][4] != s[3][4]);
    assert(s[0][4] != s[4][4]);
    assert(s[0].len() != s[5].len());
    assert(s[0].len() != s[6].len());
    assert(s[1].len() != s[2].len());
    assert(s[1][4] != s[3][4]);
    assert(s[1][4] != s[4][4]);
    assert(s[1].len() != s[5].len());
    assert(s[1].len() != s[6].len());
    assert(s[2].len() != s[3].len());
    assert(s[2].len() != s[4].len());
    assert(s[2][4] != s[5][4]);
    assert(s[2].len() != s[6].len());
    assert(s[3][13] != s[4][13]);
    assert(s[3].len() != s[5].len());
    assert(s[3].len() != s[6].len());
    assert(s[4].len() != s[5].len());
    assert(s[4].len() != s[6].len());
    assert(s[5].len() != s[6].len());
}

/// No two update modifier kinds share a name.
pub proof fn lemma_update_modifier_names_distinct()
    ensures
        spec_update_modifier_names().no_duplicates(),
{
    reveal_strlit("Acceleration");
    reveal_strlit("Radial Acceleration");
    reveal_strlit("Tangent Acceleration");
    reveal_strlit("Linear Drag");
    reveal_strlit("Set Attribute");
    let s = spec_update_modifier_names();
    assert(s[0].len() != s[1].len());
    assert(s[0].len() != s[2].len());
    assert(s[0].len() != s[3].len());
    assert(s[0].len() != s[4].len());
    assert(s[1].len() != s[2].len());
    assert(s[1].len() != s[3].len());
    assert(s[1].len() != s[4].len());
    assert(s[2].len() != s[3].len());
    assert(s[2].len() != s[4].len());
    assert(s[3].len() != s[4].len());
}

/// No two orientation modes share a name.
pub proof fn lemma_orient_mode_names_distinct()
    ensures
        spec_orient_mode_names().no_duplicates(),
{
    reveal_strlit("Parallel Camera Depth Plane");
    reveal_strlit("Face Camera Position");
    reveal_strlit("Along Velocity");
    let s = spec_orient_mode_names();
    assert(s[0].len() != s[1].len());
    assert(s[0].len() != s[2].len());
    assert(s[1].len() != s[2].len());
}

impl std::str::FromStr for XInitModifier {
    type Err = ();

    fn from_str(s: &str) -> (r: Result<Self, Self::Err>)
        ensures
            r is Ok <==> spec_init_modifier_names().contains(s@),
            r matches Ok(m) ==> spec_init_modifier_names()[m.kind_index()] == s@ && m.is_default(),
    {
        XInitModifier::from_name(s)
    }
}

impl std::str::FromStr for XUpdateModifier {
    type Err = ();

    fn from_str(s: &str) -> (r: Result<Self, Self::Err>)
        ensures
            r is Ok <==> spec_update_modifier_names().contains(s@),
            r matches Ok(m) ==> spec_update_modifier_names()[m.kind_index()] == s@ && m.is_default(),
    {
        XUpdateModifier::from_name(s)
    }
}

impl std::str::FromStr for XOrientMode {
    type Err = ();

    fn from_str(s: &str) -> (r: Result<Self, Self::Err>)
        ensures
            r is Ok <==> spec_orient_mode_names().contains(s@),
            r matches Ok(m) ==> spec_orient_mode_names()[spec_orient_mode_index(m)] == s@,
    {
        XOrientMode::from_name(s)
    }
}

impl std::str::FromStr for XRenderModifier {
    type Err = ();

    fn from_str(s: &str) -> (r: Result<Self, Self::Err>)
        ensures
            r is Ok <==> s@ == "Orient"@,
            r matches Ok(XRenderModifier::XOrient(m)) ==> m.mode == XOrientMode::ParallelCameraDepthPlane,
    {
        XRenderModifier::from_name(s)
    }
}

} // verus!
