use crate::camera::CameraConfig;
use crate::scalar::Scalar;
use crate::vec3::{Color, Point3, Vec3};
use vstd::hash_map::StringHashMap;
use vstd::prelude::*;
use vstd::string::StringExecFns;

verus! {

/// A material as a scene description states it.
#[derive(Clone, Copy, Debug)]
pub enum MaterialConfig {
    /// No material: the surface neither scatters nor emits.
    Absent,
    Lambertian { color: Color },
    Metal { color: Color, fuzz: Scalar },
    Dieletric { refraction_index: Scalar },
    DiffuseLight { color: Color },
}

/// The material of an object: stated in place, or the name of an entry of
/// the scene's materials section.
#[derive(Debug)]
pub enum MaterialRef {
    Inline(MaterialConfig),
    Reference(String),
}

/// The materials section of a scene description: materials by name.
pub struct MaterialTable {
    entries: StringHashMap<MaterialConfig>,
}

impl View for MaterialTable {
    type V = Map<Seq<char>, MaterialConfig>;

    closed spec fn view(&self) -> Map<Seq<char>, MaterialConfig> {
        self.entries@
    }
}

impl MaterialTable {
    pub fn new() -> (table: MaterialTable)
        ensures
            table@ == Map::<Seq<char>, MaterialConfig>::empty(),
    {
        MaterialTable { entries: StringHashMap::new() }
    }

    /// Enters `material` under `name`, in place of what stood there.
    pub fn insert(&mut self, name: String, material: MaterialConfig)
        ensures
            final(self)@ == old(self)@.insert(name@, material),
    {
        self.entries.insert(name, material);
    }

    pub fn get(&self, name: &str) -> (found: Option<MaterialConfig>)
        ensures
            found == if self@.contains_key(name@) {
                Some(self@[name@])
            } else {
                None
            },
    {
        match self.entries.get(name) {
            Some(material) => Some(*material),
            None => None,
        }
    }
}

/// The message for a name that the materials section does not hold.
pub open spec fn not_found_message(name: Seq<char>) -> Seq<char> {
    "Material '"@ + name + "' not found in materials section"@
}

impl MaterialRef {
    /// The material meant, or the message for a name that is not in
    /// `materials`.
    pub open spec fn resolve_spec(self, materials: Map<Seq<char>, MaterialConfig>) -> Result<
        MaterialConfig,
        Seq<char>,
    > {
        match self {
            MaterialRef::Inline(material) => Ok(material),
            MaterialRef::Reference(name) => if materials.contains_key(name@) {
                Ok(materials[name@])
            } else {
                Err(not_found_message(name@))
            },
        }
    }

    pub fn resolve(&self, materials: &MaterialTable) -> (r: Result<MaterialConfig, String>)
        ensures
            same_outcome(r, self.resolve_spec(materials@)),
    {
        match self {
            MaterialRef::Inline(material) => Ok(*material),
            MaterialRef::Reference(name) => match materials.get(name.as_str()) {
                Some(material) => Ok(material),
                None => {
                    let message = String::from_str("Material '").concat(name.as_str()).concat(
                        "' not found in materials section",
                    );
                    Err(message)
                },
            },
        }
    }
}

/// A result agrees with its model: the same value, or an error with the
/// model's text.
pub open spec fn same_outcome<T>(r: Result<T, String>, model: Result<T, Seq<char>>) -> bool {
    match model {
        Ok(value) => r == Ok::<T, String>(value),
        Err(message) => r is Err && r->Err_0@ == message,
    }
}

/// How an object is placed in the scene. Of the five entries only the turn
/// about the y axis, by `rotate_y` degrees, and the shift by `translate` are
/// carried out, in that order.
#[derive(Clone, Copy, Debug)]
pub struct TransformConfig {
    pub translate: Option<Vec3>,
    pub rotate_y: Option<Scalar>,
    pub rotate_x: Option<Scalar>,
    pub rotate_z: Option<Scalar>,
    pub scale: Option<Vec3>,
}

impl Default for TransformConfig {
    fn default() -> (t: TransformConfig)
        ensures
            t.translate is None,
            t.rotate_y is None,
            t.rotate_x is None,
            t.rotate_z is None,
            t.scale is None,
    {
        TransformConfig { translate: None, rotate_y: None, rotate_x: None, rotate_z: None, scale: None }
    }
}

/// An object of a scene description.
#[derive(Debug)]
pub enum ObjectConfig {
    Sphere { center: Point3, radius: Scalar, material: MaterialRef, transform: TransformConfig },
    Quad { corner: Point3, u: Point3, v: Point3, material: MaterialRef, transform: TransformConfig },
    Box { min: Point3, max: Point3, material: MaterialRef, transform: TransformConfig },
}

/// An object of the scene with its material resolved and its placement
/// applied: what there is to build, from the inside out.
#[derive(Debug)]
pub enum Shape {
    Sphere { center: Point3, radius: Scalar, material: MaterialConfig },
    Quad { corner: Point3, u: Vec3, v: Vec3, material: MaterialConfig },
    Box { min: Point3, max: Point3, material: MaterialConfig },
    /// `object` turned about the y axis by `angle` degrees.
    RotateY { object: Box<Shape>, angle: Scalar },
    /// `object` shifted by `offset`.
    Translate { object: Box<Shape>, offset: Vec3 },
}

impl TransformConfig {
    pub open spec fn apply_spec(self, shape: Shape) -> Shape {
        let turned = match self.rotate_y {
            Some(angle) => Shape::RotateY { object: Box::new(shape), angle },
            None => shape,
        };
        match self.translate {
            Some(offset) => Shape::Translate { object: Box::new(turned), offset },
            None => turned,
        }
    }

    /// Wraps `hittable` in the turn, where one is stated, and that in the
    /// shift, where one is stated.
    pub fn apply_to_hittable(&self, hittable: Shape) -> (placed: Shape)
        ensures
            placed == self.apply_spec(hittable),
    {
        let mut result = hittable;
        if let Some(angle) = self.rotate_y {
            result = Shape::RotateY { object: Box::new(result), angle };
        }
        if let Some(offset) = self.translate {
            result = Shape::Translate { object: Box::new(result), offset };
        }
        result
    }
}

impl ObjectConfig {
    pub open spec fn material(self) -> MaterialRef {
        match self {
            ObjectConfig::Sphere { material, .. } => material,
            ObjectConfig::Quad { material, .. } => material,
            ObjectConfig::Box { material, .. } => material,
        }
    }

    pub open spec fn transform(self) -> TransformConfig {
        match self {
            ObjectConfig::Sphere { transform, .. } => transform,
            ObjectConfig::Quad { transform, .. } => transform,
            ObjectConfig::Box { transform, .. } => transform,
        }
    }

    /// The object itself, unplaced, made of `material`.
    pub open spec fn bare(self, material: MaterialConfig) -> Shape {
        match self {
            ObjectConfig::Sphere { center, radius, .. } => Shape::Sphere { center, radius, material },
            ObjectConfig::Quad { corner, u, v, .. } => Shape::Quad { corner, u, v, material },
            ObjectConfig::Box { min, max, .. } => Shape::Box { min, max, material },
        }
    }

    pub open spec fn to_hittable_spec(self, materials: Map<Seq<char>, MaterialConfig>) -> Result<
        Shape,
        Seq<char>,
    > {
        match self.material().resolve_spec(materials) {
            Ok(material) => Ok(self.transform().apply_spec(self.bare(material))),
            Err(message) => Err(message),
        }
    }

    /// The same object with no material: its geometry, which neither
    /// scatters nor emits.
    pub open spec fn emptied(self) -> ObjectConfig {
        match self {
            ObjectConfig::Sphere { center, radius, transform, .. } => ObjectConfig::Sphere {
                center,
                radius,
                material: MaterialRef::Inline(MaterialConfig::Absent),
                transform,
            },
            ObjectConfig::Quad { corner, u, v, transform, .. } => ObjectConfig::Quad {
                corner,
                u,
                v,
                material: MaterialRef::Inline(MaterialConfig::Absent),
                transform,
            },
            ObjectConfig::Box { min, max, transform, .. } => ObjectConfig::Box {
                min,
                max,
                material: MaterialRef::Inline(MaterialConfig::Absent),
                transform,
            },
        }
    }

    /// The object to build: its material looked up in `materials`, its
    /// placement applied. Fails with the message of `MaterialRef::resolve`
    /// where the material is a name that `materials` does not hold.
    pub fn to_hittable(&self, materials: &MaterialTable) -> (r: Result<Shape, String>)
        ensures
            same_outcome(r, self.to_hittable_spec(materials@)),
    {
        match self {
            ObjectConfig::Sphere { center, radius, material, transform } => {
                match material.resolve(materials) {
                    Ok(resolved) => Ok(
                        transform.apply_to_hittable(
                            Shape::Sphere { center: *center, radius: *radius, material: resolved },
                        ),
                    ),
                    Err(message) => Err(message),
                }
            },
            ObjectConfig::Quad { corner, u, v, material, transform } => {
                match material.resolve(materials) {
                    Ok(resolved) => Ok(
                        transform.apply_to_hittable(
                            Shape::Quad { corner: *corner, u: *u, v: *v, material: resolved },
                        ),
                    ),
                    Err(message) => Err(message),
                }
            },
            ObjectConfig::Box { min, max, material, transform } => {
                match material.resolve(materials) {
                    Ok(resolved) => Ok(
                        transform.apply_to_hittable(
                            Shape::Box { min: *min, max: *max, material: resolved },
                        ),
                    ),
                    Err(message) => Err(message),
                }
            },
        }
    }

    fn empty_twin(&self) -> (twin: ObjectConfig)
        ensures
            twin == self.emptied(),
    {
        match self {
            ObjectConfig::Sphere { center, radius, transform, .. } => ObjectConfig::Sphere {
                center: *center,
                radius: *radius,
                material: MaterialRef::Inline(MaterialConfig::Absent),
                transform: *transform,
            },
            ObjectConfig::Quad { corner, u, v, transform, .. } => ObjectConfig::Quad {
                corner: *corner,
                u: *u,
                v: *v,
                material: MaterialRef::Inline(MaterialConfig::Absent),
                transform: *transform,
            },
            ObjectConfig::Box { min, max, transform, .. } => ObjectConfig::Box {
                min: *min,
                max: *max,
                material: MaterialRef::Inline(MaterialConfig::Absent),
                transform: *transform,
            },
        }
    }
}

/// The twin of a light that stands in the world for it: the same geometry and
/// placement, with no material.
pub fn light_to_empty(config: ObjectConfig) -> (twin: ObjectConfig)
    ensures
        twin == config.emptied(),
{
    config.empty_twin()
}

/// The scene of a description: its objects, those of them that are lights,
/// and its materials section.
pub struct SceneConfig {
    pub objects: Vec<ObjectConfig>,
    pub lights: Vec<ObjectConfig>,
    pub materials: MaterialTable,
}

/// Every one of the first `n` objects of `objects` can be built.
pub open spec fn all_resolve(
    objects: Seq<ObjectConfig>,
    materials: Map<Seq<char>, MaterialConfig>,
    n: int,
) -> bool {
    forall|i: int| 0 <= i < n ==> (#[trigger] objects[i]).to_hittable_spec(materials) is Ok
}

/// `objects[i]` is the first of `objects` that cannot be built.
pub open spec fn first_failure(
    objects: Seq<ObjectConfig>,
    materials: Map<Seq<char>, MaterialConfig>,
    i: int,
) -> bool {
    &&& 0 <= i < objects.len()
    &&& all_resolve(objects, materials, i)
    &&& objects[i].to_hittable_spec(materials) is Err
}

impl SceneConfig {
    /// The world that `process` builds: every object, then for every light its
    /// twin without a material.
    pub open spec fn world_spec(self) -> Seq<Shape> {
        Seq::new(
            self.objects.len() as nat,
            |i: int| self.objects[i].to_hittable_spec(self.materials@)->Ok_0,
        ) + Seq::new(
            self.lights.len() as nat,
            |i: int| self.lights[i].emptied().to_hittable_spec(self.materials@)->Ok_0,
        )
    }

    /// The lights that `process` builds.
    pub open spec fn lights_spec(self) -> Seq<Shape> {
        Seq::new(
            self.lights.len() as nat,
            |i: int| self.lights[i].to_hittable_spec(self.materials@)->Ok_0,
        )
    }

    /// The message that `process` fails with: that of the first object that
    /// cannot be built, or, where all objects can, of the first such light.
    pub open spec fn failure_spec(self, message: Seq<char>) -> bool {
        ||| exists|i: int| #[trigger]
            first_failure(self.objects@, self.materials@, i) && message
                == self.objects[i].to_hittable_spec(self.materials@)->Err_0
        ||| all_resolve(self.objects@, self.materials@, self.objects.len() as int) && exists|
            i: int,
        | #[trigger]
            first_failure(self.lights@, self.materials@, i) && message
                == self.lights[i].to_hittable_spec(self.materials@)->Err_0
    }

    /// The objects to build for the world and, apart, for the set of lights.
    /// A light enters the world as its twin without a material, so that it
    /// is found by rays and sampled as a light but seen only through the
    /// object that describes it. Fails where a material is not found.
    pub fn process(&self) -> (r: Result<(Vec<Shape>, Vec<Shape>), String>)
        ensures
            match r {
                Ok((world, lights)) => {
                    &&& all_resolve(self.objects@, self.materials@, self.objects.len() as int)
                    &&& all_resolve(self.lights@, self.materials@, self.lights.len() as int)
                    &&& world@ == self.world_spec()
                    &&& lights@ == self.lights_spec()
                },
                Err(message) => self.failure_spec(message@),
            },
    {
        let mut world: Vec<Shape> = Vec::new();
        let mut lights: Vec<Shape> = Vec::new();
        let mut i: usize = 0;
        while i < self.objects.len()
            invariant
                i <= self.objects.len(),
                all_resolve(self.objects@, self.materials@, i as int),
                world@ == Seq::new(
                    i as nat,
                    |k: int| self.objects[k].to_hittable_spec(self.materials@)->Ok_0,
                ),
            decreases self.objects.len() - i,
        {
            match self.objects[i].to_hittable(&self.materials) {
                Ok(shape) => {
                    world.push(shape);
                },
                Err(message) => {
                    assert(first_failure(self.objects@, self.materials@, i as int));
                    return Err(message);
                },
            }
            i = i + 1;
            assert(world@ =~= Seq::new(
                i as nat,
                |k: int| self.objects[k].to_hittable_spec(self.materials@)->Ok_0,
            ));
        }
        let ghost built = world@;
        let mut j: usize = 0;
        while j < self.lights.len()
            invariant
                j <= self.lights.len(),
                all_resolve(self.objects@, self.materials@, self.objects.len() as int),
                all_resolve(self.lights@, self.materials@, j as int),
                built == Seq::new(
                    self.objects.len() as nat,
                    |k: int| self.objects[k].to_hittable_spec(self.materials@)->Ok_0,
                ),
                world@ == built + Seq::new(
                    j as nat,
                    |k: int| self.lights[k].emptied().to_hittable_spec(self.materials@)->Ok_0,
                ),
                lights@ == Seq::new(
                    j as nat,
                    |k: int| self.lights[k].to_hittable_spec(self.materials@)->Ok_0,
                ),
            decreases self.lights.len() - j,
        {
            let twin = self.lights[j].empty_twin();
            match twin.to_hittable(&self.materials) {
                Ok(shape) => {
                    world.push(shape);
                },
                Err(message) => {
                    return Err(message);
                },
            }
            match self.lights[j].to_hittable(&self.materials) {
                Ok(shape) => {
                    lights.push(shape);
                },
                Err(message) => {
                    assert(first_failure(self.lights@, self.materials@, j as int));
                    return Err(message);
                },
            }
            j = j + 1;
            assert(world@ =~= built + Seq::new(
                j as nat,
                |k: int| self.lights[k].emptied().to_hittable_spec(self.materials@)->Ok_0,
            ));
            assert(lights@ =~= Seq::new(
                j as nat,
                |k: int| self.lights[k].to_hittable_spec(self.materials@)->Ok_0,
            ));
        }
        Ok((world, lights))
    }
}

/// A scene description: the camera and the scene.
pub struct Config {
    pub camera: CameraConfig,
    pub scene: SceneConfig,
}

impl Config {
    /// What there is to render: the camera as described, the objects of the
    /// world and the lights; see `SceneConfig::process`.
    pub fn to_scene(&self) -> (r: Result<(&CameraConfig, Vec<Shape>, Vec<Shape>), String>)
        ensures
            match r {
                Ok((camera, world, lights)) => {
                    &&& *camera == self.camera
                    &&& all_resolve(
                        self.scene.objects@,
                        self.scene.materials@,
                        self.scene.objects.len() as int,
                    )
                    &&& all_resolve(
                        self.scene.lights@,
                        self.scene.materials@,
                        self.scene.lights.len() as int,
                    )
                    &&& world@ == self.scene.world_spec()
                    &&& lights@ == self.scene.lights_spec()
                },
                Err(message) => self.scene.failure_spec(message@),
            },
    {
        match self.scene.process() {
            Ok((world, lights)) => Ok((&self.camera, world, lights)),
            Err(message) => Err(message),
        }
    }
}

/// A twin without a material can always be built, whatever the materials
/// section holds, and is the light's own geometry and placement.
pub proof fn lemma_empty_twin_resolves(light: ObjectConfig, materials: Map<Seq<char>, MaterialConfig>)
    ensures
        light.emptied().to_hittable_spec(materials) == Ok::<Shape, Seq<char>>(
            light.transform().apply_spec(light.bare(MaterialConfig::Absent)),
        ),
        light.emptied().emptied() == light.emptied(),
{
}

} // verus!
