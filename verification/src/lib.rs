pub mod aabb;
pub mod bounds;
pub mod bvh;
pub mod bvh_build;
pub mod camera;
pub mod color;
pub mod config;
pub mod constant_medium;
pub mod cylinder;
pub mod hittable;
pub mod hittable_list;
pub mod interval;
pub mod material;
pub mod nearest;
pub mod onb;
pub mod order;
pub mod pdf;
pub mod quadrilateral;
pub mod radiometry;
pub mod ray;
pub mod scalar;
pub mod sphere;
pub mod texture;
pub mod transform;
pub mod vec3;

pub use aabb::{Slab, AABB};
pub use bvh::{BvhChild, BvhNode};
pub use camera::{Camera, CameraConfig, PathEvent, Probe, Radiance, Scattering, Vertex};
pub use config::{
    light_to_empty, Config, MaterialConfig, MaterialRef, MaterialTable, ObjectConfig, SceneConfig,
    Shape, TransformConfig,
};
pub use constant_medium::ConstantMedium;
pub use cylinder::Cylinder;
pub use hittable::HitRecord;
pub use hittable_list::HittableList;
pub use interval::Interval;
pub use material::{
    Dielectric, DiffuseLight, Glossy, Isotropic, Lambertian, Metal, NoneMaterial, ScatterRecord,
};
pub use onb::ONB;
pub use pdf::{CosinePdf, HittablePdf, MixturePdf, Pdf, SpherePdf};
pub use quadrilateral::{new_box, Quadrilateral};
pub use radiometry::find_interval;
pub use ray::Ray;
pub use scalar::Scalar;
pub use sphere::Sphere;
pub use texture::{Checkerboard, Perlin, SolidColor};
pub use transform::RotateY;
pub use vec3::{Color, Point3, Vec3};
