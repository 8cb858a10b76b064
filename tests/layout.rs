use raytracer::config::{Camera, Config};
use raytracer::material::{Dielectric, Lambertian, Material, Metal};
use raytracer::packed::PackedVec3;
use raytracer::scene::{Scene, Sphere};

fn vec3(x: f32, y: f32, z: f32) -> PackedVec3 {
    PackedVec3::new(x.to_bits(), y.to_bits(), z.to_bits())
}

fn camera() -> Camera {
    Camera {
        origin: vec3(1.0, 2.0, 3.0),
        lower_left_corner: vec3(4.0, 5.0, 6.0),
        horizontal: vec3(7.0, 8.0, 9.0),
        vertical: vec3(10.0, 11.0, 12.0),
        up: vec3(0.0, 1.0, 0.0),
        u: vec3(1.0, 0.0, 0.0),
        v: vec3(0.0, 1.0, 0.0),
        w: vec3(0.0, 0.0, 1.0),
        lens_radius: 0.05f32.to_bits(),
    }
}

#[test]
fn vector_words_are_padded() {
    let mut out = vec![7u32];
    vec3(0.5, -1.0, 2.0).write_words(&mut out);
    assert_eq!(out, vec![7, 0.5f32.to_bits(), (-1.0f32).to_bits(), 2.0f32.to_bits(), 0]);
}

#[test]
fn lambertian_sphere_record() {
    let albedo = vec3(0.5, 0.5, 0.5);
    let s = Sphere::new(vec3(0.0, -1000.0, -1.0), 1000.0f32.to_bits(), Material::Lambertian(Lambertian { albedo }));
    assert_eq!(s.mat_type, 0);
    assert_eq!(s.fuzz_or_ir, 0);
    assert_eq!(
        s.to_words(),
        vec![
            1000.0f32.to_bits(), 0, 0, 0,
            0.5f32.to_bits(), 0.5f32.to_bits(), 0.5f32.to_bits(), 0,
            0.0f32.to_bits(), (-1000.0f32).to_bits(), (-1.0f32).to_bits(), 0,
        ]
    );
    assert_eq!(s.material(), Some(Material::Lambertian(Lambertian { albedo })));
}

#[test]
fn metal_sphere_record() {
    let m = Material::Metal(Metal { albedo: vec3(0.7, 0.6, 0.5), fuzz: 0.25f32.to_bits() });
    let s = Sphere::new(vec3(4.0, 1.0, 0.0), 1.0f32.to_bits(), m);
    assert_eq!(s.mat_type, 1);
    assert_eq!(s.fuzz_or_ir, 0.25f32.to_bits());
    assert_eq!(s.albedo, vec3(0.7, 0.6, 0.5));
    assert_eq!(s.material(), Some(m));
}

#[test]
fn dielectric_sphere_record() {
    let m = Material::Dielectric(Dielectric { ir: 1.5f32.to_bits() });
    let s = Sphere::new(vec3(0.0, 1.0, 0.0), (-0.4f32).to_bits(), m);
    assert_eq!(s.mat_type, 2);
    assert_eq!(s.fuzz_or_ir, 1.5f32.to_bits());
    assert_eq!(s.albedo, PackedVec3::zero());
    assert_eq!(s.radius, (-0.4f32).to_bits());
    assert_eq!(s.material(), Some(m));
}

#[test]
fn unknown_material_tag() {
    let mut s = Sphere::new(vec3(0.0, 0.0, 0.0), 1.0f32.to_bits(), Material::Dielectric(Dielectric { ir: 1 }));
    s.mat_type = 3;
    assert_eq!(s.material(), None);
    assert_eq!(Material::decode(7, PackedVec3::zero(), 0), None);
}

#[test]
fn scene_add_clear_and_words() {
    let a = Sphere::new(vec3(0.0, 0.0, -1.0), 0.5f32.to_bits(), Material::Lambertian(Lambertian { albedo: vec3(0.1, 0.2, 0.3) }));
    let b = Sphere::new(vec3(0.0, -100.5, -1.0), 100.0f32.to_bits(), Material::Lambertian(Lambertian { albedo: vec3(0.8, 0.8, 0.0) }));
    let mut scene = Scene::new();
    assert_eq!(scene.len(), 0);
    assert!(scene.to_words().is_empty());
    scene.add(a);
    scene.add(b);
    assert_eq!(scene.len(), 2);
    assert_eq!(scene.spheres(), &vec![a, b]);
    let mut expected = a.to_words();
    expected.extend(b.to_words());
    assert_eq!(scene.to_words().len(), 24);
    assert_eq!(scene.to_words(), expected);
    scene.clear();
    assert_eq!(scene.len(), 0);
    assert!(scene.to_words().is_empty());
}

#[test]
fn config_record() {
    let mut scene = Scene::new();
    scene.add(Sphere::new(vec3(0.0, 0.0, -1.0), 0.5f32.to_bits(), Material::Lambertian(Lambertian { albedo: vec3(0.5, 0.5, 0.5) })));
    let c = Config::for_scene(&scene, 32, 4, 1080, 720, camera()).unwrap();
    assert_eq!(c.num_spheres, 1);
    let w = c.to_words();
    assert_eq!(w.len(), 41);
    assert_eq!(&w[0..8], &[1, 32, 4, 1080, 720, 0, 0, 0]);
    assert_eq!(&w[8..12], &[1.0f32.to_bits(), 2.0f32.to_bits(), 3.0f32.to_bits(), 0]);
    assert_eq!(&w[12..16], &[4.0f32.to_bits(), 5.0f32.to_bits(), 6.0f32.to_bits(), 0]);
    assert_eq!(&w[36..40], &[0, 0, 1.0f32.to_bits(), 0]);
    assert_eq!(w[40], 0.05f32.to_bits());
}
