use icosphere::{Golden, GoldenVec3, IcoStripVertex, IcosVertex, Icosphere, SubdivVertex, TextureUv, Vertex};
use icosphere::texture_uv_of_u8;

fn g(int_part: i64, phi_part: i64) -> Golden {
    Golden { int_part, phi_part }
}

fn v3(x: Golden, y: Golden, z: Golden) -> GoldenVec3 {
    GoldenVec3 { x, y, z }
}

fn phi() -> f64 {
    (1.0 + 5.0_f64.sqrt()) / 2.0
}

fn to_f64(p: &GoldenVec3) -> [f64; 3] {
    let f = |c: &Golden| c.int_part as f64 + c.phi_part as f64 * phi();
    [f(&p.x), f(&p.y), f(&p.z)]
}

fn length(p: [f64; 3]) -> f64 {
    (p[0] * p[0] + p[1] * p[1] + p[2] * p[2]).sqrt()
}

fn scaled(v: &Vertex, k: i64) -> Vertex {
    let s = |c: &Golden| g(c.int_part * k, c.phi_part * k);
    Vertex {
        position_xyz: v3(s(&v.position_xyz.x), s(&v.position_xyz.y), s(&v.position_xyz.z)),
        texture_uv: TextureUv { u: v.texture_uv.u * k as u64, v: v.texture_uv.v * k as u64 },
        denominator: v.denominator * k as u32,
    }
}

fn base_vertex(k: u8) -> Vertex {
    IcoStripVertex::of_strip(k / 12, k % 12).to_vertex()
}

#[test]
fn vertex_new_has_zero_texture() {
    let p = v3(g(1, 0), g(0, -1), g(0, 0));
    let v = Vertex::new(p);
    assert_eq!(v.position_xyz, p);
    assert_eq!(v.texture_uv, TextureUv { u: 0, v: 0 });
    assert_eq!(v.denominator, 1);
    let w = v.with_uv(TextureUv { u: 3, v: 1 });
    assert_eq!(w.position_xyz, p);
    assert_eq!(w.texture_uv, TextureUv { u: 3, v: 1 });
}

#[test]
fn atlas_cells() {
    assert_eq!(texture_uv_of_u8(0), TextureUv { u: 0, v: 0 });
    assert_eq!(texture_uv_of_u8(5), TextureUv { u: 5, v: 0 });
    assert_eq!(texture_uv_of_u8(6), TextureUv { u: 0, v: 1 });
    assert_eq!(texture_uv_of_u8(13), TextureUv { u: 1, v: 2 });
    assert_eq!(texture_uv_of_u8(17), TextureUv { u: 5, v: 2 });
}

#[test]
fn icosahedron_vertices() {
    assert_eq!(IcosVertex::new(0).xyz, v3(g(-1, 0), g(0, 1), g(0, 0)));
    assert_eq!(IcosVertex::new(3).xyz, v3(g(1, 0), g(0, -1), g(0, 0)));
    assert_eq!(IcosVertex::new(5).xyz, v3(g(0, 0), g(1, 0), g(0, 1)));
    assert_eq!(IcosVertex::new(10).xyz, v3(g(0, -1), g(0, 0), g(-1, 0)));
}

#[test]
fn base_mesh_is_regular() {
    let expected = (1.0 + phi() * phi()).sqrt();
    for m in 0..12u8 {
        let pm = IcosVertex::new(m).xyz;
        assert!((length(to_f64(&pm)) - expected).abs() < 1e-12);
        for n in 0..12u8 {
            if m != n {
                assert_ne!(pm, IcosVertex::new(n).xyz);
            }
        }
    }
    for s in 0..2u8 {
        let mut seen = [false; 12];
        for i in 0..12u8 {
            let e = IcoStripVertex::of_strip(s, i);
            assert!(e.ico < 12 && e.texture < 18);
            assert!(!seen[e.ico as usize]);
            seen[e.ico as usize] = true;
        }
    }
}

#[test]
fn strip_vertex_to_vertex() {
    let v = IcoStripVertex::of_strip(1, 3).to_vertex();
    // ico 10, texture 13
    assert_eq!(v.position_xyz, v3(g(0, -1), g(0, 0), g(-1, 0)));
    assert_eq!(v.texture_uv, TextureUv { u: 1, v: 2 });
    assert_eq!(v.denominator, 1);
}

#[test]
fn fresh_sphere_is_empty() {
    let s = Icosphere::new();
    assert_eq!(s.num_vertices(), 0);
    assert_eq!(s.num_faces(), 0);
    let d = Icosphere::default();
    assert_eq!(d.num_vertices(), 0);
    assert_eq!(d.num_faces(), 0);
}

#[test]
fn subdivide_face_zero_at_two() {
    let mut s = Icosphere::new();
    s.add_subdivided_face(0, 2);
    assert_eq!(s.num_vertices(), 6);
    assert_eq!(s.num_faces(), 4);
    let faces: Vec<(u32, u32, u32)> = (0..4).map(|n| s.subdiv_face(n)).collect();
    assert_eq!(faces, vec![(0, 1, 3), (1, 4, 3), (1, 2, 4), (3, 4, 5)]);
    // Face 0 is (0, 2, 1); the first grid point has weights (0, 0, 2), all
    // on the face's third corner, strip vertex 1: icosahedron vertex 1
    // with texture cell 6.
    let v = s.subdiv_vertex(0);
    assert_eq!(v.position_xyz, v3(g(2, 0), g(0, 2), g(0, 0)));
    assert_eq!(v.texture_uv, TextureUv { u: 0, v: 2 });
    assert_eq!(v.denominator, 2);
    assert_eq!(v, scaled(&base_vertex(1), 2));
}

#[test]
fn grid_points_are_row_major() {
    let mut s = Icosphere::new();
    s.add_subdivided_face(0, 2);
    let expected = [(0, 0, 2), (1, 0, 1), (2, 0, 0), (0, 1, 1), (1, 1, 0), (0, 2, 0)];
    // Each weight vector, resolved, must be the matching blend of corners
    // a = strip vertex 0, b = 2, c = 1.
    for (n, w) in expected.iter().enumerate() {
        let sv = SubdivVertex::new(2, (0, 2, 1), *w);
        let base: Vec<Vertex> = (0..24u8).map(base_vertex).collect();
        assert_eq!(s.subdiv_vertex(n), sv.to_vertex(&base));
    }
}

#[test]
fn resolve_interpolates_exactly() {
    let base: Vec<Vertex> = (0..24u8).map(base_vertex).collect();
    let sv = SubdivVertex::new(3, (0, 2, 1), (1, 1, 1));
    let v = sv.to_vertex(&base);
    // icosahedron vertices 0 (-1, φ, 0), 5 (0, 1, φ), 1 (1, φ, 0)
    assert_eq!(v.position_xyz, v3(g(0, 0), g(1, 2), g(0, 1)));
    // texture cells 0 (0, 0), 1 (1, 0), 6 (0, 1)
    assert_eq!(v.texture_uv, TextureUv { u: 1, v: 1 });
    assert_eq!(v.denominator, 3);
}

#[test]
fn subdivide_face_at_zero() {
    for f in 0..20 {
        let mut s = Icosphere::new();
        s.add_subdivided_face(f, 0);
        assert_eq!(s.num_vertices(), 1);
        assert_eq!(s.num_faces(), 0);
        let v = s.subdiv_vertex(0);
        assert_eq!(v.denominator, 0);
        assert_eq!(v.position_xyz, v3(g(0, 0), g(0, 0), g(0, 0)));
    }
}

#[test]
fn counts_per_face() {
    for d in 1..6u32 {
        for f in 0..20 {
            let mut s = Icosphere::new();
            s.add_subdivided_face(f, d);
            assert_eq!(s.num_vertices() as u32, (d + 1) * (d + 2) / 2);
            assert_eq!(s.num_faces() as u32, d * d);
        }
    }
}

#[test]
fn repeated_subdivision_appends() {
    let mut s = Icosphere::new();
    s.add_subdivided_face(3, 2);
    s.add_subdivided_face(3, 2);
    assert_eq!(s.num_vertices(), 12);
    assert_eq!(s.num_faces(), 8);
    assert_eq!(s.subdiv_face(4), (6, 7, 9));
    assert_eq!(s.subdiv_vertex(0), s.subdiv_vertex(6));
}

#[test]
fn subdivide_all_at_one() {
    let mut s = Icosphere::new();
    s.subdivide(1);
    assert_eq!(s.num_vertices(), 60);
    assert_eq!(s.num_faces(), 20);
    for f in 0..20u32 {
        assert_eq!(s.subdiv_face(f as usize), (3 * f, 3 * f + 1, 3 * f + 2));
    }
    // Face 0 is (0, 2, 1): its triangle runs c, a, b.
    assert_eq!(s.subdiv_vertex(0), base_vertex(1));
    assert_eq!(s.subdiv_vertex(1), base_vertex(0));
    assert_eq!(s.subdiv_vertex(2), base_vertex(2));
    // Face 10 is (12, 14, 13).
    assert_eq!(s.subdiv_vertex(30), base_vertex(13));
    assert_eq!(s.subdiv_vertex(31), base_vertex(12));
    assert_eq!(s.subdiv_vertex(32), base_vertex(14));
}

#[test]
fn subdivide_all_counts() {
    let mut s = Icosphere::new();
    s.subdivide(4);
    assert_eq!(s.num_vertices(), 20 * 15);
    assert_eq!(s.num_faces(), 20 * 16);
    for n in 0..s.num_faces() {
        let (a, b, c) = s.subdiv_face(n);
        assert!((a as usize) < s.num_vertices());
        assert!((b as usize) < s.num_vertices());
        assert!((c as usize) < s.num_vertices());
        assert!(a != b && b != c && a != c);
    }
}

#[test]
fn corners_match_base_vertices() {
    let mut s = Icosphere::new();
    s.add_subdivided_face(7, 3);
    // Face 7 is (7, 9, 8); in the grid of side 3 the points (3, 0, 0),
    // (0, 3, 0), (0, 0, 3) are at 3, 9 and 0.
    assert_eq!(s.subdiv_vertex(3), scaled(&base_vertex(7), 3));
    assert_eq!(s.subdiv_vertex(9), scaled(&base_vertex(9), 3));
    assert_eq!(s.subdiv_vertex(0), scaled(&base_vertex(8), 3));
}

#[test]
fn resolved_vertices_project_onto_sphere() {
    let mut s = Icosphere::new();
    s.subdivide(3);
    let scale = 2.5;
    for n in 0..s.num_vertices() {
        let p = to_f64(&s.subdiv_vertex(n).position_xyz);
        let l = length(p);
        assert!(l > 0.5);
        let q = [p[0] / l * scale, p[1] / l * scale, p[2] / l * scale];
        assert!((length(q) - scale).abs() < 1e-9);
    }
}

#[test]
fn grid_weights_sum_to_division() {
    let mut s = Icosphere::new();
    s.add_subdivided_face(2, 0);
    s.add_subdivided_face(5, 3);
    s.add_subdivided_face(19, 5);
    assert_eq!(s.num_vertices(), 1 + 10 + 21);
    for n in 0..s.num_vertices() {
        let sv = s.grid_vertex(n);
        let (a, b, c) = sv.weights;
        assert_eq!(a + b + c, sv.division);
        assert_eq!(s.subdiv_vertex(n).denominator, sv.division);
    }
    assert_eq!(s.grid_vertex(0), SubdivVertex::new(0, (3, 2, 4), (0, 0, 0)));
    // Face 5 is (5, 7, 6); its grid of side 3 starts with (0, 0, 3).
    assert_eq!(s.grid_vertex(1), SubdivVertex::new(3, (5, 7, 6), (0, 0, 3)));
    assert_eq!(s.grid_vertex(10), SubdivVertex::new(3, (5, 7, 6), (0, 3, 0)));
    // Face 19 is (23, 20, 22).
    assert_eq!(s.grid_vertex(11).ico_face, (23, 20, 22));
}
