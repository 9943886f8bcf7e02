use vstd::prelude::*;

verus! {

/// The fragment shaders the rasterizer can run.
#[derive(PartialEq, Eq, Structural)]
pub enum ShaderKind {
    Normal,
    Texture,
    Phong,
    Bump,
    Displacement,
}

/// The shader that the method name `method` selects, as a spec value:
/// unknown names fall back to Phong shading.
pub open spec fn shader_for(method: Seq<char>) -> ShaderKind {
    if method == seq!['n', 'o', 'r', 'm', 'a', 'l'] {
        ShaderKind::Normal
    } else if method == seq!['t', 'e', 'x', 't', 'u', 'r', 'e'] {
        ShaderKind::Texture
    } else if method == seq!['b', 'u', 'm', 'p'] {
        ShaderKind::Bump
    } else if method == seq!['d', 'i', 's', 'p', 'l', 'a', 'c', 'e', 'm', 'e', 'n', 't'] {
        ShaderKind::Displacement
    } else {
        ShaderKind::Phong
    }
}

/// Name of the texture image that the texture shader loads from the model
/// directory.
pub open spec fn texture_file_name() -> Seq<char> {
    seq!['s', 'p', 'o', 't', '_', 't', 'e', 'x', 't', 'u', 'r', 'e', '.', 'p', 'n', 'g']
}

/// Chooses the fragment shader named by `method`, and the path of the
/// texture image to load with it: the texture shader reads
/// `spot_texture.png` from the directory prefix `obj_path`, the others read
/// no texture.
pub fn choose_shader_texture(method: &str, obj_path: &str) -> (r: (ShaderKind, Option<String>))
    ensures
        r.0 == shader_for(method@),
        r.1 matches Some(p) <==> r.0 == ShaderKind::Texture,
        r.1 matches Some(p) ==> p@ == obj_path@ + texture_file_name(),
{
    proof {
        reveal_strlit("normal");
        reveal_strlit("texture");
        reveal_strlit("phong");
        reveal_strlit("bump");
        reveal_strlit("displacement");
        reveal_strlit("spot_texture.png");
    }
    assert("normal"@ =~= seq!['n', 'o', 'r', 'm', 'a', 'l']);
    assert("texture"@ =~= seq!['t', 'e', 'x', 't', 'u', 'r', 'e']);
    assert("phong"@ =~= seq!['p', 'h', 'o', 'n', 'g']);
    assert("bump"@ =~= seq!['b', 'u', 'm', 'p']);
    assert("displacement"@ =~= seq!['d', 'i', 's', 'p', 'l', 'a', 'c', 'e', 'm', 'e', 'n', 't']);
    assert("spot_texture.png"@ =~= texture_file_name());
    let m = method.to_owned();
    if m == "normal".to_owned() {
        (ShaderKind::Normal, None)
    } else if m == "texture".to_owned() {
        let mut path = obj_path.to_owned();
        path.append("spot_texture.png");
        (ShaderKind::Texture, Some(path))
    } else if m == "phong".to_owned() {
        (ShaderKind::Phong, None)
    } else if m == "bump".to_owned() {
        (ShaderKind::Bump, None)
    } else if m == "displacement".to_owned() {
        (ShaderKind::Displacement, None)
    } else {
        (ShaderKind::Phong, None)
    }
}

/// For each face of a triangle mesh, the positions of its three corners in
/// the vertex arrays: face `f` uses entries `3 * f`, `3 * f + 1` and
/// `3 * f + 2` of the index list. Trailing indices that make no full face are
/// ignored.
pub fn triangle_vertex_indices(indices: &Vec<u32>) -> (faces: Vec<[usize; 3]>)
    ensures
        faces@.len() == indices@.len() / 3,
        forall|f: int, j: int|
            0 <= f < faces@.len() && 0 <= j < 3 ==> #[trigger] faces@[f]@[j] == indices@[3 * f + j] as usize,
{
    let n = indices.len() / 3;
    let mut faces: Vec<[usize; 3]> = Vec::new();
    let mut f: usize = 0;
    while f < n
        invariant
            f <= n,
            n == indices@.len() / 3,
            faces@.len() == f,
            forall|g: int, j: int|
                0 <= g < f && 0 <= j < 3 ==> #[trigger] faces@[g]@[j] == indices@[3 * g + j] as usize,
        decreases n - f,
    {
        assert(3 * f + 3 <= indices@.len()) by (nonlinear_arith)
            requires
                f < n,
                n == indices@.len() / 3,
        ;
        assert(indices@.len() == indices.len());
        let base = 3 * f;
        let face = [indices[base] as usize, indices[base + 1] as usize, indices[base + 2] as usize];
        faces.push(face);
        proof {
            assert forall|g: int, j: int|
                0 <= g < f + 1 && 0 <= j < 3 implies #[trigger] faces@[g]@[j] == indices@[3 * g + j] as usize by {
                if g == f {
                    if j == 0 {
                    } else if j == 1 {
                    } else {
                    }
                }
            }
        }
        f = f + 1;
    }
    faces
}

} // verus!
