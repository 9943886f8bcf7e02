# raytracer

Verified core of a small ray tracer and rasterizer.

- `src/` is the library, checked by Verus: buffer registration, indexing and
  clearing of the rasterizer (`rasterizer`), the Perlin permutation tables and
  lattice lookup (`perlin`), the split of an image into render tiles
  (`camera`), BVH range splitting (`bvh`), checkerboard parity (`texture`),
  shader selection and mesh face indexing (`shader`), the output-file prompt
  decisions (`prompt`), the default material (`material`), and random
  integers and the CI switch (`utility`).
- `app/` is the ray-tracing program around it: vectors, rays, materials,
  textures, scenes and rendering threads, which compute on floating-point
  values, and the file, terminal and image I/O.
- `tests/` exercises the library on concrete values.
