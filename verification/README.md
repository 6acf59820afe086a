# ROSE Zone Converter

Converts the terrain of ROSE Online zones (`.ZON`, `.HIM`, `.TIL`) into meshes, textures and
materials for Bevy 0.16. For every block of a zone it writes, next to the block's own files:

- `block_X_Y.mesh.bin`: the mesh, in the format below;
- `block_X_Y_albedo.png`: the tile textures, baked into one picture;
- `block_X_Y_normal.png`: a normal map made from the heights;
- `block_X_Y_lightmap.png`: the light map, if the zone came with one;
- `block_X_Y.mat.ron`: a description of the material.

```bash
rose_zone_converter --data-root <PATH_TO_3DDATA_FOLDER> --resolution 2048
```

## Layout

`src/` is a library verified with Verus.

| module | what it holds |
| --- | --- |
| `color` | packed sixteen bit colours and weighted means |
| `picture` | pictures as row-major grids |
| `texture` | images in the pixel format that they came in |
| `dxt` | the block compressed formats DXT1, DXT3 and DXT5 |
| `dds` | the container they come in |
| `rotation` | how a tile turns or mirrors a texture |
| `texture_cache`, `texture_lookup`, `paths` | finding textures and keeping them |
| `albedo` | baking the tiles of a block |
| `mesh` | the mesh of a block and its file format |
| `normal_map` | drawing a normal map |
| `block_files`, `text` | the blocks of a zone and the names of their files |
| `outside` | the calls into the `image` crate |

`app/` is the program: arguments, files, threads, the readers for the game's own formats, and what
is computed in floating point.

## Mesh files

All values are little endian words of thirty-two bits.

```
vertex count n
positions: 3 floats for each vertex
normals:   3 floats for each vertex
uvs:       2 floats for each vertex
1 if tangents follow, else 0
tangents:  4 floats for each vertex
index count m
indices:   m words
```
