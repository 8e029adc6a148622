// The discrete core of a path tracer: how a BVH splits its objects and picks among its
// children's hits, the Perlin noise permutation tables and lattice hashing, checkerboard
// parity, nearest-pixel image lookup, the steps of the recursive radiance estimate, and
// the framing of the finished image as a binary PPM.
pub mod bvh;
pub mod checker;
pub mod image;
pub mod integrator;
pub mod perlin;
pub mod ppm;
