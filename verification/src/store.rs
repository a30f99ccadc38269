//! The template store: four kernel templates, the placeholder tokens that stand in them for
//! type names, and the symbolic names that one kernel uses throughout.

use vstd::prelude::*;

verus! {

/// Placeholder for the name of a field.
pub const FIELD: &'static str = "FIELD";

/// Placeholder for the name of a quadratic extension field.
pub const FIELD2: &'static str = "FIELD2";

/// Placeholder for the name of a point group.
pub const POINT: &'static str = "POINT";

/// Placeholder for the name of the field that exponents are taken from.
pub const EXPONENT: &'static str = "EXPONENT";

/// Placeholder for the line that selects the representation of affine points.
pub const BLSTRS: &'static str = "__BLSTRS__";

/// What stands for `BLSTRS` where affine points carry no infinity flag.
pub const BLSTRS_DEF: &'static str = "#define BLSTRS";

/// Name of the scalar field.
pub const FR: &'static str = "Fr";

/// Name of the base field.
pub const FQ: &'static str = "Fq";

/// Name of the quadratic extension of the base field.
pub const FQ2: &'static str = "Fq2";

/// Name of the point group over the base field.
pub const G1: &'static str = "G1";

/// Name of the point group over the extension field.
pub const G2: &'static str = "G2";

/// What stands between two fragments of a kernel: a blank line.
pub const SEPARATOR: &'static str = "\n\n";

/// Fast Fourier transform over `FIELD`.
pub const FFT_SRC: &'static str = "uint bitreverse(uint n, uint bits) {
  uint r = 0;
  for(int i = 0; i < bits; i++) {
    r = (r << 1) | (n & 1);
    n >>= 1;
  }
  return r;
}

/*
 * One round of a radix-2^deg FFT. Every work group transforms 2^deg elements of `x`
 * in local memory and writes them to `y`.
 */
__kernel void radix_fft(__global FIELD* x, // Source buffer
                        __global FIELD* y, // Destination buffer
                        __global FIELD* pq, // Precalculated twiddle factors
                        __global FIELD* omegas, // [omega, omega^2, omega^4, ...]
                        __local FIELD* u, // Local buffer for intermediate values
                        uint n, // Number of elements
                        uint lgp, // Log2 of `p`
                        uint deg, // 1 => radix 2, 2 => radix 4, 3 => radix 8, ...
                        uint max_deg) // Largest degree that `pq` and `omegas` support
{
  uint lid = get_local_id(0);
  uint lsize = get_local_size(0);
  uint index = get_group_id(0);
  uint t = n >> deg;
  uint p = 1 << lgp;
  uint k = index & (p - 1);

  x += index;
  y += ((index - k) << deg) + k;

  uint count = 1 << deg; // 2^deg
  uint counth = count >> 1; // Half of count

  uint counts = count / lsize * lid;
  uint counte = counts + count / lsize;

  // Powers of the twiddle factor
  const FIELD twiddle = FIELD_pow_lookup(omegas, (n >> lgp >> deg) * k);
  FIELD tmp = FIELD_pow(twiddle, counts);
  for(uint i = counts; i < counte; i++) {
    u[i] = FIELD_mul(tmp, x[i*t]);
    tmp = FIELD_mul(tmp, twiddle);
  }
  barrier(CLK_LOCAL_MEM_FENCE);

  const uint pqshift = max_deg - deg;
  for(uint rnd = 0; rnd < deg; rnd++) {
    const uint bit = counth >> rnd;
    for(uint i = counts >> 1; i < counte >> 1; i++) {
      const uint di = i & (bit - 1);
      const uint i0 = (i << 1) - di;
      const uint i1 = i0 + bit;
      tmp = u[i0];
      u[i0] = FIELD_add(u[i0], u[i1]);
      u[i1] = FIELD_sub(tmp, u[i1]);
      if(di != 0) u[i1] = FIELD_mul(pq[di << rnd << pqshift], u[i1]);
    }

    barrier(CLK_LOCAL_MEM_FENCE);
  }

  for(uint i = counts >> 1; i < counte >> 1; i++) {
    y[i*p] = u[bitreverse(i, deg)];
    y[(i+counth)*p] = u[bitreverse(i + counth, deg)];
  }
}

// Multiplies every element by `field`
__kernel void mul_by_field(__global FIELD* elements,
                           uint n,
                           FIELD field) {
  const uint gid = get_global_id(0);
  elements[gid] = FIELD_mul(elements[gid], field);
}
";

/// Quadratic extension `FIELD2` of `FIELD`.
pub const FIELD2_SRC: &'static str = "// Quadratic extension field with u^2 + 1 = 0

#define FIELD2_LIMB_BITS FIELD_LIMB_BITS
#define FIELD2_ZERO ((FIELD2){FIELD_ZERO, FIELD_ZERO})
#define FIELD2_ONE ((FIELD2){FIELD_ONE, FIELD_ZERO})

typedef struct {
  FIELD c0;
  FIELD c1;
} FIELD2; // Represents c0 + u * c1

bool FIELD2_eq(FIELD2 a, FIELD2 b) {
  return FIELD_eq(a.c0, b.c0) && FIELD_eq(a.c1, b.c1);
}
FIELD2 FIELD2_sub(FIELD2 a, FIELD2 b) {
  a.c0 = FIELD_sub(a.c0, b.c0);
  a.c1 = FIELD_sub(a.c1, b.c1);
  return a;
}
FIELD2 FIELD2_add(FIELD2 a, FIELD2 b) {
  a.c0 = FIELD_add(a.c0, b.c0);
  a.c1 = FIELD_add(a.c1, b.c1);
  return a;
}
FIELD2 FIELD2_double(FIELD2 a) {
  a.c0 = FIELD_double(a.c0);
  a.c1 = FIELD_double(a.c1);
  return a;
}

// Karatsuba: three multiplications in FIELD for one in FIELD2
FIELD2 FIELD2_mul(FIELD2 a, FIELD2 b) {
  const FIELD aa = FIELD_mul(a.c0, b.c0);
  const FIELD bb = FIELD_mul(a.c1, b.c1);
  const FIELD o = FIELD_add(b.c0, b.c1);
  a.c1 = FIELD_add(a.c1, a.c0);
  a.c1 = FIELD_mul(a.c1, o);
  a.c1 = FIELD_sub(a.c1, aa);
  a.c1 = FIELD_sub(a.c1, bb);
  a.c0 = FIELD_sub(aa, bb);
  return a;
}

// (c0 + u * c1)^2 = (c0 - c1) * (c0 + c1) + u * 2 * c0 * c1
FIELD2 FIELD2_sqr(FIELD2 a) {
  const FIELD ab = FIELD_mul(a.c0, a.c1);
  const FIELD c0c1 = FIELD_add(a.c0, a.c1);
  a.c0 = FIELD_mul(FIELD_sub(a.c0, a.c1), c0c1);
  a.c1 = FIELD_double(ab);
  return a;
}
";

/// Point arithmetic of the group `POINT` over `FIELD`.
pub const EC_SRC: &'static str = "// Elliptic curve operations (short Weierstrass form, Jacobian coordinates)

#define POINT_ZERO ((POINT_projective){FIELD_ZERO, FIELD_ONE, FIELD_ZERO})

__BLSTRS__

typedef struct {
  FIELD x;
  FIELD y;
#ifndef BLSTRS
  bool inf;
#endif
#if FIELD_LIMB_BITS == 32
  uint _padding;
#endif
} POINT_affine;

typedef struct {
  FIELD x;
  FIELD y;
  FIELD z;
} POINT_projective;

// http://www.hyperelliptic.org/EFD/g1p/auto-shortw-jacobian-0.html#doubling-dbl-2009-l
POINT_projective POINT_double(POINT_projective inp) {
  const FIELD local_zero = FIELD_ZERO;
  if(FIELD_eq(inp.z, local_zero)) {
    return inp;
  }

  const FIELD a = FIELD_sqr(inp.x); // A = X1^2
  const FIELD b = FIELD_sqr(inp.y); // B = Y1^2
  FIELD c = FIELD_sqr(b); // C = B^2

  // D = 2*((X1+B)^2-A-C)
  FIELD d = FIELD_add(inp.x, b);
  d = FIELD_sqr(d); d = FIELD_sub(FIELD_sub(d, a), c); d = FIELD_double(d);

  const FIELD e = FIELD_add(FIELD_double(a), a); // E = 3*A
  const FIELD f = FIELD_sqr(e); // F = E^2

  inp.z = FIELD_mul(inp.y, inp.z); inp.z = FIELD_double(inp.z); // Z3 = 2*Y1*Z1
  inp.x = FIELD_sub(FIELD_sub(f, d), d); // X3 = F-2*D

  // Y3 = E*(D-X3)-8*C
  c = FIELD_double(c); c = FIELD_double(c); c = FIELD_double(c);
  inp.y = FIELD_sub(FIELD_mul(FIELD_sub(d, inp.x), e), c);

  return inp;
}

// http://www.hyperelliptic.org/EFD/g1p/auto-shortw-jacobian-0.html#addition-madd-2007-bl
POINT_projective POINT_add_mixed(POINT_projective a, POINT_affine b) {
#ifndef BLSTRS
  if(b.inf) {
    return a;
  }
#endif

  const FIELD local_zero = FIELD_ZERO;
  if(FIELD_eq(a.z, local_zero)) {
    const FIELD local_one = FIELD_ONE;
    a.x = b.x;
    a.y = b.y;
    a.z = local_one;
    return a;
  }

  const FIELD z1z1 = FIELD_sqr(a.z); // Z1Z1 = Z1^2
  const FIELD u2 = FIELD_mul(b.x, z1z1); // U2 = X2*Z1Z1
  const FIELD s2 = FIELD_mul(FIELD_mul(b.y, a.z), z1z1); // S2 = Y2*Z1*Z1Z1

  if(FIELD_eq(a.x, u2) && FIELD_eq(a.y, s2)) {
    return POINT_double(a);
  }

  const FIELD h = FIELD_sub(u2, a.x); // H = U2-X1
  const FIELD hh = FIELD_sqr(h); // HH = H^2
  FIELD i = FIELD_double(hh); i = FIELD_double(i); // I = 4*HH
  FIELD j = FIELD_mul(h, i); // J = H*I
  FIELD r = FIELD_sub(s2, a.y); r = FIELD_double(r); // r = 2*(S2-Y1)
  const FIELD v = FIELD_mul(a.x, i); // V = X1*I

  POINT_projective ret;

  // X3 = r^2-J-2*V
  ret.x = FIELD_sub(FIELD_sub(FIELD_sqr(r), j), FIELD_double(v));

  // Y3 = r*(V-X3)-2*Y1*J
  j = FIELD_mul(a.y, j); j = FIELD_double(j);
  ret.y = FIELD_sub(FIELD_mul(FIELD_sub(v, ret.x), r), j);

  // Z3 = (Z1+H)^2-Z1Z1-HH
  ret.z = FIELD_add(a.z, h); ret.z = FIELD_sub(FIELD_sub(FIELD_sqr(ret.z), z1z1), hh);
  return ret;
}

// http://www.hyperelliptic.org/EFD/g1p/auto-shortw-jacobian-0.html#addition-add-2007-bl
POINT_projective POINT_add(POINT_projective a, POINT_projective b) {
  const FIELD local_zero = FIELD_ZERO;
  if(FIELD_eq(a.z, local_zero)) return b;
  if(FIELD_eq(b.z, local_zero)) return a;

  const FIELD z1z1 = FIELD_sqr(a.z); // Z1Z1 = Z1^2
  const FIELD z2z2 = FIELD_sqr(b.z); // Z2Z2 = Z2^2
  const FIELD u1 = FIELD_mul(a.x, z2z2); // U1 = X1*Z2Z2
  const FIELD u2 = FIELD_mul(b.x, z1z1); // U2 = X2*Z1Z1
  FIELD s1 = FIELD_mul(FIELD_mul(a.y, b.z), z2z2); // S1 = Y1*Z2*Z2Z2
  const FIELD s2 = FIELD_mul(FIELD_mul(b.y, a.z), z1z1); // S2 = Y2*Z1*Z1Z1

  if(FIELD_eq(u1, u2) && FIELD_eq(s1, s2)) {
    return POINT_double(a);
  }

  const FIELD h = FIELD_sub(u2, u1); // H = U2-U1
  FIELD i = FIELD_double(h); i = FIELD_sqr(i); // I = (2*H)^2
  const FIELD j = FIELD_mul(h, i); // J = H*I
  FIELD r = FIELD_sub(s2, s1); r = FIELD_double(r); // r = 2*(S2-S1)
  const FIELD v = FIELD_mul(u1, i); // V = U1*I

  // X3 = r^2-J-2*V
  a.x = FIELD_sub(FIELD_sub(FIELD_sub(FIELD_sqr(r), j), v), v);

  // Y3 = r*(V-X3)-2*S1*J
  a.y = FIELD_mul(FIELD_sub(v, a.x), r);
  s1 = FIELD_mul(s1, j); s1 = FIELD_double(s1);
  a.y = FIELD_sub(a.y, s1);

  // Z3 = ((Z1+Z2)^2-Z1Z1-Z2Z2)*H
  a.z = FIELD_sqr(FIELD_add(a.z, b.z));
  a.z = FIELD_sub(FIELD_sub(a.z, z1z1), z2z2);
  a.z = FIELD_mul(a.z, h);

  return a;
}
";

/// Multi-scalar multiplication in the group `POINT` with scalars from `EXPONENT`.
pub const MULTIEXP_SRC: &'static str = "/*
 * Bucket method. The bits of the exponents are cut into windows and the bases into
 * groups; one thread sums the bases of one group over one window.
 */
__kernel void POINT_bellman_multiexp(
    __global POINT_affine *bases,
    __global POINT_projective *buckets,
    __global POINT_projective *results,
    __global EXPONENT *exps,
    uint n,
    uint num_groups,
    uint num_windows,
    uint window_size) {

  // There are `num_windows` * `num_groups` threads per multiexp.
  const uint gid = get_global_id(0);
  if(gid >= num_windows * num_groups) return;

  // There are (2^window_size - 1) buckets.
  const uint bucket_len = ((1 << window_size) - 1);

  // Each thread has its own buckets in global memory.
  buckets += bucket_len * gid;

  const POINT_projective local_zero = POINT_ZERO;
  for(uint i = 0; i < bucket_len; i++) buckets[i] = local_zero;

  const uint len = (uint)ceil(n / (float)num_groups); // Number of elements in each group

  // This thread works on the elements `nstart` to `nend`
  // and on the window [`bits`, `bits` + `w`).
  const uint nstart = len * (gid / num_windows);
  const uint nend = min(nstart + len, n);
  const uint bits = (gid % num_windows) * window_size;
  const ushort w = min((ushort)window_size, (ushort)(EXPONENT_BITS - bits));

  POINT_projective res = POINT_ZERO;
  for(uint i = nstart; i < nend; i++) {
    uint ind = EXPONENT_get_bits(exps[i], bits, w);

    #ifdef NVIDIA
      // Treating one index apart makes this loop much faster on these devices;
      // which index it is matters little.
      if(ind == 511) buckets[510] = POINT_add_mixed(buckets[510], bases[i]);
      else if(ind--) buckets[ind] = POINT_add_mixed(buckets[ind], bases[i]);
    #else
      if(ind--) buckets[ind] = POINT_add_mixed(buckets[ind], bases[i]);
    #endif
  }

  // Summation by parts:
  // 3a + 2b + 1c = a +
  //               (a) + b +
  //               ((a) + b) + c
  POINT_projective acc = POINT_ZERO;
  for(int j = bucket_len - 1; j >= 0; j--) {
    acc = POINT_add(acc, buckets[j]);
    res = POINT_add(res, acc);
  }

  results[gid] = res;
}
";

} // verus!
