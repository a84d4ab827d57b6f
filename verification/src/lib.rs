//! Units of measurement without floating-point magnitudes: the exact magnitude of a unit as
//! `sign * mantissa * 2^exponent`, decoded from a double's bit pattern, and the storage types
//! that the unit-system code generator supports.

pub mod magnitude;
pub mod storage_types;
