use vstd::prelude::*;

verus! {

/// The storage types that code generation supports; each flag stands for the cargo feature
/// of the same name (`f32`, `f64`, `fastnum-d64`, `glam-vec2`, `glam-dvec2`, `glam-vec3`,
/// `glam-dvec3`, `mpi`, `hdf5`).
#[derive(Copy, Clone, Debug)]
pub struct StorageFeatures {
    pub f32_storage: bool,
    pub f64_storage: bool,
    pub fastnum_d64: bool,
    pub glam_vec2: bool,
    pub glam_dvec2: bool,
    pub glam_vec3: bool,
    pub glam_dvec3: bool,
    pub mpi: bool,
    pub hdf5: bool,
}

/// The code generator of a unit system, as far as storage types go.
#[derive(Copy, Clone, Debug)]
pub struct Codegen {
    pub features: StorageFeatures,
}

/// A scalar storage type of quantities. Every field holds Rust source text: the type's name,
/// the `Magnitude` method that converts to it, and, when those features are on, the MPI
/// datatype and the HDF5 float size that describe it.
#[derive(Clone, Debug)]
pub struct FloatType {
    pub name: String,
    pub conversion_method: String,
    pub mpi_type: Option<String>,
    pub hdf5_type: Option<String>,
}

/// A vector storage type of quantities, whose entries are stored as `float_type`.
#[derive(Clone, Debug)]
pub struct VectorType {
    pub name: String,
    pub float_type: FloatType,
    pub num_dims: usize,
}

/// Either kind of storage type.
#[derive(Clone, Debug)]
pub enum AnyStorageType {
    Float(FloatType),
    Vector(VectorType),
}

/// The abstract value of a `FloatType`.
pub struct FloatTypeModel {
    pub name: Seq<char>,
    pub conversion_method: Seq<char>,
    pub mpi_type: Option<Seq<char>>,
    pub hdf5_type: Option<Seq<char>>,
}

/// The abstract value of a `VectorType`.
pub struct VectorTypeModel {
    pub name: Seq<char>,
    pub float_type: FloatTypeModel,
    pub num_dims: nat,
}

/// The abstract value of an `AnyStorageType`.
pub enum StorageTypeModel {
    Float(FloatTypeModel),
    Vector(VectorTypeModel),
}

/// The text an optional field holds.
pub open spec fn optional_text(text: Option<String>) -> Option<Seq<char>> {
    match text {
        Some(s) => Some(s@),
        None => None,
    }
}

/// `text` when `enabled`, nothing otherwise.
pub open spec fn text_if(enabled: bool, text: Seq<char>) -> Option<Seq<char>> {
    if enabled {
        Some(text)
    } else {
        None
    }
}

impl View for FloatType {
    type V = FloatTypeModel;

    open spec fn view(&self) -> FloatTypeModel {
        FloatTypeModel {
            name: self.name@,
            conversion_method: self.conversion_method@,
            mpi_type: optional_text(self.mpi_type),
            hdf5_type: optional_text(self.hdf5_type),
        }
    }
}

impl View for VectorType {
    type V = VectorTypeModel;

    open spec fn view(&self) -> VectorTypeModel {
        VectorTypeModel {
            name: self.name@,
            float_type: self.float_type@,
            num_dims: self.num_dims as nat,
        }
    }
}

impl View for AnyStorageType {
    type V = StorageTypeModel;

    open spec fn view(&self) -> StorageTypeModel {
        match self {
            AnyStorageType::Float(t) => StorageTypeModel::Float(t@),
            AnyStorageType::Vector(t) => StorageTypeModel::Vector(t@),
        }
    }
}

/// The single-precision float type.
pub open spec fn f32_type_model(features: StorageFeatures) -> FloatTypeModel {
    FloatTypeModel {
        name: "f32"@,
        conversion_method: "into_f32"@,
        mpi_type: text_if(features.mpi, "::mpi::ffi::RSMPI_FLOAT"@),
        hdf5_type: text_if(features.hdf5, "hdf5::types::FloatSize::U4"@),
    }
}


/// The double-precision float type.
pub open spec fn f64_type_model(features: StorageFeatures) -> FloatTypeModel {
    FloatTypeModel {
        name: "f64"@,
        conversion_method: "into_f64"@,
        mpi_type: text_if(features.mpi, "::mpi::ffi::RSMPI_DOUBLE"@),
        hdf5_type: text_if(features.hdf5, "hdf5::types::FloatSize::U8"@),
    }
}

/// The fastnum decimal type. Its name is the type parameter `D` of the generic code that the
/// decimal type is substituted for.
pub open spec fn fastnum_type_model(features: StorageFeatures) -> FloatTypeModel {
    FloatTypeModel {
        name: "D"@,
        conversion_method: "into_fastnum"@,
        mpi_type: text_if(features.mpi, "::mpi::ffi::RSMPI_DOUBLE"@),
        hdf5_type: text_if(features.hdf5, "hdf5::types::FloatSize::U64"@),
    }
}

/// `seq![x]` when `enabled`, the empty sequence otherwise.
pub open spec fn seq_if<A>(enabled: bool, x: A) -> Seq<A> {
    if enabled {
        seq![x]
    } else {
        Seq::empty()
    }
}

/// The scalar storage types that the features turn on, in this order: `f32`, `f64`, the
/// fastnum `D64` decimal.
pub open spec fn float_types_model(features: StorageFeatures) -> Seq<FloatTypeModel> {
    seq_if(features.f32_storage, f32_type_model(features)) + seq_if(
        features.f64_storage,
        f64_type_model(features),
    ) + seq_if(features.fastnum_d64, fastnum_type_model(features))
}

/// The glam vector storage types that the features turn on, in this order: `Vec2`, `DVec2`,
/// `Vec3`, `DVec3`; the single-precision ones store `f32` entries, the others `f64`.
pub open spec fn vector_types_model(features: StorageFeatures) -> Seq<VectorTypeModel> {
    seq_if(
        features.glam_vec2,
        VectorTypeModel {
            name: "::glam::Vec2"@,
            float_type: f32_type_model(features),
            num_dims: 2,
        },
    ) + seq_if(
        features.glam_dvec2,
        VectorTypeModel {
            name: "::glam::DVec2"@,
            float_type: f64_type_model(features),
            num_dims: 2,
        },
    ) + seq_if(
        features.glam_vec3,
        VectorTypeModel {
            name: "::glam::Vec3"@,
            float_type: f32_type_model(features),
            num_dims: 3,
        },
    ) + seq_if(
        features.glam_dvec3,
        VectorTypeModel {
            name: "::glam::DVec3"@,
            float_type: f64_type_model(features),
            num_dims: 3,
        },
    )
}

/// All storage types: the scalar ones, then the vector ones.
pub open spec fn storage_types_model(features: StorageFeatures) -> Seq<StorageTypeModel> {
    float_types_model(features).map_values(|t: FloatTypeModel| StorageTypeModel::Float(t))
        + vector_types_model(features).map_values(|t: VectorTypeModel| StorageTypeModel::Vector(t))
}

/// The name of a storage type.
pub open spec fn storage_type_name(t: StorageTypeModel) -> Seq<char> {
    match t {
        StorageTypeModel::Float(f) => f.name,
        StorageTypeModel::Vector(v) => v.name,
    }
}

/// The scalar type whose values a storage type holds, one per entry for vectors.
pub open spec fn storage_type_base(t: StorageTypeModel) -> FloatTypeModel {
    match t {
        StorageTypeModel::Float(f) => f,
        StorageTypeModel::Vector(v) => v.float_type,
    }
}


/// Storage types list every scalar type and then every vector type, each once and in the
/// order of `float_types` and `vector_types`.
pub proof fn lemma_storage_types_are_floats_then_vectors(features: StorageFeatures)
    ensures
        storage_types_model(features).len() == float_types_model(features).len()
            + vector_types_model(features).len(),
        forall|i: int|
            0 <= i < float_types_model(features).len() ==> #[trigger] storage_types_model(
                features,
            )[i] == StorageTypeModel::Float(float_types_model(features)[i]),
        forall|j: int|
            0 <= j < vector_types_model(features).len() ==> #[trigger] storage_types_model(
                features,
            )[float_types_model(features).len() + j] == StorageTypeModel::Vector(
                vector_types_model(features)[j],
            ),
{
}

/// Every vector type stores its entries as the `f32` or the `f64` float type and has two or
/// three dimensions, even when those float types are not storage types themselves.
pub proof fn lemma_vector_entries_are_floats(features: StorageFeatures)
    ensures
        forall|i: int|
            0 <= i < vector_types_model(features).len() ==> {
                let v = #[trigger] vector_types_model(features)[i];
                &&& v.float_type == f32_type_model(features) || v.float_type == f64_type_model(
                    features,
                )
                &&& v.num_dims == 2 || v.num_dims == 3
            },
{
    let vm = vector_types_model(features);
    assert forall|i: int| 0 <= i < vm.len() implies {
        let v = #[trigger] vm[i];
        &&& v.float_type == f32_type_model(features) || v.float_type == f64_type_model(features)
        &&& v.num_dims == 2 || v.num_dims == 3
    } by {
        let a = seq_if(
            features.glam_vec2,
            VectorTypeModel {
                name: "::glam::Vec2"@,
                float_type: f32_type_model(features),
                num_dims: 2,
            },
        );
        let b = seq_if(
            features.glam_dvec2,
            VectorTypeModel {
                name: "::glam::DVec2"@,
                float_type: f64_type_model(features),
                num_dims: 2,
            },
        );
        let c = seq_if(
            features.glam_vec3,
            VectorTypeModel {
                name: "::glam::Vec3"@,
                float_type: f32_type_model(features),
                num_dims: 3,
            },
        );
        let d = seq_if(
            features.glam_dvec3,
            VectorTypeModel {
                name: "::glam::DVec3"@,
                float_type: f64_type_model(features),
                num_dims: 3,
            },
        );
        assert(vm == a + b + c + d);
        if i < a.len() {
            assert(vm[i] == a[i]);
        } else if i < a.len() + b.len() {
            assert(vm[i] == b[i - a.len()]);
        } else if i < a.len() + b.len() + c.len() {
            assert(vm[i] == c[i - a.len() - b.len()]);
        } else {
            assert(vm[i] == d[i - a.len() - b.len() - c.len()]);
        }
    }
}

/// The names that `storage_type_names` lists are those of the scalar types and then those of
/// the vector types.
pub proof fn lemma_storage_type_names(features: StorageFeatures)
    ensures
        forall|i: int|
            0 <= i < float_types_model(features).len() ==> storage_type_name(
                #[trigger] storage_types_model(features)[i],
            ) == float_types_model(features)[i].name,
        forall|j: int|
            0 <= j < vector_types_model(features).len() ==> storage_type_name(
                #[trigger] storage_types_model(features)[float_types_model(features).len() + j],
            ) == vector_types_model(features)[j].name,
{
    lemma_storage_types_are_floats_then_vectors(features);
}


/// A scalar storage type whose conversion method is `conversion` and whose MPI datatype and
/// HDF5 float size, where present, are `mpi` and `hdf5`.
pub open spec fn scalar_carries(
    t: FloatTypeModel,
    conversion: Seq<char>,
    mpi: Seq<char>,
    hdf5: Seq<char>,
) -> bool {
    &&& t.conversion_method == conversion
    &&& t.mpi_type is Some ==> t.mpi_type == Some(mpi)
    &&& t.hdf5_type is Some ==> t.hdf5_type == Some(hdf5)
}

/// Which scalar storage types exist, and what they carry, follows the features one flag at a
/// time: `f32`, `f64` and the fastnum decimal `D` are listed exactly when their own flag is on
/// and are the only ones; every one of them carries an MPI datatype exactly when `mpi` is on and
/// an HDF5 float size exactly when `hdf5` is on, whatever the other flags are; and each has its
/// own conversion method, MPI datatype and HDF5 float size.
pub proof fn lemma_float_types_follow_features(features: StorageFeatures)
    ensures
        (exists|i: int|
            0 <= i < float_types_model(features).len() && #[trigger] float_types_model(
                features,
            )[i].name == "f32"@) <==> features.f32_storage,
        (exists|i: int|
            0 <= i < float_types_model(features).len() && #[trigger] float_types_model(
                features,
            )[i].name == "f64"@) <==> features.f64_storage,
        (exists|i: int|
            0 <= i < float_types_model(features).len() && #[trigger] float_types_model(
                features,
            )[i].name == "D"@) <==> features.fastnum_d64,
        forall|i: int|
            0 <= i < float_types_model(features).len() ==> {
                let t = #[trigger] float_types_model(features)[i];
                &&& t.name == "f32"@ || t.name == "f64"@ || t.name == "D"@
                &&& (t.mpi_type is Some) == features.mpi
                &&& (t.hdf5_type is Some) == features.hdf5
                &&& t.name == "f32"@ ==> scalar_carries(
                    t,
                    "into_f32"@,
                    "::mpi::ffi::RSMPI_FLOAT"@,
                    "hdf5::types::FloatSize::U4"@,
                )
                &&& t.name == "f64"@ ==> scalar_carries(
                    t,
                    "into_f64"@,
                    "::mpi::ffi::RSMPI_DOUBLE"@,
                    "hdf5::types::FloatSize::U8"@,
                )
                &&& t.name == "D"@ ==> scalar_carries(
                    t,
                    "into_fastnum"@,
                    "::mpi::ffi::RSMPI_DOUBLE"@,
                    "hdf5::types::FloatSize::U64"@,
                )
            },
{
    reveal_strlit("f32");
    reveal_strlit("f64");
    reveal_strlit("D");
    assert("f32"@[1] != "f64"@[1]);
    assert("f32"@ != "f64"@);
    assert("f32"@.len() != "D"@.len());
    assert("f64"@.len() != "D"@.len());
    let m = float_types_model(features);
    let a = seq_if(features.f32_storage, f32_type_model(features));
    let b = seq_if(features.f64_storage, f64_type_model(features));
    let c = seq_if(features.fastnum_d64, fastnum_type_model(features));
    assert(m == a + b + c);
    if features.f32_storage {
        assert(m[0] == a[0]);
        assert(m[0].name == "f32"@);
    }
    if features.f64_storage {
        assert(m[a.len() as int] == b[0]);
        assert(m[a.len() as int].name == "f64"@);
    }
    if features.fastnum_d64 {
        assert(m[(a.len() + b.len()) as int] == c[0]);
        assert(m[(a.len() + b.len()) as int].name == "D"@);
    }
    assert forall|i: int| 0 <= i < m.len() implies (m[i] == f32_type_model(features) && a.len()
        == 1) || (m[i] == f64_type_model(features) && b.len() == 1) || (m[i]
        == fastnum_type_model(features) && c.len() == 1) by {
        if i < a.len() {
            assert(m[i] == a[i]);
        } else if i < a.len() + b.len() {
            assert(m[i] == b[i - a.len()]);
        } else {
            assert(m[i] == c[i - a.len() - b.len()]);
        }
    }
}


/// Which vector storage types exist, and what they store, follows the features one flag at a
/// time: `Vec2`, `DVec2`, `Vec3` and `DVec3` are listed exactly when their own glam flag is on
/// and are the only ones; `Vec2` and `Vec3` store `f32` entries, `DVec2` and `DVec3` `f64`
/// entries, in two and three dimensions; and the entry type carries an MPI datatype exactly
/// when `mpi` is on and an HDF5 float size exactly when `hdf5` is on, each its own.
pub proof fn lemma_vector_types_follow_features(features: StorageFeatures)
    ensures
        (exists|i: int|
            0 <= i < vector_types_model(features).len() && #[trigger] vector_types_model(
                features,
            )[i].name == "::glam::Vec2"@) <==> features.glam_vec2,
        (exists|i: int|
            0 <= i < vector_types_model(features).len() && #[trigger] vector_types_model(
                features,
            )[i].name == "::glam::DVec2"@) <==> features.glam_dvec2,
        (exists|i: int|
            0 <= i < vector_types_model(features).len() && #[trigger] vector_types_model(
                features,
            )[i].name == "::glam::Vec3"@) <==> features.glam_vec3,
        (exists|i: int|
            0 <= i < vector_types_model(features).len() && #[trigger] vector_types_model(
                features,
            )[i].name == "::glam::DVec3"@) <==> features.glam_dvec3,
        forall|i: int|
            0 <= i < vector_types_model(features).len() ==> {
                let v = #[trigger] vector_types_model(features)[i];
                &&& v.name == "::glam::Vec2"@ || v.name == "::glam::DVec2"@ || v.name
                    == "::glam::Vec3"@ || v.name == "::glam::DVec3"@
                &&& v.name == "::glam::Vec2"@ ==> v.float_type.name == "f32"@ && v.num_dims == 2
                &&& v.name == "::glam::DVec2"@ ==> v.float_type.name == "f64"@ && v.num_dims == 2
                &&& v.name == "::glam::Vec3"@ ==> v.float_type.name == "f32"@ && v.num_dims == 3
                &&& v.name == "::glam::DVec3"@ ==> v.float_type.name == "f64"@ && v.num_dims == 3
                &&& (v.float_type.mpi_type is Some) == features.mpi
                &&& (v.float_type.hdf5_type is Some) == features.hdf5
                &&& v.float_type.name == "f32"@ ==> scalar_carries(
                    v.float_type,
                    "into_f32"@,
                    "::mpi::ffi::RSMPI_FLOAT"@,
                    "hdf5::types::FloatSize::U4"@,
                )
                &&& v.float_type.name == "f64"@ ==> scalar_carries(
                    v.float_type,
                    "into_f64"@,
                    "::mpi::ffi::RSMPI_DOUBLE"@,
                    "hdf5::types::FloatSize::U8"@,
                )
            },
{
    reveal_strlit("f32");
    reveal_strlit("f64");
    reveal_strlit("::glam::Vec2");
    reveal_strlit("::glam::DVec2");
    reveal_strlit("::glam::Vec3");
    reveal_strlit("::glam::DVec3");
    assert("f32"@[1] != "f64"@[1]);
    assert("::glam::Vec2"@[11] != "::glam::Vec3"@[11]);
    assert("::glam::DVec2"@[12] != "::glam::DVec3"@[12]);
    assert("f32"@ != "f64"@);
    assert("::glam::Vec2"@ != "::glam::Vec3"@);
    assert("::glam::DVec2"@ != "::glam::DVec3"@);
    assert("::glam::Vec2"@.len() != "::glam::DVec2"@.len());
    assert("::glam::Vec2"@.len() != "::glam::DVec3"@.len());
    assert("::glam::Vec3"@.len() != "::glam::DVec2"@.len());
    assert("::glam::Vec3"@.len() != "::glam::DVec3"@.len());
    let vm = vector_types_model(features);
    let va = VectorTypeModel {
        name: "::glam::Vec2"@,
        float_type: f32_type_model(features),
        num_dims: 2,
    };
    let vb = VectorTypeModel {
        name: "::glam::DVec2"@,
        float_type: f64_type_model(features),
        num_dims: 2,
    };
    let vc = VectorTypeModel {
        name: "::glam::Vec3"@,
        float_type: f32_type_model(features),
        num_dims: 3,
    };
    let vd = VectorTypeModel {
        name: "::glam::DVec3"@,
        float_type: f64_type_model(features),
        num_dims: 3,
    };
    let a = seq_if(features.glam_vec2, va);
    let b = seq_if(features.glam_dvec2, vb);
    let c = seq_if(features.glam_vec3, vc);
    let d = seq_if(features.glam_dvec3, vd);
    assert(vm == a + b + c + d);
    if features.glam_vec2 {
        assert(vm[0] == va);
        assert(vm[0].name == "::glam::Vec2"@);
    }
    if features.glam_dvec2 {
        assert(vm[a.len() as int] == vb);
        assert(vm[a.len() as int].name == "::glam::DVec2"@);
    }
    if features.glam_vec3 {
        assert(vm[(a.len() + b.len()) as int] == vc);
        assert(vm[(a.len() + b.len()) as int].name == "::glam::Vec3"@);
    }
    if features.glam_dvec3 {
        assert(vm[(a.len() + b.len() + c.len()) as int] == vd);
        assert(vm[(a.len() + b.len() + c.len()) as int].name == "::glam::DVec3"@);
    }
    assert forall|i: int| 0 <= i < vm.len() implies (vm[i] == va && a.len() == 1) || (vm[i] == vb
        && b.len() == 1) || (vm[i] == vc && c.len() == 1) || (vm[i] == vd && d.len() == 1) by {
        if i < a.len() {
            assert(vm[i] == a[i]);
        } else if i < a.len() + b.len() {
            assert(vm[i] == b[i - a.len()]);
        } else if i < a.len() + b.len() + c.len() {
            assert(vm[i] == c[i - a.len() - b.len()]);
        } else {
            assert(vm[i] == d[i - a.len() - b.len() - c.len()]);
        }
    }
}



/// The scalar storage types are listed once each, in the order `f32`, `f64`, `D`.
pub proof fn lemma_float_types_order(features: StorageFeatures)
    ensures
        forall|i: int, j: int|
            0 <= i < j < float_types_model(features).len() ==> {
                let earlier = #[trigger] float_types_model(features)[i];
                let later = #[trigger] float_types_model(features)[j];
                &&& earlier.name != later.name
                &&& later.name != "f32"@
                &&& earlier.name != "D"@
            },
{
    reveal_strlit("f32");
    reveal_strlit("f64");
    reveal_strlit("D");
    assert("f32"@[1] != "f64"@[1]);
    assert("f32"@ != "f64"@);
    assert("f32"@.len() != "D"@.len());
    assert("f64"@.len() != "D"@.len());
    let m = float_types_model(features);
    let a = seq_if(features.f32_storage, f32_type_model(features));
    let b = seq_if(features.f64_storage, f64_type_model(features));
    let c = seq_if(features.fastnum_d64, fastnum_type_model(features));
    assert(m == a + b + c);
    assert forall|i: int| 0 <= i < m.len() implies {
        &&& i < a.len() ==> #[trigger] m[i] == f32_type_model(features)
        &&& a.len() <= i < a.len() + b.len() ==> m[i] == f64_type_model(features)
        &&& a.len() + b.len() <= i ==> m[i] == fastnum_type_model(features)
    } by {
        if i < a.len() {
            assert(m[i] == a[i]);
        } else if i < a.len() + b.len() {
            assert(m[i] == b[i - a.len()]);
        } else {
            assert(m[i] == c[i - a.len() - b.len()]);
        }
    }
}

/// The vector storage types are listed once each, in the order `Vec2`, `DVec2`, `Vec3`,
/// `DVec3`.
pub proof fn lemma_vector_types_order(features: StorageFeatures)
    ensures
        forall|i: int, j: int|
            0 <= i < j < vector_types_model(features).len() ==> {
                let earlier = #[trigger] vector_types_model(features)[i];
                let later = #[trigger] vector_types_model(features)[j];
                &&& earlier.name != later.name
                &&& later.name != "::glam::Vec2"@
                &&& earlier.name != "::glam::DVec3"@
                &&& !(earlier.name == "::glam::Vec3"@ && later.name == "::glam::DVec2"@)
            },
{
    reveal_strlit("::glam::Vec2");
    reveal_strlit("::glam::DVec2");
    reveal_strlit("::glam::Vec3");
    reveal_strlit("::glam::DVec3");
    assert("::glam::Vec2"@[11] != "::glam::Vec3"@[11]);
    assert("::glam::DVec2"@[12] != "::glam::DVec3"@[12]);
    assert("::glam::Vec2"@ != "::glam::Vec3"@);
    assert("::glam::DVec2"@ != "::glam::DVec3"@);
    let vm = vector_types_model(features);
    let va = VectorTypeModel {
        name: "::glam::Vec2"@,
        float_type: f32_type_model(features),
        num_dims: 2,
    };
    let vb = VectorTypeModel {
        name: "::glam::DVec2"@,
        float_type: f64_type_model(features),
        num_dims: 2,
    };
    let vc = VectorTypeModel {
        name: "::glam::Vec3"@,
        float_type: f32_type_model(features),
        num_dims: 3,
    };
    let vd = VectorTypeModel {
        name: "::glam::DVec3"@,
        float_type: f64_type_model(features),
        num_dims: 3,
    };
    let a = seq_if(features.glam_vec2, va);
    let b = seq_if(features.glam_dvec2, vb);
    let c = seq_if(features.glam_vec3, vc);
    let d = seq_if(features.glam_dvec3, vd);
    assert(vm == a + b + c + d);
    assert forall|i: int| 0 <= i < vm.len() implies {
        &&& i < a.len() ==> #[trigger] vm[i] == va
        &&& a.len() <= i < a.len() + b.len() ==> vm[i] == vb
        &&& a.len() + b.len() <= i < a.len() + b.len() + c.len() ==> vm[i] == vc
        &&& a.len() + b.len() + c.len() <= i ==> vm[i] == vd
    } by {
        if i < a.len() {
            assert(vm[i] == a[i]);
        } else if i < a.len() + b.len() {
            assert(vm[i] == b[i - a.len()]);
        } else if i < a.len() + b.len() + c.len() {
            assert(vm[i] == c[i - a.len() - b.len()]);
        } else {
            assert(vm[i] == d[i - a.len() - b.len() - c.len()]);
        }
    }
}

/// A name is among the storage type names exactly when it is the name of a scalar or of a
/// vector storage type.
#[verifier::spinoff_prover]
#[verifier::rlimit(50)]
proof fn lemma_name_listed(features: StorageFeatures, name: Seq<char>)
    ensures
        (exists|i: int|
            0 <= i < storage_types_model(features).len() && storage_type_name(
                #[trigger] storage_types_model(features)[i],
            ) == name) <==> ((exists|i: int|
            0 <= i < float_types_model(features).len() && #[trigger] float_types_model(
                features,
            )[i].name == name) || (exists|j: int|
            0 <= j < vector_types_model(features).len() && #[trigger] vector_types_model(
                features,
            )[j].name == name)),
{
    lemma_storage_types_are_floats_then_vectors(features);
    lemma_storage_type_names(features);
    let all = storage_types_model(features);
    let fm = float_types_model(features);
    let vm = vector_types_model(features);
    if exists|i: int| 0 <= i < all.len() && storage_type_name(#[trigger] all[i]) == name {
        let i = choose|i: int| 0 <= i < all.len() && storage_type_name(#[trigger] all[i]) == name;
        if i < fm.len() {
            assert(fm[i].name == name);
        } else {
            assert(all[fm.len() + (i - fm.len())] == all[i]);
            assert(vm[i - fm.len()].name == name);
        }
    }
    if exists|i: int| 0 <= i < fm.len() && #[trigger] fm[i].name == name {
        let i = choose|i: int| 0 <= i < fm.len() && #[trigger] fm[i].name == name;
        assert(storage_type_name(all[i]) == name);
    }
    if exists|j: int| 0 <= j < vm.len() && #[trigger] vm[j].name == name {
        let j = choose|j: int| 0 <= j < vm.len() && #[trigger] vm[j].name == name;
        assert(storage_type_name(all[fm.len() + j]) == name);
    }
}

/// Each storage type name is listed exactly when its own feature flag is on: `f32`, `f64`,
/// `D` (fastnum `D64`), `::glam::Vec2`, `::glam::DVec2`, `::glam::Vec3`, `::glam::DVec3`.
#[verifier::spinoff_prover]
#[verifier::rlimit(50)]
pub proof fn lemma_storage_type_names_follow_features(features: StorageFeatures)
    ensures
        (exists|i: int|
            0 <= i < storage_types_model(features).len() && storage_type_name(
                #[trigger] storage_types_model(features)[i],
            ) == "f32"@) <==> features.f32_storage,
        (exists|i: int|
            0 <= i < storage_types_model(features).len() && storage_type_name(
                #[trigger] storage_types_model(features)[i],
            ) == "f64"@) <==> features.f64_storage,
        (exists|i: int|
            0 <= i < storage_types_model(features).len() && storage_type_name(
                #[trigger] storage_types_model(features)[i],
            ) == "D"@) <==> features.fastnum_d64,
        (exists|i: int|
            0 <= i < storage_types_model(features).len() && storage_type_name(
                #[trigger] storage_types_model(features)[i],
            ) == "::glam::Vec2"@) <==> features.glam_vec2,
        (exists|i: int|
            0 <= i < storage_types_model(features).len() && storage_type_name(
                #[trigger] storage_types_model(features)[i],
            ) == "::glam::DVec2"@) <==> features.glam_dvec2,
        (exists|i: int|
            0 <= i < storage_types_model(features).len() && storage_type_name(
                #[trigger] storage_types_model(features)[i],
            ) == "::glam::Vec3"@) <==> features.glam_vec3,
        (exists|i: int|
            0 <= i < storage_types_model(features).len() && storage_type_name(
                #[trigger] storage_types_model(features)[i],
            ) == "::glam::DVec3"@) <==> features.glam_dvec3,
{
    reveal_strlit("f32");
    reveal_strlit("f64");
    reveal_strlit("D");
    reveal_strlit("::glam::Vec2");
    reveal_strlit("::glam::DVec2");
    reveal_strlit("::glam::Vec3");
    reveal_strlit("::glam::DVec3");
    lemma_float_types_follow_features(features);
    lemma_vector_types_follow_features(features);
    let fm = float_types_model(features);
    let vm = vector_types_model(features);
    // scalar names are at most three characters long, vector names at least twelve
    assert forall|i: int| 0 <= i < fm.len() implies (#[trigger] fm[i]).name.len() <= 3 by {}
    assert forall|j: int| 0 <= j < vm.len() implies (#[trigger] vm[j]).name.len() >= 12 by {}
    lemma_name_listed(features, "f32"@);
    lemma_name_listed(features, "f64"@);
    lemma_name_listed(features, "D"@);
    lemma_name_listed(features, "::glam::Vec2"@);
    lemma_name_listed(features, "::glam::DVec2"@);
    lemma_name_listed(features, "::glam::Vec3"@);
    lemma_name_listed(features, "::glam::DVec3"@);
}

/// What every storage type offers.
pub trait StorageType {
    /// The name of the type
    fn name(&self) -> &String;

    /// For vector types, this represents the underlying storage of a
    /// single entry in the vector.
    fn base_storage(&self) -> &FloatType;
}

impl StorageType for VectorType {
    fn name(&self) -> (r: &String)
        ensures
            r@ == self.name@,
    {
        &self.name
    }

    fn base_storage(&self) -> (r: &FloatType)
        ensures
            r@ == self.float_type@,
    {
        &self.float_type
    }
}

impl StorageType for FloatType {
    fn name(&self) -> (r: &String)
        ensures
            r@ == self.name@,
    {
        &self.name
    }

    fn base_storage(&self) -> (r: &FloatType)
        ensures
            r@ == self@,
    {
        self
    }
}

impl StorageType for AnyStorageType {
    fn name(&self) -> (r: &String)
        ensures
            r@ == storage_type_name(self@),
    {
        match self {
            AnyStorageType::Float(t) => t.name(),
            AnyStorageType::Vector(t) => t.name(),
        }
    }

    fn base_storage(&self) -> (r: &FloatType)
        ensures
            r@ == storage_type_base(self@),
    {
        match self {
            AnyStorageType::Float(t) => t.base_storage(),
            AnyStorageType::Vector(t) => t.base_storage(),
        }
    }
}

/// The text `text` as an owned string.
fn owned(text: &str) -> (r: String)
    ensures
        r@ == text@,
{
    text.to_owned()
}

/// The text `text` when `enabled`, nothing otherwise.
fn owned_if(enabled: bool, text: &str) -> (r: Option<String>)
    ensures
        optional_text(r) == text_if(enabled, text@),
{
    if enabled {
        Some(text.to_owned())
    } else {
        None
    }
}

impl Codegen {
    /// Every storage type, the scalar ones first.
    pub fn storage_types(&self) -> (r: Vec<AnyStorageType>)
        ensures
            r@.len() == storage_types_model(self.features).len(),
            forall|i: int|
                0 <= i < r@.len() ==> (#[trigger] r@[i])@ == storage_types_model(self.features)[i],
    {
        let mut floats = self.float_types();
        let mut vectors = self.vector_types();
        let ghost fm = float_types_model(self.features);
        let ghost vm = vector_types_model(self.features);
        let ghost all = storage_types_model(self.features);
        let mut r: Vec<AnyStorageType> = Vec::new();
        while floats.len() > 0
            invariant
                r@.len() + floats@.len() == fm.len(),
                forall|j: int| 0 <= j < r@.len() ==> (#[trigger] r@[j])@ == all[j],
                forall|j: int|
                    0 <= j < floats@.len() ==> (#[trigger] floats@[j])@ == fm[r@.len() + j],
                all == fm.map_values(|t: FloatTypeModel| StorageTypeModel::Float(t)) + vm.map_values(
                    |t: VectorTypeModel| StorageTypeModel::Vector(t),
                ),
            decreases floats@.len(),
        {
            let ghost before = floats@;
            proof {
                assert(floats@[0]@ == fm[r@.len() as int]);
            }
            let t = floats.remove(0);
            r.push(AnyStorageType::Float(t));
            proof {
                assert forall|j: int| 0 <= j < floats@.len() implies (#[trigger] floats@[j])@
                    == fm[r@.len() + j] by {
                    assert(floats@[j] == before[j + 1]);
                }
            }
        }
        while vectors.len() > 0
            invariant
                fm.len() <= r@.len(),
                r@.len() + vectors@.len() == fm.len() + vm.len(),
                forall|j: int| 0 <= j < r@.len() ==> (#[trigger] r@[j])@ == all[j],
                forall|j: int|
                    0 <= j < vectors@.len() ==> (#[trigger] vectors@[j])@ == vm[r@.len() - fm.len()
                        + j],
                all == fm.map_values(|t: FloatTypeModel| StorageTypeModel::Float(t)) + vm.map_values(
                    |t: VectorTypeModel| StorageTypeModel::Vector(t),
                ),
            decreases vectors@.len(),
        {
            let ghost before = vectors@;
            proof {
                assert(vectors@[0]@ == vm[r@.len() - fm.len()]);
            }
            let t = vectors.remove(0);
            r.push(AnyStorageType::Vector(t));
            proof {
                assert forall|j: int| 0 <= j < vectors@.len() implies (#[trigger] vectors@[j])@
                    == vm[r@.len() - fm.len() + j] by {
                    assert(vectors@[j] == before[j + 1]);
                }
            }
        }
        r
    }

    /// The names of all storage types, the scalar ones first.
    pub fn storage_type_names(&self) -> (r: Vec<String>)
        ensures
            r@.len() == storage_types_model(self.features).len(),
            forall|i: int|
                0 <= i < r@.len() ==> (#[trigger] r@[i])@ == storage_type_name(
                    storage_types_model(self.features)[i],
                ),
    {
        let types = self.storage_types();
        let mut r: Vec<String> = Vec::new();
        let mut i: usize = 0;
        while i < types.len()
            invariant
                i <= types@.len(),
                r@.len() == i,
                types@.len() == storage_types_model(self.features).len(),
                forall|j: int|
                    0 <= j < types@.len() ==> (#[trigger] types@[j])@ == storage_types_model(
                        self.features,
                    )[j],
                forall|j: int|
                    0 <= j < i ==> (#[trigger] r@[j])@ == storage_type_name(
                        storage_types_model(self.features)[j],
                    ),
            decreases types@.len() - i,
        {
            r.push(types[i].name().clone());
            i = i + 1;
        }
        r
    }

    /// The glam vector storage types that the features turn on.
    pub fn vector_types(&self) -> (r: Vec<VectorType>)
        ensures
            r@.len() == vector_types_model(self.features).len(),
            forall|i: int|
                0 <= i < r@.len() ==> (#[trigger] r@[i])@ == vector_types_model(self.features)[i],
    {
        let mut r: Vec<VectorType> = Vec::new();
        let ghost f = self.features;
        if self.features.glam_vec2 {
            r.push(
                VectorType { name: owned("::glam::Vec2"), float_type: self.f32_type(), num_dims: 2 },
            );
        }
        if self.features.glam_dvec2 {
            r.push(
                VectorType { name: owned("::glam::DVec2"), float_type: self.f64_type(), num_dims: 2 },
            );
        }
        if self.features.glam_vec3 {
            r.push(
                VectorType { name: owned("::glam::Vec3"), float_type: self.f32_type(), num_dims: 3 },
            );
        }
        if self.features.glam_dvec3 {
            r.push(
                VectorType { name: owned("::glam::DVec3"), float_type: self.f64_type(), num_dims: 3 },
            );
        }
        proof {
            let m = vector_types_model(f);
            assert(r@.map_values(|t: VectorType| t@) =~= m);
        }
        r
    }

    /// The single-precision float type.
    fn f32_type(&self) -> (r: FloatType)
        ensures
            r@ == f32_type_model(self.features),
    {
        FloatType {
            name: owned("f32"),
            conversion_method: owned("into_f32"),
            mpi_type: owned_if(self.features.mpi, "::mpi::ffi::RSMPI_FLOAT"),
            hdf5_type: owned_if(self.features.hdf5, "hdf5::types::FloatSize::U4"),
        }
    }

    /// The double-precision float type.
    fn f64_type(&self) -> (r: FloatType)
        ensures
            r@ == f64_type_model(self.features),
    {
        FloatType {
            name: owned("f64"),
            conversion_method: owned("into_f64"),
            mpi_type: owned_if(self.features.mpi, "::mpi::ffi::RSMPI_DOUBLE"),
            hdf5_type: owned_if(self.features.hdf5, "hdf5::types::FloatSize::U8"),
        }
    }

    /// The fastnum decimal type, named by the type parameter `D` it is generated for.
    fn fastnum_type(&self) -> (r: FloatType)
        ensures
            r@ == fastnum_type_model(self.features),
    {
        FloatType {
            name: owned("D"),
            conversion_method: owned("into_fastnum"),
            mpi_type: owned_if(self.features.mpi, "::mpi::ffi::RSMPI_DOUBLE"),
            hdf5_type: owned_if(self.features.hdf5, "hdf5::types::FloatSize::U64"),
        }
    }

    /// The scalar storage types that the features turn on.
    pub fn float_types(&self) -> (r: Vec<FloatType>)
        ensures
            r@.len() == float_types_model(self.features).len(),
            forall|i: int|
                0 <= i < r@.len() ==> (#[trigger] r@[i])@ == float_types_model(self.features)[i],
    {
        let mut r: Vec<FloatType> = Vec::new();
        let ghost f = self.features;
        if self.features.f32_storage {
            r.push(self.f32_type());
        }
        if self.features.f64_storage {
            r.push(self.f64_type());
        }
        if self.features.fastnum_d64 {
            r.push(self.fastnum_type());
        }
        proof {
            let m = float_types_model(f);
            assert(r@.map_values(|t: FloatType| t@) =~= m);
        }
        r
    }
}

} // verus!
