use diman::storage_types::{
    AnyStorageType, Codegen, FloatType, StorageFeatures, StorageType, VectorType,
};

fn all_features() -> StorageFeatures {
    StorageFeatures {
        f32_storage: true,
        f64_storage: true,
        fastnum_d64: true,
        glam_vec2: true,
        glam_dvec2: true,
        glam_vec3: true,
        glam_dvec3: true,
        mpi: true,
        hdf5: true,
    }
}

fn no_features() -> StorageFeatures {
    StorageFeatures {
        f32_storage: false,
        f64_storage: false,
        fastnum_d64: false,
        glam_vec2: false,
        glam_dvec2: false,
        glam_vec3: false,
        glam_dvec3: false,
        mpi: false,
        hdf5: false,
    }
}

#[test]
fn all_storage_type_names() {
    let codegen = Codegen { features: all_features() };
    assert_eq!(
        codegen.storage_type_names(),
        vec!["f32", "f64", "D", "::glam::Vec2", "::glam::DVec2", "::glam::Vec3", "::glam::DVec3"]
    );
}

#[test]
fn no_storage_types() {
    let codegen = Codegen { features: no_features() };
    assert!(codegen.storage_types().is_empty());
    assert!(codegen.storage_type_names().is_empty());
    assert!(codegen.float_types().is_empty());
    assert!(codegen.vector_types().is_empty());
}

#[test]
fn default_float_types() {
    let features = StorageFeatures { f32_storage: true, f64_storage: true, ..no_features() };
    let codegen = Codegen { features };
    let floats = codegen.float_types();
    assert_eq!(floats.len(), 2);
    assert_eq!(floats[0].name, "f32");
    assert_eq!(floats[0].conversion_method, "into_f32");
    assert_eq!(floats[0].mpi_type, None);
    assert_eq!(floats[0].hdf5_type, None);
    assert_eq!(floats[1].name, "f64");
    assert_eq!(floats[1].conversion_method, "into_f64");
}

#[test]
fn float_types_with_mpi_and_hdf5() {
    let codegen = Codegen { features: all_features() };
    let floats = codegen.float_types();
    assert_eq!(floats.len(), 3);
    assert_eq!(floats[0].mpi_type.as_deref(), Some("::mpi::ffi::RSMPI_FLOAT"));
    assert_eq!(floats[0].hdf5_type.as_deref(), Some("hdf5::types::FloatSize::U4"));
    assert_eq!(floats[1].mpi_type.as_deref(), Some("::mpi::ffi::RSMPI_DOUBLE"));
    assert_eq!(floats[1].hdf5_type.as_deref(), Some("hdf5::types::FloatSize::U8"));
    assert_eq!(floats[2].name, "D");
    assert_eq!(floats[2].conversion_method, "into_fastnum");
    assert_eq!(floats[2].mpi_type.as_deref(), Some("::mpi::ffi::RSMPI_DOUBLE"));
    assert_eq!(floats[2].hdf5_type.as_deref(), Some("hdf5::types::FloatSize::U64"));
}

#[test]
fn vector_types_store_their_entries() {
    let codegen = Codegen { features: all_features() };
    let vectors: Vec<VectorType> = codegen.vector_types();
    let summary: Vec<(&str, &str, usize)> = vectors
        .iter()
        .map(|v| (v.name().as_str(), v.base_storage().name.as_str(), v.num_dims))
        .collect();
    assert_eq!(
        summary,
        vec![
            ("::glam::Vec2", "f32", 2),
            ("::glam::DVec2", "f64", 2),
            ("::glam::Vec3", "f32", 3),
            ("::glam::DVec3", "f64", 3),
        ]
    );
}

#[test]
fn vector_types_without_float_features() {
    let features = StorageFeatures { glam_vec3: true, ..no_features() };
    let codegen = Codegen { features };
    let vectors = codegen.vector_types();
    assert_eq!(vectors.len(), 1);
    assert_eq!(vectors[0].name, "::glam::Vec3");
    assert_eq!(vectors[0].float_type.name, "f32");
    assert!(codegen.float_types().is_empty());
}

#[test]
fn storage_types_lists_floats_then_vectors() {
    let features = StorageFeatures { f64_storage: true, glam_dvec2: true, ..no_features() };
    let codegen = Codegen { features };
    let types = codegen.storage_types();
    assert_eq!(types.len(), 2);
    assert!(matches!(types[0], AnyStorageType::Float(_)));
    assert!(matches!(types[1], AnyStorageType::Vector(_)));
    assert_eq!(types[0].name(), "f64");
    assert_eq!(types[1].name(), "::glam::DVec2");
    assert_eq!(types[1].base_storage().name, "f64");
}

#[test]
fn float_type_is_its_own_base_storage() {
    let t = FloatType {
        name: "f32".to_string(),
        conversion_method: "into_f32".to_string(),
        mpi_type: None,
        hdf5_type: None,
    };
    assert_eq!(t.base_storage().name, "f32");
    assert_eq!(t.name(), "f32");
}
