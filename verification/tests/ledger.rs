use cyclonedx_bom::models::component::Classification;
use gosh_builder::bom::{document_to_json, load_bom};
use gosh_builder::sbom::{GoshClassification, Sbom};

#[test]
fn append_dedup() {
    let mut sbom = Sbom::default();
    sbom.append(GoshClassification::Commit, String::from("url:abc"));
    sbom.append(GoshClassification::Commit, String::from("url:abc"));
    assert_eq!(sbom.inner.len(), 1);
    sbom.append(GoshClassification::File, String::from("url:abc"));
    assert_eq!(sbom.inner.len(), 2);
}

#[test]
fn append_idempotent_in_document() {
    let mut sbom = Sbom::default();
    sbom.append(GoshClassification::File, String::from("url:abc:path"));
    sbom.append(GoshClassification::File, String::from("url:abc:path"));
    let doc = sbom.get_bom().unwrap();
    assert_eq!(doc.components.len(), 1);
    assert_eq!(doc.components[0].name, "url:abc:path");
}

#[test]
fn document_fixed_identity() {
    let sbom = Sbom::default();
    let doc = sbom.get_bom().unwrap();
    assert_eq!(
        doc.serial_number,
        "urn:uuid:3e671687-395b-41f5-a30f-a58921a69b79"
    );
    assert_eq!(doc.tool, "gosh-docker-build");
    assert_eq!(doc.components.len(), 0);
}

#[test]
fn component_fields_exact() {
    let mut sbom = Sbom::default();
    sbom.append(GoshClassification::Commit, String::from("alpha"));
    let doc = sbom.get_bom().unwrap();
    assert_eq!(doc.components.len(), 1);
    let c = &doc.components[0];
    assert_eq!(c.name, "alpha");
    assert_eq!(c.version, "1.0.0");
    assert_eq!(c.purl, "pkg:gosh/alpha@1.0.0");
}

#[test]
fn components_sorted_for_emission() {
    let mut sbom = Sbom::default();
    sbom.append(GoshClassification::Repository, String::from("zeta"));
    sbom.append(GoshClassification::File, String::from("beta"));
    sbom.append(GoshClassification::File, String::from("alpha"));
    sbom.append(GoshClassification::Commit, String::from("gamma"));
    let doc = sbom.get_bom().unwrap();
    let names: Vec<&str> = doc.components.iter().map(|c| c.name.as_str()).collect();
    assert_eq!(names, vec!["alpha", "beta", "gamma", "zeta"]);
}

#[test]
fn insertion_order_does_not_matter() {
    let mut a = Sbom::default();
    a.append(GoshClassification::Commit, String::from("url:c1"));
    a.append(GoshClassification::File, String::from("url:c1:f"));
    let mut b = Sbom::default();
    b.append(GoshClassification::File, String::from("url:c1:f"));
    b.append(GoshClassification::Commit, String::from("url:c1"));
    b.append(GoshClassification::Commit, String::from("url:c1"));
    let da = a.get_bom().unwrap();
    let db = b.get_bom().unwrap();
    assert!(da.compare(&db));
    assert!(db.compare(&da));
}

#[test]
fn extra_file_breaks_validation() {
    let mut a = Sbom::default();
    a.append(GoshClassification::Commit, String::from("url:c1"));
    let mut b = Sbom::default();
    b.append(GoshClassification::Commit, String::from("url:c1"));
    b.append(GoshClassification::File, String::from("url:c1:extra.txt"));
    let da = a.get_bom().unwrap();
    let db = b.get_bom().unwrap();
    assert!(!da.compare(&db));
    assert!(!db.compare(&da));
}

#[test]
fn document_round_trip() {
    let mut sbom = Sbom::default();
    sbom.append(GoshClassification::Commit, String::from("url:c1"));
    sbom.append(GoshClassification::File, String::from("url:c1:a.txt"));
    sbom.append(GoshClassification::Repository, String::from("url"));
    let doc = sbom.get_bom().unwrap();
    let bytes = document_to_json(&doc).unwrap();
    let loaded = load_bom(&bytes).unwrap();
    assert!(doc.compare(&loaded));
    assert!(loaded.compare(&doc));
    assert_eq!(loaded.serial_number, doc.serial_number);
}

#[test]
fn load_rejects_garbage() {
    let bytes: Vec<u8> = b"not a document".to_vec();
    assert!(load_bom(&bytes).is_err());
}

#[test]
fn classification_maps_to_component_type() {
    assert_eq!(
        GoshClassification::File.to_component_type(),
        Classification::File
    );
    assert_eq!(
        GoshClassification::Commit.to_component_type(),
        Classification::Library
    );
    assert_eq!(
        GoshClassification::Repository.to_component_type(),
        Classification::Library
    );
}
