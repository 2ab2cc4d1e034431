use fdtshim::dmi::DmiProfile;
use fdtshim::matching::match_device;
use fdtshim::matching::CandidateDevice;
use fdtshim::matching::DmiMatchField;
use fdtshim::matching::MappingCatalog;
use fdtshim::matching::MatchResult;
use fdtshim::matching::MatchedDTB;

fn candidate(name: &str, compatible: Option<&[&str]>, dtb: &str) -> CandidateDevice {
    CandidateDevice {
        name: name.to_owned(),
        compatible: compatible.map(|c| c.iter().map(|s| (*s).to_owned()).collect()),
        dmi_match: None,
        dtb: dtb.to_owned(),
    }
}

fn dmi_candidate(name: &str, fields: &[(&str, &[&str])], dtb: &str) -> CandidateDevice {
    CandidateDevice {
        name: name.to_owned(),
        compatible: None,
        dmi_match: Some(
            fields
                .iter()
                .map(|(fname, vals)| DmiMatchField {
                    name: (*fname).to_owned(),
                    values: vals.iter().map(|v| v.as_bytes().to_vec()).collect(),
                })
                .collect(),
        ),
        dtb: dtb.to_owned(),
    }
}

fn strings(v: &[&str]) -> Vec<String> {
    v.iter().map(|s| (*s).to_owned()).collect()
}

fn profile_with(sys_vendor: &str, product_name: &str, product_family: &str) -> DmiProfile {
    DmiProfile {
        sys_vendor: sys_vendor.as_bytes().to_vec(),
        product_name: product_name.as_bytes().to_vec(),
        product_version: Vec::new(),
        product_sku: Vec::new(),
        product_family: product_family.as_bytes().to_vec(),
        board_vendor: Vec::new(),
        board_name: Vec::new(),
        board_version: Vec::new(),
        chassis_vendor: Vec::new(),
        chassis_version: Vec::new(),
    }
}

#[test]
fn fresh_tracker_starts_at_worst_rank() {
    let m = MatchedDTB::new();
    assert_eq!(m.rank, usize::MAX);
    assert_eq!(m.dtb_path, "");
}

#[test]
fn empty_catalog_yields_no_match() {
    let catalog = MappingCatalog { candidates: Vec::new() };
    let ambient = strings(&["vendor,board", "soc"]);
    let profile = profile_with("ACME", "Widget", "");
    let r = match_device(&catalog, Some(&ambient), Some(&profile));
    assert_eq!(r, MatchResult::NoMatch);
}

#[test]
fn no_sources_yields_no_match() {
    let catalog = MappingCatalog {
        candidates: vec![candidate("a", Some(&["vendor,board"]), "a.dtb")],
    };
    let r = match_device(&catalog, None, None);
    assert_eq!(r, MatchResult::NoMatch);
}

#[test]
fn most_specific_ambient_match_ranks_zero() {
    // A candidate carrying the most specific ambient string wins with rank
    // 0, whatever the other candidates carry.
    let catalog = MappingCatalog {
        candidates: vec![
            candidate("generic", Some(&["soc"]), "generic.dtb"),
            candidate("exact", Some(&["vendor,board-rev-a"]), "exact.dtb"),
            candidate("other", Some(&["vendor,other"]), "other.dtb"),
        ],
    };
    let ambient = strings(&["vendor,board-rev-a", "vendor,board", "soc"]);
    let r = match_device(&catalog, Some(&ambient), None);
    assert_eq!(
        r,
        MatchResult::Compatible { dtb_path: "exact.dtb".to_owned(), rank: 0 }
    );
}

#[test]
fn lower_rank_beats_higher_rank() {
    // Rank is monotonic: a candidate matching only ambient position 2
    // never outranks one matching position 1.
    let catalog = MappingCatalog {
        candidates: vec![
            candidate("weak", Some(&["soc"]), "weak.dtb"),
            candidate("strong", Some(&["vendor,board"]), "strong.dtb"),
        ],
    };
    let ambient = strings(&["vendor,board-rev-a", "vendor,board", "soc"]);
    let r = match_device(&catalog, Some(&ambient), None);
    assert_eq!(
        r,
        MatchResult::Compatible { dtb_path: "strong.dtb".to_owned(), rank: 1 }
    );
}

#[test]
fn equal_ranks_prefer_document_order() {
    let catalog = MappingCatalog {
        candidates: vec![
            candidate("first", Some(&["soc"]), "first.dtb"),
            candidate("second", Some(&["soc"]), "second.dtb"),
        ],
    };
    let ambient = strings(&["vendor,board", "soc"]);
    let r = match_device(&catalog, Some(&ambient), None);
    assert_eq!(
        r,
        MatchResult::Compatible { dtb_path: "first.dtb".to_owned(), rank: 1 }
    );
}

#[test]
fn candidate_rank_uses_its_first_ambient_hit() {
    // Per candidate, scanning stops at the first of its compatible strings
    // that occurs in the ambient list at all.
    let catalog = MappingCatalog {
        candidates: vec![candidate("c", Some(&["soc", "vendor,board-rev-a"]), "c.dtb")],
    };
    let ambient = strings(&["vendor,board-rev-a", "vendor,board", "soc"]);
    let r = match_device(&catalog, Some(&ambient), None);
    assert_eq!(r, MatchResult::Compatible { dtb_path: "c.dtb".to_owned(), rank: 2 });
}

#[test]
fn ambient_match_preferred_over_dmi() {
    let mut dmi = dmi_candidate("viadmi", &[("product_name", &["Widget"])], "dmi.dtb");
    dmi.compatible = None;
    let catalog = MappingCatalog {
        candidates: vec![dmi, candidate("viacompat", Some(&["soc"]), "compat.dtb")],
    };
    let ambient = strings(&["vendor,board", "soc"]);
    let profile = profile_with("ACME", "Widget", "");
    let r = match_device(&catalog, Some(&ambient), Some(&profile));
    assert_eq!(
        r,
        MatchResult::Compatible { dtb_path: "compat.dtb".to_owned(), rank: 1 }
    );
}

#[test]
fn dmi_fallback_when_no_compatible_matches() {
    let catalog = MappingCatalog {
        candidates: vec![
            candidate("nohit", Some(&["vendor,unrelated"]), "nohit.dtb"),
            dmi_candidate("viadmi", &[("product_name", &["Widget"])], "dmi.dtb"),
        ],
    };
    let ambient = strings(&["vendor,board", "soc"]);
    let profile = profile_with("ACME", "Widget", "");
    let r = match_device(&catalog, Some(&ambient), Some(&profile));
    assert_eq!(r, MatchResult::Dmi { dtb_path: "dmi.dtb".to_owned() });
}

#[test]
fn dmi_match_is_order_sensitive() {
    // Two candidates that both satisfy their constraints: the first in
    // document order wins, and swapping them flips the result.
    let a = dmi_candidate("a", &[("sys_vendor", &["ACME"])], "a.dtb");
    let b = dmi_candidate("b", &[("product_name", &["Widget"])], "b.dtb");
    let profile = profile_with("ACME", "Widget", "");

    let forward = MappingCatalog { candidates: vec![a.clone(), b.clone()] };
    let r = match_device(&forward, None, Some(&profile));
    assert_eq!(r, MatchResult::Dmi { dtb_path: "a.dtb".to_owned() });

    let backward = MappingCatalog { candidates: vec![b, a] };
    let r = match_device(&backward, None, Some(&profile));
    assert_eq!(r, MatchResult::Dmi { dtb_path: "b.dtb".to_owned() });
}

#[test]
fn dmi_field_matches_any_of_its_values() {
    // An OR-set per field: the profile value has to equal any one of the
    // acceptable values.
    let catalog = MappingCatalog {
        candidates: vec![dmi_candidate(
            "multi",
            &[("product_family", &["A", "B"])],
            "multi.dtb",
        )],
    };
    let profile = profile_with("", "", "B");
    let r = match_device(&catalog, None, Some(&profile));
    assert_eq!(r, MatchResult::Dmi { dtb_path: "multi.dtb".to_owned() });

    let profile_c = profile_with("", "", "C");
    let r = match_device(&catalog, None, Some(&profile_c));
    assert_eq!(r, MatchResult::NoMatch);
}

#[test]
fn dmi_requires_every_field_to_hold() {
    let catalog = MappingCatalog {
        candidates: vec![dmi_candidate(
            "both",
            &[("sys_vendor", &["ACME"]), ("product_name", &["Gadget"])],
            "both.dtb",
        )],
    };
    let profile = profile_with("ACME", "Widget", "");
    let r = match_device(&catalog, None, Some(&profile));
    assert_eq!(r, MatchResult::NoMatch);
}

#[test]
fn unrecognized_dmi_field_is_ignored() {
    let catalog = MappingCatalog {
        candidates: vec![dmi_candidate(
            "odd",
            &[("mystery_field", &["whatever"]), ("sys_vendor", &["ACME"])],
            "odd.dtb",
        )],
    };
    let profile = profile_with("ACME", "", "");
    let r = match_device(&catalog, None, Some(&profile));
    assert_eq!(r, MatchResult::Dmi { dtb_path: "odd.dtb".to_owned() });
}

#[test]
fn recognized_field_with_no_readable_values_fails_candidate() {
    // A field whose value could not be read as a string list carries no
    // acceptable values, so the candidate cannot be satisfied.
    let catalog = MappingCatalog {
        candidates: vec![dmi_candidate("bad", &[("sys_vendor", &[])], "bad.dtb")],
    };
    let profile = profile_with("ACME", "", "");
    let r = match_device(&catalog, None, Some(&profile));
    assert_eq!(r, MatchResult::NoMatch);
}

#[test]
fn candidate_without_sources_is_skipped() {
    let catalog = MappingCatalog {
        candidates: vec![
            candidate("bare", None, "bare.dtb"),
            candidate("real", Some(&["soc"]), "real.dtb"),
        ],
    };
    let ambient = strings(&["soc"]);
    let profile = profile_with("ACME", "", "");
    let r = match_device(&catalog, Some(&ambient), Some(&profile));
    assert_eq!(r, MatchResult::Compatible { dtb_path: "real.dtb".to_owned(), rank: 0 });

    let r = match_device(&catalog, None, Some(&profile));
    assert_eq!(r, MatchResult::NoMatch);
}

#[test]
fn empty_dmi_constraint_set_matches_vacuously() {
    let catalog = MappingCatalog {
        candidates: vec![dmi_candidate("vacuous", &[], "vacuous.dtb")],
    };
    let profile = DmiProfile::empty();
    let r = match_device(&catalog, None, Some(&profile));
    assert_eq!(r, MatchResult::Dmi { dtb_path: "vacuous.dtb".to_owned() });
}
