use substrate::addressing::{AddressedField, RefuseReason, Verdict};
use substrate::kindgen::{manifest_entry_for, universe_manifest};
use substrate::kinds::all_kind_tags;

fn field() -> AddressedField {
    AddressedField::from_universe()
}

#[test]
fn field_is_the_whole_census() {
    let f = field();
    assert_eq!(f.len(), all_kind_tags().len());
    for tag in all_kind_tags() {
        assert!(
            f.has_item(tag.name()),
            "{} missing from the addressing field",
            tag.name()
        );
    }
}

#[test]
fn address_a_unique_facet_combination() {
    let f = field();
    assert_eq!(
        f.resolve(&["Cyclable", "Powered"]),
        Verdict::Address {
            tag: "CoffeeMaker",
            matched: vec!["Cyclable", "Powered"],
        }
    );
}

#[test]
fn refuse_empty_request() {
    assert_eq!(field().resolve(&[]), Verdict::Refuse(RefuseReason::NoFacets));
}

#[test]
fn refuse_unknown_facet() {
    assert_eq!(
        field().resolve(&["Teleporter"]),
        Verdict::Refuse(RefuseReason::UnknownFacet("Teleporter".into()))
    );
}

#[test]
fn refuse_when_no_kind_carries_all() {
    let f = field();
    assert_eq!(
        f.resolve(&["SwitchableFaucet", "Powered"]),
        Verdict::Refuse(RefuseReason::NoMatch {
            matched: vec!["Powered", "SwitchableFaucet"],
        })
    );
}

#[test]
fn ambiguous_names_a_discriminator() {
    let f = field();
    match f.resolve(&["Container"]) {
        Verdict::Ambiguous { candidates, add_one_of, .. } => {
            assert_eq!(candidates, vec!["Dresser", "Fridge", "Nightstand"]);
            assert!(add_one_of.contains(&"Powered"));
            assert!(add_one_of.contains(&"Openable"));
            assert!(add_one_of.contains(&"TimeDecayMinutes"));
        }
        other => panic!("expected Ambiguous, got {other:?}"),
    }
}

#[test]
fn discriminator_then_address_round_trip() {
    let f = field();
    if let Verdict::Ambiguous { add_one_of, .. } = f.resolve(&["Container"]) {
        let pick = add_one_of[0];
        match f.resolve(&["Container", pick]) {
            Verdict::Address { tag, .. } => assert_eq!(tag, "Fridge"),
            other => panic!("expected Address after adding {pick}, got {other:?}"),
        }
    } else {
        panic!("expected Container to be ambiguous");
    }
}

#[test]
fn facet_identical_kinds_have_no_discriminator() {
    let f = field();
    match f.resolve(&["SwitchableFaucet"]) {
        Verdict::Ambiguous { candidates, add_one_of, .. } => {
            assert_eq!(candidates, vec!["BathSink", "Shower", "Sink"]);
            assert!(add_one_of.is_empty(), "expected no discriminator, got {add_one_of:?}");
        }
        other => panic!("expected Ambiguous, got {other:?}"),
    }
}

#[test]
fn never_mis_addresses_a_kinds_own_facets() {
    let f = field();
    for entry in universe_manifest() {
        let facets = entry.facets();
        if let Verdict::Address { tag, .. } = f.resolve(&facets) {
            assert_eq!(
                tag, entry.tag_name,
                "{} addressed to {} by its own facets",
                entry.tag_name, tag
            );
        }
    }
}

#[test]
fn uniquely_shaped_kinds_address_by_their_own_facets() {
    let f = field();
    for tag in ["Bed", "CoffeeMaker", "Fridge", "Stove", "Bathtub", "Lamp"] {
        let entry = manifest_entry_for(tag).unwrap();
        match f.resolve(&entry.facets()) {
            Verdict::Address { tag: hit, .. } => assert_eq!(hit, tag),
            other => panic!("{tag} should self-address, got {other:?}"),
        }
    }
}

#[test]
fn flatness_is_self_verified() {
    assert!(field().prove_flat());
}

#[test]
fn address_cost_is_independent_of_field_size() {
    let base = field();
    let mut padded = field();
    for i in 0..500 {
        let name: &'static str = Box::leak(format!("decoy{i}").into_boxed_str());
        padded.register(name, &["DecorativeOnly"]);
    }
    assert_eq!(
        base.resolve_counting(&["Cyclable", "Powered"]).1,
        padded.resolve_counting(&["Cyclable", "Powered"]).1
    );
}

#[test]
fn empty_field_refuses_everything() {
    let f = AddressedField::new();
    assert!(f.is_empty());
    assert_eq!(f.len(), 0);
    assert!(f.vocabulary().is_empty());
    assert_eq!(
        f.resolve(&["Powered"]),
        Verdict::Refuse(RefuseReason::UnknownFacet("Powered".to_string()))
    );
    assert!(f.prove_flat());
}

#[test]
fn first_unknown_facet_is_the_one_named() {
    let f = field();
    assert_eq!(
        f.resolve(&["Powered", "Warp", "Teleporter"]),
        Verdict::Refuse(RefuseReason::UnknownFacet("Warp".to_string()))
    );
    assert_eq!(f.resolve_counting(&["Warp"]).1, 0);
}

#[test]
fn duplicate_facets_count_once() {
    let f = field();
    assert_eq!(
        f.resolve(&["Powered", "Cyclable", "Powered"]),
        Verdict::Address {
            tag: "CoffeeMaker",
            matched: vec!["Cyclable", "Powered"],
        }
    );
    assert_eq!(
        f.resolve_counting(&["Powered", "Cyclable", "Powered"]).1,
        f.resolve_counting(&["Cyclable", "Powered"]).1
    );
}

#[test]
fn cost_is_posting_sizes_plus_candidate_facets() {
    // Container: Fridge, Nightstand, Dresser (3 postings); their facet sets
    // have 4 + 1 + 1 entries.
    let f = field();
    assert_eq!(f.resolve_counting(&["Container"]).1, 3 + 6);
    // Cyclable: CoffeeMaker, Toilet; Powered: CoffeeMaker, Fridge, Stove,
    // Lamp. One candidate, so only the postings count.
    assert_eq!(f.resolve_counting(&["Cyclable", "Powered"]).1, 2 + 4);
}

#[test]
fn vocabulary_is_sorted_and_complete() {
    let f = field();
    let v = f.vocabulary();
    let mut sorted = v.clone();
    sorted.sort();
    sorted.dedup();
    assert_eq!(v, sorted);
    assert!(v.contains(&"Container"));
    assert!(v.contains(&"SwitchableFaucet"));
    assert!(v.contains(&"DecorativeItem"));
}

#[test]
fn registering_again_replaces_the_facet_set() {
    let mut f = AddressedField::new();
    f.register("A", &["x", "y"]);
    f.register("B", &["x"]);
    assert_eq!(f.len(), 2);
    match f.resolve(&["x"]) {
        Verdict::Ambiguous { candidates, add_one_of, .. } => {
            assert_eq!(candidates, vec!["A", "B"]);
            assert_eq!(add_one_of, vec!["y"]);
        }
        other => panic!("expected Ambiguous, got {other:?}"),
    }
    f.register("A", &["z"]);
    assert_eq!(f.len(), 2);
    assert_eq!(f.vocabulary(), vec!["x", "y", "z"]);
}
