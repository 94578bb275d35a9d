use bootable::{
    flatten, Bootable, BootSpec, BootableToplevel, DescriptorLoad, DescriptorStore, EfiProgram,
    FlattenError, Generation, Specialisation, SpecialisationDescriptor,
};

fn spec_named(label: &str, specialisations: Vec<Specialisation>) -> BootSpec {
    BootSpec {
        system_version: format!("{label}-version"),
        kernel: format!("/nix/store/{label}/kernel"),
        kernel_version: "6.1.0".to_string(),
        kernel_params: vec!["quiet".to_string(), format!("label={label}")],
        init: format!("/nix/store/{label}/init"),
        initrd: format!("/nix/store/{label}/initrd"),
        toplevel: format!("/nix/store/{label}"),
        specialisations,
    }
}

fn special(name: &str, path: Option<&str>) -> Specialisation {
    Specialisation {
        name: name.to_string(),
        descriptor: SpecialisationDescriptor { bootspec: path.map(|p| p.to_string()) },
    }
}

fn generation(index: usize, profile: Option<&str>, bootspec: BootSpec) -> Generation {
    Generation { index, profile: profile.map(|p| p.to_string()), bootspec }
}

fn check_copied(t: &BootableToplevel, b: &BootSpec) {
    assert_eq!(t.system_version, b.system_version);
    assert_eq!(t.kernel, b.kernel);
    assert_eq!(t.kernel_version, b.kernel_version);
    assert_eq!(t.kernel_params, b.kernel_params);
    assert_eq!(t.init, b.init);
    assert_eq!(t.initrd, b.initrd);
    assert_eq!(t.toplevel, b.toplevel);
}

#[test]
fn plain_generations_give_one_record_each() {
    let gens = vec![
        generation(3, None, spec_named("g3", vec![])),
        generation(7, Some("work"), spec_named("g7", vec![])),
    ];
    let store = DescriptorStore::new();
    let out = flatten(&gens, &store).unwrap();
    assert_eq!(out.len(), 2);
    for (t, g) in out.iter().zip(gens.iter()) {
        check_copied(t, &g.bootspec);
        assert_eq!(t.specialisation_name, None);
        assert_eq!(t.generation_index, g.index);
        assert_eq!(t.profile_name, g.profile);
    }
}

#[test]
fn empty_input_gives_no_records() {
    let store = DescriptorStore::new();
    assert_eq!(flatten(&vec![], &store), Ok(vec![]));
}

#[test]
fn two_specialisations_give_three_records() {
    let a = spec_named("a", vec![]);
    let b = spec_named("b", vec![]);
    let top = spec_named(
        "top",
        vec![special("A", Some("/boot/a.json")), special("B", Some("/boot/b.json"))],
    );
    let mut store = DescriptorStore::new();
    store.record("/boot/a.json".to_string(), DescriptorLoad::Loaded(a.clone()));
    store.record("/boot/b.json".to_string(), DescriptorLoad::Loaded(b.clone()));
    let gens = vec![generation(42, Some("gaming"), top.clone())];
    let out = flatten(&gens, &store).unwrap();
    assert_eq!(out.len(), 3);
    check_copied(&out[0], &top);
    check_copied(&out[1], &a);
    check_copied(&out[2], &b);
    assert_eq!(out[0].specialisation_name, None);
    assert_eq!(out[1].specialisation_name, Some("A".to_string()));
    assert_eq!(out[2].specialisation_name, Some("B".to_string()));
    for t in &out {
        assert_eq!(t.generation_index, 42);
        assert_eq!(t.profile_name, Some("gaming".to_string()));
    }
}

#[test]
fn nested_specialisation_keeps_its_own_name() {
    let c = spec_named("c", vec![]);
    let a = spec_named("a", vec![special("C", Some("/boot/c.json"))]);
    let top = spec_named("top", vec![special("A", Some("/boot/a.json"))]);
    let mut store = DescriptorStore::new();
    store.record("/boot/a.json".to_string(), DescriptorLoad::Loaded(a.clone()));
    store.record("/boot/c.json".to_string(), DescriptorLoad::Loaded(c.clone()));
    let gens = vec![generation(1, None, top)];
    let out = flatten(&gens, &store).unwrap();
    assert_eq!(out.len(), 3);
    assert_eq!(out[1].specialisation_name, Some("A".to_string()));
    assert_eq!(out[2].specialisation_name, Some("C".to_string()));
    check_copied(&out[2], &c);
}

#[test]
fn specialisations_follow_their_generation_in_input_order() {
    let a = spec_named("a", vec![]);
    let mut store = DescriptorStore::new();
    store.record("/boot/a.json".to_string(), DescriptorLoad::Loaded(a));
    let gens = vec![
        generation(1, None, spec_named("one", vec![special("A", Some("/boot/a.json"))])),
        generation(2, None, spec_named("two", vec![])),
    ];
    let out = flatten(&gens, &store).unwrap();
    let order: Vec<(usize, Option<String>)> =
        out.iter().map(|t| (t.generation_index, t.specialisation_name.clone())).collect();
    assert_eq!(order, vec![(1, None), (1, Some("A".to_string())), (2, None)]);
}

#[test]
fn missing_descriptor_path_fails_without_output() {
    let a = spec_named("a", vec![]);
    let top = spec_named("top", vec![special("A", Some("/boot/a.json")), special("B", None)]);
    let mut store = DescriptorStore::new();
    store.record("/boot/a.json".to_string(), DescriptorLoad::Loaded(a));
    let gens = vec![generation(1, None, top), generation(2, None, spec_named("two", vec![]))];
    assert_eq!(
        flatten(&gens, &store),
        Err(FlattenError::MissingSpecialisationDescriptor { name: "B".to_string() })
    );
}

#[test]
fn unreadable_descriptor_fails() {
    let top = spec_named("top", vec![special("A", Some("/does/not/exist.json"))]);
    let mut store = DescriptorStore::new();
    store.record(
        "/does/not/exist.json".to_string(),
        DescriptorLoad::ReadFailed("No such file or directory".to_string()),
    );
    let gens = vec![generation(1, None, top)];
    assert_eq!(
        flatten(&gens, &store),
        Err(FlattenError::DescriptorReadFailure {
            path: "/does/not/exist.json".to_string(),
            reason: "No such file or directory".to_string(),
        })
    );
}

#[test]
fn unparsable_descriptor_fails() {
    let top = spec_named("top", vec![special("A", Some("/boot/bad.json"))]);
    let mut store = DescriptorStore::new();
    store.record(
        "/boot/bad.json".to_string(),
        DescriptorLoad::ParseFailed("expected value at line 1 column 1".to_string()),
    );
    let gens = vec![generation(1, None, top)];
    assert_eq!(
        flatten(&gens, &store),
        Err(FlattenError::DescriptorParseFailure {
            path: "/boot/bad.json".to_string(),
            reason: "expected value at line 1 column 1".to_string(),
        })
    );
}

#[test]
fn descriptor_not_yet_loaded_is_asked_for() {
    let top = spec_named("top", vec![special("A", Some("/boot/a.json"))]);
    let gens = vec![generation(1, None, top)];
    let store = DescriptorStore::new();
    assert_eq!(
        flatten(&gens, &store),
        Err(FlattenError::DescriptorNotLoaded {
            name: "A".to_string(),
            toplevel: "/nix/store/top".to_string(),
            path: "/boot/a.json".to_string(),
        })
    );
}

#[test]
fn self_referencing_descriptor_is_a_cycle() {
    let looping = spec_named("loop", vec![special("L", Some("/boot/loop.json"))]);
    let mut store = DescriptorStore::new();
    store.record("/boot/loop.json".to_string(), DescriptorLoad::Loaded(looping.clone()));
    let gens = vec![generation(1, None, looping)];
    assert_eq!(
        flatten(&gens, &store),
        Err(FlattenError::SpecialisationCycle {
            name: "L".to_string(),
            path: "/boot/loop.json".to_string(),
        })
    );
}

#[test]
fn flatten_twice_gives_the_same_records() {
    let a = spec_named("a", vec![]);
    let top = spec_named("top", vec![special("A", Some("/boot/a.json"))]);
    let mut store = DescriptorStore::new();
    store.record("/boot/a.json".to_string(), DescriptorLoad::Loaded(a));
    let gens = vec![generation(5, Some("p"), top)];
    let first = flatten(&gens, &store);
    let second = flatten(&gens, &store);
    assert!(first.is_ok());
    assert_eq!(first, second);
}

#[test]
fn later_record_replaces_earlier_one() {
    let mut store = DescriptorStore::new();
    store.record("/x".to_string(), DescriptorLoad::ReadFailed("gone".to_string()));
    store.record("/y".to_string(), DescriptorLoad::ParseFailed("bad".to_string()));
    store.record("/x".to_string(), DescriptorLoad::ParseFailed("broken".to_string()));
    let i = store.position(&"/x".to_string()).unwrap();
    assert_eq!(store.entries[i].load, DescriptorLoad::ParseFailed("broken".to_string()));
    let j = store.position(&"/y".to_string()).unwrap();
    assert_eq!(store.entries[j].load, DescriptorLoad::ParseFailed("bad".to_string()));
    assert_eq!(store.position(&"/z".to_string()), None);
}

#[test]
fn bootable_wraps_both_kinds() {
    let gens = vec![generation(0, None, spec_named("g", vec![]))];
    let t = flatten(&gens, &DescriptorStore::new()).unwrap().remove(0);
    let kinds = vec![
        Bootable::Linux(t.clone()),
        Bootable::Efi(EfiProgram { source: "/boot/EFI/memtest.efi".to_string() }),
    ];
    assert!(matches!(&kinds[0], Bootable::Linux(x) if *x == t));
    assert!(matches!(&kinds[1], Bootable::Efi(e) if e.source == "/boot/EFI/memtest.efi"));
    assert_eq!(Bootable::from(t.clone()), kinds[0]);
    let efi = EfiProgram { source: "/boot/EFI/memtest.efi".to_string() };
    assert_eq!(Bootable::from(efi), kinds[1]);
}
