use nepix::mc::{
    first_listed, forge_promotion, loader_version, LoaderListing, Promotions, installs_mods, instance_name, loader_list, metadata_url,
    missing_loader_message, mods_status, neoforge_release, parse_loader, version_numbers_of,
    Loader,
};

fn strings(v: &[&str]) -> Vec<String> {
    v.iter().map(|s| s.to_string()).collect()
}

#[test]
fn loaders_in_display_order() {
    assert_eq!(loader_list(), &["Vanilla", "Fabric", "Quilt", "NeoForge", "Forge"]);
}

#[test]
fn loader_names_parse() {
    assert_eq!(parse_loader("Fabric"), Loader::Fabric);
    assert_eq!(parse_loader("Quilt"), Loader::Quilt);
    assert_eq!(parse_loader("NeoForge"), Loader::NeoForge);
    assert_eq!(parse_loader("Forge"), Loader::Forge);
    assert_eq!(parse_loader("Vanilla"), Loader::Vanilla);
    assert_eq!(parse_loader("desconocido"), Loader::Vanilla);
    assert_eq!(parse_loader("fabric"), Loader::Vanilla);
}

#[test]
fn metadata_addresses() {
    assert_eq!(
        metadata_url(Loader::Fabric, "1.21.4").as_deref(),
        Some("https://meta.fabricmc.net/v2/versions/loader/1.21.4")
    );
    assert_eq!(
        metadata_url(Loader::Quilt, "1.20.1").as_deref(),
        Some("https://meta.quiltmc.org/v3/versions/loader/1.20.1")
    );
    assert_eq!(
        metadata_url(Loader::Forge, "1.20.1").as_deref(),
        Some("https://files.minecraftforge.net/net/minecraftforge/forge/promotions_slim.json")
    );
    assert_eq!(
        metadata_url(Loader::NeoForge, "1.21.1").as_deref(),
        Some("https://maven.neoforged.net/api/maven/versions/releases/net/neoforged/neoforge")
    );
    assert_eq!(metadata_url(Loader::Vanilla, "1.21.1"), None);
}

#[test]
fn fabric_takes_first_listed() {
    assert_eq!(first_listed(&strings(&["0.16.10", "0.16.9"])).as_deref(), Some("0.16.10"));
    assert_eq!(first_listed(&Vec::new()), None);
}

#[test]
fn forge_prefers_recommended() {
    let promos = promotions(&[
        ("1.20.1-latest", "47.3.12"),
        ("1.20.1-recommended", "47.3.0"),
        ("1.21-latest", "51.0.33"),
    ]);
    assert_eq!(forge_promotion("1.20.1", &promos).as_deref(), Some("47.3.0"));
    assert_eq!(forge_promotion("1.21", &promos).as_deref(), Some("51.0.33"));
    assert_eq!(forge_promotion("1.8", &promos), None);
}

fn promotions(pairs: &[(&str, &str)]) -> Promotions {
    let mut p = Promotions::new();
    for (name, version) in pairs {
        p.insert(name.to_string(), version.to_string());
    }
    p
}

#[test]
fn promotion_replaced_under_same_name() {
    let mut promos = promotions(&[("1.20.1-latest", "47.3.10"), ("1.21-latest", "51.0.33")]);
    assert_eq!(promos.get("1.20.1-latest").as_deref(), Some("47.3.10"));
    promos.insert("1.20.1-latest".to_string(), "47.3.12".to_string());
    assert_eq!(promos.get("1.20.1-latest").as_deref(), Some("47.3.12"));
    assert_eq!(promos.get("1.21-latest").as_deref(), Some("51.0.33"));
    assert_eq!(promos.get("1.20.1-recommended"), None);
    assert_eq!(forge_promotion("1.20.1", &promos).as_deref(), Some("47.3.12"));
}

#[test]
fn version_components() {
    assert_eq!(version_numbers_of("1.21.4"), vec![1, 21, 4]);
    assert_eq!(version_numbers_of("21.4.0-beta"), vec![21, 4]);
    assert_eq!(version_numbers_of("25w14a"), Vec::<u32>::new());
    assert_eq!(version_numbers_of("1..2"), vec![1, 2]);
}

#[test]
fn neoforge_takes_newest_for_minor_and_patch() {
    let releases = strings(&["20.4.237", "21.1.1", "21.4.1-beta", "21.4.12", "21.5.3"]);
    assert_eq!(neoforge_release("1.21.4", &releases).as_deref(), Some("21.4.12"));
    assert_eq!(neoforge_release("1.20.4", &releases).as_deref(), Some("20.4.237"));
    assert_eq!(neoforge_release("1.21.5", &releases).as_deref(), Some("21.5.3"));
    assert_eq!(neoforge_release("1.19.2", &releases), None);
    let rs = strings(&["21.1.77", "21.4.10", "21.5.3"]);
    assert_eq!(neoforge_release("1.21.4", &rs).as_deref(), Some("21.4.10"));
}

#[test]
fn neoforge_patch_defaults_to_zero() {
    let releases = strings(&["21.0.1", "21.0.9", "21.1.2", "22.0.0"]);
    assert_eq!(neoforge_release("1.21", &releases).as_deref(), Some("21.0.9"));
    assert_eq!(neoforge_release("1.2", &strings(&["2.0", "2.5"])).as_deref(), Some("2.0"));
    assert_eq!(neoforge_release("snapshot", &strings(&["0.1"])), None);
    assert_eq!(neoforge_release("snapshot", &strings(&["0.0.4"])).as_deref(), Some("0.0.4"));
    assert_eq!(neoforge_release("1.21", &strings(&["21"])), None);
}

#[test]
fn instance_names_are_lower_case() {
    assert_eq!(instance_name("1.21.4", "Fabric"), "nepix-1.21.4-fabric");
    assert_eq!(instance_name("1.20.1", "NeoForge"), "nepix-1.20.1-neoforge");
}

#[test]
fn mods_only_with_a_loader() {
    let mods = strings(&["sodium"]);
    assert!(installs_mods(&mods, "Fabric"));
    assert!(!installs_mods(&mods, "Vanilla"));
    assert!(!installs_mods(&[], "Fabric"));
}

#[test]
fn launch_messages() {
    assert_eq!(mods_status(3), "Adding 3 mod(s)...");
    assert_eq!(
        missing_loader_message("Quilt", "1.8.9"),
        "No Quilt version found for Minecraft 1.8.9"
    );
}

#[test]
fn loader_version_from_listings() {
    assert_eq!(loader_version(Loader::Vanilla, "1.21.4", None).as_deref(), Some(""));
    assert_eq!(
        loader_version(Loader::Fabric, "1.21.4", Some(LoaderListing::Versions(strings(&["0.16.10", "0.16.9"])))).as_deref(),
        Some("0.16.10")
    );
    assert_eq!(loader_version(Loader::Quilt, "1.21.4", None), None);
    assert_eq!(loader_version(Loader::Quilt, "1.21.4", Some(LoaderListing::Versions(Vec::new()))), None);
    let promos = promotions(&[("1.20.1-latest", "47.3.12")]);
    assert_eq!(
        loader_version(Loader::Forge, "1.20.1", Some(LoaderListing::Promotions(promos))).as_deref(),
        Some("47.3.12")
    );
    assert_eq!(
        loader_version(Loader::NeoForge, "1.21.1", Some(LoaderListing::Releases(strings(&["21.1.5", "21.1.77", "21.3.2"])))).as_deref(),
        Some("21.1.77")
    );
    assert_eq!(
        loader_version(Loader::NeoForge, "1.21.1", Some(LoaderListing::Versions(strings(&["21.1.5"])))),
        None
    );
}

#[test]
fn selector_names_read_back() {
    let order = [Loader::Vanilla, Loader::Fabric, Loader::Quilt, Loader::NeoForge, Loader::Forge];
    for (name, loader) in loader_list().iter().zip(order) {
        assert_eq!(parse_loader(name), loader);
    }
}
