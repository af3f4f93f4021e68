use sv_manage::mods::{
    destination_name, keeps_staged_file, list_mods_paged, normalize_filename, plan_install, plan_uninstall,
    plan_update, query_mod, reserved_mod_id, sort_mods, InstallPlan, ModInfo, UpdatePlan,
};
use sv_manage::protocol::Response;

fn info(id: &str, file: &str) -> ModInfo {
    ModInfo {
        filename: file.to_string(),
        path: format!("/srv/survival/mods/{file}"),
        mod_id: id.to_string(),
        name: None,
        description: None,
        version: "1.0".to_string(),
        logo: None,
        url: None,
        credits: None,
        authors: None,
    }
}

fn ids(v: &[ModInfo]) -> Vec<String> {
    v.iter().map(|m| m.mod_id.clone()).collect()
}

#[test]
fn listing_is_sorted_by_id() {
    let sorted = sort_mods(vec![info("c", "c.jar"), info("a", "a.jar"), info("b", "b.jar"), info("ab", "x.jar")]);
    assert_eq!(ids(&sorted), vec!["a", "ab", "b", "c"]);
}

#[test]
fn paging_cuts_the_sorted_listing() {
    let all = || vec![info("e", "e.jar"), info("d", "d.jar"), info("c", "c.jar"), info("b", "b.jar"), info("a", "a.jar")];
    match list_mods_paged(2, 0, all()) {
        Response::Mods(v, last) => {
            assert_eq!(ids(&v), vec!["a", "b"]);
            assert!(!last);
        }
        _ => panic!("expected a page"),
    }
    match list_mods_paged(2, 2, all()) {
        Response::Mods(v, last) => {
            assert_eq!(ids(&v), vec!["e"]);
            assert!(last);
        }
        _ => panic!("expected a page"),
    }
    match list_mods_paged(2, 9, all()) {
        Response::Mods(v, last) => {
            assert!(v.is_empty());
            assert!(last);
        }
        _ => panic!("expected a page"),
    }
    match list_mods_paged(0, 7, all()) {
        Response::Mods(v, last) => {
            assert_eq!(v.len(), 5);
            assert!(last);
        }
        _ => panic!("expected everything"),
    }
    match list_mods_paged(u64::MAX, u64::MAX, all()) {
        Response::Mods(v, last) => {
            assert!(v.is_empty());
            assert!(last);
        }
        _ => panic!("expected a page"),
    }
}

#[test]
fn install_conflicts_on_same_id() {
    let installed = vec![info("X", "x.jar")];
    let occupied = vec!["x.jar".to_string()];
    assert_eq!(plan_install(&installed, "X", "other".to_string(), &occupied), InstallPlan::Conflict);
    assert_eq!(installed, vec![info("X", "x.jar")]);
}

#[test]
fn install_deduplicates_file_name() {
    let installed = vec![info("X", "x.jar")];
    let occupied = vec!["x.jar".to_string()];
    assert_eq!(plan_install(&installed, "Y", "x".to_string(), &occupied), InstallPlan::Move("x.jar-2.jar".to_string()));
    assert_eq!(plan_install(&installed, "Y", "y.jar".to_string(), &occupied), InstallPlan::Move("y.jar".to_string()));
}

#[test]
fn destination_skips_every_taken_name() {
    let occupied = vec!["m.jar".to_string(), "m.jar-2.jar".to_string()];
    assert_eq!(destination_name("m.jar", &occupied), "m.jar-2.jar-2.jar");
    assert_eq!(destination_name("n.jar", &occupied), "n.jar");
}

#[test]
fn filename_gets_extension() {
    assert_eq!(normalize_filename("mod".to_string()), "mod.jar");
    assert_eq!(normalize_filename("mod.jar".to_string()), "mod.jar");
    assert_eq!(normalize_filename("".to_string()), ".jar");
}

#[test]
fn update_needs_existing_id() {
    let installed = vec![info("X", "x.jar")];
    let occupied = vec!["x.jar".to_string()];
    assert_eq!(plan_update(&installed, "Z", "z".to_string(), &occupied), UpdatePlan::NoSuchMod);
    assert_eq!(
        plan_update(&installed, "X", "x2".to_string(), &occupied),
        UpdatePlan::Replace("/srv/survival/mods/x.jar".to_string(), "x2.jar".to_string())
    );
}

#[test]
fn uninstall_and_query() {
    let installed = vec![info("X", "x.jar"), info("Y", "y.jar")];
    assert_eq!(plan_uninstall(&installed, "Y"), Some("/srv/survival/mods/y.jar".to_string()));
    assert_eq!(plan_uninstall(&installed, "Q"), None);
    assert_eq!(query_mod(installed.clone(), "X"), Some(info("X", "x.jar")));
    assert_eq!(query_mod(installed, "Q"), None);
}

#[test]
fn staged_file_release_points() {
    assert!(keeps_staged_file(&Response::Success));
    assert!(keeps_staged_file(&Response::ModConflict));
    assert!(!keeps_staged_file(&Response::NoSuchMod));
    assert!(!keeps_staged_file(&Response::Failure));
    assert!(!keeps_staged_file(&Response::InvalidState));
}

#[test]
fn reserved_ids() {
    assert!(reserved_mod_id("minecraft"));
    assert!(reserved_mod_id("forge"));
    assert!(!reserved_mod_id("forge2"));
}

#[test]
fn display_name_falls_back_to_id() {
    let mut m = info("X", "x.jar");
    assert_eq!(m.name(), "X");
    m.name = Some("Nice".to_string());
    assert_eq!(m.name(), "Nice");
}
