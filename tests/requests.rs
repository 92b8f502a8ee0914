use spot_directory::api::{admin_delete_spot, delete_own_spot};
use spot_directory::error::AppError;
use spot_directory::program::{update_program, CreateProgramRequest, ProgramRow, UpdateProgramRequest};
use spot_directory::store::{InsertSelfSpotParams, SpotStore};

const NOON: i64 = 1_704_110_400_000_000;

fn self_params(owner: u128) -> InsertSelfSpotParams {
    InsertSelfSpotParams {
        participant_id: owner,
        callsign: "K1ABC".to_string(),
        program_slug: "pota".to_string(),
        frequency_hz: 7_074_000,
        mode: "FT8".to_string(),
        reference: None,
        comments: None,
    }
}

#[test]
fn delete_requests_report_missing_rows() {
    let mut store = SpotStore::new();
    let row = store.insert_self_spot(&self_params(3), NOON).unwrap();
    match delete_own_spot(&mut store, row.id, 4) {
        Err(AppError::SpotNotFound { spot_id }) => assert_eq!(spot_id, row.id),
        other => panic!("unexpected {:?}", other),
    }
    assert!(delete_own_spot(&mut store, row.id, 3).is_ok());
    assert_eq!(store.len(), 0);
    let again = store.insert_self_spot(&self_params(3), NOON).unwrap();
    assert!(admin_delete_spot(&mut store, again.id).is_ok());
    let missing = admin_delete_spot(&mut store, again.id).unwrap_err();
    assert_eq!(missing.code(), "SPOT_NOT_FOUND");
}

fn row() -> ProgramRow {
    ProgramRow {
        slug: "pota".to_string(),
        name: "Parks on the Air".to_string(),
        short_name: "POTA".to_string(),
        icon: "tree".to_string(),
        icon_url: Some("https://example.org/pota.png".to_string()),
        website: Some("https://pota.app".to_string()),
        server_base_url: None,
        reference_label: "Park".to_string(),
        reference_format: None,
        reference_example: Some("K-0001".to_string()),
        multi_ref_allowed: true,
        activation_threshold: Some(10),
        supports_rove: true,
        capabilities: vec!["selfSpot".to_string()],
        adif_my_sig: Some("POTA".to_string()),
        adif_my_sig_info: None,
        adif_sig_field: None,
        adif_sig_info_field: None,
        data_entry_label: None,
        data_entry_placeholder: None,
        data_entry_format: None,
        sort_order: 1,
        is_active: true,
        created_at: NOON,
        updated_at: NOON,
    }
}

fn no_changes() -> UpdateProgramRequest {
    UpdateProgramRequest {
        name: None,
        short_name: None,
        icon: None,
        icon_url: None,
        website: None,
        server_base_url: None,
        reference_label: None,
        reference_format: None,
        reference_example: None,
        multi_ref_allowed: None,
        activation_threshold: None,
        supports_rove: None,
        capabilities: None,
        adif_my_sig: None,
        adif_my_sig_info: None,
        adif_sig_field: None,
        adif_sig_info_field: None,
        data_entry_label: None,
        data_entry_placeholder: None,
        data_entry_format: None,
        sort_order: None,
        is_active: None,
    }
}

#[test]
fn update_three_state_fields() {
    let mut p = row();
    let mut req = no_changes();
    req.name = Some("POTA".to_string());
    req.icon_url = Some(None);
    req.server_base_url = Some(Some("https://api.pota.app".to_string()));
    req.activation_threshold = Some(None);
    req.capabilities = Some(vec!["adif".to_string(), "selfSpot".to_string()]);
    req.is_active = Some(false);
    update_program(&mut p, &req, NOON + 1);
    assert_eq!(p.name, "POTA");
    assert_eq!(p.icon_url, None);
    assert_eq!(p.website, Some("https://pota.app".to_string()));
    assert_eq!(p.server_base_url, Some("https://api.pota.app".to_string()));
    assert_eq!(p.activation_threshold, None);
    assert_eq!(p.capabilities, vec!["adif".to_string(), "selfSpot".to_string()]);
    assert!(!p.is_active);
    assert!(p.multi_ref_allowed);
    assert_eq!(p.reference_example, Some("K-0001".to_string()));
    assert_eq!(p.sort_order, 1);
    assert_eq!(p.created_at, NOON);
    assert_eq!(p.updated_at, NOON + 1);
}

#[test]
fn update_nothing_touches_only_time() {
    let mut p = row();
    update_program(&mut p, &no_changes(), NOON + 5);
    let q = row();
    assert_eq!(p.name, q.name);
    assert_eq!(p.icon_url, q.icon_url);
    assert_eq!(p.adif_my_sig, q.adif_my_sig);
    assert_eq!(p.capabilities, q.capabilities);
    assert_eq!(p.updated_at, NOON + 5);
}

#[test]
fn create_request_makes_active_entry() {
    let req = CreateProgramRequest {
        slug: "wwff".to_string(),
        name: "World Wide Flora and Fauna".to_string(),
        short_name: "WWFF".to_string(),
        icon: "leaf".to_string(),
        icon_url: None,
        website: Some("https://wwff.co".to_string()),
        server_base_url: None,
        reference_label: "Reference".to_string(),
        reference_format: None,
        reference_example: Some("KFF-0001".to_string()),
        multi_ref_allowed: false,
        activation_threshold: Some(44),
        supports_rove: false,
        capabilities: vec!["selfSpot".to_string()],
        adif_my_sig: Some("WWFF".to_string()),
        adif_my_sig_info: None,
        adif_sig_field: None,
        adif_sig_info_field: None,
        data_entry_label: None,
        data_entry_placeholder: None,
        data_entry_format: None,
        sort_order: 3,
    };
    let row = ProgramRow::from_request(&req, NOON);
    assert_eq!(row.slug, "wwff");
    assert_eq!(row.website, Some("https://wwff.co".to_string()));
    assert_eq!(row.activation_threshold, Some(44));
    assert_eq!(row.capabilities, vec!["selfSpot".to_string()]);
    assert_eq!(row.sort_order, 3);
    assert!(row.is_active);
    assert_eq!(row.created_at, NOON);
    assert_eq!(row.updated_at, NOON);
}
