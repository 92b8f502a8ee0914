use spot_directory::error::AppError;
use spot_directory::gate::{create_self_spot, CreateSelfSpotRequest};
use spot_directory::program::{get_program, ProgramResponse, ProgramRow};
use spot_directory::query::{list_spots, next_page, to_params, SpotsQuery};
use spot_directory::spot::{AggregatedSpot, SpotResponse, SpotSource};
use spot_directory::store::{InsertSelfSpotParams, ListSpotsParams, SpotStore};

const NOON: i64 = 1_704_110_400_000_000; // 2024-01-01T12:00:00Z
const MINUTE: i64 = 60_000_000;

fn upstream(source: SpotSource, ext: &str, callsign: &str, spotted_at: i64, expires_at: i64) -> AggregatedSpot {
    AggregatedSpot {
        callsign: callsign.to_string(),
        program_slug: Some("pota".to_string()),
        source,
        external_id: ext.to_string(),
        frequency_hz: 14_250_000,
        mode: "SSB".to_string(),
        reference: Some("K-1234".to_string()),
        reference_name: None,
        spotter: None,
        spotter_grid: None,
        location_desc: None,
        country_code: Some("US".to_string()),
        state_abbr: Some("WY".to_string()),
        comments: None,
        snr: None,
        wpm: None,
        spotted_at,
        expires_at,
    }
}

fn self_params(owner: u128, program: &str) -> InsertSelfSpotParams {
    InsertSelfSpotParams {
        participant_id: owner,
        callsign: "K1ABC".to_string(),
        program_slug: program.to_string(),
        frequency_hz: 7_074_000,
        mode: "FT8".to_string(),
        reference: None,
        comments: Some("cq".to_string()),
    }
}

fn params(limit: i64, cursor: Option<i64>) -> ListSpotsParams {
    ListSpotsParams {
        program: None,
        callsign: None,
        source: None,
        mode: None,
        state: None,
        max_age_minutes: 1440,
        limit,
        cursor,
    }
}

#[test]
fn reingest_updates_in_place() {
    let mut store = SpotStore::new();
    let first = store.upsert_aggregated_spot(&upstream(SpotSource::Pota, "1", "K1ABC", NOON, NOON + 30 * MINUTE), NOON).unwrap();
    let mut again = upstream(SpotSource::Pota, "1", "K1ABC", NOON + 5 * MINUTE, NOON + 40 * MINUTE);
    again.frequency_hz = 7_200_000;
    again.mode = "CW".to_string();
    again.comments = Some("qsy".to_string());
    let second = store.upsert_aggregated_spot(&again, NOON + 5 * MINUTE).unwrap();
    assert_eq!(store.len(), 1);
    assert_eq!(second.id, first.id);
    assert_eq!(second.frequency_hz, 7_200_000);
    assert_eq!(second.mode, "CW");
    assert_eq!(second.comments, Some("qsy".to_string()));
    assert_eq!(second.spotted_at, NOON);
    assert_eq!(second.expires_at, NOON + 30 * MINUTE);
    assert_eq!(second.created_at, NOON);
    assert_eq!(second.updated_at, NOON + 5 * MINUTE);
    let stored = store.get_spot(first.id).unwrap();
    assert_eq!(stored.mode, "CW");
}

#[test]
fn same_id_other_source_is_new_row() {
    let mut store = SpotStore::new();
    store.upsert_aggregated_spot(&upstream(SpotSource::Pota, "1", "A", NOON, NOON + MINUTE), NOON).unwrap();
    store.upsert_aggregated_spot(&upstream(SpotSource::Sota, "1", "B", NOON, NOON + MINUTE), NOON).unwrap();
    store.upsert_aggregated_spot(&upstream(SpotSource::Pota, "2", "C", NOON, NOON + MINUTE), NOON).unwrap();
    assert_eq!(store.len(), 3);
}

#[test]
fn rows_stay_newest_first() {
    let mut store = SpotStore::new();
    store.upsert_aggregated_spot(&upstream(SpotSource::Pota, "1", "A", NOON, NOON + 60 * MINUTE), NOON).unwrap();
    store.upsert_aggregated_spot(&upstream(SpotSource::Pota, "2", "B", NOON + 2 * MINUTE, NOON + 60 * MINUTE), NOON).unwrap();
    store.upsert_aggregated_spot(&upstream(SpotSource::Pota, "3", "C", NOON + MINUTE, NOON + 60 * MINUTE), NOON).unwrap();
    let order: Vec<String> = (0..store.len()).map(|i| store.row(i).callsign.clone()).collect();
    assert_eq!(order, vec!["B", "C", "A"]);
}

#[test]
fn second_self_spot_refused_until_expiry() {
    let mut store = SpotStore::new();
    let first = store.insert_self_spot(&self_params(7, "pota"), NOON).unwrap();
    assert_eq!(first.source, SpotSource::SelfSpot);
    assert_eq!(first.submitted_by, Some(7));
    assert_eq!(first.spotted_at, NOON);
    assert_eq!(first.expires_at, NOON + 30 * MINUTE);
    assert_eq!(first.external_id, None);
    let again = store.insert_self_spot(&self_params(7, "pota"), NOON + 10 * MINUTE);
    assert!(matches!(again, Err(AppError::SelfSpotExists)));
    let other_program = store.insert_self_spot(&self_params(7, "sota"), NOON + 10 * MINUTE);
    assert!(other_program.is_ok());
    let other_owner = store.insert_self_spot(&self_params(8, "pota"), NOON + 10 * MINUTE);
    assert!(other_owner.is_ok());
    let after = store.insert_self_spot(&self_params(7, "pota"), NOON + 30 * MINUTE);
    assert!(after.is_ok());
    assert_eq!(store.len(), 4);
}

#[test]
fn self_spot_after_delete() {
    let mut store = SpotStore::new();
    let first = store.insert_self_spot(&self_params(7, "pota"), NOON).unwrap();
    assert!(!store.delete_own_spot(first.id, 8));
    assert!(store.delete_own_spot(first.id, 7));
    assert!(!store.delete_own_spot(first.id, 7));
    let next = store.insert_self_spot(&self_params(7, "pota"), NOON + MINUTE);
    assert!(next.is_ok());
}

#[test]
fn self_spots_never_merge() {
    let mut store = SpotStore::new();
    store.insert_self_spot(&self_params(1, "pota"), NOON).unwrap();
    store.insert_self_spot(&self_params(2, "pota"), NOON).unwrap();
    store.upsert_aggregated_spot(&upstream(SpotSource::Pota, "1", "K1ABC", NOON, NOON + MINUTE), NOON).unwrap();
    assert_eq!(store.len(), 3);
}

#[test]
fn admin_delete_any_row() {
    let mut store = SpotStore::new();
    let row = store.upsert_aggregated_spot(&upstream(SpotSource::Rbn, "5", "A", NOON, NOON + MINUTE), NOON).unwrap();
    assert!(store.get_spot(row.id).is_some());
    assert!(store.admin_delete_spot(row.id));
    assert!(store.get_spot(row.id).is_none());
    assert!(!store.admin_delete_spot(row.id));
    assert!(!store.delete_own_spot(999, 1));
}

#[test]
fn sweep_removes_only_past_deadlines() {
    let mut store = SpotStore::new();
    store.upsert_aggregated_spot(&upstream(SpotSource::Pota, "1", "PAST", NOON - 40 * MINUTE, NOON - 10 * MINUTE), NOON).unwrap();
    store.upsert_aggregated_spot(&upstream(SpotSource::Rbn, "2", "FUTURE", NOON, NOON + 10 * MINUTE), NOON).unwrap();
    store.upsert_aggregated_spot(&upstream(SpotSource::Sota, "3", "EDGE", NOON - MINUTE, NOON), NOON).unwrap();
    store.insert_self_spot(&self_params(1, "pota"), NOON - 31 * MINUTE).unwrap();
    let removed = store.delete_expired_spots(NOON);
    assert_eq!(removed, 2);
    assert_eq!(store.len(), 2);
    assert_eq!(store.delete_expired_spots(NOON), 0);
    let left: Vec<String> = (0..store.len()).map(|i| store.row(i).callsign.clone()).collect();
    assert_eq!(left, vec!["FUTURE", "EDGE"]);
}

#[test]
fn listing_excludes_inactive_rows() {
    let mut store = SpotStore::new();
    store.upsert_aggregated_spot(&upstream(SpotSource::Pota, "1", "LIVE", NOON - MINUTE, NOON + MINUTE), NOON).unwrap();
    store.upsert_aggregated_spot(&upstream(SpotSource::Pota, "2", "EDGE", NOON - MINUTE, NOON), NOON).unwrap();
    store.upsert_aggregated_spot(&upstream(SpotSource::Pota, "3", "GONE", NOON - 9 * MINUTE, NOON - MINUTE), NOON).unwrap();
    let rows = store.list_spots(&params(10, None), NOON);
    assert_eq!(rows.len(), 1);
    assert_eq!(rows[0].callsign, "LIVE");
}

#[test]
fn listing_filters_and_age() {
    let mut store = SpotStore::new();
    store.upsert_aggregated_spot(&upstream(SpotSource::Pota, "1", "A", NOON - 5 * MINUTE, NOON + MINUTE), NOON).unwrap();
    store.upsert_aggregated_spot(&upstream(SpotSource::Rbn, "2", "B", NOON - 5 * MINUTE, NOON + MINUTE), NOON).unwrap();
    store.upsert_aggregated_spot(&upstream(SpotSource::Pota, "3", "A", NOON - 50 * MINUTE, NOON + MINUTE), NOON).unwrap();
    let mut q = params(10, None);
    q.callsign = Some("A".to_string());
    assert_eq!(store.list_spots(&q, NOON).len(), 2);
    q.max_age_minutes = 30;
    assert_eq!(store.list_spots(&q, NOON).len(), 1);
    let mut by_source = params(10, None);
    by_source.source = Some(SpotSource::Rbn);
    let rows = store.list_spots(&by_source, NOON);
    assert_eq!(rows.len(), 1);
    assert_eq!(rows[0].callsign, "B");
    let mut by_state = params(10, None);
    by_state.state = Some("ON".to_string());
    assert_eq!(store.list_spots(&by_state, NOON).len(), 0);
    let mut by_program = params(10, None);
    by_program.program = Some("pota".to_string());
    by_program.mode = Some("SSB".to_string());
    assert_eq!(store.list_spots(&by_program, NOON).len(), 3);
}

#[test]
fn pages_follow_cursor() {
    let mut store = SpotStore::new();
    for k in 0..5i64 {
        let ext = format!("{}", k);
        store.upsert_aggregated_spot(&upstream(SpotSource::Pota, &ext, &ext, NOON - k * MINUTE, NOON + MINUTE), NOON).unwrap();
    }
    let mut seen: Vec<String> = Vec::new();
    let mut cursor = None;
    let mut pages = 0;
    loop {
        let page = next_page(&store, &params(2, cursor), NOON);
        assert!(page.rows.len() <= 2);
        seen.extend(page.rows.iter().map(|r| r.callsign.clone()));
        pages += 1;
        if !page.has_more {
            assert_eq!(page.next_cursor, None);
            break;
        }
        assert_eq!(page.next_cursor, Some(page.rows[page.rows.len() - 1].spotted_at));
        cursor = page.next_cursor;
    }
    assert_eq!(pages, 3);
    assert_eq!(seen, vec!["0", "1", "2", "3", "4"]);
}

#[test]
fn has_more_only_past_limit() {
    let mut store = SpotStore::new();
    for k in 0..3i64 {
        let ext = format!("{}", k);
        store.upsert_aggregated_spot(&upstream(SpotSource::Rbn, &ext, &ext, NOON - k * MINUTE, NOON + MINUTE), NOON).unwrap();
    }
    assert!(!next_page(&store, &params(3, None), NOON).has_more);
    assert!(next_page(&store, &params(2, None), NOON).has_more);
}

fn query(limit: Option<i64>, cursor: Option<&str>) -> SpotsQuery {
    SpotsQuery {
        program: None,
        callsign: None,
        source: None,
        mode: None,
        state: None,
        max_age_minutes: None,
        limit,
        cursor: cursor.map(|c| c.to_string()),
    }
}

#[test]
fn request_defaults_and_bounds() {
    assert_eq!(to_params(&query(None, None)).limit, 100);
    assert_eq!(to_params(&query(Some(0), None)).limit, 1);
    assert_eq!(to_params(&query(Some(1000), None)).limit, 250);
    assert_eq!(to_params(&query(Some(-3), None)).limit, 1);
    assert_eq!(to_params(&query(None, None)).max_age_minutes, 30);
    let mut q = query(None, None);
    q.max_age_minutes = Some(5000);
    assert_eq!(to_params(&q).max_age_minutes, 1440);
    q.max_age_minutes = Some(0);
    assert_eq!(to_params(&q).max_age_minutes, 1);
    assert_eq!(to_params(&query(None, Some("garbage"))).cursor, None);
    assert_eq!(to_params(&query(None, Some("2024-01-01T12:00:00Z"))).cursor, Some(NOON));
}

#[test]
fn listing_response_cursor_text() {
    let mut store = SpotStore::new();
    store.upsert_aggregated_spot(&upstream(SpotSource::Pota, "1", "A", NOON, NOON + 60 * MINUTE), NOON).unwrap();
    store.upsert_aggregated_spot(&upstream(SpotSource::Pota, "2", "B", NOON - MINUTE, NOON + 60 * MINUTE), NOON).unwrap();
    let first = list_spots(&store, &query(Some(1), None), NOON);
    assert_eq!(first.spots.len(), 1);
    assert_eq!(first.spots[0].callsign, "A");
    assert!(first.pagination.has_more);
    assert_eq!(first.pagination.next_cursor, Some("2024-01-01T12:00:00+00:00".to_string()));
    let second = list_spots(&store, &query(Some(1), first.pagination.next_cursor.as_deref()), NOON);
    assert_eq!(second.spots.len(), 1);
    assert_eq!(second.spots[0].callsign, "B");
    assert!(!second.pagination.has_more);
    assert_eq!(second.pagination.next_cursor, None);
}

#[test]
fn spot_response_fields() {
    let mut store = SpotStore::new();
    let row = store.upsert_aggregated_spot(&upstream(SpotSource::Pota, "1", "A", NOON, NOON + MINUTE), NOON).unwrap();
    let id = row.id;
    let resp = SpotResponse::from(row);
    assert_eq!(resp.id, id);
    assert_eq!(resp.callsign, "A");
    assert_eq!(resp.frequency_hz, 14_250_000);
    assert_eq!(resp.state_abbr, Some("WY".to_string()));
    assert_eq!(resp.expires_at, NOON + MINUTE);
    assert_eq!(resp.source.tag(), "pota");
    assert_eq!(SpotSource::SelfSpot.tag(), "self");
}

fn program(slug: &str, caps: &[&str], active: bool) -> ProgramRow {
    ProgramRow {
        slug: slug.to_string(),
        name: slug.to_uppercase(),
        short_name: slug.to_string(),
        icon: "tree".to_string(),
        icon_url: None,
        website: None,
        server_base_url: None,
        reference_label: "Park".to_string(),
        reference_format: None,
        reference_example: None,
        multi_ref_allowed: false,
        activation_threshold: Some(10),
        supports_rove: false,
        capabilities: caps.iter().map(|c| c.to_string()).collect(),
        adif_my_sig: None,
        adif_my_sig_info: None,
        adif_sig_field: None,
        adif_sig_info_field: None,
        data_entry_label: None,
        data_entry_placeholder: None,
        data_entry_format: None,
        sort_order: 0,
        is_active: active,
        created_at: NOON,
        updated_at: NOON,
    }
}

fn request(slug: &str) -> CreateSelfSpotRequest {
    CreateSelfSpotRequest {
        program_slug: slug.to_string(),
        frequency_hz: 14_062_000,
        mode: "CW".to_string(),
        reference: Some("K-0001".to_string()),
        comments: None,
    }
}

#[test]
fn gate_checks_program() {
    let catalog = vec![
        program("pota", &["selfSpot", "adif"], true),
        program("wwff", &["adif"], true),
        program("old", &["selfSpot"], false),
    ];
    let mut store = SpotStore::new();
    let call = "K1ABC".to_string();
    let missing = create_self_spot(&mut store, &catalog, 1, &call, &request("iota"), NOON);
    assert!(matches!(missing, Err(AppError::ProgramNotFound { ref slug }) if slug == "iota"));
    let inactive = create_self_spot(&mut store, &catalog, 1, &call, &request("old"), NOON);
    assert!(matches!(inactive, Err(AppError::ProgramNotFound { .. })));
    let unsupported = create_self_spot(&mut store, &catalog, 1, &call, &request("wwff"), NOON);
    match unsupported {
        Err(AppError::CapabilityNotSupported { capability, program_slug }) => {
            assert_eq!(capability, "selfSpot");
            assert_eq!(program_slug, "wwff");
        }
        other => panic!("unexpected {:?}", other),
    }
    assert_eq!(store.len(), 0);
    let ok = create_self_spot(&mut store, &catalog, 1, &call, &request("pota"), NOON).unwrap();
    assert_eq!(ok.callsign, "K1ABC");
    assert_eq!(ok.program_slug, Some("pota".to_string()));
    assert_eq!(ok.reference, Some("K-0001".to_string()));
    let dup = create_self_spot(&mut store, &catalog, 1, &call, &request("pota"), NOON + MINUTE);
    assert!(matches!(dup, Err(AppError::SelfSpotExists)));
    assert_eq!(dup.unwrap_err().code(), "SELF_SPOT_EXISTS");
}

#[test]
fn catalog_lookup_and_response() {
    let mut row = program("pota", &["selfSpot"], true);
    row.adif_sig_field = Some("SIG".to_string());
    row.data_entry_label = Some("Grid".to_string());
    row.data_entry_format = Some("AA00".to_string());
    let catalog = vec![program("sota", &[], true), row];
    assert_eq!(get_program(&catalog, &"pota".to_string()), Some(1));
    assert_eq!(get_program(&catalog, &"none".to_string()), None);
    assert!(catalog[1].has_capability(&"selfSpot".to_string()));
    assert!(!catalog[0].has_capability(&"selfSpot".to_string()));
    let mut catalog = catalog;
    let resp = ProgramResponse::from(catalog.remove(1));
    let adif = resp.adif_fields.unwrap();
    assert_eq!(adif.sig_field, Some("SIG".to_string()));
    assert_eq!(adif.my_sig, None);
    let entry = resp.data_entry.unwrap();
    assert_eq!(entry.label, "Grid");
    assert_eq!(entry.format, Some("AA00".to_string()));
    let plain = ProgramResponse::from(catalog.remove(0));
    assert!(plain.adif_fields.is_none());
    assert!(plain.data_entry.is_none());
}
