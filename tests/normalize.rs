use spot_directory::freq::parse_decimal_scaled;
use spot_directory::normalize::NormalizeError;
use spot_directory::pota::{self, PotaSpot};
use spot_directory::rbn::{self, RbnSpot};
use spot_directory::sota::{self, SotaSpot};
use spot_directory::spot::SpotSource;
use spot_directory::store::SpotStore;
use spot_directory::text::{int_to_text, split_first};

const NOON: i64 = 1_704_110_400_000_000; // 2024-01-01T12:00:00Z

fn pota_record(id: i64, frequency: &str, expire: Option<i64>) -> PotaSpot {
    PotaSpot {
        spot_id: id,
        activator: "K1ABC".to_string(),
        frequency: frequency.to_string(),
        mode: "SSB".to_string(),
        reference: "K-1234".to_string(),
        park_name: None,
        spot_time: "2024-01-01T12:00:00".to_string(),
        spotter: None,
        comments: None,
        location_desc: None,
        expire,
    }
}

#[test]
fn decimal_kilohertz_to_hertz() {
    assert_eq!(parse_decimal_scaled("14250.0", 3), Some(14_250_000));
    assert_eq!(parse_decimal_scaled("7", 3), Some(7_000));
    assert_eq!(parse_decimal_scaled(".5", 3), Some(500));
    assert_eq!(parse_decimal_scaled("5.", 3), Some(5_000));
    assert_eq!(parse_decimal_scaled("1.23456", 3), Some(1_234));
}

#[test]
fn decimal_megahertz_to_hertz() {
    assert_eq!(parse_decimal_scaled("14.285", 6), Some(14_285_000));
}

#[test]
fn decimal_rejects_non_numeric() {
    assert_eq!(parse_decimal_scaled("abc", 3), None);
    assert_eq!(parse_decimal_scaled("", 3), None);
    assert_eq!(parse_decimal_scaled(".", 3), None);
    assert_eq!(parse_decimal_scaled("1.2.3", 3), None);
    assert_eq!(parse_decimal_scaled("-14.0", 3), None);
    assert_eq!(parse_decimal_scaled("14 250", 3), None);
}

#[test]
fn decimal_rejects_overflow() {
    assert_eq!(parse_decimal_scaled("18446744073709551615", 0), Some(u64::MAX));
    assert_eq!(parse_decimal_scaled("18446744073709551616", 0), None);
    assert_eq!(parse_decimal_scaled("18446744073709551615", 3), None);
}

#[test]
fn numerals_of_integers() {
    assert_eq!(int_to_text(0), "0");
    assert_eq!(int_to_text(1), "1");
    assert_eq!(int_to_text(-42), "-42");
    assert_eq!(int_to_text(1234567890), "1234567890");
    assert_eq!(int_to_text(i64::MIN), "-9223372036854775808");
}

#[test]
fn location_split_on_first_dash() {
    assert_eq!(split_first("US-WY", '-'), ("US".to_string(), Some("WY".to_string())));
    assert_eq!(split_first("US", '-'), ("US".to_string(), None));
    assert_eq!(split_first("CA-ON-X", '-'), ("CA".to_string(), Some("ON-X".to_string())));
    assert_eq!(split_first("", '-'), ("".to_string(), None));
}

#[test]
fn pota_literal_payload() {
    let rec = pota_record(1, "14250.0", Some(600));
    let spot = pota::map_spot(&rec).unwrap();
    assert_eq!(spot.frequency_hz, 14_250_000);
    assert_eq!(spot.spotted_at, NOON);
    assert_eq!(spot.expires_at, NOON + 600 * 1_000_000);
    assert_eq!(spot.callsign, "K1ABC");
    assert_eq!(spot.external_id, "1");
    assert_eq!(spot.source, SpotSource::Pota);
    assert_eq!(spot.program_slug, Some("pota".to_string()));
    assert_eq!(spot.reference, Some("K-1234".to_string()));
    assert_eq!(spot.mode, "SSB");
    assert_eq!(spot.snr, None);
}

#[test]
fn pota_default_window() {
    let none = pota::map_spot(&pota_record(2, "7074", None)).unwrap();
    assert_eq!(none.expires_at, NOON + 30 * 60 * 1_000_000);
    let zero = pota::map_spot(&pota_record(3, "7074", Some(0))).unwrap();
    assert_eq!(zero.expires_at, NOON + 30 * 60 * 1_000_000);
    let negative = pota::map_spot(&pota_record(4, "7074", Some(-5))).unwrap();
    assert_eq!(negative.expires_at, NOON + 30 * 60 * 1_000_000);
}

#[test]
fn pota_location_codes() {
    let mut rec = pota_record(5, "7074", None);
    rec.location_desc = Some("US-WY".to_string());
    let spot = pota::map_spot(&rec).unwrap();
    assert_eq!(spot.country_code, Some("US".to_string()));
    assert_eq!(spot.state_abbr, Some("WY".to_string()));
    assert_eq!(spot.location_desc, Some("US-WY".to_string()));
    let plain = pota::map_spot(&pota_record(6, "7074", None)).unwrap();
    assert_eq!(plain.country_code, None);
    assert_eq!(plain.state_abbr, None);
}

#[test]
fn pota_bad_fields() {
    assert_eq!(pota::map_spot(&pota_record(7, "fourteen", None)).unwrap_err(), NormalizeError::BadFrequency);
    let mut rec = pota_record(8, "7074", None);
    rec.spot_time = "2024-01-01 12:00".to_string();
    assert_eq!(pota::map_spot(&rec).unwrap_err(), NormalizeError::BadTimestamp);
    let huge = pota_record(9, "7074", Some(i64::MAX));
    assert_eq!(pota::map_spot(&huge).unwrap_err(), NormalizeError::TimeOutOfRange);
}

fn sota_record(frequency: &str) -> SotaSpot {
    SotaSpot {
        id: 77,
        callsign: "N0SPT".to_string(),
        activator_callsign: "W7ACT".to_string(),
        frequency: frequency.to_string(),
        mode: "CW".to_string(),
        association_code: "W7A".to_string(),
        summit_code: "LC-001".to_string(),
        summit_details: Some("Humphreys Peak".to_string()),
        time_stamp: "2024-01-01T12:00:00".to_string(),
        comments: Some("qrv".to_string()),
    }
}

#[test]
fn sota_megahertz_frequency() {
    let spot = sota::map_spot(&sota_record("14.285")).unwrap();
    assert_eq!(spot.frequency_hz, 14_285_000);
}

#[test]
fn sota_activator_and_spotter() {
    let spot = sota::map_spot(&sota_record("7.032")).unwrap();
    assert_eq!(spot.callsign, "W7ACT");
    assert_eq!(spot.spotter, Some("N0SPT".to_string()));
    assert_eq!(spot.reference, Some("W7A/LC-001".to_string()));
    assert_eq!(spot.reference_name, Some("Humphreys Peak".to_string()));
    assert_eq!(spot.program_slug, Some("sota".to_string()));
    assert_eq!(spot.external_id, "77");
    assert_eq!(spot.spotted_at, NOON);
    assert_eq!(spot.expires_at, NOON + 30 * 60 * 1_000_000);
    assert_eq!(spot.source, SpotSource::Sota);
}

#[test]
fn sota_bad_frequency() {
    assert_eq!(sota::map_spot(&sota_record("n/a")).unwrap_err(), NormalizeError::BadFrequency);
}

fn rbn_record(timestamp: &str) -> RbnSpot {
    RbnSpot {
        id: 9001,
        callsign: "DL1XYZ".to_string(),
        frequency: "14025.1".to_string(),
        mode: "CW".to_string(),
        timestamp: timestamp.to_string(),
        snr: Some(17),
        spotter: Some("W3LPL".to_string()),
        speed: Some(22),
    }
}

#[test]
fn rbn_offset_timestamp_and_window() {
    let spot = rbn::map_spot(&rbn_record("2024-01-01T13:00:00+01:00")).unwrap();
    assert_eq!(spot.spotted_at, NOON);
    assert_eq!(spot.expires_at, NOON + 10 * 60 * 1_000_000);
    assert_eq!(spot.frequency_hz, 14_025_100);
    assert_eq!(spot.snr, Some(17));
    assert_eq!(spot.wpm, Some(22));
    assert_eq!(spot.program_slug, None);
    assert_eq!(spot.external_id, "9001");
    assert_eq!(spot.source, SpotSource::Rbn);
}

#[test]
fn rbn_bad_timestamp() {
    assert_eq!(rbn::map_spot(&rbn_record("yesterday")).unwrap_err(), NormalizeError::BadTimestamp);
}

#[test]
fn batch_skips_bad_record() {
    let mut store = SpotStore::new();
    let batch = vec![
        pota_record(10, "14250.0", None),
        pota_record(11, "not-a-number", None),
        pota_record(12, "7074", None),
        pota_record(13, "3573.5", Some(120)),
    ];
    let report = pota::ingest(&mut store, &batch, NOON);
    assert_eq!(report.fetched, 4);
    assert_eq!(report.upserted, 3);
    assert_eq!(report.parse_failed, 1);
    assert_eq!(report.store_failed, 0);
    assert_eq!(store.len(), 3);
}

#[test]
fn batch_all_bad_records() {
    let mut store = SpotStore::new();
    let batch = vec![pota_record(20, "x", None), pota_record(21, "y", None)];
    let report = pota::ingest(&mut store, &batch, NOON);
    assert_eq!(report.upserted, 0);
    assert_eq!(report.parse_failed, 2);
    assert_eq!(store.len(), 0);
}

#[test]
fn sota_and_rbn_batches() {
    let mut store = SpotStore::new();
    let r1 = sota::ingest(&mut store, &vec![sota_record("14.285"), sota_record("bad")], NOON);
    assert_eq!((r1.upserted, r1.parse_failed), (1, 1));
    let r2 = rbn::ingest(&mut store, &vec![rbn_record("2024-01-01T12:00:00Z")], NOON);
    assert_eq!((r2.upserted, r2.parse_failed), (1, 0));
    assert_eq!(store.len(), 2);
}
